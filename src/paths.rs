//! Where save files live and how they are named.
use vstd::prelude::*;

use crate::config::Orbit;

verus! {

/// The decimal digit character for `d` (`d < 10`).
pub open spec fn digit_char(d: nat) -> char {
    if d == 0 { '0' } else if d == 1 { '1' } else if d == 2 { '2' } else if d == 3 { '3' }
    else if d == 4 { '4' } else if d == 5 { '5' } else if d == 6 { '6' } else if d == 7 { '7' }
    else if d == 8 { '8' } else { '9' }
}

/// Decimal notation of `n`, most significant digit first, without leading zeros.
pub open spec fn decimal(n: nat) -> Seq<char>
    decreases n,
{
    if n < 10 {
        seq![digit_char(n)]
    } else {
        decimal(n / 10).push(digit_char(n % 10))
    }
}

/// The extension that marks a save file, without its dot.
pub open spec fn save_extension() -> Seq<char> {
    seq!['s', 'a', 'v']
}

/// The file name of the save with the given id: `"{id}.sav"`.
pub open spec fn save_file_name_spec(id: u32) -> Seq<char> {
    decimal(id as nat) + seq!['.'] + save_extension()
}

fn digit_str(d: u32) -> (r: &'static str)
    requires
        d < 10,
    ensures
        r@ == seq![digit_char(d as nat)],
{
    proof {
        reveal_strlit("0");
        reveal_strlit("1");
        reveal_strlit("2");
        reveal_strlit("3");
        reveal_strlit("4");
        reveal_strlit("5");
        reveal_strlit("6");
        reveal_strlit("7");
        reveal_strlit("8");
        reveal_strlit("9");
    }
    let r = match d {
        0 => "0",
        1 => "1",
        2 => "2",
        3 => "3",
        4 => "4",
        5 => "5",
        6 => "6",
        7 => "7",
        8 => "8",
        _ => "9",
    };
    assert(r@ =~= seq![digit_char(d as nat)]);
    r
}

fn push_decimal(s: &mut String, n: u32)
    ensures
        final(s)@ == old(s)@ + decimal(n as nat),
    decreases n,
{
    if n >= 10 {
        push_decimal(s, n / 10);
    }
    s.append(digit_str(n % 10));
    assert(final(s)@ =~= old(s)@ + decimal(n as nat));
}

/// The file name under which the save `id` is stored.
pub fn save_file_name(id: u32) -> (r: String)
    ensures
        r@ == save_file_name_spec(id),
{
    let mut s = String::new();
    push_decimal(&mut s, id);
    proof {
        reveal_strlit(".sav");
    }
    s.append(".sav");
    assert(s@ =~= save_file_name_spec(id));
    s
}


pub open spec fn is_digit(c: char) -> bool {
    48 <= (c as u32) <= 57
}

/// The number that a string of decimal digits denotes.
pub open spec fn digits_value(s: Seq<char>) -> nat
    decreases s.len(),
{
    if s.len() == 0 {
        0
    } else {
        digits_value(s.drop_last()) * 10 + ((s.last() as u32) - 48) as nat
    }
}

/// A string of one or more ASCII digits whose value fits in 32 bits, read as a number.
pub open spec fn digits_u32_spec(t: Seq<char>) -> Option<u32> {
    if t.len() > 0 && (forall|i: int| 0 <= i < t.len() ==> is_digit(#[trigger] t[i]))
        && digits_value(t) <= u32::MAX {
        Some(digits_value(t) as u32)
    } else {
        None
    }
}

/// What remains of `s` once one leading `+` sign, if there is one, is taken off.
pub open spec fn unsigned_part(s: Seq<char>) -> Seq<char> {
    if s.len() > 0 && s[0] == '+' {
        s.drop_first()
    } else {
        s
    }
}

/// Unsigned decimal notation as `str::parse::<u32>` reads it: an optional `+`,
/// then one or more ASCII digits, with a value that fits in 32 bits.
pub open spec fn parse_u32_spec(s: Seq<char>) -> Option<u32> {
    digits_u32_spec(unsigned_part(s))
}

/// The save id that a directory entry's file name stands for, if any: the
/// extension must be exactly `sav` and the stem must read as a `u32`.
pub open spec fn save_id_spec(name: Seq<char>) -> Option<u32> {
    if name.len() >= 4 && name.subrange(name.len() - 4, name.len() as int) == seq!['.'] + save_extension() {
        parse_u32_spec(name.subrange(0, name.len() - 4))
    } else {
        None
    }
}

proof fn lemma_digits_value_prefix(t: Seq<char>, k: int)
    requires
        0 <= k <= t.len(),
        forall|i: int| 0 <= i < t.len() ==> is_digit(#[trigger] t[i]),
    ensures
        digits_value(t.subrange(0, k)) <= digits_value(t),
    decreases t.len(),
{
    if k < t.len() {
        let u = t.drop_last();
        assert(u.subrange(0, k) =~= t.subrange(0, k));
        assert(is_digit(t[t.len() - 1]));
        lemma_digits_value_prefix(u, k);
    } else {
        assert(t.subrange(0, k) =~= t);
    }
}

/// Reads the characters `from..to` of `s` as `str::parse::<u32>` would.
fn parse_u32_range(s: &str, from: usize, to: usize) -> (r: Option<u32>)
    requires
        from <= to <= s@.len(),
    ensures
        r == parse_u32_spec(s@.subrange(from as int, to as int)),
{
    let ghost w = s@.subrange(from as int, to as int);
    let mut start = from;
    if from < to && s.get_char(from) == '+' {
        start = from + 1;
    }
    let ghost t = s@.subrange(start as int, to as int);
    assert(t =~= unsigned_part(w));
    if start >= to {
        return None;
    }
    let mut v: u64 = 0;
    let mut i: usize = start;
    while i < to
        invariant
            from <= start <= i <= to <= s@.len(),
            t == s@.subrange(start as int, to as int),
            w == s@.subrange(from as int, to as int),
            t == unsigned_part(w),
            v == digits_value(t.subrange(0, i - start)),
            v <= u32::MAX,
            forall|j: int| 0 <= j < i - start ==> is_digit(#[trigger] t[j]),
        decreases to - i,
    {
        let c = s.get_char(i);
        let cv = c as u32;
        if cv < 48 || cv > 57 {
            assert(!is_digit(t[i - start]));
            return None;
        }
        let ghost k = i - start;
        assert(t.subrange(0, k + 1).drop_last() =~= t.subrange(0, k));
        v = v * 10 + (cv - 48) as u64;
        i = i + 1;
        if v > 0xffff_ffff {
            proof {
                if forall|j: int| 0 <= j < t.len() ==> is_digit(#[trigger] t[j]) {
                    lemma_digits_value_prefix(t, k + 1);
                }
            }
            return None;
        }
    }
    assert(t.subrange(0, t.len() as int) =~= t);
    Some(v as u32)
}

/// The save id named by a file name, if it is the name of a save file.
pub fn parse_save_file_name(name: &str) -> (r: Option<u32>)
    ensures
        r == save_id_spec(name@),
{
    let n = name.unicode_len();
    if n < 4 {
        return None;
    }
    let ghost tail = name@.subrange(n - 4, n as int);
    if name.get_char(n - 4) != '.' || name.get_char(n - 3) != 's' || name.get_char(n - 2) != 'a'
        || name.get_char(n - 1) != 'v' {
        assert(tail[0] == name@[n - 4] && tail[1] == name@[n - 3] && tail[2] == name@[n - 2]
            && tail[3] == name@[n - 1]);
        assert(tail != seq!['.'] + save_extension());
        return None;
    }
    assert(tail =~= seq!['.'] + save_extension());
    parse_u32_range(name, 0, n - 4)
}


proof fn lemma_digit_char(d: nat)
    requires
        d < 10,
    ensures
        digit_char(d) as u32 == 48 + d,
{
    if d == 0 {} else if d == 1 {} else if d == 2 {} else if d == 3 {} else if d == 4 {}
    else if d == 5 {} else if d == 6 {} else if d == 7 {} else if d == 8 {} else {}
}

proof fn lemma_decimal(n: nat)
    ensures
        decimal(n).len() > 0,
        forall|i: int| 0 <= i < decimal(n).len() ==> is_digit(#[trigger] decimal(n)[i]),
        digits_value(decimal(n)) == n,
    decreases n,
{
    lemma_digit_char(n % 10);
    if n < 10 {
        assert(decimal(n).drop_last() =~= Seq::<char>::empty());
        assert(decimal(n).last() == digit_char(n));
        assert(digits_value(decimal(n).drop_last()) == 0);
    } else {
        lemma_decimal(n / 10);
        assert(decimal(n).drop_last() =~= decimal(n / 10));
        assert(decimal(n).last() == digit_char(n % 10));
        assert((n / 10) * 10 + n % 10 == n);
        assert(digits_value(decimal(n)) == digits_value(decimal(n / 10)) * 10 + n % 10);
    }
}

/// The file name given to a save is read back as the same id.
pub proof fn lemma_save_file_name_round_trip(id: u32)
    ensures
        save_id_spec(save_file_name_spec(id)) == Some(id),
{
    let d = decimal(id as nat);
    let name = save_file_name_spec(id);
    lemma_decimal(id as nat);
    assert(name.subrange(name.len() - 4, name.len() as int) =~= seq!['.'] + save_extension());
    assert(name.subrange(0, name.len() - 4) =~= d);
    assert(is_digit(d[0]));
    assert(unsigned_part(d) == d);
}

/// The parts of a path, outermost first; a part that is an absolute path
/// replaces what comes before it, as when the parts are pushed onto a `PathBuf`.
pub open spec fn parts_view(parts: Seq<String>) -> Seq<Seq<char>> {
    parts.map_values(|p: String| p@)
}

/// How the configuration places the saves directory.
pub enum SavesLocation {
    /// `Saves` under the working directory.
    WorkingDir,
    /// `OrbitEmu/<name>/Saves` under the user's roaming configuration directory.
    Roaming,
    /// The configured path itself.
    Explicit,
}

pub open spec fn saves_location_spec(saves: Seq<char>) -> SavesLocation {
    if saves == seq!['<', 'd', 'e', 'f', 'a', 'u', 'l', 't', '>'] {
        SavesLocation::WorkingDir
    } else if saves == seq!['<', 'r', 'o', 'a', 'm', 'i', 'n', 'g', '>'] {
        SavesLocation::Roaming
    } else {
        SavesLocation::Explicit
    }
}

/// Reads the configured saves setting: `<default>`, `<roaming>`, or a path.
pub fn saves_location(saves: &String) -> (r: SavesLocation)
    ensures
        r == saves_location_spec(saves@),
{
    let default = String::from_str("<default>");
    let roaming = String::from_str("<roaming>");
    proof {
        reveal_strlit("<default>");
        reveal_strlit("<roaming>");
    }
    assert(default@ =~= seq!['<', 'd', 'e', 'f', 'a', 'u', 'l', 't', '>']);
    assert(roaming@ =~= seq!['<', 'r', 'o', 'a', 'm', 'i', 'n', 'g', '>']);
    if *saves == default {
        SavesLocation::WorkingDir
    } else if *saves == roaming {
        SavesLocation::Roaming
    } else {
        SavesLocation::Explicit
    }
}

/// Why the saves directory could not be placed.
#[derive(Debug, PartialEq, Eq, Structural)]
pub enum SavesPathError {
    /// The roaming location was asked for and the system names no configuration directory.
    UnknownConfigDir,
}

pub open spec fn saves_dir_name() -> Seq<char> {
    seq!['S', 'a', 'v', 'e', 's']
}

pub open spec fn product_dir_name() -> Seq<char> {
    seq!['O', 'r', 'b', 'i', 't', 'E', 'm', 'u']
}

/// The saves directory for the configured `saves` setting and product `name`,
/// given the working directory and the user's configuration directory.
pub open spec fn saves_path_spec(
    saves: Seq<char>,
    name: Seq<char>,
    cwd: Seq<char>,
    config_dir: Option<Seq<char>>,
) -> Result<Seq<Seq<char>>, SavesPathError> {
    match saves_location_spec(saves) {
        SavesLocation::WorkingDir => Ok(seq![cwd, saves_dir_name()]),
        SavesLocation::Roaming => match config_dir {
            Some(d) => Ok(seq![d, product_dir_name(), name, saves_dir_name()]),
            None => Err(SavesPathError::UnknownConfigDir),
        },
        SavesLocation::Explicit => Ok(seq![saves]),
    }
}

pub open spec fn str_option_view(o: Option<String>) -> Option<Seq<char>> {
    match o {
        Some(s) => Some(s@),
        None => None,
    }
}

pub open spec fn parts_result_view(r: Result<Vec<String>, SavesPathError>) -> Result<Seq<Seq<char>>, SavesPathError> {
    match r {
        Ok(parts) => Ok(parts_view(parts@)),
        Err(e) => Err(e),
    }
}

/// Relies on `dirs::config_dir`: the user's configuration directory, if the
/// system names one; one that is not valid Unicode counts as none.
#[verifier::external_body]
fn user_config_dir() -> (r: Option<String>) {
    let dir = dirs::config_dir()?;
    dir.into_os_string().into_string().ok()
}

/// Places the saves directory from the configured `saves` setting and product
/// `name`, the working directory `cwd` and the configuration directory found.
pub fn resolve_saves_path(saves: &String, name: &String, cwd: &String, config_dir: Option<String>) -> (r:
    Result<Vec<String>, SavesPathError>)
    ensures
        parts_result_view(r) == saves_path_spec(saves@, name@, cwd@, str_option_view(config_dir)),
{
    proof {
        reveal_strlit("Saves");
        reveal_strlit("OrbitEmu");
    }
    let mut parts: Vec<String> = Vec::new();
    match saves_location(saves) {
        SavesLocation::WorkingDir => {
            parts.push(cwd.clone());
            parts.push(String::from_str("Saves"));
            assert(parts@[0]@ == cwd@);
            assert(parts@[1]@ == saves_dir_name());
            assert(parts_view(parts@) =~= seq![cwd@, saves_dir_name()]);
        },
        SavesLocation::Roaming => match config_dir {
            Some(d) => {
                let ghost dv = d@;
                parts.push(d);
                parts.push(String::from_str("OrbitEmu"));
                parts.push(name.clone());
                parts.push(String::from_str("Saves"));
                assert(parts@[0]@ == dv);
                assert(parts@[1]@ == product_dir_name());
                assert(parts@[2]@ == name@);
                assert(parts@[3]@ == saves_dir_name());
                assert(parts_view(parts@) =~= seq![dv, product_dir_name(), name@, saves_dir_name()]);
            },
            None => {
                return Err(SavesPathError::UnknownConfigDir);
            },
        },
        SavesLocation::Explicit => {
            parts.push(saves.clone());
            assert(parts_view(parts@) =~= seq![saves@]);
        },
    }
    Ok(parts)
}


/// Places the saves directory for the configuration `orbit`, given the working
/// directory `cwd`; the user's configuration directory is looked up only for
/// the roaming location, and whatever the system answers, the result is the one
/// that `resolve_saves_path` gives for that answer.
pub fn get_saves_path(orbit: &Orbit, cwd: &String) -> (r: Result<Vec<String>, SavesPathError>)
    ensures
        !(saves_location_spec(orbit.saves@) is Roaming) ==> parts_result_view(r) == saves_path_spec(
            orbit.saves@,
            orbit.name@,
            cwd@,
            None,
        ),
        exists|d: Option<Seq<char>>|
            parts_result_view(r) == #[trigger] saves_path_spec(orbit.saves@, orbit.name@, cwd@, d),
{
    let config_dir = match saves_location(&orbit.saves) {
        SavesLocation::Roaming => user_config_dir(),
        _ => None,
    };
    let r = resolve_saves_path(&orbit.saves, &orbit.name, cwd, config_dir);
    assert(parts_result_view(r) == saves_path_spec(orbit.saves@, orbit.name@, cwd@, str_option_view(config_dir)));
    r
}

/// The location of the save `id`: the saves directory, then `"{id}.sav"`.
pub fn get_save_path(saves_dir: &Vec<String>, id: u32) -> (r: Vec<String>)
    ensures
        parts_view(r@) == parts_view(saves_dir@).push(save_file_name_spec(id)),
{
    let mut r: Vec<String> = Vec::new();
    let mut i: usize = 0;
    while i < saves_dir.len()
        invariant
            i <= saves_dir@.len(),
            r@.len() == i,
            forall|j: int| 0 <= j < i ==> #[trigger] r@[j]@ == saves_dir@[j]@,
        decreases saves_dir@.len() - i,
    {
        let part = saves_dir[i].clone();
        r.push(part);
        assert(r@[i as int]@ == saves_dir@[i as int]@);
        i = i + 1;
    }
    r.push(save_file_name(id));
    assert(parts_view(r@) =~= parts_view(saves_dir@).push(save_file_name_spec(id)));
    r
}

} // verus!
