//! Which files of the saves directory are listed, and how.
use vstd::prelude::*;

use crate::manifest::{has_entry, is_first, lemma_first_is_chosen, name_of, without_spec, Manifest};
use crate::paths::{parse_save_file_name, save_id_spec};
use crate::types::SavegameInfo;

verus! {

/// What the listing needs to know of one entry of the saves directory.
pub struct DirEntry {
    pub file_name: String,
    pub is_file: bool,
    /// Length of the file in bytes.
    pub size: u64,
}

/// The record that the entry `e` contributes to a listing under the manifest
/// records `m`: a file whose name is that of a save with a manifest record,
/// as (id, the record's name, size).
pub open spec fn listed_spec(e: DirEntry, m: Seq<(u32, Seq<char>)>) -> Option<(u32, Seq<char>, u64)> {
    if e.is_file {
        match save_id_spec(e.file_name@) {
            Some(id) => match name_of(m, id) {
                Some(n) => Some((id, n, e.size)),
                None => None,
            },
            None => None,
        }
    } else {
        None
    }
}

/// The listing of the directory entries `entries` under the manifest records
/// `m`, in the order of the entries.
pub open spec fn saves_spec(entries: Seq<DirEntry>, m: Seq<(u32, Seq<char>)>) -> Seq<(u32, Seq<char>, u64)>
    decreases entries.len(),
{
    if entries.len() == 0 {
        Seq::empty()
    } else {
        let rest = saves_spec(entries.drop_last(), m);
        match listed_spec(entries.last(), m) {
            Some(t) => rest.push(t),
            None => rest,
        }
    }
}

pub open spec fn saves_view(r: Seq<(u32, String, u64)>) -> Seq<(u32, Seq<char>, u64)> {
    r.map_values(|t: (u32, String, u64)| (t.0, t.1@, t.2))
}

/// The saves among the entries of the saves directory: each file named
/// `"{id}.sav"` whose id has a manifest record, as (id, name, size).
pub fn get_saves(entries: &Vec<DirEntry>, manifest: &Manifest) -> (r: Vec<(u32, String, u64)>)
    ensures
        saves_view(r@) == saves_spec(entries@, manifest@),
{
    let mut r: Vec<(u32, String, u64)> = Vec::new();
    let mut i: usize = 0;
    while i < entries.len()
        invariant
            i <= entries@.len(),
            saves_view(r@) == saves_spec(entries@.subrange(0, i as int), manifest@),
        decreases entries@.len() - i,
    {
        let e = &entries[i];
        let ghost before = r@;
        assert(entries@.subrange(0, i + 1).drop_last() =~= entries@.subrange(0, i as int));
        assert(entries@.subrange(0, i + 1).last() == *e);
        if e.is_file {
            match parse_save_file_name(e.file_name.as_str()) {
                Some(id) => match manifest.find_index(id) {
                    Some(k) => {
                        proof {
                            lemma_first_is_chosen(manifest@, id, k as int);
                        }
                        r.push((id, manifest.saves[k].name.clone(), e.size));
                        assert(saves_view(r@) =~= saves_view(before).push((id, manifest@[k as int].1, e.size)));
                    },
                    None => {
                        assert(!exists|j: int| is_first(manifest@, id, j));
                    },
                },
                None => {},
            }
        }
        i = i + 1;
    }
    assert(entries@.subrange(0, i as int) =~= entries@);
    r
}

/// Every save listed under the manifest records `m` has a record there, under
/// the name listed.
pub proof fn lemma_listed_saves_have_entries(entries: Seq<DirEntry>, m: Seq<(u32, Seq<char>)>)
    ensures
        forall|k: int|
            0 <= k < saves_spec(entries, m).len() ==> name_of(m, #[trigger] saves_spec(entries, m)[k].0)
                == Some(saves_spec(entries, m)[k].1),
    decreases entries.len(),
{
    if entries.len() > 0 {
        lemma_listed_saves_have_entries(entries.drop_last(), m);
    }
}

/// A save whose id has no manifest record is not listed, whatever files the
/// saves directory holds.
pub proof fn lemma_unrecorded_id_not_listed(entries: Seq<DirEntry>, m: Seq<(u32, Seq<char>)>, id: u32)
    requires
        !has_entry(m, id),
    ensures
        forall|k: int| 0 <= k < saves_spec(entries, m).len() ==> #[trigger] saves_spec(entries, m)[k].0 != id,
{
    lemma_listed_saves_have_entries(entries, m);
    assert forall|k: int| 0 <= k < saves_spec(entries, m).len() implies #[trigger] saves_spec(entries, m)[k].0 != id by {
        if saves_spec(entries, m)[k].0 == id {
            let i = choose|i: int| is_first(m, id, i);
            assert(m[i].0 == id);
        }
    }
}

/// Once the records for `id` are taken out of the manifest, `id` is not
/// listed, whatever files the saves directory holds.
pub proof fn lemma_removed_id_not_listed(entries: Seq<DirEntry>, m: Seq<(u32, Seq<char>)>, id: u32)
    ensures
        forall|k: int|
            0 <= k < saves_spec(entries, without_spec(m, id)).len() ==> #[trigger] saves_spec(
                entries,
                without_spec(m, id),
            )[k].0 != id,
{
    crate::manifest::lemma_without_drops_id(m, id);
    lemma_unrecorded_id_not_listed(entries, without_spec(m, id), id);
}


/// The UTF-16 units that widestring makes of `s`, without a terminating nul.
pub uninterp spec fn wide_of(s: Seq<char>) -> Seq<u16>;

/// `s` holds no nul character, but perhaps as its last one.
pub open spec fn nul_only_last(s: Seq<char>) -> bool {
    forall|i: int| 0 <= i < s.len() - 1 ==> s[i] != '\0'
}

/// Relies on widestring's `U16CString::from_str`, then `into_vec`: the string
/// encoded as UTF-16; refused when a nul stands before the last character,
/// and a nul in last place is not kept.
#[verifier::external_body]
fn encode_wide(s: &str) -> (r: Option<Vec<u16>>)
    ensures
        r is Some <==> nul_only_last(s@),
        r matches Some(w) ==> w@ == wide_of(s@),
{
    match widestring::U16CString::from_str(s) {
        Ok(w) => Some(w.into_vec()),
        Err(_) => None,
    }
}

/// The host's records for the saves `saves`, in their order: the size is
/// truncated to 32 bits and the name encoded as UTF-16. None when a name cannot
/// be encoded, that is when it holds a nul before its end.
pub fn savegame_info_list(saves: &Vec<(u32, String, u64)>) -> (r: Option<Vec<SavegameInfo>>)
    ensures
        r is Some <==> forall|k: int| 0 <= k < saves@.len() ==> nul_only_last(#[trigger] saves@[k].1@),
        r matches Some(infos) ==> {
            &&& infos@.len() == saves@.len()
            &&& forall|k: int|
                0 <= k < saves@.len() ==> {
                    &&& (#[trigger] infos@[k]).id == saves@[k].0
                    &&& infos@[k].size == saves@[k].2 as u32
                    &&& infos@[k].name@ == wide_of(saves@[k].1@)
                }
        },
{
    let mut infos: Vec<SavegameInfo> = Vec::new();
    let mut i: usize = 0;
    while i < saves.len()
        invariant
            i <= saves@.len(),
            infos@.len() == i,
            forall|k: int| 0 <= k < i ==> nul_only_last(#[trigger] saves@[k].1@),
            forall|k: int|
                0 <= k < i ==> {
                    &&& (#[trigger] infos@[k]).id == saves@[k].0
                    &&& infos@[k].size == saves@[k].2 as u32
                    &&& infos@[k].name@ == wide_of(saves@[k].1@)
                },
        decreases saves@.len() - i,
    {
        let (id, name, size) = (saves[i].0, &saves[i].1, saves[i].2);
        match encode_wide(name.as_str()) {
            Some(wide) => {
                infos.push(SavegameInfo { id, size: size as u32, name: wide });
            },
            None => {
                return None;
            },
        }
        i = i + 1;
    }
    Some(infos)
}

/// The save list the host receives for the saves directory entries `entries`
/// and the manifest: the records of `savegame_info_list` for `get_saves`.
pub fn savegame_list(entries: &Vec<DirEntry>, manifest: &Manifest) -> (r: Option<Vec<SavegameInfo>>)
    ensures
        r is Some <==> forall|k: int|
            0 <= k < saves_spec(entries@, manifest@).len() ==> nul_only_last(
                #[trigger] saves_spec(entries@, manifest@)[k].1,
            ),
        r matches Some(infos) ==> {
            let s = saves_spec(entries@, manifest@);
            &&& infos@.len() == s.len()
            &&& forall|k: int|
                0 <= k < s.len() ==> {
                    &&& (#[trigger] infos@[k]).id == s[k].0
                    &&& infos@[k].size == s[k].2 as u32
                    &&& infos@[k].name@ == wide_of(s[k].1)
                }
        },
{
    let saves = get_saves(entries, manifest);
    let r = savegame_info_list(&saves);
    proof {
        let s = saves_spec(entries@, manifest@);
        assert forall|k: int| 0 <= k < s.len() implies #[trigger] s[k] == (saves@[k].0, saves@[k].1@, saves@[k].2) by {
            assert(saves_view(saves@)[k] == (saves@[k].0, saves@[k].1@, saves@[k].2));
        }
        if forall|k: int| 0 <= k < s.len() ==> nul_only_last(#[trigger] s[k].1) {
            assert forall|k: int| 0 <= k < saves@.len() implies nul_only_last(#[trigger] saves@[k].1@) by {
                assert(s[k].1 == saves@[k].1@);
            }
        }
    }
    r
}

} // verus!
