//! The manifest: which ids are real saves, and their display names.
use vstd::prelude::*;

verus! {

/// One manifest record.
pub struct Save {
    pub id: u32,
    pub name: String,
}

/// The ordered records of the manifest, persisted as one unit.
pub struct Manifest {
    pub saves: Vec<Save>,
}

/// `i` is the first position of a record for `id` in `m`.
pub open spec fn is_first(m: Seq<(u32, Seq<char>)>, id: u32, i: int) -> bool {
    0 <= i < m.len() && m[i].0 == id && forall|j: int| 0 <= j < i ==> m[j].0 != id
}

/// `m` holds a record for `id`.
pub open spec fn has_entry(m: Seq<(u32, Seq<char>)>, id: u32) -> bool {
    exists|i: int| 0 <= i < m.len() && m[i].0 == id
}

/// The name of the first record for `id`, if there is one.
pub open spec fn name_of(m: Seq<(u32, Seq<char>)>, id: u32) -> Option<Seq<char>> {
    if exists|i: int| is_first(m, id, i) {
        Some(m[choose|i: int| is_first(m, id, i)].1)
    } else {
        None
    }
}

/// No two records share an id.
pub open spec fn ids_unique(m: Seq<(u32, Seq<char>)>) -> bool {
    forall|i: int, j: int| 0 <= i < m.len() && 0 <= j < m.len() && m[i].0 == m[j].0 ==> i == j
}

/// The records after naming `id`: the first record for `id` takes the name,
/// or a new record goes at the end.
pub open spec fn upsert_spec(m: Seq<(u32, Seq<char>)>, id: u32, name: Seq<char>) -> Seq<(u32, Seq<char>)> {
    if exists|i: int| is_first(m, id, i) {
        m.update(choose|i: int| is_first(m, id, i), (id, name))
    } else {
        m.push((id, name))
    }
}

/// The records of `m` other than those for `id`, in their order.
pub open spec fn without_spec(m: Seq<(u32, Seq<char>)>, id: u32) -> Seq<(u32, Seq<char>)>
    decreases m.len(),
{
    if m.len() == 0 {
        m
    } else {
        let rest = without_spec(m.drop_last(), id);
        if m.last().0 == id {
            rest
        } else {
            rest.push(m.last())
        }
    }
}

/// The first record for `id` is the one that `name_of` reads.
pub proof fn lemma_first_is_chosen(m: Seq<(u32, Seq<char>)>, id: u32, i: int)
    requires
        is_first(m, id, i),
    ensures
        (choose|k: int| is_first(m, id, k)) == i,
        name_of(m, id) == Some(m[i].1),
{
    let k = choose|k: int| is_first(m, id, k);
    assert(is_first(m, id, k));
    if k < i {
        assert(m[k].0 != id);
    } else if i < k {
        assert(m[i].0 != id);
    }
}

/// Taking out the records for `id` leaves none for it, and keeps only ids
/// that were there.
pub proof fn lemma_without_drops_id(m: Seq<(u32, Seq<char>)>, id: u32)
    ensures
        !has_entry(without_spec(m, id), id),
        forall|k: int| 0 <= k < without_spec(m, id).len() ==> has_entry(m, #[trigger] without_spec(m, id)[k].0),
    decreases m.len(),
{
    if m.len() > 0 {
        lemma_without_drops_id(m.drop_last(), id);
        let rest = without_spec(m.drop_last(), id);
        assert forall|k: int| 0 <= k < without_spec(m, id).len() implies has_entry(m, #[trigger] without_spec(m, id)[k].0) by {
            if k < rest.len() {
                let j = choose|j: int| 0 <= j < m.drop_last().len() && m.drop_last()[j].0 == rest[k].0;
                assert(m[j].0 == rest[k].0);
            } else {
                assert(m[m.len() - 1].0 == without_spec(m, id)[k].0);
            }
        }
        if !(m.last().0 == id) {
            assert forall|k: int| 0 <= k < without_spec(m, id).len() implies without_spec(m, id)[k].0 != id by {
                if k < rest.len() {
                    assert(without_spec(m, id)[k] == rest[k]);
                }
            }
        }
    }
}

proof fn lemma_upsert(m: Seq<(u32, Seq<char>)>, id: u32, name: Seq<char>) -> (i: int)
    requires
        ids_unique(m),
    ensures
        ids_unique(upsert_spec(m, id, name)),
        is_first(upsert_spec(m, id, name), id, i),
        upsert_spec(m, id, name)[i] == (id, name),
{
    let u = upsert_spec(m, id, name);
    if exists|i: int| is_first(m, id, i) {
        let i = choose|i: int| is_first(m, id, i);
        assert forall|j: int| 0 <= j < i implies u[j].0 != id by {
            assert(m[j].0 != id);
        }
        i
    } else {
        let i = m.len() as int;
        assert forall|j: int| 0 <= j < i implies u[j].0 != id by {
            if m[j].0 == id {
                assert forall|k: int| 0 <= k < j implies m[k].0 != id by {
                    assert(k != j);
                }
                assert(is_first(m, id, j));
            }
        }
        i
    }
}

/// Naming a save twice leaves exactly one record for it, and that record
/// carries the second name.
pub proof fn lemma_set_name_twice(m: Seq<(u32, Seq<char>)>, id: u32, a: Seq<char>, b: Seq<char>)
    requires
        ids_unique(m),
    ensures
        ({
            let m2 = upsert_spec(upsert_spec(m, id, a), id, b);
            &&& name_of(m2, id) == Some(b)
            &&& exists|i: int|
                0 <= i < m2.len() && m2[i] == (id, b) && forall|j: int|
                    0 <= j < m2.len() && #[trigger] m2[j].0 == id ==> j == i
        }),
{
    let m1 = upsert_spec(m, id, a);
    lemma_upsert(m, id, a);
    let i = lemma_upsert(m1, id, b);
    let m2 = upsert_spec(m1, id, b);
    lemma_first_is_chosen(m2, id, i);
    assert(m2[i] == (id, b));
}

impl View for Manifest {
    type V = Seq<(u32, Seq<char>)>;

    open spec fn view(&self) -> Seq<(u32, Seq<char>)> {
        self.saves@.map_values(|s: Save| (s.id, s.name@))
    }
}

impl Manifest {
    /// A manifest is well formed when no two records share an id; the store
    /// keeps it so by updating in place.
    pub open spec fn wf(&self) -> bool {
        ids_unique(self@)
    }

    /// The empty manifest.
    pub fn new() -> (r: Manifest)
        ensures
            r@ == Seq::<(u32, Seq<char>)>::empty(),
            r.wf(),
    {
        let r = Manifest { saves: Vec::new() };
        assert(r@ =~= Seq::<(u32, Seq<char>)>::empty());
        r
    }

    /// The position of the first record for `id`.
    pub fn find_index(&self, id: u32) -> (r: Option<usize>)
        ensures
            match r {
                Some(i) => is_first(self@, id, i as int),
                None => !has_entry(self@, id),
            },
    {
        let mut i: usize = 0;
        while i < self.saves.len()
            invariant
                i <= self.saves@.len(),
                forall|j: int| 0 <= j < i ==> self@[j].0 != id,
            decreases self.saves@.len() - i,
        {
            if self.saves[i].id == id {
                return Some(i);
            }
            i = i + 1;
        }
        None
    }

    /// Names the save `id`: the record for `id` takes `name`, or a record is
    /// added at the end.
    pub fn set_name(&mut self, id: u32, name: String)
        ensures
            final(self)@ == upsert_spec(old(self)@, id, name@),
            old(self).wf() ==> final(self).wf(),
    {
        let ghost name_v = name@;
        match self.find_index(id) {
            Some(i) => {
                proof {
                    lemma_first_is_chosen(self@, id, i as int);
                }
                let ghost before = self@;
                self.saves.set(i, Save { id, name });
                assert(self@ =~= before.update(i as int, (id, name_v)));
            },
            None => {
                let ghost before = self@;
                self.saves.push(Save { id, name });
                assert(self@ =~= before.push((id, name_v)));
            },
        }
    }

    /// Takes out every record for `id`.
    pub fn remove(&mut self, id: u32)
        ensures
            final(self)@ == without_spec(old(self)@, id),
            !has_entry(final(self)@, id),
    {
        let ghost m = self@;
        let mut kept: Vec<Save> = Vec::new();
        let mut old_saves: Vec<Save> = Vec::new();
        std::mem::swap(&mut old_saves, &mut self.saves);
        let mut i: usize = 0;
        while i < old_saves.len()
            invariant
                i <= old_saves@.len(),
                old_saves@.map_values(|s: Save| (s.id, s.name@)) == m,
                kept@.map_values(|s: Save| (s.id, s.name@)) == without_spec(m.subrange(0, i as int), id),
            decreases old_saves@.len() - i,
        {
            assert(m.subrange(0, i + 1).drop_last() =~= m.subrange(0, i as int));
            if old_saves[i].id != id {
                let save = Save { id: old_saves[i].id, name: old_saves[i].name.clone() };
                let ghost before = kept@;
                kept.push(save);
                assert(kept@.map_values(|s: Save| (s.id, s.name@)) =~= before.map_values(
                    |s: Save| (s.id, s.name@),
                ).push(m[i as int]));
            }
            i = i + 1;
        }
        assert(m.subrange(0, i as int) =~= m);
        self.saves = kept;
        proof {
            lemma_without_drops_id(m, id);
        }
    }
}

} // verus!
