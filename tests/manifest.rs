use orbit_emu::manifest::{Manifest, Save};

fn entries(m: &Manifest) -> Vec<(u32, String)> {
    m.saves.iter().map(|s| (s.id, s.name.clone())).collect()
}

fn manifest(v: &[(u32, &str)]) -> Manifest {
    Manifest { saves: v.iter().map(|(id, n)| Save { id: *id, name: n.to_string() }).collect() }
}

#[test]
fn set_name_twice_leaves_one_entry_with_second_name() {
    let mut m = Manifest::new();
    m.set_name(4, "A".to_string());
    m.set_name(4, "B".to_string());
    assert_eq!(entries(&m), vec![(4, "B".to_string())]);
}

#[test]
fn set_name_updates_in_place_and_appends_new_ids() {
    let mut m = manifest(&[(1, "one"), (2, "two")]);
    m.set_name(1, "uno".to_string());
    m.set_name(3, "three".to_string());
    assert_eq!(
        entries(&m),
        vec![(1, "uno".to_string()), (2, "two".to_string()), (3, "three".to_string())]
    );
}

#[test]
fn set_name_with_duplicates_updates_first_only() {
    let mut m = manifest(&[(5, "a"), (5, "b")]);
    m.set_name(5, "c".to_string());
    assert_eq!(entries(&m), vec![(5, "c".to_string()), (5, "b".to_string())]);
}

#[test]
fn remove_drops_every_entry_of_id_and_keeps_order() {
    let mut m = manifest(&[(1, "a"), (2, "b"), (1, "c"), (3, "d")]);
    m.remove(1);
    assert_eq!(entries(&m), vec![(2, "b".to_string()), (3, "d".to_string())]);
    m.remove(9);
    assert_eq!(entries(&m), vec![(2, "b".to_string()), (3, "d".to_string())]);
}

#[test]
fn find_index_gives_first_position() {
    let m = manifest(&[(1, "a"), (2, "b"), (2, "c")]);
    assert_eq!(m.find_index(2), Some(1));
    assert_eq!(m.find_index(7), None);
    assert_eq!(Manifest::new().find_index(0), None);
}
