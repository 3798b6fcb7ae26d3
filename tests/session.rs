use orbit_emu::listing::{get_saves, savegame_info_list, savegame_list, DirEntry};
use orbit_emu::manifest::{Manifest, Save};
use orbit_emu::types::{OrbitClient, SavegameInfo, SavegameReader, SavegameWriter, WriteMode};

fn file(name: &str, size: u64) -> DirEntry {
    DirEntry { file_name: name.to_string(), is_file: true, size }
}

fn wide(s: &str) -> Vec<u16> {
    s.encode_utf16().collect()
}

fn parts(v: &[&str]) -> Vec<String> {
    v.iter().map(|s| s.to_string()).collect()
}

#[test]
fn request_ids_count_up_from_one() {
    let mut c = OrbitClient::new();
    assert_eq!(c.get_next_request_id(), 1);
    assert_eq!(c.get_next_request_id(), 2);
    assert_eq!(c.get_next_request_id(), 3);
}

#[test]
fn fresh_session_has_unset_reader_and_writer() {
    let c = OrbitClient::new();
    assert!(c.savegame_reader().path.is_empty());
    assert_eq!(c.savegame_writer().id, 0);
    assert_eq!(c.savegame_writer().mode, WriteMode::Unset);
    assert!(SavegameReader::default().path.is_empty());
    assert_eq!(SavegameWriter::default().mode, WriteMode::Unset);
}

#[test]
fn open_writer_and_reader_bind_the_save_path() {
    let mut c = OrbitClient::new();
    let dir = parts(&["/g", "Saves"]);
    c.open_writer(&dir, 7, false);
    assert_eq!(c.savegame_writer().id, 7);
    assert_eq!(c.savegame_writer().path, parts(&["/g", "Saves", "7.sav"]));
    assert_eq!(c.savegame_writer().mode, WriteMode::Truncate);
    c.open_writer(&dir, 8, true);
    assert_eq!(c.savegame_writer().id, 8);
    assert_eq!(c.savegame_writer().mode, WriteMode::PreserveExisting);
    c.open_reader(&dir, 7);
    assert_eq!(c.savegame_reader().path, parts(&["/g", "Saves", "7.sav"]));
    assert_eq!(c.get_next_request_id(), 1);
}

#[test]
fn listing_omits_file_without_manifest_entry() {
    let mut m = Manifest::new();
    m.set_name(3, "three".to_string());
    let entries = vec![file("9.sav", 10), file("3.sav", 4)];
    assert_eq!(get_saves(&entries, &m), vec![(3, "three".to_string(), 4)]);
}

#[test]
fn listing_skips_directories_and_foreign_files() {
    let mut m = Manifest::new();
    m.set_name(1, "a".to_string());
    m.set_name(2, "b".to_string());
    let entries = vec![
        DirEntry { file_name: "1.sav".to_string(), is_file: false, size: 0 },
        file("notes.txt", 5),
        file("abc.sav", 5),
        file("2.sav", 6),
    ];
    assert_eq!(get_saves(&entries, &m), vec![(2, "b".to_string(), 6)]);
    assert_eq!(get_saves(&vec![], &m), vec![]);
}

#[test]
fn removed_save_is_not_listed() {
    let mut m = Manifest::new();
    m.set_name(5, "five".to_string());
    let entries = vec![file("5.sav", 1)];
    assert_eq!(get_saves(&entries, &m).len(), 1);
    m.remove(5);
    assert_eq!(get_saves(&entries, &m), vec![]);
}

#[test]
fn write_name_then_list_gives_one_record() {
    let mut c = OrbitClient::new();
    c.open_writer(&parts(&["Saves"]), 7, false);
    assert_eq!(c.savegame_writer().mode, WriteMode::Truncate);
    let mut m = Manifest::new();
    assert!(c.savegame_writer().set_name(&mut m, &wide("Slot A")));
    let list = savegame_list(&vec![file("7.sav", 3)], &m).unwrap();
    assert_eq!(list.len(), 1);
    assert_eq!(list[0].get_savegame_id(), 7);
    assert_eq!(list[0].get_size(), 3);
    assert_eq!(list[0].get_name(), &wide("Slot A"));
}

#[test]
fn info_list_encodes_names_and_truncates_sizes() {
    let saves = vec![(1u32, "Ab".to_string(), 5u64), (2, "é𝄞".to_string(), (1u64 << 32) + 9)];
    let infos = savegame_info_list(&saves).unwrap();
    assert_eq!(infos.len(), 2);
    assert_eq!(infos[0].name, vec![65, 98]);
    assert_eq!(infos[0].size, 5);
    assert_eq!(infos[1].name, vec![0xe9, 0xd834, 0xdd1e]);
    assert_eq!(infos[1].size, 9);
    assert_eq!(infos[1].id, 2);
}

#[test]
fn info_list_refuses_inner_nul_and_drops_final_nul() {
    assert!(savegame_info_list(&vec![(1, "a\0b".to_string(), 0)]).is_none());
    let infos = savegame_info_list(&vec![(1, "ab\0".to_string(), 0)]).unwrap();
    assert_eq!(infos[0].name, vec![97, 98]);
    assert_eq!(savegame_info_list(&vec![]).unwrap().len(), 0);
}

#[test]
fn set_name_decodes_wide_names() {
    let w = SavegameWriter::new(4, parts(&["4.sav"]), WriteMode::Truncate);
    let mut m = Manifest { saves: vec![Save { id: 4, name: "A".to_string() }] };
    assert!(w.set_name(&mut m, &wide("B𝄞")));
    assert_eq!(m.saves.len(), 1);
    assert_eq!(m.saves[0].name, "B𝄞");
}

#[test]
fn set_name_refuses_invalid_utf16() {
    let w = SavegameWriter::new(4, parts(&["4.sav"]), WriteMode::Truncate);
    let mut m = Manifest::new();
    assert!(!w.set_name(&mut m, &[0xd800]));
    assert!(m.saves.is_empty());
}

#[test]
fn savegame_info_getters() {
    let i = SavegameInfo::new(3, 10, vec![1, 2]);
    assert_eq!(i.get_savegame_id(), 3);
    assert_eq!(i.get_size(), 10);
    assert_eq!(i.get_name(), &vec![1, 2]);
}
