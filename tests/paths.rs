use orbit_emu::config::{Log, Orbit, Profile};
use orbit_emu::paths::{
    get_save_path, get_saves_path, parse_save_file_name, resolve_saves_path, save_file_name,
    saves_location, SavesLocation, SavesPathError,
};

fn orbit(saves: &str) -> Orbit {
    Orbit {
        name: "Game".to_string(),
        product_id: 5,
        saves: saves.to_string(),
        cd_keys: vec![],
        log: Log { write: false, path: String::new() },
        profile: Profile {
            account_id: "acc".to_string(),
            username: "user".to_string(),
            password: "pass".to_string(),
        },
    }
}

fn parts(v: &[&str]) -> Vec<String> {
    v.iter().map(|s| s.to_string()).collect()
}

#[test]
fn save_file_name_is_decimal_id_with_extension() {
    assert_eq!(save_file_name(7), "7.sav");
    assert_eq!(save_file_name(0), "0.sav");
    assert_eq!(save_file_name(1230), "1230.sav");
    assert_eq!(save_file_name(u32::MAX), "4294967295.sav");
}

#[test]
fn parse_save_file_name_accepts_save_names() {
    assert_eq!(parse_save_file_name("9.sav"), Some(9));
    assert_eq!(parse_save_file_name("007.sav"), Some(7));
    assert_eq!(parse_save_file_name("+5.sav"), Some(5));
    assert_eq!(parse_save_file_name("4294967295.sav"), Some(u32::MAX));
}

#[test]
fn parse_save_file_name_rejects_other_names() {
    assert_eq!(parse_save_file_name("4294967296.sav"), None);
    assert_eq!(parse_save_file_name(".sav"), None);
    assert_eq!(parse_save_file_name("+.sav"), None);
    assert_eq!(parse_save_file_name("-1.sav"), None);
    assert_eq!(parse_save_file_name("x9.sav"), None);
    assert_eq!(parse_save_file_name("9.SAV"), None);
    assert_eq!(parse_save_file_name("9.txt"), None);
    assert_eq!(parse_save_file_name("9"), None);
    assert_eq!(parse_save_file_name("1.2.sav"), None);
}

#[test]
fn parse_reads_back_every_generated_name() {
    for id in [0u32, 1, 9, 10, 99, 100, 65535, 123456789, u32::MAX] {
        assert_eq!(parse_save_file_name(&save_file_name(id)), Some(id));
    }
}

#[test]
fn saves_location_reads_the_setting() {
    assert!(matches!(saves_location(&"<default>".to_string()), SavesLocation::WorkingDir));
    assert!(matches!(saves_location(&"<roaming>".to_string()), SavesLocation::Roaming));
    assert!(matches!(saves_location(&"D:/Saves".to_string()), SavesLocation::Explicit));
}

#[test]
fn resolve_saves_path_for_each_location() {
    let cwd = "/game".to_string();
    let name = "Game".to_string();
    assert_eq!(
        resolve_saves_path(&"<default>".to_string(), &name, &cwd, None),
        Ok(parts(&["/game", "Saves"]))
    );
    assert_eq!(
        resolve_saves_path(&"<roaming>".to_string(), &name, &cwd, Some("/cfg".to_string())),
        Ok(parts(&["/cfg", "OrbitEmu", "Game", "Saves"]))
    );
    assert_eq!(
        resolve_saves_path(&"<roaming>".to_string(), &name, &cwd, None),
        Err(SavesPathError::UnknownConfigDir)
    );
    assert_eq!(
        resolve_saves_path(&"/data/saves".to_string(), &name, &cwd, None),
        Ok(parts(&["/data/saves"]))
    );
}

#[test]
fn get_saves_path_outside_roaming_ignores_the_system() {
    let cwd = "/game".to_string();
    assert_eq!(get_saves_path(&orbit("<default>"), &cwd), Ok(parts(&["/game", "Saves"])));
    assert_eq!(get_saves_path(&orbit("/x"), &cwd), Ok(parts(&["/x"])));
}

#[test]
fn get_saves_path_roaming_ends_in_product_saves() {
    match get_saves_path(&orbit("<roaming>"), &"/game".to_string()) {
        Ok(p) => {
            assert_eq!(p.len(), 4);
            assert_eq!(&p[1..], &parts(&["OrbitEmu", "Game", "Saves"])[..]);
        }
        Err(e) => assert_eq!(e, SavesPathError::UnknownConfigDir),
    }
}

#[test]
fn get_save_path_appends_file_name() {
    let dir = parts(&["/game", "Saves"]);
    assert_eq!(get_save_path(&dir, 42), parts(&["/game", "Saves", "42.sav"]));
    assert_eq!(get_save_path(&vec![], 3), parts(&["3.sav"]));
}
