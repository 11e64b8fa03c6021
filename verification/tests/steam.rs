use llc_updater::steam::{
    game_from_meta, games_from_manifests, get_game_info, is_limbus_display_name, lbc_data_dir_of,
    library_vdf_path, manifest_path, parse_app_id, parse_library_vdf, registry_app_ids,
    registry_data_dir, select_registry_game, Game, GameMeta, LibraryVdfError, ManifestError,
    RegistryApp,
};

const LIBRARY: &str = r#"
"libraryfolders"
{
    "0"
    {
        "path"      "/home/user/.local/share/Steam"
        "apps"
        {
            "228980"    "123"
            "1973530"   "456"
        }
    }
    "1"
    {
        "path"      "/mnt/games"
        "apps"
        {
            "730"   "789"
        }
    }
    "2"
    {
        "path"  "/mnt/empty"
    }
}
"#;

const MANIFEST: &str = r#"
"AppState"
{
    "appid"     "1973530"
    "name"      "Limbus Company"
    "installdir"        "Limbus Company"
}
"#;

#[test]
fn library_lists_app_ids_folder_by_folder() {
    let ids = parse_library_vdf(LIBRARY).ok().unwrap();
    assert_eq!(ids, vec!["1973530", "228980", "730"]);
}

#[test]
fn library_with_other_root_key_is_refused() {
    match parse_library_vdf("\"other\" { }") {
        Err(LibraryVdfError::UnexpectedRootKey(k)) => assert_eq!(k, "other"),
        _ => panic!("expected an unexpected root key"),
    }
    assert!(matches!(parse_library_vdf("\"libraryfolders\" \"text\""), Err(LibraryVdfError::NotAnObject)));
    match parse_library_vdf("\"libraryfolders\" {") {
        Err(LibraryVdfError::Parse(e)) => {
            assert_eq!(e, keyvalues_parser::parse("\"libraryfolders\" {").unwrap_err().to_string());
            assert!(e.starts_with("Failed parsing input Error: "));
        }
        _ => panic!("expected a parse error"),
    }
}

#[test]
fn manifest_gives_name_and_install_dir() {
    let meta = get_game_info(MANIFEST).ok().unwrap();
    assert_eq!(meta.name, "Limbus Company");
    assert_eq!(meta.install_dir, "Limbus Company");
}

#[test]
fn manifest_errors() {
    let missing_name = get_game_info("\"AppState\" { \"installdir\" \"x\" }");
    assert_eq!(missing_name.err().unwrap().to_string(), "Missing or invalid `name` field in appmanifest");
    let missing_dir = get_game_info("\"AppState\" { \"name\" \"x\" }");
    assert_eq!(missing_dir.err().unwrap().to_string(), "Missing or invalid `installdir` field in appmanifest");
    let nested_name = get_game_info("\"AppState\" { \"name\" { } \"installdir\" \"x\" }");
    assert!(matches!(nested_name, Err(ManifestError::MissingName)));
    let parse = get_game_info("\"AppState\" {").err().unwrap().to_string();
    assert!(parse.starts_with("Failed to parse appmanifest: "));
    let parser_message = keyvalues_parser::parse("\"AppState\" {").unwrap_err().to_string();
    assert_eq!(parse, format!("Failed to parse appmanifest: {}", parser_message));
}

#[test]
fn steam_paths() {
    let steam = "/home/user/.local/share/Steam";
    assert_eq!(library_vdf_path(steam), "/home/user/.local/share/Steam/steamapps/libraryfolders.vdf");
    assert_eq!(manifest_path(steam, "1973530"), "/home/user/.local/share/Steam/steamapps/appmanifest_1973530.acf");
    let game = game_from_meta(steam, GameMeta { name: "Limbus Company".into(), install_dir: "Limbus Company".into() });
    assert_eq!(game.install_dir_path, "/home/user/.local/share/Steam/steamapps/common/Limbus Company");
}

#[test]
fn limbus_data_dir_is_found_among_games() {
    let games = vec![
        Game { name: "Counter-Strike".into(), install_dir_path: "/s/cs".into() },
        Game { name: "Limbus Company".into(), install_dir_path: "/s/lc".into() },
        Game { name: "Limbus Company".into(), install_dir_path: "/s/lc2".into() },
    ];
    assert_eq!(lbc_data_dir_of(&games), Some("/s/lc/LimbusCompany_Data".to_string()));
    assert_eq!(lbc_data_dir_of(&vec![]), None);
}

#[test]
fn get_game() {
    // The registry search reads app ids from key names and matches the display name.
    assert_eq!(parse_app_id("1973530"), Some(1973530));
    assert_eq!(parse_app_id("+42"), Some(42));
    assert_eq!(parse_app_id("4294967295"), Some(u32::MAX));
    assert_eq!(parse_app_id("4294967296"), None);
    assert_eq!(parse_app_id(""), None);
    assert_eq!(parse_app_id("+"), None);
    assert_eq!(parse_app_id("-1"), None);
    assert_eq!(parse_app_id("12a"), None);
    assert!(is_limbus_display_name("LIMBUS company"));
    assert!(!is_limbus_display_name("Limbus Company 2"));
    assert_eq!(registry_data_dir("C:/Games/Limbus"), "C:/Games/Limbus/LimbusCompany_Data");
}

#[test]
fn games_are_read_from_manifests_skipping_bad_ones() {
    let steam = "/s";
    let reads: Vec<Result<String, String>> = vec![
        Ok(MANIFEST.to_string()),
        Err("no such file".to_string()),
        Ok("\"AppState\" { \"installdir\" \"x\" }".to_string()),
        Ok("\"AppState\" {".to_string()),
        Ok("\"AppState\" { \"name\" \"Other\" \"installdir\" \"other\" }".to_string()),
    ];
    let games = games_from_manifests(steam, &reads).ok().unwrap();
    assert_eq!(games.len(), 2);
    assert_eq!(games[0].name, "Limbus Company");
    assert_eq!(games[0].install_dir_path, "/s/steamapps/common/Limbus Company");
    assert_eq!(games[1].name, "Other");
    assert_eq!(games[1].install_dir_path, "/s/steamapps/common/other");
    assert!(games_from_manifests(steam, &vec![]).ok().unwrap().is_empty());
}

#[test]
fn manifest_holding_a_string_stops_the_scan() {
    let reads: Vec<Result<String, String>> = vec![
        Ok(MANIFEST.to_string()),
        Err("unreadable".to_string()),
        Ok("\"AppState\" \"text\"".to_string()),
        Ok(MANIFEST.to_string()),
    ];
    assert_eq!(games_from_manifests("/s", &reads).err(), Some(2));
}

#[test]
fn registry_keys_give_app_ids_in_order() {
    let keys = vec![
        Some("1973530".to_string()),
        None,
        Some("not-an-id".to_string()),
        Some("+730".to_string()),
        Some("99999999999".to_string()),
        Some("228980".to_string()),
    ];
    assert_eq!(registry_app_ids(&keys), vec![1973530, 730, 228980]);
    assert!(registry_app_ids(&vec![]).is_empty());
}

fn app(installed: bool, name: Option<&str>, location: Option<&str>, exists: bool) -> RegistryApp {
    RegistryApp {
        installed,
        display_name: name.map(|n| n.to_string()),
        install_location: location.map(|l| l.to_string()),
        location_exists: exists,
    }
}

#[test]
fn registry_selects_first_installed_game_with_existing_location() {
    let apps = vec![
        app(false, Some("Limbus Company"), Some("C:/a"), true),
        app(true, Some("Other Game"), Some("C:/b"), true),
        app(true, None, Some("C:/c"), true),
        app(true, Some("limbus company"), None, true),
        app(true, Some("Limbus Company"), Some("C:/gone"), false),
        app(true, Some("LIMBUS COMPANY"), Some("C:/Games/Limbus"), true),
        app(true, Some("Limbus Company"), Some("C:/later"), true),
    ];
    assert_eq!(select_registry_game(&apps), Some("C:/Games/Limbus/LimbusCompany_Data".to_string()));
    let mut before_match = apps;
    before_match.truncate(5);
    assert_eq!(select_registry_game(&before_match), None);
    assert_eq!(select_registry_game(&vec![]), None);
}
