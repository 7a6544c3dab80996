use mclauncher_core::{
    build_download_filename, build_game_directory, build_legacy_game_directory,
    is_gdk_directory, resolve_game_directory, CoreError, DirectoryEntry, GameDirectories,
    ImportedEntry, JsonMember, JsonValue, PackageFamilies, PackageType, Version, VersionList,
    VersionType, DEFAULT_VERSIONS_API_GDK, DEFAULT_VERSIONS_API_UWP, UNKNOWN_UUID,
};

fn s(x: &str) -> JsonValue {
    JsonValue::String(x.to_string())
}

fn n(x: i64) -> JsonValue {
    JsonValue::Number(Some(x))
}

fn arr(items: Vec<JsonValue>) -> JsonValue {
    JsonValue::Array(items)
}

fn obj(members: Vec<(&str, JsonValue)>) -> JsonValue {
    JsonValue::Object(
        members
            .into_iter()
            .map(|(k, v)| JsonMember { key: k.to_string(), value: v })
            .collect(),
    )
}

fn no_dirs() -> GameDirectories {
    GameDirectories { entries: Vec::new() }
}

fn dirs(entries: &[(&str, bool)]) -> GameDirectories {
    GameDirectories {
        entries: entries
            .iter()
            .map(|(name, gdk)| DirectoryEntry { name: name.to_string(), has_game_config: *gdk })
            .collect(),
    }
}

fn list() -> VersionList {
    VersionList::new(
        "versions_uwp.json".to_string(),
        "versions_gdk.json".to_string(),
        "imported_versions".to_string(),
        DEFAULT_VERSIONS_API_UWP.to_string(),
        DEFAULT_VERSIONS_API_GDK.to_string(),
    )
}

fn names(l: &VersionList) -> Vec<(String, bool)> {
    l.versions().iter().map(|v| (v.name.clone(), v.is_new)).collect()
}

fn invalid_message(r: Result<(), CoreError>) -> String {
    match r {
        Err(CoreError::InvalidResponse(m)) => m,
        other => panic!("expected an invalid response, got {:?}", other),
    }
}

#[test]
fn version_type_codes() {
    assert_eq!(VersionType::from_i64(0), Some(VersionType::Release));
    assert_eq!(VersionType::from_i64(1), Some(VersionType::Beta));
    assert_eq!(VersionType::from_i64(2), Some(VersionType::Preview));
    assert_eq!(VersionType::from_i64(100), Some(VersionType::Imported));
    assert_eq!(VersionType::from_i64(3), None);
    assert_eq!(VersionType::from_i64(-1), None);
    assert_eq!(VersionType::from_i64(99), None);
}

#[test]
fn directory_and_file_names() {
    assert_eq!(
        build_game_directory("1.20.1", VersionType::Release, PackageType::Gdk),
        "Minecraft-GDK-1.20.1"
    );
    assert_eq!(
        build_game_directory("1.21.0", VersionType::Preview, PackageType::Uwp),
        "Minecraft-Preview-UWP-1.21.0"
    );
    assert_eq!(
        build_legacy_game_directory("1.2", VersionType::Beta),
        "Minecraft-1.2"
    );
    assert_eq!(
        build_download_filename("1.2", VersionType::Release, PackageType::Uwp),
        "Minecraft-1.2.appx"
    );
    assert_eq!(
        build_download_filename("1.3", VersionType::Preview, PackageType::Gdk),
        "Minecraft-Preview-1.3.msixvc"
    );
}

#[test]
fn download_file_is_legacy_directory_with_extension() {
    for (vt, pt, ext) in [
        (VersionType::Release, PackageType::Uwp, "appx"),
        (VersionType::Preview, PackageType::Gdk, "msixvc"),
    ] {
        let dir = build_legacy_game_directory("9.9", vt);
        assert_eq!(build_download_filename("9.9", vt, pt), format!("{}.{}", dir, ext));
    }
}

#[test]
fn tagged_directory_wins_when_present() {
    let d = dirs(&[("Minecraft-UWP-1.0", false), ("Minecraft-1.0", false)]);
    assert_eq!(
        resolve_game_directory("1.0", VersionType::Release, PackageType::Uwp, &d),
        "Minecraft-UWP-1.0"
    );
}

#[test]
fn legacy_directory_of_the_same_kind_is_reused() {
    let d = dirs(&[("Minecraft-1.0", true)]);
    assert_eq!(
        resolve_game_directory("1.0", VersionType::Release, PackageType::Gdk, &d),
        "Minecraft-1.0"
    );
    assert!(is_gdk_directory(&d, "Minecraft-1.0"));
    let d = dirs(&[("Minecraft-Preview-2.0", false)]);
    assert_eq!(
        resolve_game_directory("2.0", VersionType::Preview, PackageType::Uwp, &d),
        "Minecraft-Preview-2.0"
    );
}

#[test]
fn directory_names_match_without_regard_to_case() {
    let d = dirs(&[("minecraft-1.0", true)]);
    assert_eq!(
        resolve_game_directory("1.0", VersionType::Release, PackageType::Gdk, &d),
        "Minecraft-1.0"
    );
    assert!(is_gdk_directory(&d, "MINECRAFT-1.0"));
    assert!(!is_gdk_directory(&d, "Minecraft-1.00"));
    let d = dirs(&[("MINECRAFT-UWP-1.0", false)]);
    assert_eq!(
        resolve_game_directory("1.0", VersionType::Release, PackageType::Uwp, &d),
        "Minecraft-UWP-1.0"
    );
}

#[test]
fn legacy_directory_of_the_other_kind_is_not_reused() {
    let d = dirs(&[("Minecraft-1.0", false)]);
    assert_eq!(
        resolve_game_directory("1.0", VersionType::Release, PackageType::Gdk, &d),
        "Minecraft-GDK-1.0"
    );
    assert_eq!(
        resolve_game_directory("1.0", VersionType::Release, PackageType::Uwp, &no_dirs()),
        "Minecraft-UWP-1.0"
    );
}

#[test]
fn display_names() {
    let mut v = Version::new_from_db(
        "u".to_string(),
        "1.2.3".to_string(),
        VersionType::Beta,
        true,
        PackageType::Uwp,
        Vec::new(),
        &no_dirs(),
    );
    assert_eq!(v.display_name(), "1.2.3 - UWP (beta) (NEW!)");
    v.is_new = false;
    v.version_type = VersionType::Preview;
    v.package_type = PackageType::Gdk;
    assert_eq!(v.display_name(), "1.2.3 - GDK (preview)");
    v.version_type = VersionType::Release;
    assert_eq!(v.display_name(), "1.2.3 - GDK");
}

#[test]
fn package_families() {
    let mut v = Version::new_imported("x".to_string(), "dir".to_string(), PackageType::Uwp);
    assert_eq!(v.game_package_family(), PackageFamilies::MINECRAFT);
    v.version_type = VersionType::Preview;
    assert_eq!(v.game_package_family(), "Microsoft.MinecraftWindowsBeta_8wekyb3d8bbwe");
}

#[test]
fn imported_versions() {
    let v = Version::new_imported("mine".to_string(), "imported_versions/mine".to_string(), PackageType::Gdk);
    assert_eq!(v.uuid, UNKNOWN_UUID);
    assert!(v.is_imported());
    assert!(!v.is_new);
    assert!(v.download_urls.is_empty());
    assert_eq!(v.game_directory, "imported_versions/mine");
}

#[test]
fn uwp_list_is_read_from_the_end() {
    let data = arr(vec![
        arr(vec![s("1.0"), s("uuid-a"), n(0)]),
        arr(vec![s("1.1"), s("uuid-b"), n(1)]),
        arr(vec![s("imp"), s("uuid-c"), n(100)]),
        arr(vec![s("odd"), s("uuid-d"), n(7)]),
        arr(vec![s("1.2"), s("uuid-e"), n(2), s("extra")]),
    ]);
    let mut l = list();
    l.parse_list_uwp(&data, false, &no_dirs()).unwrap();
    assert_eq!(
        names(&l),
        vec![
            ("1.2".to_string(), true),
            ("1.1".to_string(), true),
            ("1.0".to_string(), true)
        ]
    );
    let v = &l.versions()[1];
    assert_eq!(v.uuid, "uuid-b");
    assert_eq!(v.version_type, VersionType::Beta);
    assert_eq!(v.package_type, PackageType::Uwp);
    assert_eq!(v.game_directory, "Minecraft-UWP-1.1");
    assert_eq!(l.versions()[0].game_directory, "Minecraft-Preview-UWP-1.2");
}

#[test]
fn uwp_errors() {
    let mut l = list();
    assert_eq!(
        invalid_message(l.parse_list_uwp(&obj(vec![]), false, &no_dirs())),
        "UWP list is not an array"
    );
    assert_eq!(
        invalid_message(l.parse_list_uwp(&arr(vec![s("x")]), false, &no_dirs())),
        "UWP entry is not an array"
    );
    assert_eq!(
        invalid_message(l.parse_list_uwp(&arr(vec![arr(vec![s("a"), s("b")])]), false, &no_dirs())),
        "UWP entry does not have 3 fields"
    );
    assert_eq!(
        invalid_message(l.parse_list_uwp(&arr(vec![arr(vec![n(1), s("b"), n(0)])]), false, &no_dirs())),
        "UWP name is not a string"
    );
    assert_eq!(
        invalid_message(l.parse_list_uwp(&arr(vec![arr(vec![s("a"), JsonValue::Null, n(0)])]), false, &no_dirs())),
        "UWP uuid is not a string"
    );
    assert_eq!(
        invalid_message(l.parse_list_uwp(&arr(vec![arr(vec![s("a"), s("b"), JsonValue::Number(None)])]), false, &no_dirs())),
        "UWP version type is not an int"
    );
    assert!(l.versions().is_empty());
}

#[test]
fn a_bad_uwp_entry_keeps_what_was_read_after_it() {
    let data = arr(vec![
        arr(vec![s("bad")]),
        arr(vec![s("1.0"), s("u"), n(0)]),
    ]);
    let mut l = list();
    let r = l.parse_list_uwp(&data, false, &no_dirs());
    assert_eq!(invalid_message(r), "UWP entry does not have 3 fields");
    assert_eq!(names(&l), vec![("1.0".to_string(), true)]);
}

fn gdk_data() -> JsonValue {
    obj(vec![
        (
            "release",
            obj(vec![
                ("1.20.0", arr(vec![s("http://r/1"), n(5), s("http://r/2")])),
                ("1.19.0", arr(vec![])),
                ("1.18.0", arr(vec![JsonValue::Bool(true)])),
            ]),
        ),
        ("preview", obj(vec![("1.21.0", arr(vec![s("http://p/1")]))])),
    ])
}

#[test]
fn gdk_data_is_read_release_then_preview() {
    let mut l = list();
    l.parse_data_gdk(&gdk_data(), false, &dirs(&[("Minecraft-Preview-GDK-1.21.0", true)])).unwrap();
    let vs = l.versions();
    assert_eq!(vs.len(), 2);
    assert_eq!(vs[0].name, "1.20.0");
    assert_eq!(vs[0].uuid, UNKNOWN_UUID);
    assert_eq!(vs[0].version_type, VersionType::Release);
    assert_eq!(vs[0].package_type, PackageType::Gdk);
    assert_eq!(vs[0].download_urls, vec!["http://r/1".to_string(), "http://r/2".to_string()]);
    assert_eq!(vs[0].game_directory, "Minecraft-GDK-1.20.0");
    assert_eq!(vs[1].name, "1.21.0");
    assert_eq!(vs[1].version_type, VersionType::Preview);
    assert_eq!(vs[1].game_directory, "Minecraft-Preview-GDK-1.21.0");
    assert!(vs[0].is_new && vs[1].is_new);
}

#[test]
fn gdk_errors() {
    let mut l = list();
    assert_eq!(
        invalid_message(l.parse_data_gdk(&obj(vec![("preview", obj(vec![]))]), false, &no_dirs())),
        "GDK data missing release"
    );
    let missing_preview = obj(vec![("release", obj(vec![("1.0", arr(vec![s("u")]))]))]);
    assert_eq!(
        invalid_message(l.parse_data_gdk(&missing_preview, false, &no_dirs())),
        "GDK data missing preview"
    );
    assert!(l.versions().is_empty());
    let not_object = obj(vec![("release", arr(vec![])), ("preview", obj(vec![]))]);
    assert_eq!(
        invalid_message(l.parse_data_gdk(&not_object, false, &no_dirs())),
        "GDK list is not an object"
    );
    let bad_urls = obj(vec![
        ("release", obj(vec![("1.0", arr(vec![s("u")])), ("1.1", s("u"))])),
        ("preview", obj(vec![])),
    ]);
    assert_eq!(
        invalid_message(l.parse_data_gdk(&bad_urls, false, &no_dirs())),
        "GDK urls entry is not an array"
    );
    assert_eq!(names(&l), vec![("1.0".to_string(), true)]);
}

#[test]
fn cached_lists_mark_nothing_new_and_known_names_stay_old() {
    let uwp = arr(vec![arr(vec![s("1.0"), s("u"), n(0)])]);
    let mut l = list();
    l.parse_list_uwp(&uwp, true, &no_dirs()).unwrap();
    l.parse_data_gdk(&gdk_data(), true, &no_dirs()).unwrap();
    assert!(l.versions().iter().all(|v| !v.is_new));
    l.load_from_cache_uwp(None, &no_dirs()).unwrap();
    assert_eq!(l.versions().len(), 3);
    l.prepare_for_reload();
    assert!(l.versions().is_empty());
    let fresh = arr(vec![
        arr(vec![s("1.0"), s("u"), n(0)]),
        arr(vec![s("1.1"), s("u2"), n(0)]),
    ]);
    l.parse_list_uwp(&fresh, false, &no_dirs()).unwrap();
    assert_eq!(
        names(&l),
        vec![("1.1".to_string(), true), ("1.0".to_string(), false)]
    );
}

#[test]
fn downloading_the_same_list_twice_marks_nothing_new_the_second_time() {
    let mut l = list();
    l.parse_data_gdk(&gdk_data(), false, &no_dirs()).unwrap();
    l.parse_data_gdk(&gdk_data(), false, &no_dirs()).unwrap();
    let flags: Vec<bool> = l.versions().iter().map(|v| v.is_new).collect();
    assert_eq!(flags, vec![true, true, false, false]);
}

fn entry(name: Option<&str>, is_dir: bool, gdk: bool) -> ImportedEntry {
    ImportedEntry {
        name: name.map(|n| n.to_string()),
        path: format!("imported_versions/{}", name.unwrap_or("?")),
        is_dir,
        has_game_config: gdk,
    }
}

#[test]
fn imported_directories_become_versions_once() {
    let entries = vec![
        entry(Some("mine"), true, true),
        entry(Some("file.txt"), false, false),
        entry(None, true, false),
        entry(Some("old"), true, false),
    ];
    let mut l = list();
    l.load_imported(&entries);
    let vs: Vec<(String, PackageType, String)> = l
        .versions()
        .iter()
        .map(|v| (v.name.clone(), v.package_type, v.game_directory.clone()))
        .collect();
    assert_eq!(
        vs,
        vec![
            ("mine".to_string(), PackageType::Gdk, "imported_versions/mine".to_string()),
            ("old".to_string(), PackageType::Uwp, "imported_versions/old".to_string()),
        ]
    );
    l.load_imported(&entries);
    assert_eq!(l.versions().len(), 2);
}

#[test]
fn reload_keeps_only_imported_versions() {
    let mut l = list();
    l.load_imported(&vec![entry(Some("mine"), true, false)]);
    l.parse_list_uwp(&arr(vec![arr(vec![s("1.0"), s("u"), n(0)])]), false, &no_dirs()).unwrap();
    assert_eq!(l.versions().len(), 2);
    l.prepare_for_reload();
    assert_eq!(names(&l), vec![("mine".to_string(), false)]);
    l.prepare_for_reload();
    assert_eq!(names(&l), vec![("mine".to_string(), false)]);
}

#[test]
fn an_imported_name_does_not_shadow_a_database_name() {
    let mut l = list();
    l.load_imported(&vec![entry(Some("1.0"), true, false)]);
    l.parse_list_uwp(&arr(vec![arr(vec![s("1.0"), s("u"), n(0)])]), false, &no_dirs()).unwrap();
    assert_eq!(
        names(&l),
        vec![("1.0".to_string(), false), ("1.0".to_string(), true)]
    );
}

#[test]
fn list_sources_are_kept() {
    let l = list();
    assert_eq!(l.versions_api_uwp(), DEFAULT_VERSIONS_API_UWP);
    assert_eq!(l.versions_api_gdk(), DEFAULT_VERSIONS_API_GDK);
    assert_eq!(l.cache_file_uwp(), "versions_uwp.json");
    assert_eq!(l.cache_file_gdk(), "versions_gdk.json");
    assert_eq!(l.imported_directory(), "imported_versions");
}

#[test]
fn json_member_lookup_takes_the_first_match() {
    let v = obj(vec![("k", n(1)), ("k", n(2))]);
    assert_eq!(v.get("k").and_then(|x| x.as_i64()), Some(1));
    assert!(v.get("missing").is_none());
    assert!(arr(vec![]).get("k").is_none());
    assert_eq!(s("t").as_str(), Some("t"));
    assert!(n(1).as_array().is_none());
}

#[test]
fn cache_text_that_is_not_json_is_a_json_error() {
    let mut l = list();
    l.parse_list_uwp(&arr(vec![arr(vec![s("1.0"), s("u"), n(0)])]), false, &no_dirs()).unwrap();
    assert!(matches!(l.load_from_cache_uwp(Some("[[\"1.1\", "), &no_dirs()), Err(CoreError::Json(_))));
    assert!(matches!(l.load_from_cache_gdk(Some("not json"), &no_dirs()), Err(CoreError::Json(_))));
    assert!(matches!(l.download_versions_uwp("{", &no_dirs()), Err(CoreError::Json(_))));
    assert!(matches!(l.download_versions_gdk("", &no_dirs()), Err(CoreError::Json(_))));
    assert_eq!(names(&l), vec![("1.0".to_string(), true)]);
    l.load_from_cache_gdk(None, &no_dirs()).unwrap();
    assert_eq!(l.versions().len(), 1);
}

#[test]
fn database_texts_are_parsed() {
    let mut l = list();
    l.download_versions_uwp(r#"[["1.0","uuid-a",0],["1.1","uuid-b",1.5],["1.2","uuid-c",99999999999999999999]]"#, &no_dirs())
        .map(|_| ())
        .unwrap_err();
    assert!(l.versions().is_empty());
    l.download_versions_uwp(r#"[["1.0","uuid-a",0],["1.1","uuid-b",2]]"#, &no_dirs()).unwrap();
    assert_eq!(names(&l), vec![("1.1".to_string(), true), ("1.0".to_string(), true)]);
    assert_eq!(l.versions()[0].version_type, VersionType::Preview);
}

#[test]
fn gdk_text_members_are_read_in_key_order() {
    let mut l = list();
    let text = r#"{"release":{"1.9":["a"],"1.10":["b", 3],"1.2":[]},"preview":{"2.0":["p"]}}"#;
    l.download_versions_gdk(text, &no_dirs()).unwrap();
    let got: Vec<String> = l.versions().iter().map(|v| v.name.clone()).collect();
    assert_eq!(got, vec!["1.10", "1.9", "2.0"]);
    assert_eq!(l.versions()[0].download_urls, vec!["b".to_string()]);
}

#[test]
fn a_cache_read_gives_back_what_a_download_added() {
    let uwp = r#"[["1.0","u0",0],["1.1","u1",1],["x","u2",100]]"#;
    let gdk = r#"{"release":{"1.20":["r"]},"preview":{"1.21":["p"]}}"#;
    let mut downloaded = list();
    downloaded.load_imported(&vec![entry(Some("mine"), true, false)]);
    downloaded.download_versions_gdk(gdk, &no_dirs()).unwrap();
    downloaded.download_versions_uwp(uwp, &no_dirs()).unwrap();
    let mut cached = list();
    cached.load_from_cache_gdk(Some(gdk), &no_dirs()).unwrap();
    cached.load_from_cache_uwp(Some(uwp), &no_dirs()).unwrap();
    let strip = |v: &Version| (v.uuid.clone(), v.name.clone(), v.version_type, v.package_type, v.download_urls.clone(), v.game_directory.clone());
    let added: Vec<_> = downloaded.versions()[1..].iter().map(strip).collect();
    let replayed: Vec<_> = cached.versions().iter().map(strip).collect();
    assert_eq!(added, replayed);
    assert!(downloaded.versions()[1..].iter().all(|v| v.is_new));
    assert!(cached.versions().iter().all(|v| !v.is_new));
}
