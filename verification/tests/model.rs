use nvm_windows::model::{
    save_target, ArchSpec, Config, ConfigError, ConfigFormat, Formats, LtsSpec, NodeReleaseInfo,
    ReleaseDatabase, VersionSpec, proxy_from_setting,
};

fn release(version: &str, lts: LtsSpec) -> NodeReleaseInfo {
    NodeReleaseInfo { version: version.to_string(), date: "2025-01-01".to_string(), lts }
}

fn codename(name: &str) -> LtsSpec {
    LtsSpec::Codename(name.to_string())
}

fn database() -> ReleaseDatabase {
    ReleaseDatabase::new(vec![
        release("v24.0.0", LtsSpec::NotLts(false)),
        release("v22.1.0", codename("Jod")),
        release("v23.5.0", LtsSpec::NotLts(false)),
        release("v20.9.0", codename("Iron")),
        release("v21.0.0", LtsSpec::NotLts(true)),
        release("v10.0.0", codename("Dubnium")),
        release("v1.0.0", LtsSpec::NotLts(false)),
    ])
}

fn strings(items: &[&str]) -> Vec<String> {
    items.iter().map(|s| s.to_string()).collect()
}

#[test]
fn latest_is_first_release() {
    assert_eq!(database().latest(), Some("v24.0.0".to_string()));
    assert_eq!(ReleaseDatabase::new(vec![]).latest(), None);
}

#[test]
fn latest_lts_is_first_codename() {
    assert_eq!(database().latest_lts(), Some("v22.1.0".to_string()));
    let no_lts = ReleaseDatabase::new(vec![release("v25.0.0", LtsSpec::NotLts(false))]);
    assert_eq!(no_lts.latest_lts(), None);
}

#[test]
fn version_exists_with_and_without_v() {
    let db = database();
    assert!(db.version_exists("24.0.0"));
    assert!(db.version_exists("v24.0.0"));
    assert!(db.version_exists("10.0.0"));
    assert!(!db.version_exists("24.0.1"));
    assert!(!db.version_exists(""));
    assert!(!db.version_exists("vv24.0.0"));
}

#[test]
fn by_major_selects_the_major_line_and_fills() {
    let db = database();
    assert_eq!(db.by_major(22, 3), strings(&["v22.1.0", "", ""]));
    assert_eq!(db.by_major(2, 2), strings(&["", ""]));
    assert_eq!(db.by_major(1, 0), strings(&["v1.0.0"]));
    assert_eq!(db.by_major(10, 1), strings(&["v10.0.0"]));
    assert_eq!(db.by_major(99, 1), strings(&[""]));
}

#[test]
fn by_major_does_not_take_longer_majors() {
    let db = ReleaseDatabase::new(vec![
        release("v20.1.0", LtsSpec::NotLts(false)),
        release("v2.3.0", LtsSpec::NotLts(false)),
        release("v2.0.0", LtsSpec::NotLts(false)),
    ]);
    assert_eq!(db.by_major(2, 0), strings(&["v2.3.0", "v2.0.0"]));
    assert_eq!(db.by_major(20, 0), strings(&["v20.1.0"]));
}

#[test]
fn latest_list_keeps_non_lts_false_only() {
    let db = database();
    assert_eq!(db.latest_list(2), strings(&["v24.0.0", "v23.5.0"]));
    assert_eq!(db.latest_list(5), strings(&["v24.0.0", "v23.5.0", "v1.0.0", "", ""]));
    assert_eq!(db.latest_list(0), Vec::<String>::new());
}

#[test]
fn lts_list_takes_and_fills() {
    let db = database();
    assert_eq!(db.lts_list(2), strings(&["v22.1.0", "v20.9.0"]));
    assert_eq!(db.lts_list(4), strings(&["v22.1.0", "v20.9.0", "v10.0.0", ""]));
}

#[test]
fn lts_list_of_one_heads_with_latest_lts() {
    let db = database();
    assert_eq!(db.lts_list(1), vec![db.latest_lts().unwrap()]);
    let empty = ReleaseDatabase::new(vec![]);
    assert_eq!(empty.latest_lts(), None);
    assert_eq!(empty.lts_list(1), strings(&[""]));
}

#[test]
fn shorter_list_is_prefix_of_longer() {
    let db = database();
    let long = db.lts_list(6);
    assert_eq!(long.len(), 6);
    assert_eq!(&long[..2], &db.lts_list(2)[..]);
}

#[test]
fn database_derefs_to_releases() {
    let db = database();
    assert_eq!(db.len(), 7);
    assert_eq!(db[3].version, "v20.9.0");
}

#[test]
fn version_spec_keywords_any_case() {
    assert!(matches!(VersionSpec::parse("LTS"), Ok(VersionSpec::Lts)));
    assert!(matches!(VersionSpec::parse("lts"), Ok(VersionSpec::Lts)));
    assert!(matches!(VersionSpec::parse("Latest"), Ok(VersionSpec::Latest)));
}

#[test]
fn version_spec_exact_gets_v() {
    match VersionSpec::parse("22.5.0") {
        Ok(VersionSpec::Exact(v)) => assert_eq!(v, "v22.5.0"),
        other => panic!("unexpected {:?}", other),
    }
    match VersionSpec::parse("1.1.0-RC.1") {
        Ok(VersionSpec::Exact(v)) => assert_eq!(v, "v1.1.0-rc.1"),
        other => panic!("unexpected {:?}", other),
    }
}

#[test]
fn version_spec_refuses_other_text() {
    let message = "'abc' invalid. Possible values: <semver>(eg: 1.1.0), lts, latest.";
    assert_eq!(VersionSpec::parse("abc").unwrap_err(), message);
    assert_eq!(
        VersionSpec::parse("22").unwrap_err(),
        "'22' invalid. Possible values: <semver>(eg: 1.1.0), lts, latest."
    );
}

#[test]
fn version_spec_from_lowercase_takes_text_as_is() {
    assert!(matches!(VersionSpec::from_lowercase("LTS", "lts"), Ok(VersionSpec::Lts)));
    assert_eq!(
        VersionSpec::from_lowercase("LTS", "LTS").unwrap_err(),
        "'LTS' invalid. Possible values: <semver>(eg: 1.1.0), lts, latest."
    );
}

#[test]
fn version_spec_from_parsed() {
    match VersionSpec::from_parsed("X", "x", None) {
        Err(e) => assert_eq!(e, "'X' invalid. Possible values: <semver>(eg: 1.1.0), lts, latest."),
        other => panic!("unexpected {:?}", other),
    }
}

#[test]
fn version_spec_from_str_trait() {
    let v: VersionSpec = "latest".parse().unwrap();
    assert!(matches!(v, VersionSpec::Latest));
    assert!("anything".parse::<VersionSpec>().is_err());
}

#[test]
fn arch_names() {
    assert_eq!(ArchSpec::X86.to_string(), "32");
    assert_eq!(ArchSpec::X64.to_string(), "64");
}

fn config_with_root(root: &str) -> Config {
    Config { root: Some(root.to_string()), ..Config::default() }
}

#[test]
fn load_prefers_toml() {
    let c = Config::load(|| Some(config_with_root("a")), || panic!("txt is not read"));
    assert_eq!(c.root, Some("a".to_string()));
}

#[test]
fn load_falls_back_to_txt_then_default() {
    let c = Config::load(|| None, || Some(config_with_root("b")));
    assert_eq!(c.root, Some("b".to_string()));
    let d = Config::load(|| None, || None);
    assert_eq!(d.root, None);
    assert_eq!(d.proxy, None);
    assert!(d.arch.is_none());
}

#[test]
fn is_valid_checks_root_then_originalpath() {
    let mut c = Config::default();
    assert_eq!(c.is_valid(false, false), Ok(()));
    c.originalpath = Some("p".to_string());
    assert_eq!(c.is_valid(true, false), Err(ConfigError::OriginalPathNotDirectory));
    assert_eq!(c.is_valid(true, true), Ok(()));
    c.root = Some("r".to_string());
    assert_eq!(c.is_valid(false, false), Err(ConfigError::RootNotDirectory));
    assert_eq!(c.is_valid(true, true), Ok(()));
}

#[test]
fn config_error_messages() {
    assert_eq!(ConfigError::RootNotDirectory.message(), "root is not a directory");
    assert_eq!(ConfigError::OriginalPathNotDirectory.message(), "originalpath is not a directory");
}

#[test]
fn save_target_prefers_toml() {
    let t = save_target(Formats { toml: true, yaml: true }).unwrap();
    assert_eq!(t.format, ConfigFormat::Toml);
    assert_eq!(t.file, "settings.toml");
    let t = save_target(Formats { toml: false, yaml: true }).unwrap();
    assert_eq!(t.format, ConfigFormat::Txt);
    assert_eq!(t.file, "settings.txt");
    assert!(save_target(Formats { toml: false, yaml: false }).is_none());
}

#[test]
fn config_file_names() {
    assert_eq!(ConfigFormat::Toml.file_name(), "settings.toml");
    assert_eq!(ConfigFormat::Txt.file_name(), "settings.txt");
}

#[test]
fn proxy_setting_none_values() {
    assert_eq!(proxy_from_setting("".to_string()), None);
    assert_eq!(proxy_from_setting("none".to_string()), None);
    assert_eq!(proxy_from_setting("NoNe".to_string()), None);
    assert_eq!(proxy_from_setting("NULL".to_string()), None);
    assert_eq!(proxy_from_setting("nul".to_string()), Some("nul".to_string()));
    assert_eq!(
        proxy_from_setting("http://127.0.0.1:7890".to_string()),
        Some("http://127.0.0.1:7890".to_string())
    );
}

#[test]
fn version_spec_use_arguments() {
    assert!(matches!(VersionSpec::parse("Newest"), Ok(VersionSpec::Newest)));
    assert!(matches!(VersionSpec::parse("32"), Ok(VersionSpec::Arch(ArchSpec::X86))));
    assert!(matches!(VersionSpec::parse("64"), Ok(VersionSpec::Arch(ArchSpec::X64))));
}
