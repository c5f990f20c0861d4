use nvm_windows::command_args::{SemVer, VersionSpec};
use nvm_windows::model::ArchSpec;

#[test]
fn semver_keywords_any_case() {
    assert!(matches!(VersionSpec::parse("LTS"), Ok(VersionSpec::Lts)));
    assert!(matches!(VersionSpec::parse("LaTeSt"), Ok(VersionSpec::Latest)));
}

#[test]
fn semver_exact_version() {
    match VersionSpec::parse("1.2.3") {
        Ok(VersionSpec::Exact(v)) => {
            assert_eq!((v.major, v.minor, v.patch), (1, 2, 3));
            assert_eq!(v.pre, "");
            assert_eq!(v.build, "");
        }
        other => panic!("unexpected {:?}", other),
    }
}

#[test]
fn semver_lowercases_before_parsing() {
    match VersionSpec::parse("22.5.0-RC.1+Build5") {
        Ok(VersionSpec::Exact(v)) => {
            assert_eq!((v.major, v.minor, v.patch), (22, 5, 0));
            assert_eq!(v.pre, "rc.1");
            assert_eq!(v.build, "build5");
        }
        other => panic!("unexpected {:?}", other),
    }
}

#[test]
fn semver_invalid_is_refused_with_message() {
    match VersionSpec::parse("1.0") {
        Err(e) => assert_eq!(e, "'1.0' invalid. Possible values: <semver>(eg: 1.1.0), lts, latest."),
        other => panic!("unexpected {:?}", other),
    }
    match VersionSpec::parse("Foo") {
        Err(e) => assert_eq!(e, "'Foo' invalid. Possible values: <semver>(eg: 1.1.0), lts, latest."),
        other => panic!("unexpected {:?}", other),
    }
}

#[test]
fn semver_from_parsed() {
    let v = SemVer { major: 4, minor: 0, patch: 1, pre: String::new(), build: String::new() };
    assert!(matches!(VersionSpec::from_parsed("x", Some(v)), Ok(VersionSpec::Exact(ref s)) if s.major == 4));
    assert_eq!(
        VersionSpec::from_parsed("x", None).unwrap_err(),
        "'x' invalid. Possible values: <semver>(eg: 1.1.0), lts, latest."
    );
}

#[test]
fn semver_from_str_trait() {
    let v: Result<VersionSpec, String> = "latest".parse();
    assert!(matches!(v, Ok(VersionSpec::Latest)));
}

#[test]
fn semver_use_arguments() {
    assert!(matches!(VersionSpec::parse("NEWEST"), Ok(VersionSpec::Newest)));
    assert!(matches!(VersionSpec::parse("32"), Ok(VersionSpec::Arch(ArchSpec::X86))));
    assert!(matches!(VersionSpec::parse("64"), Ok(VersionSpec::Arch(ArchSpec::X64))));
}
