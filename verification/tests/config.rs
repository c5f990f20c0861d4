use nvm_windows::config::Config;

#[test]
fn earlier_config_load_order() {
    let toml = Config { symlink: Some("C:\\nodejs".to_string()), ..Config::default() };
    let c = Config::load(|| Some(toml.clone()), || panic!("txt is not read"));
    assert_eq!(c.symlink, Some("C:\\nodejs".to_string()));
    let txt = Config { root: Some("D:\\nodejs".to_string()), ..Config::default() };
    let c = Config::load(|| None, || Some(txt.clone()));
    assert_eq!(c.root, Some("D:\\nodejs".to_string()));
    let c = Config::load(|| None, || None);
    assert!(c.root.is_none() && c.symlink.is_none());
}
