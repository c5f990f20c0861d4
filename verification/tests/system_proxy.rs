use nvm_windows::system_proxy::{
    get, get_env_proxy, get_env_proxy_server, get_proxy_server, get_registry_proxy, proxy_servers,
};

fn strings(items: &[&str]) -> Vec<String> {
    items.iter().map(|s| s.to_string()).collect()
}

// A machine whose environment sets HTTP_PROXY.
#[test]
fn env_get() {
    let proxy = get_env_proxy(
        || get_env_proxy_server(Some("http://127.0.0.1:7890".to_string()), None),
        || get_env_proxy_server(None, None),
    );
    assert!(proxy.is_some());
    let proxies = proxy.unwrap();
    assert!(proxies.len() > 0);
}

// A machine whose Internet settings enable the proxy 127.0.0.1:7890 for the user.
#[test]
fn registry_get() {
    let proxy = get_registry_proxy(
        || get_proxy_server(0, || panic!("ProxyServer is read only where the proxy is enabled")),
        || get_proxy_server(1, || "127.0.0.1:7890".to_string()),
    );
    assert!(proxy.is_some());
    let proxies = proxy.unwrap();
    assert!(proxies.len() > 0);
}

#[test]
fn proxy_servers_bare_host_gets_http() {
    assert_eq!(proxy_servers("127.0.0.1:7890"), strings(&["http://127.0.0.1:7890"]));
}

#[test]
fn proxy_servers_single_scheme_entry() {
    assert_eq!(proxy_servers("https=10.0.0.1:8080"), strings(&["https://10.0.0.1:8080"]));
}

#[test]
fn proxy_servers_list_of_entries() {
    assert_eq!(
        proxy_servers("http=h:1;https=h:2;ftp=h:3"),
        strings(&["http://h:1", "https://h:2", "ftp://h:3"])
    );
}

#[test]
fn proxy_servers_list_keeps_empty_entries() {
    assert_eq!(proxy_servers("http=h:1;"), strings(&["http://h:1", ""]));
    assert_eq!(proxy_servers(";"), strings(&["", ""]));
}

#[test]
fn proxy_server_disabled_is_none() {
    assert_eq!(get_proxy_server(0, || panic!("not read")), None);
}

#[test]
fn proxy_server_enabled_parses_value() {
    assert_eq!(
        get_proxy_server(7, || "http=a:1;https=b:2".to_string()),
        Some(strings(&["http://a:1", "https://b:2"]))
    );
}

#[test]
fn env_proxy_server_orders_http_then_https() {
    assert_eq!(
        get_env_proxy_server(Some("http://a".to_string()), Some("http://b".to_string())),
        Some(strings(&["http://a", "http://b"]))
    );
    assert_eq!(
        get_env_proxy_server(None, Some("http://b".to_string())),
        Some(strings(&["http://b"]))
    );
    assert_eq!(get_env_proxy_server(None, None), None);
}

#[test]
fn get_prefers_environment_and_skips_registry() {
    let r = get(
        || Some(strings(&["http://env"])),
        || panic!("the registry is read only where the environment names no proxy"),
    );
    assert_eq!(r, Some(strings(&["http://env"])));
}

#[test]
fn get_falls_back_to_registry() {
    assert_eq!(get(|| None, || Some(strings(&["http://reg"]))), Some(strings(&["http://reg"])));
    assert_eq!(get(|| None, || None), None);
}

#[test]
fn env_proxy_falls_back_to_user() {
    let r = get_env_proxy(
        || get_env_proxy_server(None, None),
        || get_env_proxy_server(None, Some("http://user:1".to_string())),
    );
    assert_eq!(r, Some(strings(&["http://user:1"])));
}
