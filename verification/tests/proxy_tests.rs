use site_monitor::json::{JsonMember, JsonValue};
use site_monitor::monitor::{ClientConfig, Monitor};
use site_monitor::proxy::{address_of, get_random_proxy, parse_proxy, proxy_line_fields, switch_proxy, Proxy};

fn proxy(host: &str, port: &str, username: &str, password: &str) -> Proxy {
    Proxy {
        host: host.to_string(),
        port: port.to_string(),
        username: username.to_string(),
        password: password.to_string(),
    }
}

fn same(a: &Proxy, b: &Proxy) -> bool {
    a.host == b.host && a.port == b.port && a.username == b.username && a.password == b.password
}

#[test]
fn parse_proxy_with_credentials() {
    let p = parse_proxy("10.0.0.1:3128:alice:secret".to_string());
    assert!(same(&p, &proxy("10.0.0.1", "3128", "alice", "secret")));
}

#[test]
fn parse_proxy_without_credentials() {
    let p = parse_proxy("proxy.example.com:8080".to_string());
    assert!(same(&p, &proxy("proxy.example.com", "8080", "", "")));
}

#[test]
fn parse_proxy_trims_the_line() {
    let p = parse_proxy("  proxy.example.com:8080\r\n".to_string());
    assert!(same(&p, &proxy("proxy.example.com", "8080", "", "")));
    let p = parse_proxy("\th:1:u:p  ".to_string());
    assert!(same(&p, &proxy("h", "1", "u", "p")));
}

#[test]
fn proxy_line_fields_counts_fields() {
    assert_eq!(proxy_line_fields("a:b:c").len(), 3);
    assert_eq!(proxy_line_fields("a").len(), 1);
    assert_eq!(proxy_line_fields("").len(), 1);
    assert_eq!(proxy_line_fields("a:b:c:d"), vec!["a", "b", "c", "d"]);
}

#[test]
fn address_is_http_host_port() {
    assert_eq!(address_of(&proxy("10.1.2.3", "8080", "u", "p")), "http://10.1.2.3:8080");
}

#[test]
fn random_proxy_comes_from_the_list() {
    let proxies = vec![proxy("a", "1", "", ""), proxy("b", "2", "u", "p"), proxy("c", "3", "", "")];
    for _ in 0..50 {
        let p = get_random_proxy(&proxies);
        assert!(proxies.iter().any(|q| same(p, q)));
    }
}

fn site_info() -> JsonValue {
    JsonValue::Object(vec![
        JsonMember { key: "url".to_string(), value: JsonValue::Str("https://example.com/p".to_string()) },
        JsonMember { key: "data_type".to_string(), value: JsonValue::Str("not_text".to_string()) },
        JsonMember { key: "text".to_string(), value: JsonValue::Str("x".to_string()) },
    ])
}

#[test]
fn switch_proxy_sets_an_authenticated_proxied_client() {
    let mut monitor = Monitor::new(&site_info());
    assert!(matches!(monitor.client, ClientConfig::Direct));
    let proxies = vec![proxy("10.0.0.9", "3128", "bob", "pw")];
    switch_proxy(&mut monitor, &proxies);
    match &monitor.client {
        ClientConfig::Proxied { address, username, password } => {
            assert_eq!(address, "http://10.0.0.9:3128");
            assert_eq!(username, "bob");
            assert_eq!(password, "pw");
        }
        ClientConfig::Direct => panic!("the client was not switched"),
    }
    assert_eq!(monitor.url, "https://example.com/p");
    assert_eq!(monitor.successive_err_count, 0);
}
