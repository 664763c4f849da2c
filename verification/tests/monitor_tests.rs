use site_monitor::json::{JsonMember, JsonValue};
use site_monitor::link_set::LinkSet;
use site_monitor::monitor::{ClientConfig, Monitor};
use site_monitor::notify::{format_update_message, handle_reading, LoopAction, MAX_SUCCESSIVE_ERRORS};
use site_monitor::processing::SiteProcessor;
use site_monitor::proxy::Proxy;
use std::collections::HashSet;

fn obj(members: Vec<(&str, JsonValue)>) -> JsonValue {
    JsonValue::Object(
        members
            .into_iter()
            .map(|(k, v)| JsonMember { key: k.to_string(), value: v })
            .collect(),
    )
}

fn s(text: &str) -> JsonValue {
    JsonValue::Str(text.to_string())
}

fn bol_site() -> JsonValue {
    obj(vec![
        ("url", s("https://www.bol.com/nl/p/ps5/123/")),
        ("data_type", s("bol")),
        ("json", s("https://www.bol.com/api/ps5.json")),
    ])
}

fn links(items: &[&str]) -> LinkSet {
    LinkSet::from_links(items.iter().map(|x| x.to_string()).collect())
}

fn as_set(l: &LinkSet) -> HashSet<String> {
    l.links().iter().cloned().collect()
}

fn set(items: &[&str]) -> HashSet<String> {
    items.iter().map(|x| x.to_string()).collect()
}

#[test]
fn new_monitor_starts_empty() {
    let m = Monitor::new(&bol_site());
    assert_eq!(m.url, "https://www.bol.com/nl/p/ps5/123/");
    assert!(m.links.is_empty());
    assert!(m.links_new.is_empty());
    assert!(m.links_rem.is_empty());
    assert_eq!(m.successive_err_count, 0);
    assert!(matches!(m.client, ClientConfig::Direct));
    match &m.processor {
        SiteProcessor::Bol(b) => {
            assert_eq!(b.url, "https://www.bol.com/nl/p/ps5/123/");
            assert_eq!(b.json, "https://www.bol.com/api/ps5.json");
        }
        _ => panic!("wrong processor"),
    }
}

#[test]
fn try_new_refuses_bad_site_info() {
    assert!(Monitor::try_new(&bol_site()).is_some());
    let no_url = obj(vec![("data_type", s("bol")), ("json", s("j"))]);
    assert!(Monitor::try_new(&no_url).is_none());
    let bad_url = obj(vec![("url", s("not a url")), ("data_type", s("bol")), ("json", s("j"))]);
    assert!(Monitor::try_new(&bad_url).is_none());
    let standard = obj(vec![("url", s("https://a.b/")), ("data_type", s("standard"))]);
    assert!(Monitor::try_new(&standard).is_none());
    let unknown = obj(vec![("url", s("https://a.b/")), ("data_type", s("marktplaats"))]);
    assert!(Monitor::try_new(&unknown).is_none());
    let missing_field = obj(vec![("url", s("https://a.b/")), ("data_type", s("nike")), ("handle", s("h"))]);
    assert!(Monitor::try_new(&missing_field).is_none());
}

#[test]
fn first_reading_reports_all_links_as_new() {
    let mut m = Monitor::new(&bol_site());
    let r: Result<bool, String> = m.read_page(Ok(links(&["https://a/1", "https://a/2"])));
    assert_eq!(r, Ok(true));
    assert_eq!(as_set(&m.links_new), set(&["https://a/1", "https://a/2"]));
    assert!(m.links_rem.is_empty());
    assert_eq!(as_set(&m.links), set(&["https://a/1", "https://a/2"]));
}

#[test]
fn reading_reports_appeared_and_disappeared_links() {
    let mut m = Monitor::new(&bol_site());
    let _ = m.read_page::<String>(Ok(links(&["https://a/1", "https://a/2"])));
    let r = m.read_page::<String>(Ok(links(&["https://a/2", "https://a/3"])));
    assert_eq!(r, Ok(true));
    assert_eq!(as_set(&m.links_new), set(&["https://a/3"]));
    assert_eq!(as_set(&m.links_rem), set(&["https://a/1"]));
    assert_eq!(as_set(&m.links), set(&["https://a/2", "https://a/3"]));
}

#[test]
fn only_removals_do_not_count_as_an_update() {
    let mut m = Monitor::new(&bol_site());
    let _ = m.read_page::<String>(Ok(links(&["https://a/1", "https://a/2"])));
    let r = m.read_page::<String>(Ok(links(&["https://a/2"])));
    assert_eq!(r, Ok(false));
    assert!(m.links_new.is_empty());
    assert_eq!(as_set(&m.links_rem), set(&["https://a/1"]));
}

#[test]
fn unchanged_page_reports_nothing() {
    let mut m = Monitor::new(&bol_site());
    let _ = m.read_page::<String>(Ok(links(&["https://a/1"])));
    let r = m.read_page::<String>(Ok(links(&["https://a/1"])));
    assert_eq!(r, Ok(false));
    assert!(m.links_new.is_empty());
    assert!(m.links_rem.is_empty());
}

#[test]
fn reported_changes_rebuild_the_previous_links() {
    let old = ["https://a/1", "https://a/2", "https://a/4"];
    let new = ["https://a/2", "https://a/3", "https://a/5"];
    let mut m = Monitor::new(&bol_site());
    let _ = m.read_page::<String>(Ok(links(&old)));
    let _ = m.read_page::<String>(Ok(links(&new)));
    let current = as_set(&m.links);
    let added = as_set(&m.links_new);
    let removed = as_set(&m.links_rem);
    let rebuilt: HashSet<String> = current.difference(&added).cloned().collect::<HashSet<_>>().union(&removed).cloned().collect();
    assert_eq!(rebuilt, set(&old));
    assert!(added.is_disjoint(&removed));
}

#[test]
fn failed_reading_keeps_links_and_clears_changes() {
    let mut m = Monitor::new(&bol_site());
    let _ = m.read_page::<String>(Ok(links(&["https://a/1"])));
    let r = m.read_page::<String>(Err("timeout".to_string()));
    assert_eq!(r, Err("timeout".to_string()));
    assert!(m.links_new.is_empty());
    assert!(m.links_rem.is_empty());
    assert_eq!(as_set(&m.links), set(&["https://a/1"]));
}

#[test]
fn update_message_lists_new_then_removed_links() {
    let msg = format_update_message(&links(&["https://a/3"]), &links(&["https://a/1"]));
    assert_eq!(msg, "Site has been updated!\\nNew Links:\\nhttps://a/3\\nRemoved Links:\\nhttps://a/1\\n");
    let msg = format_update_message(&links(&["https://a/3", "https://a/4"]), &LinkSet::new());
    assert_eq!(msg, "Site has been updated!\\nNew Links:\\nhttps://a/3\\nhttps://a/4\\n");
    let msg = format_update_message(&LinkSet::new(), &LinkSet::new());
    assert_eq!(msg, "Site has been updated!\\n");
}

#[test]
fn successful_reading_with_new_links_notifies() {
    let mut m = Monitor::new(&bol_site());
    m.successive_err_count = 4;
    let outcome = m.read_page::<String>(Ok(links(&["https://a/9"])));
    match handle_reading(&mut m, &outcome, &vec![]) {
        LoopAction::Notify(msg) => assert_eq!(msg, "Site has been updated!\\nNew Links:\\nhttps://a/9\\n"),
        _ => panic!("expected a notification"),
    }
    assert_eq!(m.successive_err_count, 0);
}

#[test]
fn successful_reading_without_new_links_is_quiet() {
    let mut m = Monitor::new(&bol_site());
    m.successive_err_count = 3;
    let outcome: Result<bool, String> = Ok(false);
    assert!(matches!(handle_reading(&mut m, &outcome, &vec![]), LoopAction::Quiet));
    assert_eq!(m.successive_err_count, 0);
}

#[test]
fn eleventh_failure_in_a_row_crashes() {
    let mut m = Monitor::new(&bol_site());
    let outcome: Result<bool, String> = Err("down".to_string());
    for k in 1..=MAX_SUCCESSIVE_ERRORS {
        assert!(matches!(handle_reading(&mut m, &outcome, &vec![]), LoopAction::Quiet));
        assert_eq!(m.successive_err_count, k);
    }
    assert!(matches!(handle_reading(&mut m, &outcome, &vec![]), LoopAction::Crash));
    assert_eq!(m.successive_err_count, 11);
}

#[test]
fn failure_switches_to_a_proxy() {
    let mut m = Monitor::new(&bol_site());
    let proxies = vec![Proxy {
        host: "h".to_string(),
        port: "1".to_string(),
        username: "u".to_string(),
        password: "p".to_string(),
    }];
    let outcome: Result<bool, String> = Err("down".to_string());
    let _ = handle_reading(&mut m, &outcome, &proxies);
    match &m.client {
        ClientConfig::Proxied { address, .. } => assert_eq!(address, "http://h:1"),
        ClientConfig::Direct => panic!("no proxy was chosen"),
    }
}

#[test]
fn link_set_keeps_each_link_once() {
    let mut l = LinkSet::new();
    assert!(l.insert("https://a/1".to_string()));
    assert!(!l.insert("https://a/1".to_string()));
    assert!(l.insert("https://a/2".to_string()));
    assert_eq!(l.len(), 2);
    assert!(l.contains(&"https://a/2".to_string()));
    assert!(!l.contains(&"https://a/3".to_string()));
    assert_eq!(l.links(), &vec!["https://a/1".to_string(), "https://a/2".to_string()]);
    l.clear();
    assert!(l.is_empty());
    let d = LinkSet::from_links(vec!["x".to_string(), "y".to_string(), "x".to_string()]);
    assert_eq!(d.links(), &vec!["x".to_string(), "y".to_string()]);
}
