use sshtui::config::{Config, ConfigError, Group, Host, SshKey};

fn host(name: &str) -> Host {
    Host {
        name: name.to_string(),
        host: format!("{}.example", name),
        user: "u".to_string(),
        port: 22,
        key_path: None,
    }
}

fn group(name: &str, hosts: Vec<Host>) -> Group {
    Group { name: name.to_string(), color: "red".to_string(), hosts }
}

fn key(name: &str, default: bool) -> SshKey {
    SshKey { name: name.to_string(), path: format!("/k/{}", name), is_default: default }
}

fn names(hosts: &[Host]) -> Vec<String> {
    hosts.iter().map(|h| h.name.clone()).collect()
}

#[test]
fn default_config_has_all_and_default_groups() {
    let c = Config::default();
    assert_eq!(c.groups.len(), 2);
    assert_eq!(c.groups[0].name, "All");
    assert_eq!(c.groups[0].color, "blue");
    assert_eq!(c.groups[1].name, "Default");
    assert_eq!(c.groups[1].color, "green");
    assert!(c.keys.is_empty());
}

#[test]
fn ensure_all_group_inserts_once() {
    let mut c = Config { groups: vec![group("work", vec![])], keys: vec![] };
    c.ensure_all_group();
    assert_eq!(c.groups.len(), 2);
    assert_eq!(c.groups[0].name, "All");
    assert_eq!(c.groups[1].name, "work");
    c.ensure_all_group();
    assert_eq!(c.groups.len(), 2);
    let mut empty = Config { groups: vec![], keys: vec![] };
    empty.ensure_all_group();
    assert_eq!(empty.groups.len(), 1);
}

#[test]
fn all_group_lists_every_host() {
    let mut c = Config::default();
    c.add_group(group("a", vec![host("a1"), host("a2")]));
    c.add_group(group("b", vec![host("b1")]));
    assert_eq!(c.groups[1].name, "b");
    assert_eq!(names(&c.get_hosts_for_group(0)), vec!["b1", "a1", "a2"]);
    assert_eq!(names(&c.get_hosts_for_group(2)), vec!["a1", "a2"]);
    assert!(c.get_hosts_for_group(9).is_empty());
}

#[test]
fn group_without_all_is_appended() {
    let mut c = Config { groups: vec![group("x", vec![host("x1")])], keys: vec![] };
    c.add_group(group("y", vec![]));
    assert_eq!(c.groups[1].name, "y");
    assert_eq!(names(&c.get_hosts_for_group(0)), vec!["x1"]);
}

#[test]
fn add_host_to_group_rules() {
    let mut c = Config::default();
    assert!(matches!(c.add_host_to_group("All", host("h")), Err(ConfigError::AllGroupIsVirtual)));
    match c.add_host_to_group("nope", host("h")) {
        Err(ConfigError::GroupNotFound(n)) => assert_eq!(n, "nope"),
        other => panic!("unexpected {:?}", other),
    }
    assert!(c.add_host_to_group("Default", host("h")).is_ok());
    assert_eq!(names(&c.groups[1].hosts), vec!["h"]);
}

#[test]
fn add_key_moves_default_mark() {
    let mut c = Config::default();
    c.add_key(key("a", true));
    c.add_key(key("b", false));
    assert_eq!(c.get_default_key().unwrap().name, "a");
    c.add_key(key("c", true));
    assert!(!c.keys[0].is_default);
    assert!(!c.keys[1].is_default);
    assert!(c.keys[2].is_default);
    assert_eq!(c.get_default_key().unwrap().name, "c");
}

#[test]
fn remove_key_drops_all_with_name() {
    let mut c = Config::default();
    c.add_key(key("a", false));
    c.add_key(key("b", true));
    c.add_key(key("a", false));
    c.remove_key("a");
    assert_eq!(c.keys.len(), 1);
    assert_eq!(c.keys[0].name, "b");
    c.remove_key("b");
    assert!(c.get_default_key().is_none());
}

#[test]
fn remove_group_spares_all() {
    let mut c = Config::default();
    c.remove_group("All");
    assert_eq!(c.groups.len(), 2);
    c.remove_group("Default");
    assert_eq!(c.groups.len(), 1);
    assert_eq!(c.groups[0].name, "All");
}

#[test]
fn remove_host_rules() {
    let mut c = Config::default();
    c.add_host_to_group("Default", host("h1")).unwrap();
    c.add_host_to_group("Default", host("h2")).unwrap();
    assert!(matches!(c.remove_host("All", "h1"), Err(ConfigError::AllGroupIsVirtual)));
    assert!(matches!(c.remove_host("zzz", "h1"), Err(ConfigError::GroupNotFound(_))));
    assert!(c.remove_host("Default", "h1").is_ok());
    assert_eq!(names(&c.groups[1].hosts), vec!["h2"]);
}

#[test]
fn key_path_prefers_host_key() {
    let mut c = Config::default();
    let mut h = host("h");
    assert!(c.key_path_for(&h).is_none());
    c.add_key(key("d", true));
    assert_eq!(c.key_path_for(&h), Some("/k/d".to_string()));
    h.key_path = Some("/own".to_string());
    assert_eq!(c.key_path_for(&h), Some("/own".to_string()));
    let dup = h.duplicate();
    assert_eq!(dup.key_path, h.key_path);
}
