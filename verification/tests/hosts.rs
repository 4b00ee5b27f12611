use cblt::directive::Directive;
use cblt::hosts::{starts_with_star, HostTable};

fn redir(destination: &str) -> Vec<Directive> {
    vec![Directive::Redir { destination: destination.to_string() }]
}

fn table(entries: &[(&str, &str)]) -> HostTable {
    let mut table = HostTable::new();
    for (name, destination) in entries {
        table.insert(name.to_string(), redir(destination));
    }
    table
}

#[test]
fn new_table_is_empty() {
    let table = HostTable::new();
    assert_eq!(table.len(), 0);
    assert_eq!(table.entry(0), None);
    assert_eq!(table.find("example.com"), None);
    assert_eq!(table.find_wildcard(), None);
    assert_eq!(table.select("example.com"), None);
}

#[test]
fn insertion_order_is_kept() {
    let table = table(&[("b.test", "/b"), ("a.test", "/a"), ("c.test", "/c")]);
    assert_eq!(table.len(), 3);
    assert_eq!(table.entry(0).unwrap().name, "b.test");
    assert_eq!(table.entry(1).unwrap().name, "a.test");
    assert_eq!(table.entry(2).unwrap().name, "c.test");
    assert_eq!(table.entry(3), None);
}

#[test]
fn insert_under_a_known_name_replaces_in_place() {
    let mut table = table(&[("a.test", "/a"), ("b.test", "/b")]);
    table.insert("a.test".to_string(), redir("/new"));
    assert_eq!(table.len(), 2);
    assert_eq!(table.entry(0).unwrap().name, "a.test");
    assert_eq!(table.entry(0).unwrap().directives, redir("/new"));
    assert_eq!(table.entry(1).unwrap().directives, redir("/b"));
}

#[test]
fn request_for_one_host_never_gets_another_hosts_directives() {
    let table = table(&[("h1.test", "/one"), ("h2.test", "/two")]);
    let i = table.select("h1.test").unwrap();
    assert_eq!(table.entry(i).unwrap().name, "h1.test");
    assert_eq!(table.entry(i).unwrap().directives, redir("/one"));
    let j = table.select("h2.test").unwrap();
    assert_eq!(table.entry(j).unwrap().directives, redir("/two"));
    assert_ne!(i, j);
}

#[test]
fn unknown_host_selects_nothing() {
    let table = table(&[("h1.test", "/one"), ("h2.test", "/two")]);
    assert_eq!(table.select("h3.test"), None);
    assert_eq!(table.select(""), None);
    assert_eq!(table.select("H1.TEST"), None);
    assert_eq!(table.select("h1.test:80"), None);
}

#[test]
fn wildcard_is_selected_for_every_host() {
    let table = table(&[("h1.test", "/one"), ("*", "/any"), ("h2.test", "/two")]);
    for host in ["h1.test", "h2.test", "other.test", "", "*"] {
        assert_eq!(table.select(host), Some(1));
    }
}

#[test]
fn first_wildcard_is_taken() {
    let table = table(&[("a.test", "/a"), ("*.b.test", "/b"), ("*", "/any")]);
    assert_eq!(table.find_wildcard(), Some(1));
    assert_eq!(table.select("x.b.test"), Some(1));
    assert_eq!(table.select("a.test"), Some(1));
}

#[test]
fn wildcard_is_told_by_the_first_character() {
    assert!(starts_with_star("*"));
    assert!(starts_with_star("*.example.com"));
    assert!(!starts_with_star(""));
    assert!(!starts_with_star("example.*"));
    assert!(!starts_with_star(" *"));
}

#[test]
fn find_is_exact() {
    let table = table(&[("a.test", "/a"), ("a.test ", "/b")]);
    assert_eq!(table.find("a.test"), Some(0));
    assert_eq!(table.find("a.test "), Some(1));
    assert_eq!(table.find("a.tes"), None);
}

#[test]
fn directives_are_found_by_name() {
    let mut table = table(&[("a.test", "/a"), ("b.test", "/b")]);
    assert_eq!(table.get("a.test"), Some(&redir("/a")));
    assert_eq!(table.get("b.test"), Some(&redir("/b")));
    assert_eq!(table.get("c.test"), None);
    table.insert("c.test".to_string(), redir("/c"));
    assert_eq!(table.get("c.test"), Some(&redir("/c")));
    assert_eq!(table.get("a.test"), Some(&redir("/a")));
    table.insert("a.test".to_string(), Vec::new());
    assert_eq!(table.get("a.test"), Some(&Vec::new()));
    assert_eq!(table.get("b.test"), Some(&redir("/b")));
}
