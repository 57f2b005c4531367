use gens_relay::peers::{NameSet, PeerDirectory, PeerInfo};

fn peer(hostname: &str, id: &str, ip: &str) -> PeerInfo {
    PeerInfo { hostname: hostname.to_string(), id: id.to_string(), ip: ip.to_string() }
}

#[test]
fn a_directory_is_a_map_by_hostname() {
    let mut d = PeerDirectory::new();
    assert_eq!(d.len(), 0);
    d.insert(peer("attic", "1", "10.0.0.1"));
    d.insert(peer("cellar", "2", "10.0.0.2"));
    d.insert(peer("attic", "3", "10.0.0.3"));
    assert_eq!(d.len(), 2);
    assert!(d.contains("attic"));
    assert!(!d.contains("garden"));
    assert_eq!(d.get("attic").unwrap().id, "3");
    assert_eq!(d.get("attic").unwrap().ip, "10.0.0.3");
    assert_eq!(d.get("cellar").unwrap().id, "2");
    assert!(d.get("garden").is_none());
    assert_eq!(d.at(0).hostname, "attic");
    assert_eq!(d.at(1).hostname, "cellar");
}

#[test]
fn a_target_is_a_hostname_or_an_identifier() {
    let mut d = PeerDirectory::new();
    d.insert(peer("attic", "1", "10.0.0.1"));
    assert_eq!(d.resolve("attic"), "1");
    assert_eq!(d.resolve("1"), "1");
    assert_eq!(d.resolve("garden"), "garden");
}

#[test]
fn a_name_is_in_a_set_once_it_was_put_there() {
    let mut s = NameSet::new();
    assert!(!s.contains("a"));
    s.insert("a");
    s.insert("a");
    s.insert("b");
    assert!(s.contains("a"));
    assert!(s.contains("b"));
    assert!(!s.contains("c"));
}
