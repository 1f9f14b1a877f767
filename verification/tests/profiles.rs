use sshfm::profiles::{add_profile, contains_profile, same_profile, SSHConnectionData};

fn profile(host: &str, user: &str, port: u16) -> SSHConnectionData {
    SSHConnectionData {
        hostname: host.to_string(),
        username: user.to_string(),
        port,
    }
}

#[test]
fn saving_the_same_profile_twice_keeps_one_copy() {
    let mut saved: Vec<SSHConnectionData> = Vec::new();
    assert!(add_profile(&mut saved, profile("example.com", "alice", 22)));
    assert!(!add_profile(&mut saved, profile("example.com", "alice", 22)));
    assert_eq!(saved.len(), 1);
    assert!(add_profile(&mut saved, profile("example.com", "alice", 2222)));
    assert_eq!(saved.len(), 2);
}

#[test]
fn profiles_differ_by_any_field() {
    let a = profile("example.com", "alice", 22);
    assert!(same_profile(&a, &profile("example.com", "alice", 22)));
    assert!(!same_profile(&a, &profile("example.org", "alice", 22)));
    assert!(!same_profile(&a, &profile("example.com", "bob", 22)));
    assert!(!same_profile(&a, &profile("example.com", "alice", 23)));
}

#[test]
fn containment_checks_the_whole_list() {
    let mut saved: Vec<SSHConnectionData> = Vec::new();
    add_profile(&mut saved, profile("one", "u", 22));
    add_profile(&mut saved, profile("two", "u", 22));
    assert!(contains_profile(&saved, &profile("two", "u", 22)));
    assert!(!contains_profile(&saved, &profile("three", "u", 22)));
}
