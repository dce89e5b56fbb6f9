use consul_external_dns::consul::{
    load_outcome, on_acquire_answer, renewal_interval_secs, watch_query, AcquireAnswer, KvRead,
    LockDecision, LockError, WatchQuery, LOCK_RETRY_SECS, SESSION_TTL_SECS,
};
use consul_external_dns::reconcile::Outcome;
use consul_external_dns::record::DnsRecord;
use consul_external_dns::state::StateEntry;
use consul_external_dns::tags::{desired_records, parse_ttl, record_from_tags, strip_prefix};

fn tags(list: &[&str]) -> Vec<String> {
    list.iter().map(|s| s.to_string()).collect()
}

#[test]
fn test_get_nomad_tags() {
    let t = tags(&[
        "external-dns.hostname=example.com",
        "external-dns.type=A",
        "external-dns.value=192.168.1.100",
        "external-dns.ttl=300",
    ]);
    let r = record_from_tags(&t).unwrap();
    assert_eq!(r.hostname, "example.com");
    assert_eq!(r.type_, "A");
    assert_eq!(r.value, "192.168.1.100");
    assert_eq!(r.ttl, Some(300));
    assert_eq!(r.id, None);
}

#[test]
fn tags_without_required_keys_give_no_record() {
    assert!(record_from_tags(&tags(&["external-dns.hostname=a", "external-dns.type=A"])).is_none());
    assert!(record_from_tags(&tags(&[])).is_none());
    let bad_ttl = tags(&[
        "external-dns.hostname=a",
        "external-dns.type=A",
        "external-dns.value=1.2.3.4",
        "external-dns.ttl=soon",
    ]);
    assert!(record_from_tags(&bad_ttl).is_none());
    let no_ttl = tags(&["web", "external-dns.hostname=a", "external-dns.type=A", "external-dns.value=1.2.3.4"]);
    assert_eq!(record_from_tags(&no_ttl).unwrap().ttl, None);
}

#[test]
fn first_tag_with_a_key_wins() {
    let t = tags(&[
        "external-dns.hostname=first",
        "external-dns.hostname=second",
        "external-dns.type=A",
        "external-dns.value=1.2.3.4",
    ]);
    assert_eq!(record_from_tags(&t).unwrap().hostname, "first");
}

#[test]
fn services_without_records_are_skipped() {
    let services = vec![
        tags(&["external-dns.hostname=a", "external-dns.type=A", "external-dns.value=1.1.1.1"]),
        tags(&["unrelated"]),
        tags(&["external-dns.hostname=b", "external-dns.type=CNAME", "external-dns.value=a"]),
    ];
    let r = desired_records(&services);
    assert_eq!(r.len(), 2);
    assert_eq!(r[0].hostname, "a");
    assert_eq!(r[1].type_, "CNAME");
}

#[test]
fn prefix_stripping() {
    assert_eq!(strip_prefix("key=value", "key="), Some("value".to_string()));
    assert_eq!(strip_prefix("key", "key="), None);
    assert_eq!(strip_prefix("other=v", "key="), None);
    assert_eq!(strip_prefix("key=", "key="), Some(String::new()));
}

#[test]
fn ttl_parsing() {
    assert_eq!(parse_ttl("300"), Some(300));
    assert_eq!(parse_ttl("0"), Some(0));
    assert_eq!(parse_ttl("4294967295"), Some(4294967295));
    assert_eq!(parse_ttl("4294967296"), None);
    assert_eq!(parse_ttl("99999999999999999999999"), None);
    assert_eq!(parse_ttl(""), None);
    assert_eq!(parse_ttl("3a"), None);
    assert_eq!(parse_ttl("-1"), None);
}

#[test]
fn lock_answers() {
    assert_eq!(on_acquire_answer(AcquireAnswer::Granted(true)), LockDecision::Acquired);
    assert_eq!(
        on_acquire_answer(AcquireAnswer::Granted(false)),
        LockDecision::RetryAfter(LOCK_RETRY_SECS)
    );
    assert_eq!(
        on_acquire_answer(AcquireAnswer::Refused(500)),
        LockDecision::Fatal(LockError::Refused(500))
    );
    assert_eq!(
        on_acquire_answer(AcquireAnswer::Unreachable),
        LockDecision::Fatal(LockError::Unreachable)
    );
}

#[test]
fn second_session_is_told_to_retry() {
    // The registry answers `false` to a session that does not hold the lock.
    let d = on_acquire_answer(AcquireAnswer::Granted(false));
    assert_ne!(d, LockDecision::Acquired);
}

#[test]
fn session_renews_within_ttl() {
    assert_eq!(renewal_interval_secs(30), 15);
    assert_eq!(renewal_interval_secs(2), 1);
    let r = renewal_interval_secs(SESSION_TTL_SECS);
    assert!(r > 0 && r < SESSION_TTL_SECS);
}

#[test]
fn first_watch_does_not_block() {
    assert_eq!(watch_query(None), None);
    assert_eq!(
        watch_query(Some(42)),
        Some(WatchQuery { index: 42, wait_secs: 100 })
    );
}

#[test]
fn missing_state_key_loads_empty() {
    match load_outcome(KvRead::Missing) {
        Outcome::Loaded(m) => assert!(m.entries().is_empty()),
        _ => panic!("expected an empty state"),
    }
    assert!(matches!(load_outcome(KvRead::Failed), Outcome::LoadFailed));
}

#[test]
fn stored_entries_load_with_later_ids_winning() {
    let a = DnsRecord::new("a".to_string(), "A".to_string(), "1.1.1.1".to_string(), None);
    let b = DnsRecord::new("b".to_string(), "A".to_string(), "2.2.2.2".to_string(), None);
    let entries = vec![
        StateEntry { id: "x".to_string(), record: a.clone() },
        StateEntry { id: "y".to_string(), record: a },
        StateEntry { id: "x".to_string(), record: b.clone() },
    ];
    match load_outcome(KvRead::Found(entries)) {
        Outcome::Loaded(m) => {
            assert_eq!(m.entries().len(), 2);
            assert!(m.get(&"x".to_string()).unwrap().same_content(&b));
        }
        _ => panic!("expected a loaded state"),
    }
}
