use consul_external_dns::diff::{records_to_create, records_to_delete};
use consul_external_dns::reconcile::{next_watch_index, Outcome, Reconciler, Step};
use consul_external_dns::record::DnsRecord;
use consul_external_dns::state::StateMap;

fn rec(host: &str, value: &str) -> DnsRecord {
    DnsRecord::new(host.to_string(), "A".to_string(), value.to_string(), Some(300))
}

fn state(entries: &[(&str, DnsRecord)]) -> StateMap {
    let mut m = StateMap::new();
    for (id, r) in entries {
        m.insert(id.to_string(), r.clone());
    }
    m
}

fn started(prev: StateMap) -> Reconciler {
    let mut r = Reconciler::new();
    assert!(matches!(r.command(), Step::LoadState));
    let step = r.step(Outcome::Loaded(prev));
    assert!(matches!(step, Step::Watch { index: None }));
    r
}

#[test]
fn diff_creates_missing_and_deletes_unwanted() {
    let a = rec("a.example.com", "10.0.0.1");
    let b = rec("b.example.com", "10.0.0.2");
    let c = rec("c.example.com", "10.0.0.3");
    let prev = state(&[("id1", a.clone()), ("id2", b)]);
    let desired = vec![a, c.clone()];
    let create = records_to_create(&prev, &desired);
    assert_eq!(create.len(), 1);
    assert!(create[0].same_content(&c));
    assert_eq!(records_to_delete(&prev, &desired), vec!["id2".to_string()]);
}

#[test]
fn cycle_applies_diff_and_stores_result() {
    let a = rec("a.example.com", "10.0.0.1");
    let b = rec("b.example.com", "10.0.0.2");
    let c = rec("c.example.com", "10.0.0.3");
    let mut r = started(state(&[("id1", a.clone()), ("id2", b)]));
    let step = r.step(Outcome::Changed { records: vec![a.clone(), c.clone()], index: 7 });
    match step {
        Step::Create { record } => assert!(record.same_content(&c)),
        _ => panic!("expected a create"),
    }
    let step = r.step(Outcome::Created(Some("id3".to_string())));
    match step {
        Step::Delete { id } => assert_eq!(id, "id2"),
        _ => panic!("expected a delete"),
    }
    let step = r.step(Outcome::Deleted(true));
    match step {
        Step::Store { state: s } => {
            let expected = state(&[("id1", a), ("id3", c)]);
            assert!(s.same_as(&expected));
            assert_eq!(s.entries().len(), 2);
            assert!(!s.contains_id(&"id2".to_string()));
        }
        _ => panic!("expected a store"),
    }
    assert!(matches!(r.step(Outcome::Stored(true)), Step::Pause));
    assert!(matches!(r.step(Outcome::Resumed), Step::LoadState));
    let step = r.step(Outcome::Loaded(StateMap::new()));
    assert!(matches!(step, Step::Watch { index: Some(7) }));
}

#[test]
fn failed_create_and_delete_leave_state_unchanged() {
    let a = rec("a.example.com", "10.0.0.1");
    let c = rec("c.example.com", "10.0.0.3");
    let mut r = started(state(&[("id1", a)]));
    assert!(matches!(
        r.step(Outcome::Changed { records: vec![c], index: 1 }),
        Step::Create { .. }
    ));
    assert!(matches!(r.step(Outcome::Created(None)), Step::Delete { .. }));
    assert!(matches!(r.step(Outcome::Deleted(false)), Step::Pause));
}

#[test]
fn unchanged_desired_state_writes_nothing() {
    let a = rec("a.example.com", "10.0.0.1");
    let b = rec("b.example.com", "10.0.0.2");
    let mut r = started(state(&[("id1", a.clone()), ("id2", b.clone())]));
    let step = r.step(Outcome::Changed { records: vec![b, a], index: 3 });
    assert!(matches!(step, Step::Pause));
}

#[test]
fn records_differing_only_in_id_match() {
    let a = rec("a.example.com", "10.0.0.1");
    let mut a_other = a.clone();
    a_other.id = Some("elsewhere".to_string());
    assert!(a.same_content(&a_other));
    let prev = state(&[("id1", a)]);
    let desired = vec![a_other];
    assert!(records_to_create(&prev, &desired).is_empty());
    assert!(records_to_delete(&prev, &desired).is_empty());
}

#[test]
fn ttl_is_part_of_content() {
    let a = rec("a.example.com", "10.0.0.1");
    let mut longer = a.clone();
    longer.ttl = Some(600);
    assert!(!a.same_content(&longer));
}

#[test]
fn cancel_while_watching_finishes() {
    let mut r = started(StateMap::new());
    assert!(matches!(r.step(Outcome::Cancelled), Step::Finish));
    assert!(matches!(r.step(Outcome::Resumed), Step::Finish));
}

#[test]
fn cancel_while_pausing_finishes() {
    let mut r = started(StateMap::new());
    assert!(matches!(
        r.step(Outcome::Changed { records: vec![], index: 2 }),
        Step::Pause
    ));
    assert!(matches!(r.step(Outcome::Cancelled), Step::Finish));
}

#[test]
fn registry_failures_abort() {
    let mut r = Reconciler::new();
    assert!(matches!(r.step(Outcome::LoadFailed), Step::Abort));
    let mut r = started(StateMap::new());
    assert!(matches!(r.step(Outcome::WatchFailed), Step::Abort));
    assert!(matches!(r.step(Outcome::Resumed), Step::Abort));
}

#[test]
fn watch_index_never_goes_back() {
    assert_eq!(next_watch_index(None, 5), 5);
    assert_eq!(next_watch_index(Some(9), 5), 9);
    assert_eq!(next_watch_index(Some(9), 12), 12);
}

#[test]
fn state_map_insert_replaces_and_remove_drops() {
    let a = rec("a.example.com", "10.0.0.1");
    let b = rec("b.example.com", "10.0.0.2");
    let mut m = state(&[("id1", a.clone())]);
    m.insert("id1".to_string(), b.clone());
    assert_eq!(m.entries().len(), 1);
    assert!(m.get(&"id1".to_string()).unwrap().same_content(&b));
    assert!(m.has_content(&b));
    assert!(!m.has_content(&a));
    m.remove(&"id1".to_string());
    assert!(m.entries().is_empty());
    assert!(m.same_as(&StateMap::new()));
}
