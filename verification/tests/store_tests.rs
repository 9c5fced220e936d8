use logon_watch::record::{AdRecordMap, MergeError, MergeOutcome};

const T1: &str = "2024-05-01 10:34:56.789000000 UTC";
const T2: &str = "2024-05-01 11:00:00.000000000 UTC";
const T3: &str = "2024-05-01 12:00:00.000000000 UTC";

fn merge(store: &mut AdRecordMap, name: &str, domain: &str, address: &str, time: &str) -> Result<MergeOutcome, MergeError> {
    store.update(&name.to_string(), &domain.to_string(), &address.to_string(), &time.to_string())
}

#[test]
fn remerge_is_idempotent() {
    let mut store = AdRecordMap::new();
    match merge(&mut store, "alice", "CORP", "10.0.0.5", T1) {
        Ok(MergeOutcome::Inserted(v)) => {
            assert_eq!(v.name, "alice");
            assert_eq!(v.domain, "CORP");
            assert_eq!(v.time_string, T1);
        },
        other => panic!("first merge was not an insert: {:?}", other),
    }
    match merge(&mut store, "alice", "CORP", "10.0.0.5", T1) {
        Ok(MergeOutcome::NoChange) => {},
        other => panic!("re-merge was not silent: {:?}", other),
    }
    let stored = store.lookup(&"10.0.0.5".to_string()).expect("record is stored");
    assert_eq!(stored.name, "alice");
    assert_eq!(stored.domain, "CORP");
    assert_eq!(stored.time_string, T1);
}

#[test]
fn identity_change_hands_back_old_record() {
    let mut store = AdRecordMap::new();
    // The second event's timestamp is older than the first's: an identity
    // change still wins.
    merge(&mut store, "alice", "CORP", "10.0.0.5", T2).unwrap();
    match merge(&mut store, "bob", "CORP", "10.0.0.5", T1) {
        Ok(MergeOutcome::IdentityChanged(old)) => {
            assert_eq!(old.name, "alice");
            assert_eq!(old.domain, "CORP");
            assert_eq!(old.time_string, T2);
        },
        other => panic!("identity change was not reported: {:?}", other),
    }
    let stored = store.lookup(&"10.0.0.5".to_string()).expect("record is stored");
    assert_eq!(stored.name, "bob");
    assert_eq!(stored.domain, "CORP");
    assert_eq!(stored.time_string, T1);
}

#[test]
fn domain_change_alone_is_an_identity_change() {
    let mut store = AdRecordMap::new();
    merge(&mut store, "alice", "CORP", "10.0.0.5", T1).unwrap();
    match merge(&mut store, "alice", "LAB", "10.0.0.5", T2) {
        Ok(MergeOutcome::IdentityChanged(old)) => assert_eq!(old.domain, "CORP"),
        other => panic!("identity change was not reported: {:?}", other),
    }
}

#[test]
fn stale_event_does_not_move_timestamp_back() {
    let mut store = AdRecordMap::new();
    merge(&mut store, "alice", "CORP", "10.0.0.5", T2).unwrap();
    match merge(&mut store, "alice", "CORP", "10.0.0.5", T1) {
        Ok(MergeOutcome::NoChange) => {},
        other => panic!("stale refresh was not silent: {:?}", other),
    }
    let stored = store.lookup(&"10.0.0.5".to_string()).expect("record is stored");
    assert_eq!(stored.time_string, T2);
}

#[test]
fn newer_event_refreshes_timestamp_silently() {
    let mut store = AdRecordMap::new();
    merge(&mut store, "alice", "CORP", "10.0.0.5", T2).unwrap();
    match merge(&mut store, "alice", "CORP", "10.0.0.5", T3) {
        Ok(MergeOutcome::NoChange) => {},
        other => panic!("refresh was not silent: {:?}", other),
    }
    let stored = store.lookup(&"10.0.0.5".to_string()).expect("record is stored");
    assert_eq!(stored.name, "alice");
    assert_eq!(stored.time_string, T3);
}

#[test]
fn malformed_time_string_is_refused() {
    let mut store = AdRecordMap::new();
    let r = merge(&mut store, "alice", "CORP", "10.0.0.5", "2024-05-01T10:34:56Z");
    assert_eq!(r.unwrap_err(), MergeError::InvalidTimeString);
    assert!(store.lookup(&"10.0.0.5".to_string()).is_none());
}

#[test]
fn addresses_are_independent_keys() {
    let mut store = AdRecordMap::new();
    merge(&mut store, "alice", "CORP", "10.0.0.5", T1).unwrap();
    match merge(&mut store, "bob", "CORP", "10.0.0.6", T1) {
        Ok(MergeOutcome::Inserted(_)) => {},
        other => panic!("second address was not an insert: {:?}", other),
    }
    assert_eq!(store.lookup(&"10.0.0.5".to_string()).unwrap().name, "alice");
    assert_eq!(store.lookup(&"10.0.0.6".to_string()).unwrap().name, "bob");
}
