use logon_watch::pipeline::{ingest_event, IngestOutcome};
use logon_watch::record::{AdRecordMap, MergeError, MergeOutcome};

fn event(user: &str, domain: &str, ip: Option<&str>, time: &str) -> String {
    let ip_part = match ip {
        Some(a) => format!("<Data Name=\"IpAddress\">{}</Data>", a),
        None => String::new(),
    };
    format!(
        "<Event><System><TimeCreated SystemTime=\"{}\"/></System><EventData><Data Name=\"TargetUserName\">{}</Data><Data Name=\"TargetDomainName\">{}</Data>{}</EventData></Event>",
        time, user, domain, ip_part
    )
}

#[test]
fn ingest_inserts_then_reports_identity_change() {
    let mut store = AdRecordMap::new();
    let first = event("alice", "CORP", Some("10.0.0.5"), "2024-05-01T10:00:00Z");
    match ingest_event(&first, &mut store) {
        IngestOutcome::Applied { name, domain, address, time, merge } => {
            assert_eq!(name, "alice");
            assert_eq!(domain, "CORP");
            assert_eq!(address, "10.0.0.5");
            assert_eq!(time, "2024-05-01 10:00:00.000000000 UTC");
            assert!(matches!(merge, MergeOutcome::Inserted(_)));
        },
        other => panic!("first event was not applied: {:?}", other),
    }
    let second = event("bob", "CORP", Some("10.0.0.5"), "2024-05-01T11:00:00Z");
    match ingest_event(&second, &mut store) {
        IngestOutcome::Applied { merge: MergeOutcome::IdentityChanged(old), .. } => {
            assert_eq!(old.name, "alice");
        },
        other => panic!("second event was not an identity change: {:?}", other),
    }
}

#[test]
fn machine_account_never_reaches_the_store() {
    let mut store = AdRecordMap::new();
    let xml = event("WORKSTATION1$", "CORP", Some("10.0.0.5"), "2024-05-01T10:00:00Z");
    match ingest_event(&xml, &mut store) {
        IngestOutcome::MachineAccount => {},
        other => panic!("machine account was not filtered: {:?}", other),
    }
    assert!(store.lookup(&"10.0.0.5".to_string()).is_none());
}

#[test]
fn missing_address_merges_under_unknown_sentinel() {
    let mut store = AdRecordMap::new();
    let xml = event("alice", "CORP", None, "2024-05-01T10:00:00Z");
    match ingest_event(&xml, &mut store) {
        IngestOutcome::Applied { address, merge, .. } => {
            assert_eq!(address, "unknown");
            assert!(matches!(merge, MergeOutcome::Inserted(_)));
        },
        other => panic!("event without address was not applied: {:?}", other),
    }
    assert_eq!(store.lookup(&"unknown".to_string()).unwrap().name, "alice");
}

#[test]
fn missing_domain_uses_unknown_sentinel() {
    let mut store = AdRecordMap::new();
    let xml = "<Event><System><TimeCreated SystemTime=\"2024-05-01T10:00:00Z\"/></System><EventData><Data Name=\"TargetUserName\">alice</Data><Data Name=\"IpAddress\">10.0.0.5</Data></EventData></Event>";
    match ingest_event(xml, &mut store) {
        IngestOutcome::Applied { domain, .. } => assert_eq!(domain, "unknown"),
        other => panic!("event without domain was not applied: {:?}", other),
    }
}

#[test]
fn missing_time_is_rejected_by_the_store() {
    let mut store = AdRecordMap::new();
    let xml = "<Event><EventData><Data Name=\"TargetUserName\">alice</Data><Data Name=\"IpAddress\">10.0.0.5</Data></EventData></Event>";
    match ingest_event(xml, &mut store) {
        IngestOutcome::Rejected(e) => assert_eq!(e, MergeError::InvalidTimeString),
        other => panic!("event without a time was not rejected: {:?}", other),
    }
    assert!(store.lookup(&"10.0.0.5".to_string()).is_none());
}
