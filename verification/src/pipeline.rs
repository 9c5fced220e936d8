//! The ingestion step: decode one raw event, extract the four tracked
//! fields, drop machine accounts, and merge the rest into the store.
//!
//! The contract of `ingest_event` states the whole policy: a missing field
//! becomes the `"unknown"` sentinel, an identity whose name ends in the
//! machine-account marker `$` never reaches the store, and otherwise the
//! store changes exactly as the store's own merge specification says.

use vstd::prelude::*;
use vstd::string::*;
use crate::decode::{decode_spec, parse_event_data};
use crate::record::{
    merge_outcome, merged_map, AdRecordMap, MergeError, MergeOutcome, MergeOutcomeV, outcome_view,
};

verus! {

/// The value extracted for a field, with the sentinel for a missing one.
pub open spec fn field_or_unknown(m: Map<Seq<char>, Seq<char>>, k: Seq<char>) -> Seq<char> {
    if m.contains_key(k) {
        m[k]
    } else {
        "unknown"@
    }
}

/// A machine account: the name ends in the machine-account marker.
pub open spec fn is_machine_account(name: Seq<char>) -> bool {
    name.len() > 0 && name.last() == '$'
}

/// What ingesting one event did.
#[derive(Debug)]
pub enum IngestOutcome {
    /// The event reported a machine account; the store was not touched.
    MachineAccount,
    /// The store refused the merge (the decoded time string was not in the
    /// display form); the store was not touched.
    Rejected(MergeError),
    /// The merge ran on the four extracted fields.
    Applied { name: String, domain: String, address: String, time: String, merge: MergeOutcome },
}

fn ends_in_marker(name: &String) -> (b: bool)
    ensures
        b == is_machine_account(name@),
{
    let n = name.as_str().unicode_len();
    if n == 0 {
        false
    } else {
        name.as_str().get_char(n - 1) == '$'
    }
}

fn field_or_unknown_x(fields: &crate::decode::FieldMap, key: &str) -> (r: String)
    ensures
        r@ == field_or_unknown(fields@, key@),
{
    match fields.get(key) {
        Some(v) => v.clone(),
        None => String::from_str("unknown"),
    }
}

/// Decodes one event and merges it into the store, reporting what was done.
pub fn ingest_event(event_xml: &str, records: &mut AdRecordMap) -> (r: IngestOutcome)
    requires
        old(records).wf(),
    ensures
        final(records).wf(),
        ({
            let fm = decode_spec(event_xml@);
            let name = field_or_unknown(fm, "TargetUserName"@);
            let domain = field_or_unknown(fm, "TargetDomainName"@);
            let address = field_or_unknown(fm, "IpAddress"@);
            let time = field_or_unknown(fm, "TimeCreated"@);
            if is_machine_account(name) {
                r == IngestOutcome::MachineAccount && final(records)@ == old(records)@
            } else {
                &&& final(records)@ == merged_map(old(records)@, name, domain, address, time)
                &&& match r {
                    IngestOutcome::Applied { name: n, domain: d, address: a, time: t, merge } => {
                        &&& n@ == name
                        &&& d@ == domain
                        &&& a@ == address
                        &&& t@ == time
                        &&& outcome_view(Ok(merge)) == merge_outcome(
                            old(records)@,
                            name,
                            domain,
                            address,
                            time,
                        )
                    },
                    IngestOutcome::Rejected(e) => merge_outcome(
                        old(records)@,
                        name,
                        domain,
                        address,
                        time,
                    ) == MergeOutcomeV::Rejected && e == MergeError::InvalidTimeString,
                    IngestOutcome::MachineAccount => false,
                }
            }
        }),
{
    let fields = parse_event_data(event_xml);
    let name = field_or_unknown_x(&fields, "TargetUserName");
    if ends_in_marker(&name) {
        return IngestOutcome::MachineAccount;
    }
    let domain = field_or_unknown_x(&fields, "TargetDomainName");
    let address = field_or_unknown_x(&fields, "IpAddress");
    let time = field_or_unknown_x(&fields, "TimeCreated");
    match records.update(&name, &domain, &address, &time) {
        Ok(merge) => IngestOutcome::Applied { name, domain, address, time, merge },
        Err(e) => IngestOutcome::Rejected(e),
    }
}

} // verus!
