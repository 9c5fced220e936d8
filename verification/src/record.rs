//! The identity-record store: one record per network address, with a single
//! merge operation whose outcomes are insertion, identity change, or no
//! change.
//!
//! The store is modelled as a map from the address text to the record's
//! mathematical content; `update` is specified against `merged_map` and
//! `merge_outcome`, and the proof functions at the end state the store's
//! laws: re-merging is idempotent, an identity change always wins and hands
//! back the evicted record, and a stale same-identity event never moves the
//! stored timestamp backwards.

use vstd::prelude::*;
use crate::timestamp::{parse_spec, parse_time_string, Timestamp};

verus! {

/// One identity record: who was last seen authenticating from an address.
#[derive(Debug, Clone)]
pub struct AdValue {
    pub name: String,
    pub domain: String,
    pub time_string: String,
    pub time_stamp: Timestamp,
}

/// The mathematical content of an `AdValue`.
pub struct AdValueV {
    pub name: Seq<char>,
    pub domain: Seq<char>,
    pub time_string: Seq<char>,
    pub time_stamp: Timestamp,
}

impl View for AdValue {
    type V = AdValueV;

    open spec fn view(&self) -> AdValueV {
        AdValueV {
            name: self.name@,
            domain: self.domain@,
            time_string: self.time_string@,
            time_stamp: self.time_stamp,
        }
    }
}

/// What one merge call did.
#[derive(Debug, Clone)]
pub enum MergeOutcome {
    /// The address was new; the freshly stored record is handed back.
    Inserted(AdValue),
    /// The address reported a different identity; the evicted record is
    /// handed back.
    IdentityChanged(AdValue),
    /// Same identity: at most the timestamp was refreshed, silently.
    NoChange,
}

/// A merge refused to act.
#[derive(Debug, Clone, PartialEq, Eq)]
pub enum MergeError {
    /// The time string was not in the fixed display form the decoder
    /// produces; the store never invents timestamps.
    InvalidTimeString,
}

/// The mathematical content of a merge result.
pub enum MergeOutcomeV {
    Inserted(AdValueV),
    IdentityChanged(AdValueV),
    NoChange,
    Rejected,
}

/// The record a merge stores for fresh values.
pub open spec fn new_value_spec(
    name: Seq<char>,
    domain: Seq<char>,
    time: Seq<char>,
    ts: Timestamp,
) -> AdValueV {
    AdValueV { name: name, domain: domain, time_string: time, time_stamp: ts }
}

/// The store's map after one merge call.
pub open spec fn merged_map(
    m: Map<Seq<char>, AdValueV>,
    name: Seq<char>,
    domain: Seq<char>,
    address: Seq<char>,
    time: Seq<char>,
) -> Map<Seq<char>, AdValueV> {
    match parse_spec(time) {
        None => m,
        Some(ts) => if !m.contains_key(address) {
            m.insert(address, new_value_spec(name, domain, time, ts))
        } else {
            let cur = m[address];
            if cur.name != name || cur.domain != domain {
                m.insert(address, new_value_spec(name, domain, time, ts))
            } else if cur.time_stamp.before(ts) {
                m.insert(
                    address,
                    AdValueV {
                        name: cur.name,
                        domain: cur.domain,
                        time_string: time,
                        time_stamp: ts,
                    },
                )
            } else {
                m
            }
        },
    }
}

/// The result of one merge call.
pub open spec fn merge_outcome(
    m: Map<Seq<char>, AdValueV>,
    name: Seq<char>,
    domain: Seq<char>,
    address: Seq<char>,
    time: Seq<char>,
) -> MergeOutcomeV {
    match parse_spec(time) {
        None => MergeOutcomeV::Rejected,
        Some(ts) => if !m.contains_key(address) {
            MergeOutcomeV::Inserted(new_value_spec(name, domain, time, ts))
        } else {
            let cur = m[address];
            if cur.name != name || cur.domain != domain {
                MergeOutcomeV::IdentityChanged(cur)
            } else {
                MergeOutcomeV::NoChange
            }
        },
    }
}

/// The content a merge result carries.
pub open spec fn outcome_view(r: Result<MergeOutcome, MergeError>) -> MergeOutcomeV {
    match r {
        Ok(MergeOutcome::Inserted(v)) => MergeOutcomeV::Inserted(v@),
        Ok(MergeOutcome::IdentityChanged(v)) => MergeOutcomeV::IdentityChanged(v@),
        Ok(MergeOutcome::NoChange) => MergeOutcomeV::NoChange,
        Err(MergeError::InvalidTimeString) => MergeOutcomeV::Rejected,
    }
}

/// The map an entry sequence denotes: later entries win.
spec fn entries_map(s: Seq<(String, AdValue)>) -> Map<Seq<char>, AdValueV>
    decreases s.len(),
{
    if s.len() == 0 {
        Map::empty()
    } else {
        entries_map(s.drop_last()).insert(s.last().0@, s.last().1@)
    }
}

proof fn lemma_entries_contains(s: Seq<(String, AdValue)>, k: Seq<char>)
    ensures
        entries_map(s).contains_key(k) <==> exists|i: int| 0 <= i < s.len() && s[i].0@ == k,
    decreases s.len(),
{
    if s.len() > 0 {
        lemma_entries_contains(s.drop_last(), k);
        if entries_map(s).contains_key(k) {
            if s.last().0@ == k {
                assert(s[s.len() - 1].0@ == k);
            } else {
                let i = choose|i: int| 0 <= i < s.drop_last().len() && s.drop_last()[i].0@ == k;
                assert(s[i].0@ == k);
            }
        }
        if exists|i: int| 0 <= i < s.len() && s[i].0@ == k {
            let i = choose|i: int| 0 <= i < s.len() && s[i].0@ == k;
            if i < s.len() - 1 {
                assert(s.drop_last()[i].0@ == k);
            }
        }
    }
}

proof fn lemma_entries_at(s: Seq<(String, AdValue)>, i: int)
    requires
        0 <= i < s.len(),
        forall|a: int, b: int| 0 <= a < b < s.len() ==> s[a].0@ != s[b].0@,
    ensures
        entries_map(s).contains_key(s[i].0@),
        entries_map(s)[s[i].0@] == s[i].1@,
    decreases s.len(),
{
    if i == s.len() - 1 {
    } else {
        lemma_entries_at(s.drop_last(), i);
        assert(s.drop_last()[i] == s[i]);
        assert(s[i].0@ != s.last().0@);
    }
}

proof fn lemma_entries_update(s: Seq<(String, AdValue)>, i: int, e: (String, AdValue))
    requires
        0 <= i < s.len(),
        e.0@ == s[i].0@,
        forall|a: int, b: int| 0 <= a < b < s.len() ==> s[a].0@ != s[b].0@,
    ensures
        entries_map(s.update(i, e)) == entries_map(s).insert(e.0@, e.1@),
    decreases s.len(),
{
    let su = s.update(i, e);
    if i == s.len() - 1 {
        assert(su.drop_last() =~= s.drop_last());
        assert(su.last() == e);
        assert(entries_map(su) == entries_map(s.drop_last()).insert(e.0@, e.1@));
        assert(entries_map(s.drop_last()).insert(e.0@, e.1@) =~= entries_map(s).insert(
            e.0@,
            e.1@,
        ));
    } else {
        assert(su.drop_last() =~= s.drop_last().update(i, e));
        assert(su.last() == s.last());
        lemma_entries_update(s.drop_last(), i, e);
        assert(entries_map(su) == entries_map(s.drop_last()).insert(e.0@, e.1@).insert(
            s.last().0@,
            s.last().1@,
        ));
        assert(s[i].0@ != s.last().0@);
        assert(entries_map(s.drop_last()).insert(e.0@, e.1@).insert(s.last().0@, s.last().1@)
            =~= entries_map(s).insert(e.0@, e.1@));
    }
}

/// The identity-record store, keyed by the address text.
pub struct AdRecordMap {
    records: Vec<(String, AdValue)>,
}

impl View for AdRecordMap {
    type V = Map<Seq<char>, AdValueV>;

    closed spec fn view(&self) -> Map<Seq<char>, AdValueV> {
        entries_map(self.records@)
    }
}

impl AdRecordMap {
    /// No two entries share an address, and no record's timestamp was
    /// invented: each entry's time string parses back to its time value.
    pub closed spec fn wf(self) -> bool {
        &&& forall|a: int, b: int|
            0 <= a < b < self.records@.len() ==> self.records@[a].0@ != self.records@[b].0@
        &&& forall|a: int|
            0 <= a < self.records@.len() ==> parse_spec(#[trigger] self.records@[a].1.time_string@)
                == Some(self.records@[a].1.time_stamp)
    }

    /// An empty store.
    pub fn new() -> (r: AdRecordMap)
        ensures
            r.wf(),
            r@ == Map::<Seq<char>, AdValueV>::empty(),
    {
        AdRecordMap { records: Vec::new() }
    }

    fn find_index(&self, address: &String) -> (r: Option<usize>)
        ensures
            match r {
                Some(i) => i < self.records@.len() && self.records@[i as int].0@ == address@,
                None => forall|j: int|
                    0 <= j < self.records@.len() ==> self.records@[j].0@ != address@,
            },
    {
        let mut i: usize = 0;
        while i < self.records.len()
            invariant
                i <= self.records@.len(),
                forall|j: int| 0 <= j < i ==> self.records@[j].0@ != address@,
            decreases self.records@.len() - i,
        {
            if self.records[i].0 == *address {
                return Some(i);
            }
            i += 1;
        }
        None
    }

    /// Reads the record stored for an address, if any.
    pub fn lookup(&self, address: &String) -> (r: Option<&AdValue>)
        requires
            self.wf(),
        ensures
            match r {
                Some(v) => self@.contains_key(address@) && v@ == self@[address@] && parse_spec(
                    v@.time_string,
                ) == Some(v@.time_stamp),
                None => !self@.contains_key(address@),
            },
    {
        proof {
            lemma_entries_contains(self.records@, address@);
        }
        match self.find_index(address) {
            Some(i) => {
                proof {
                    lemma_entries_at(self.records@, i as int);
                }
                Some(&self.records[i].1)
            },
            None => None,
        }
    }

    /// Merges one observation into the store.
    ///
    /// The time string must be in the exact display form the decoder
    /// produces; any other form is refused with `InvalidTimeString` and the
    /// store is left untouched. A fresh address is inserted; a different
    /// identity on a known address overwrites unconditionally and hands back
    /// the evicted record; the same identity refreshes the timestamp only if
    /// strictly newer, and reports `NoChange` either way.
    pub fn update(
        &mut self,
        name: &String,
        domain: &String,
        address: &String,
        time: &String,
    ) -> (r: Result<MergeOutcome, MergeError>)
        requires
            old(self).wf(),
        ensures
            final(self).wf(),
            final(self)@ == merged_map(old(self)@, name@, domain@, address@, time@),
            outcome_view(r) == merge_outcome(old(self)@, name@, domain@, address@, time@),
    {
        let ts: Timestamp = match parse_time_string(time.as_str()) {
            Some(ts) => ts,
            None => {
                return Err(MergeError::InvalidTimeString);
            },
        };
        proof {
            lemma_entries_contains(self.records@, address@);
        }
        match self.find_index(address) {
            None => {
                let stored = AdValue {
                    name: name.clone(),
                    domain: domain.clone(),
                    time_string: time.clone(),
                    time_stamp: ts,
                };
                let reported = AdValue {
                    name: name.clone(),
                    domain: domain.clone(),
                    time_string: time.clone(),
                    time_stamp: ts,
                };
                let ghost old_records = self.records@;
                self.records.push((address.clone(), stored));
                proof {
                    assert(self.records@.drop_last() =~= old_records);
                }
                Ok(MergeOutcome::Inserted(reported))
            },
            Some(i) => {
                proof {
                    lemma_entries_at(self.records@, i as int);
                }
                let same_name = self.records[i].1.name == *name;
                let same_domain = self.records[i].1.domain == *domain;
                if !same_name || !same_domain {
                    let evicted = AdValue {
                        name: self.records[i].1.name.clone(),
                        domain: self.records[i].1.domain.clone(),
                        time_string: self.records[i].1.time_string.clone(),
                        time_stamp: self.records[i].1.time_stamp,
                    };
                    let fresh = AdValue {
                        name: name.clone(),
                        domain: domain.clone(),
                        time_string: time.clone(),
                        time_stamp: ts,
                    };
                    let ghost old_records = self.records@;
                    let entry = (address.clone(), fresh);
                    proof {
                        lemma_entries_update(old_records, i as int, entry);
                    }
                    self.records[i] = entry;
                    Ok(MergeOutcome::IdentityChanged(evicted))
                } else {
                    if self.records[i].1.time_stamp.is_before(&ts) {
                        let refreshed = AdValue {
                            name: self.records[i].1.name.clone(),
                            domain: self.records[i].1.domain.clone(),
                            time_string: time.clone(),
                            time_stamp: ts,
                        };
                        let ghost old_records = self.records@;
                        let entry = (address.clone(), refreshed);
                        proof {
                            lemma_entries_update(old_records, i as int, entry);
                        }
                        self.records[i] = entry;
                        Ok(MergeOutcome::NoChange)
                    } else {
                        Ok(MergeOutcome::NoChange)
                    }
                }
            },
        }
    }
}

/// Idempotent re-merge: merging the same observation twice into a store
/// that did not know the address yields `Inserted` then `NoChange`, and the
/// second call leaves the store exactly as the first left it.
pub proof fn lemma_idempotent_remerge(
    m: Map<Seq<char>, AdValueV>,
    name: Seq<char>,
    domain: Seq<char>,
    address: Seq<char>,
    time: Seq<char>,
    ts: Timestamp,
)
    requires
        !m.contains_key(address),
        parse_spec(time) == Some(ts),
    ensures
        merge_outcome(m, name, domain, address, time) == MergeOutcomeV::Inserted(
            new_value_spec(name, domain, time, ts),
        ),
        merged_map(m, name, domain, address, time) == m.insert(
            address,
            new_value_spec(name, domain, time, ts),
        ),
        merge_outcome(merged_map(m, name, domain, address, time), name, domain, address, time)
            == MergeOutcomeV::NoChange,
        merged_map(merged_map(m, name, domain, address, time), name, domain, address, time)
            == merged_map(m, name, domain, address, time),
{
}

/// Identity-change round trip: after an address is first seen with one
/// identity, merging a different identity for the same address reports
/// `IdentityChanged` carrying the first record, and stores the new one —
/// whatever the order of the two timestamps.
pub proof fn lemma_identity_change(
    m: Map<Seq<char>, AdValueV>,
    name1: Seq<char>,
    domain1: Seq<char>,
    name2: Seq<char>,
    domain2: Seq<char>,
    address: Seq<char>,
    t1: Seq<char>,
    t2: Seq<char>,
    ts1: Timestamp,
    ts2: Timestamp,
)
    requires
        !m.contains_key(address),
        parse_spec(t1) == Some(ts1),
        parse_spec(t2) == Some(ts2),
        name1 != name2 || domain1 != domain2,
    ensures
        ({
            let m1 = merged_map(m, name1, domain1, address, t1);
            merge_outcome(m1, name2, domain2, address, t2) == MergeOutcomeV::IdentityChanged(
                new_value_spec(name1, domain1, t1, ts1),
            ) && merged_map(m1, name2, domain2, address, t2) == m1.insert(
                address,
                new_value_spec(name2, domain2, t2, ts2),
            )
        }),
{
}

/// Timestamp monotonic refresh: after an address is first seen with some
/// timestamp, merging the same identity with a timestamp that is not newer
/// reports `NoChange` and leaves the stored record — timestamp included —
/// untouched.
pub proof fn lemma_stale_refresh(
    m: Map<Seq<char>, AdValueV>,
    name: Seq<char>,
    domain: Seq<char>,
    address: Seq<char>,
    t1: Seq<char>,
    t2: Seq<char>,
    ts1: Timestamp,
    ts2: Timestamp,
)
    requires
        !m.contains_key(address),
        parse_spec(t1) == Some(ts1),
        parse_spec(t2) == Some(ts2),
        !ts2.before(ts1),
    ensures
        ({
            let m1 = merged_map(m, name, domain, address, t2);
            merge_outcome(m1, name, domain, address, t1) == MergeOutcomeV::NoChange
                && merged_map(m1, name, domain, address, t1) == m1 && m1[address].time_stamp
                == ts2
        }),
{
}

} // verus!
