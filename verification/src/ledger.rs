//! Credential ledger: a dedup-counted store of captured credential pairs.
//!
//! At most one record exists per `(user, password)` pair; every repeated
//! capture increments its counter.  This module is the ledger's semantics;
//! durability (writing each capture through to a store on disk) is the
//! caller's concern and never affects these contracts.

use vstd::prelude::*;
use vstd::slice::slice_to_vec;
use crate::byteseq::bytes_eq;

verus! {

/// One captured credential pair with its attempt counter.
pub struct CredentialRecord {
    pub user: Vec<u8>,
    pub password: Vec<u8>,
    pub count: u64,
}

/// The pair that identifies a record.
pub open spec fn record_key(r: CredentialRecord) -> (Seq<u8>, Seq<u8>) {
    (r.user@, r.password@)
}

/// The map a sequence of records stands for.
pub open spec fn records_map(s: Seq<CredentialRecord>) -> Map<(Seq<u8>, Seq<u8>), nat>
    decreases s.len(),
{
    if s.len() == 0 {
        Map::empty()
    } else {
        records_map(s.drop_last()).insert(record_key(s.last()), s.last().count as nat)
    }
}

/// No two records share a key.
pub open spec fn keys_distinct(s: Seq<CredentialRecord>) -> bool {
    forall|i: int, j: int| 0 <= i < j < s.len() ==> record_key(s[i]) != record_key(s[j])
}

/// Recording a capture: the pair's counter grows by one, a first capture
/// counts one, and no other pair is touched.
pub open spec fn bump(
    m: Map<(Seq<u8>, Seq<u8>), nat>,
    user: Seq<u8>,
    password: Seq<u8>,
) -> Map<(Seq<u8>, Seq<u8>), nat> {
    let key = (user, password);
    if m.contains_key(key) {
        m.insert(key, m[key] + 1)
    } else {
        m.insert(key, 1)
    }
}

/// How the durable store behind the ledger is to be brought up.
#[derive(Debug, Clone, Copy, PartialEq, Eq, Structural)]
pub enum StoreInitAction {
    /// No store exists yet: create it and its schema.
    CreateWithSchema,
    /// A store exists: open and reuse it as-is, with no migration.
    OpenExisting,
}

/// Initialization policy for the durable store: the schema is created
/// exactly when no store is found at the configured location.
pub fn store_init_action(store_exists: bool) -> (r: StoreInitAction)
    ensures
        r == StoreInitAction::CreateWithSchema <==> !store_exists,
{
    if store_exists {
        StoreInitAction::OpenExisting
    } else {
        StoreInitAction::CreateWithSchema
    }
}

/// In-memory ledger of captured credential pairs.
pub struct CredentialLedger {
    records: Vec<CredentialRecord>,
}

impl View for CredentialLedger {
    type V = Map<(Seq<u8>, Seq<u8>), nat>;

    closed spec fn view(&self) -> Map<(Seq<u8>, Seq<u8>), nat> {
        records_map(self.records@)
    }
}

proof fn lemma_records_map_contains(s: Seq<CredentialRecord>, key: (Seq<u8>, Seq<u8>))
    ensures
        records_map(s).contains_key(key) <==> (exists|i: int|
            0 <= i < s.len() && record_key(s[i]) == key),
    decreases s.len(),
{
    if s.len() > 0 {
        lemma_records_map_contains(s.drop_last(), key);
        if record_key(s.last()) == key {
            assert(record_key(s[s.len() - 1]) == key);
        } else if records_map(s).contains_key(key) {
            let i = choose|i: int| 0 <= i < s.drop_last().len() && record_key(
                s.drop_last()[i],
            ) == key;
            assert(record_key(s[i]) == key);
        } else {
            assert forall|i: int| 0 <= i < s.len() implies record_key(s[i]) != key by {
                if i < s.len() - 1 {
                    assert(s.drop_last()[i] == s[i]);
                }
            }
        }
    }
}

proof fn lemma_records_map_value(s: Seq<CredentialRecord>, i: int)
    requires
        keys_distinct(s),
        0 <= i < s.len(),
    ensures
        records_map(s).contains_key(record_key(s[i])),
        records_map(s)[record_key(s[i])] == s[i].count as nat,
    decreases s.len(),
{
    if i == s.len() - 1 {
        assert(s[i] == s.last());
    } else {
        assert(s.drop_last()[i] == s[i]);
        lemma_records_map_value(s.drop_last(), i);
        assert(record_key(s[i]) != record_key(s[s.len() - 1]));
    }
}

proof fn lemma_records_map_update(s: Seq<CredentialRecord>, i: int, r: CredentialRecord)
    requires
        keys_distinct(s),
        0 <= i < s.len(),
        record_key(r) == record_key(s[i]),
    ensures
        keys_distinct(s.update(i, r)),
        records_map(s.update(i, r)) =~= records_map(s).insert(record_key(r), r.count as nat),
    decreases s.len(),
{
    let updated = s.update(i, r);
    assert forall|m: int, n: int|
        0 <= m < n < updated.len() implies record_key(updated[m]) != record_key(updated[n]) by {
        assert(record_key(updated[m]) == record_key(s[m]));
        assert(record_key(updated[n]) == record_key(s[n]));
    }
    if i == s.len() - 1 {
        assert(updated.drop_last() =~= s.drop_last());
        assert(updated.last() == r);
    } else {
        assert(updated.last() == s.last());
        assert(updated.drop_last() =~= s.drop_last().update(i, r));
        assert(s.drop_last()[i] == s[i]);
        lemma_records_map_update(s.drop_last(), i, r);
        assert(record_key(s.last()) != record_key(r));
    }
}

impl CredentialLedger {
    /// No two records share a `(user, password)` pair.
    pub closed spec fn wf(self) -> bool {
        keys_distinct(self.records@)
    }

    /// An empty ledger: used when no store exists yet.
    pub fn new() -> (l: CredentialLedger)
        ensures
            l@ == Map::<(Seq<u8>, Seq<u8>), nat>::empty(),
            l.wf(),
    {
        let l = CredentialLedger { records: Vec::new() };
        proof {
            assert(l@ =~= Map::<(Seq<u8>, Seq<u8>), nat>::empty());
        }
        l
    }

    /// Position of the record for the pair, if one exists.
    fn find(&self, user: &[u8], password: &[u8]) -> (r: Option<usize>)
        requires
            self.wf(),
        ensures
            match r {
                Some(i) => i < self.records@.len() && record_key(self.records@[i as int]) == (
                    user@,
                    password@,
                ),
                None => !self@.contains_key((user@, password@)),
            },
    {
        let mut i: usize = 0;
        while i < self.records.len()
            invariant
                i <= self.records@.len(),
                forall|j: int| 0 <= j < i ==> record_key(self.records@[j]) != (user@, password@),
            decreases self.records@.len() - i,
        {
            let rec = &self.records[i];
            if bytes_eq(rec.user.as_slice(), user) && bytes_eq(rec.password.as_slice(), password) {
                return Some(i);
            }
            i = i + 1;
        }
        proof {
            lemma_records_map_contains(self.records@, (user@, password@));
        }
        None
    }

    /// Records one capture of the pair: its counter grows by one (a first
    /// capture counts one), and every other record is left as it was.
    pub fn record(&mut self, user: &[u8], password: &[u8])
        requires
            old(self).wf(),
            old(self)@.contains_key((user@, password@)) ==> old(self)@[(user@, password@)]
                < u64::MAX as nat,
        ensures
            final(self).wf(),
            final(self)@ == bump(old(self)@, user@, password@),
    {
        let found = self.find(user, password);
        match found {
            Some(i) => {
                proof {
                    lemma_records_map_value(self.records@, i as int);
                }
                let rec = self.records.remove(i);
                let updated = CredentialRecord {
                    user: rec.user,
                    password: rec.password,
                    count: rec.count + 1,
                };
                proof {
                    lemma_records_map_update(old(self).records@, i as int, updated);
                }
                self.records.insert(i, updated);
                proof {
                    assert(self.records@ =~= old(self).records@.update(i as int, updated));
                    assert(self@ =~= bump(old(self)@, user@, password@));
                }
            },
            None => {
                let fresh = CredentialRecord {
                    user: slice_to_vec(user),
                    password: slice_to_vec(password),
                    count: 1,
                };
                proof {
                    lemma_records_map_contains(self.records@, (user@, password@));
                    assert forall|j: int|
                        0 <= j < self.records@.len() implies record_key(self.records@[j]) != (
                        user@,
                        password@,
                    ) by {
                        if record_key(self.records@[j]) == (user@, password@) {
                            assert(records_map(self.records@).contains_key((user@, password@)));
                        }
                    }
                }
                self.records.push(fresh);
                proof {
                    assert(self.records@.drop_last() =~= old(self).records@);
                    assert(self@ =~= bump(old(self)@, user@, password@));
                }
            },
        }
    }

    /// The counter recorded for the pair; zero when it was never captured.
    pub fn count_of(&self, user: &[u8], password: &[u8]) -> (r: u64)
        requires
            self.wf(),
        ensures
            r as nat == if self@.contains_key((user@, password@)) {
                self@[(user@, password@)]
            } else {
                0
            },
    {
        match self.find(user, password) {
            Some(i) => {
                proof {
                    lemma_records_map_value(self.records@, i as int);
                }
                self.records[i].count
            },
            None => 0,
        }
    }
}

/// The ledger after a pair is captured `k` times in a row.
pub open spec fn bump_many(
    m: Map<(Seq<u8>, Seq<u8>), nat>,
    user: Seq<u8>,
    password: Seq<u8>,
    k: nat,
) -> Map<(Seq<u8>, Seq<u8>), nat>
    decreases k,
{
    if k == 0 {
        m
    } else {
        bump(bump_many(m, user, password, (k - 1) as nat), user, password)
    }
}

/// Law: capturing a pair `k` times, starting from a ledger that does not
/// hold it, leaves its record with counter exactly `k` and creates or
/// alters no other record.
pub proof fn law_ledger_counts(
    m: Map<(Seq<u8>, Seq<u8>), nat>,
    user: Seq<u8>,
    password: Seq<u8>,
    k: nat,
)
    requires
        !m.contains_key((user, password)),
    ensures
        k > 0 ==> bump_many(m, user, password, k).contains_key((user, password))
            && bump_many(m, user, password, k)[(user, password)] == k,
        bump_many(m, user, password, k).remove((user, password)) =~= m.remove((user, password)),
    decreases k,
{
    if k > 0 {
        law_ledger_counts(m, user, password, (k - 1) as nat);
    }
}

/// The ledger after a run of captures, in the order they were written.
pub open spec fn ledger_after(
    m: Map<(Seq<u8>, Seq<u8>), nat>,
    pairs: Seq<(Seq<u8>, Seq<u8>)>,
) -> Map<(Seq<u8>, Seq<u8>), nat>
    decreases pairs.len(),
{
    if pairs.len() == 0 {
        m
    } else {
        bump(ledger_after(m, pairs.drop_last()), pairs.last().0, pairs.last().1)
    }
}

/// How often a pair occurs in a run of captures.
pub open spec fn occurrences(pairs: Seq<(Seq<u8>, Seq<u8>)>, key: (Seq<u8>, Seq<u8>)) -> nat
    decreases pairs.len(),
{
    if pairs.len() == 0 {
        0
    } else {
        occurrences(pairs.drop_last(), key) + if pairs.last() == key {
            1nat
        } else {
            0nat
        }
    }
}

/// Law: however the captures of many sessions interleave, a pair submitted
/// `k` times among them ends with counter exactly `k`, and a pair never
/// submitted has no record.
pub proof fn law_ledger_counts_interleaved(
    m: Map<(Seq<u8>, Seq<u8>), nat>,
    pairs: Seq<(Seq<u8>, Seq<u8>)>,
    user: Seq<u8>,
    password: Seq<u8>,
)
    requires
        !m.contains_key((user, password)),
    ensures
        occurrences(pairs, (user, password)) == 0 ==> !ledger_after(m, pairs).contains_key(
            (user, password),
        ),
        occurrences(pairs, (user, password)) > 0 ==> ledger_after(m, pairs).contains_key(
            (user, password),
        ) && ledger_after(m, pairs)[(user, password)] == occurrences(pairs, (user, password)),
    decreases pairs.len(),
{
    if pairs.len() > 0 {
        law_ledger_counts_interleaved(m, pairs.drop_last(), user, password);
    }
}

} // verus!
