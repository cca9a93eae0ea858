use vstd::prelude::*;

use crate::errors::ExchangeError;
use crate::rates::ExchangeRatesSnapshot;

verus! {

/// A cached snapshot together with the unix instant (seconds) it was
/// fetched, the cache key it is stored under, and free-form metadata.
pub struct ExchangeRateRecord {
    pub snapshot: ExchangeRatesSnapshot,
    pub fetch_timestamp: i64,
    pub source_identifier: String,
    pub metadata: Vec<(String, String)>,
}

impl ExchangeRateRecord {
    /// A fresh record with empty metadata.
    pub fn new(
        snapshot: ExchangeRatesSnapshot,
        fetch_timestamp: i64,
        source_identifier: String,
    ) -> (r: ExchangeRateRecord)
        ensures
            r.snapshot == snapshot,
            r.fetch_timestamp == fetch_timestamp,
            r.source_identifier == source_identifier,
            r.metadata@ == Seq::<(String, String)>::empty(),
    {
        ExchangeRateRecord { snapshot, fetch_timestamp, source_identifier, metadata: Vec::new() }
    }
}

/// The map a list of keyed records denotes, later entries winning.
pub open spec fn entries_map(s: Seq<(String, ExchangeRateRecord)>) -> Map<
    Seq<char>,
    ExchangeRateRecord,
>
    decreases s.len(),
{
    if s.len() == 0 {
        Map::empty()
    } else {
        entries_map(s.drop_last()).insert(s.last().0@, s.last().1)
    }
}

/// One record per cache key, kept in memory; a write under an existing key
/// overwrites the stored record.
pub struct InMemoryStorageAdapter {
    entries: Vec<(String, ExchangeRateRecord)>,
}

proof fn lemma_entries_map_at(s: Seq<(String, ExchangeRateRecord)>, i: int)
    requires
        0 <= i < s.len(),
        forall|p: int, q: int| 0 <= p < q < s.len() ==> s[p].0@ != s[q].0@,
    ensures
        entries_map(s).contains_key(s[i].0@),
        entries_map(s)[s[i].0@] == s[i].1,
    decreases s.len(),
{
    if i < s.len() - 1 {
        lemma_entries_map_at(s.drop_last(), i);
    }
}

proof fn lemma_entries_map_missing(s: Seq<(String, ExchangeRateRecord)>, k: Seq<char>)
    requires
        forall|j: int| 0 <= j < s.len() ==> s[j].0@ != k,
    ensures
        !entries_map(s).contains_key(k),
    decreases s.len(),
{
    if s.len() > 0 {
        lemma_entries_map_missing(s.drop_last(), k);
    }
}

proof fn lemma_entries_map_update(
    s: Seq<(String, ExchangeRateRecord)>,
    i: int,
    e: (String, ExchangeRateRecord),
)
    requires
        0 <= i < s.len(),
        e.0@ == s[i].0@,
        forall|p: int, q: int| 0 <= p < q < s.len() ==> s[p].0@ != s[q].0@,
    ensures
        entries_map(s.update(i, e)) == entries_map(s).insert(e.0@, e.1),
    decreases s.len(),
{
    let s2 = s.update(i, e);
    if i == s.len() - 1 {
        assert(s2.drop_last() =~= s.drop_last());
        assert(entries_map(s.update(i, e)) =~= entries_map(s).insert(e.0@, e.1));
    } else {
        lemma_entries_map_update(s.drop_last(), i, e);
        assert(s2.drop_last() =~= s.drop_last().update(i, e));
        assert(s2.last() == s.last());
        assert(entries_map(s.update(i, e)) =~= entries_map(s).insert(e.0@, e.1));
    }
}

impl InMemoryStorageAdapter {
    /// The stored records, as a map from cache key to record.
    pub closed spec fn view(&self) -> Map<Seq<char>, ExchangeRateRecord> {
        entries_map(self.entries@)
    }

    /// The representation invariant: no cache key occurs twice.
    pub closed spec fn wf(&self) -> bool {
        forall|p: int, q: int|
            0 <= p < q < self.entries@.len() ==> self.entries@[p].0@ != self.entries@[q].0@
    }

    /// An empty store.
    pub fn new() -> (r: InMemoryStorageAdapter)
        ensures
            r.wf(),
            r@ == Map::<Seq<char>, ExchangeRateRecord>::empty(),
    {
        InMemoryStorageAdapter { entries: Vec::new() }
    }

    /// The position of the entry stored under `key`, if any.
    fn position_of(&self, key: &String) -> (r: Option<usize>)
        requires
            self.wf(),
        ensures
            match r {
                Some(i) => i < self.entries@.len() && self.entries@[i as int].0@ == key@,
                None => !self@.contains_key(key@),
            },
    {
        let n = self.entries.len();
        let mut i: usize = 0;
        while i < n
            invariant
                n == self.entries@.len(),
                0 <= i <= n,
                forall|j: int| 0 <= j < i ==> self.entries@[j].0@ != key@,
            decreases n - i,
        {
            if self.entries[i].0 == *key {
                return Some(i);
            }
            i = i + 1;
        }
        proof {
            lemma_entries_map_missing(self.entries@, key@);
        }
        None
    }

    /// Store `record` under its own cache key, overwriting any record
    /// already stored under that key.
    pub fn store_exchange_rates(&mut self, record: ExchangeRateRecord)
        requires
            old(self).wf(),
        ensures
            final(self).wf(),
            final(self)@ == old(self)@.insert(record.source_identifier@, record),
    {
        let key = record.source_identifier.clone();
        let ghost s = self.entries@;
        match self.position_of(&key) {
            Some(i) => {
                proof {
                    lemma_entries_map_update(s, i as int, (key, record));
                }
                self.entries.set(i, (key, record));
                proof {
                    assert forall|p: int, q: int|
                        0 <= p < q < self.entries@.len() implies self.entries@[p].0@
                        != self.entries@[q].0@ by {
                        assert(s[p].0@ != s[q].0@);
                    }
                }
            },
            None => {
                self.entries.push((key, record));
                proof {
                    assert(self.entries@.drop_last() =~= s);
                    assert forall|p: int, q: int|
                        0 <= p < q < self.entries@.len() implies self.entries@[p].0@
                        != self.entries@[q].0@ by {
                        if q == s.len() {
                            if self.entries@[p].0@ == self.entries@[q].0@ {
                                lemma_entries_map_at(s, p);
                            }
                        } else {
                            assert(s[p].0@ != s[q].0@);
                        }
                    }
                }
            },
        }
    }

    /// The record stored under `source_identifier`, if any.
    pub fn get_latest_exchange_rates(&self, source_identifier: &str) -> (r: Option<
        &ExchangeRateRecord,
    >)
        requires
            self.wf(),
        ensures
            match r {
                Some(rec) => self@.contains_key(source_identifier@) && *rec
                    == self@[source_identifier@],
                None => !self@.contains_key(source_identifier@),
            },
    {
        let key: String = source_identifier.to_owned();
        match self.position_of(&key) {
            Some(i) => {
                proof {
                    lemma_entries_map_at(self.entries@, i as int);
                }
                Some(&self.entries[i].1)
            },
            None => None,
        }
    }

    /// The cached snapshot and its fetch instant under `cache_key`, if any.
    pub fn get_exchange_rates(&self, cache_key: &str) -> (r: Option<(ExchangeRatesSnapshot, i64)>)
        requires
            self.wf(),
        ensures
            match r {
                Some(p) => self@.contains_key(cache_key@) && p.0.rates@
                    == self@[cache_key@].snapshot.rates@ && p.0.timestamp
                    == self@[cache_key@].snapshot.timestamp && p.1
                    == self@[cache_key@].fetch_timestamp,
                None => !self@.contains_key(cache_key@),
            },
    {
        match self.get_latest_exchange_rates(cache_key) {
            Some(rec) => Some((rec.snapshot.duplicate(), rec.fetch_timestamp)),
            None => None,
        }
    }

    /// Is any record stored under `source_identifier`?
    pub fn exchange_rates_exist(&self, source_identifier: &str) -> (r: bool)
        requires
            self.wf(),
        ensures
            r == self@.contains_key(source_identifier@),
    {
        match self.get_latest_exchange_rates(source_identifier) {
            Some(_) => true,
            None => false,
        }
    }

    /// The in-memory store is always reachable.
    pub fn health_check(&self) -> (r: Result<(), ExchangeError>)
        ensures
            r is Ok,
    {
        Ok(())
    }
}

} // verus!
