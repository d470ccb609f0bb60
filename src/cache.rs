//! The parser cache: generations of extraction rules kept per source URL.
//!
//! Records are keyed by the URL string alone, compared exactly. Each store
//! for a URL gets the next sequence number after the largest one present for
//! that URL; the record with the largest sequence number is the URL's
//! current generation. Records are kept in the order they were stored, and
//! each gets a fresh id.

use vstd::prelude::*;
use vstd::string::*;

verus! {

/// One stored generation of extraction rules, as mathematical values.
pub struct RecordView {
    pub id: u64,
    pub url: Seq<char>,
    pub sequence_number: u64,
    pub rules: Seq<char>,
}

/// One stored generation of extraction rules for one source URL. The rules
/// are kept in their serialized form, opaque to the cache.
#[derive(Debug)]
pub struct ParserRecord {
    pub id: u64,
    pub url: String,
    pub sequence_number: u64,
    pub rules: String,
}

impl View for ParserRecord {
    type V = RecordView;

    open spec fn view(&self) -> RecordView {
        RecordView {
            id: self.id,
            url: self.url@,
            sequence_number: self.sequence_number,
            rules: self.rules@,
        }
    }
}

impl ParserRecord {
    /// A copy of this record.
    pub fn duplicate(&self) -> (r: ParserRecord)
        ensures
            r@ == self@,
    {
        ParserRecord {
            id: self.id,
            url: self.url.clone(),
            sequence_number: self.sequence_number,
            rules: self.rules.clone(),
        }
    }
}

pub open spec fn records_view(v: Seq<ParserRecord>) -> Seq<RecordView> {
    v.map_values(|r: ParserRecord| r@)
}

/// The generation of `url` with the largest sequence number, if any.
pub open spec fn current_record(recs: Seq<RecordView>, url: Seq<char>) -> Option<RecordView>
    decreases recs.len(),
{
    if recs.len() == 0 {
        None
    } else {
        let earlier = current_record(recs.drop_last(), url);
        let last = recs.last();
        if last.url == url && (earlier is None || last.sequence_number > earlier->Some_0.sequence_number) {
            Some(last)
        } else {
            earlier
        }
    }
}

/// The largest sequence number stored for `url`, or 0 when there is none.
pub open spec fn max_sequence(recs: Seq<RecordView>, url: Seq<char>) -> nat {
    match current_record(recs, url) {
        Some(r) => r.sequence_number as nat,
        None => 0,
    }
}

/// Every generation stored for `url`, in the order they were stored.
pub open spec fn generations(recs: Seq<RecordView>, url: Seq<char>) -> Seq<RecordView>
    decreases recs.len(),
{
    if recs.len() == 0 {
        Seq::empty()
    } else {
        let earlier = generations(recs.drop_last(), url);
        if recs.last().url == url {
            earlier.push(recs.last())
        } else {
            earlier
        }
    }
}

/// The whole cache as mathematical values.
pub struct CacheState {
    pub records: Seq<RecordView>,
    /// The id that the next stored record gets.
    pub next_id: nat,
}

impl CacheState {
    /// Ids grow in storing order and stay below `next_id`; sequence numbers
    /// are positive; no two records share a URL and a sequence number.
    pub open spec fn well_formed(self) -> bool {
        &&& forall|i: int, j: int|
            0 <= i < j < self.records.len() ==> self.records[i].id < self.records[j].id
        &&& forall|i: int|
            0 <= i < self.records.len() ==> (self.records[i].id as nat) < self.next_id
                && self.records[i].sequence_number >= 1
        &&& forall|i: int, j: int|
            0 <= i < self.records.len() && 0 <= j < self.records.len()
                && self.records[i].url == self.records[j].url
                && self.records[i].sequence_number == self.records[j].sequence_number ==> i == j
    }

    /// The state after storing `rules` for `url` as a new generation.
    pub open spec fn stored(self, url: Seq<char>, rules: Seq<char>) -> CacheState {
        CacheState {
            records: self.records.push(
                RecordView {
                    id: self.next_id as u64,
                    url,
                    sequence_number: (max_sequence(self.records, url) + 1) as u64,
                    rules,
                },
            ),
            next_id: self.next_id + 1,
        }
    }

    /// The state after deleting the record with the given id, if present.
    pub open spec fn without(self, id: u64) -> CacheState {
        if exists|k: int| 0 <= k < self.records.len() && self.records[k].id == id {
            let k = choose|k: int| 0 <= k < self.records.len() && self.records[k].id == id;
            CacheState { records: self.records.remove(k), next_id: self.next_id }
        } else {
            self
        }
    }
}

/// `current_record` is the stored generation of `url` whose sequence number
/// no other generation of `url` exceeds, and is absent only when `url` has
/// no generation.
pub proof fn lemma_current_record(recs: Seq<RecordView>, url: Seq<char>)
    ensures
        current_record(recs, url) is None <==> forall|i: int|
            0 <= i < recs.len() ==> recs[i].url != url,
        current_record(recs, url) matches Some(r) ==> {
            &&& r.url == url
            &&& recs.contains(r)
            &&& forall|i: int|
                0 <= i < recs.len() && recs[i].url == url ==> recs[i].sequence_number
                    <= r.sequence_number
        },
    decreases recs.len(),
{
    if recs.len() > 0 {
        let front = recs.drop_last();
        lemma_current_record(front, url);
        assert forall|i: int| 0 <= i < front.len() implies front[i] == recs[i] by {}
        if let Some(r) = current_record(front, url) {
            let k = choose|k: int| 0 <= k < front.len() && front[k] == r;
            assert(recs[k] == r);
        }
        if current_record(recs, url) is None {
            assert forall|i: int| 0 <= i < recs.len() implies recs[i].url != url by {
                if i < front.len() {
                    assert(front[i] == recs[i]);
                }
            }
        }
        assert(recs.last() == recs[recs.len() - 1]);
    }
}

/// The generations of `url` are exactly the records stored for `url`.
pub proof fn lemma_generations(recs: Seq<RecordView>, url: Seq<char>)
    ensures
        forall|i: int| 0 <= i < generations(recs, url).len() ==> {
            &&& generations(recs, url)[i].url == url
            &&& recs.contains(generations(recs, url)[i])
        },
        generations(recs, url).len() == 0 <==> forall|i: int|
            0 <= i < recs.len() ==> recs[i].url != url,
    decreases recs.len(),
{
    if recs.len() > 0 {
        let front = recs.drop_last();
        lemma_generations(front, url);
        assert forall|i: int| 0 <= i < front.len() implies front[i] == recs[i] by {}
        let g = generations(recs, url);
        assert forall|i: int| 0 <= i < g.len() implies g[i].url == url && recs.contains(g[i]) by {
            if i < generations(front, url).len() {
                let k = choose|k: int| 0 <= k < front.len() && front[k] == g[i];
                assert(recs[k] == g[i]);
            } else {
                assert(recs[recs.len() - 1] == g[i]);
            }
        }
        if g.len() == 0 {
            assert forall|i: int| 0 <= i < recs.len() implies recs[i].url != url by {
                if i < front.len() {
                    assert(front[i] == recs[i]);
                }
            }
        }
    }
}


/// Why a generation could not be stored.
#[derive(Clone, Copy, Debug, PartialEq, Eq, Structural)]
pub enum CacheError {
    /// Sequence numbers for this URL, or record ids, are used up.
    Exhausted,
}

/// The parser cache.
pub struct ParserCache {
    records: Vec<ParserRecord>,
    next_id: u64,
}

impl View for ParserCache {
    type V = CacheState;

    closed spec fn view(&self) -> CacheState {
        CacheState { records: records_view(self.records@), next_id: self.next_id as nat }
    }
}

impl ParserCache {
    /// An empty cache.
    pub fn new() -> (r: ParserCache)
        ensures
            r@.records.len() == 0,
            r@.next_id == 0,
            r@.well_formed(),
    {
        ParserCache { records: Vec::new(), next_id: 0 }
    }

    /// The id that the next stored record gets; kept with the records so
    /// that ids are never reused.
    pub fn next_id(&self) -> (r: u64)
        ensures
            r as nat == self@.next_id,
    {
        self.next_id
    }

    /// Every record, in storing order.
    pub fn records(&self) -> (r: Vec<ParserRecord>)
        ensures
            records_view(r@) == self@.records,
    {
        let mut out: Vec<ParserRecord> = Vec::new();
        let mut i: usize = 0;
        while i < self.records.len()
            invariant
                i <= self.records.len(),
                out@.len() == i,
                forall|j: int| 0 <= j < i ==> out@[j]@ == self@.records[j],
            decreases self.records.len() - i,
        {
            out.push(self.records[i].duplicate());
            i = i + 1;
        }
        assert(records_view(out@) =~= self@.records);
        out
    }

    /// The index of the current generation of `url` among the records.
    fn current_index(&self, url: &String) -> (r: Option<usize>)
        ensures
            match r {
                Some(k) => k < self.records.len() && current_record(self@.records, url@) == Some(self@.records[k as int]),
                None => current_record(self@.records, url@) is None,
            },
    {
        let mut best: Option<usize> = None;
        let mut i: usize = 0;
        while i < self.records.len()
            invariant
                i <= self.records.len(),
                match best {
                    Some(k) => k < i && current_record(self@.records.take(i as int), url@) == Some(self@.records[k as int]),
                    None => current_record(self@.records.take(i as int), url@) is None,
                },
            decreases self.records.len() - i,
        {
            let ghost pre = self@.records.take(i as int);
            assert(self@.records.take(i as int + 1).drop_last() =~= pre);
            assert(self@.records.take(i as int + 1).last() == self@.records[i as int]);
            if self.records[i].url == *url {
                match best {
                    None => {
                        best = Some(i);
                    },
                    Some(k) => {
                        if self.records[i].sequence_number > self.records[k].sequence_number {
                            best = Some(i);
                        }
                    },
                }
            }
            i = i + 1;
        }
        assert(self@.records.take(i as int) =~= self@.records);
        best
    }

    /// The largest sequence number stored for `url`; `None` on a cache miss.
    pub fn current_sequence_number(&self, url: &str) -> (r: Option<u64>)
        requires
            self@.well_formed(),
        ensures
            r == (if max_sequence(self@.records, url@) == 0 {
                None
            } else {
                Some(max_sequence(self@.records, url@) as u64)
            }),
    {
        let key = String::from_str(url);
        proof {
            lemma_current_record(self@.records, url@);
        }
        match self.current_index(&key) {
            Some(k) => Some(self.records[k].sequence_number),
            None => None,
        }
    }

    /// The current generation of `url`; `None` on a cache miss.
    pub fn current_generation(&self, url: &str) -> (r: Option<ParserRecord>)
        ensures
            match r {
                Some(rec) => current_record(self@.records, url@) == Some(rec@),
                None => current_record(self@.records, url@) is None,
            },
    {
        let key = String::from_str(url);
        match self.current_index(&key) {
            Some(k) => Some(self.records[k].duplicate()),
            None => None,
        }
    }

    /// Every generation stored for `url`, in storing order; `None` on a
    /// cache miss, never an empty vector.
    pub fn all_generations(&self, url: &str) -> (r: Option<Vec<ParserRecord>>)
        ensures
            match r {
                Some(v) => records_view(v@) == generations(self@.records, url@) && v@.len() > 0,
                None => generations(self@.records, url@).len() == 0,
            },
    {
        let key = String::from_str(url);
        let mut out: Vec<ParserRecord> = Vec::new();
        let mut i: usize = 0;
        while i < self.records.len()
            invariant
                i <= self.records.len(),
                key@ == url@,
                records_view(out@) == generations(self@.records.take(i as int), url@),
            decreases self.records.len() - i,
        {
            let ghost pre = self@.records.take(i as int);
            assert(self@.records.take(i as int + 1).drop_last() =~= pre);
            assert(self@.records.take(i as int + 1).last() == self@.records[i as int]);
            if self.records[i].url == key {
                out.push(self.records[i].duplicate());
            }
            i = i + 1;
            assert(records_view(out@) =~= generations(self@.records.take(i as int), url@));
        }
        assert(self@.records.take(i as int) =~= self@.records);
        if out.len() == 0 {
            None
        } else {
            Some(out)
        }
    }

    /// Stores `rules` as the next generation for `url` and returns the new
    /// record. Fails, changing nothing, only when the sequence numbers of
    /// `url` or the record ids are used up.
    pub fn store(&mut self, url: String, rules: String) -> (r: Result<ParserRecord, CacheError>)
        requires
            old(self)@.well_formed(),
        ensures
            final(self)@.well_formed(),
            r is Ok <==> max_sequence(old(self)@.records, url@) < u64::MAX && old(self)@.next_id < u64::MAX,
            match r {
                Ok(rec) => {
                    &&& final(self)@ == old(self)@.stored(url@, rules@)
                    &&& rec@ == final(self)@.records.last()
                },
                Err(e) => final(self)@ == old(self)@ && e == CacheError::Exhausted,
            },
    {
        let current: u64 = match self.current_index(&url) {
            Some(k) => self.records[k].sequence_number,
            None => 0,
        };
        if current == u64::MAX || self.next_id == u64::MAX {
            return Err(CacheError::Exhausted);
        }
        proof {
            lemma_current_record(self@.records, url@);
        }
        let rec = ParserRecord { id: self.next_id, url, sequence_number: current + 1, rules };
        let out = rec.duplicate();
        let ghost before = self@;
        self.records.push(rec);
        self.next_id = self.next_id + 1;
        proof {
            assert(self@.records =~= before.records.push(out@));
            assert forall|i: int, j: int|
                0 <= i < self@.records.len() && 0 <= j < self@.records.len()
                    && self@.records[i].url == self@.records[j].url
                    && self@.records[i].sequence_number == self@.records[j].sequence_number
                implies i == j by {
                if i < before.records.len() && j == before.records.len() {
                    assert(before.records[i].url == out@.url);
                } else if j < before.records.len() && i == before.records.len() {
                    assert(before.records[j].url == out@.url);
                }
            }
        }
        Ok(out)
    }

    /// Removes the record with the id of `record`; does nothing when no such
    /// record is stored.
    pub fn delete_generation(&mut self, record: &ParserRecord)
        requires
            old(self)@.well_formed(),
        ensures
            final(self)@.well_formed(),
            final(self)@ == old(self)@.without(record.id),
    {
        let mut i: usize = 0;
        while i < self.records.len()
            invariant
                i <= self.records.len(),
                self@ == old(self)@,
                self@.well_formed(),
                forall|k: int| 0 <= k < i ==> self@.records[k].id != record.id,
            decreases self.records.len() - i,
        {
            if self.records[i].id == record.id {
                let ghost before = self@;
                proof {
                    assert(before.records[i as int].id == record.id);
                    let k = choose|k: int| 0 <= k < before.records.len() && before.records[k].id == record.id;
                    if k != i {
                        if k < i {
                            assert(before.records[k].id < before.records[i as int].id);
                        } else {
                            assert(before.records[i as int].id < before.records[k].id);
                        }
                    }
                }
                self.records.remove(i);
                assert(self@.records =~= before.records.remove(i as int));
                return;
            }
            i = i + 1;
        }
        assert(!(exists|k: int| 0 <= k < self@.records.len() && self@.records[k].id == record.id));
    }
}


/// Why an administrative command was refused.
#[derive(Clone, Copy, Debug, PartialEq, Eq, Structural)]
pub enum AdminError {
    /// Listing and popping generations need a URL.
    MissingUrl,
}

/// The cache state that `recs` and the id counter describe when read back
/// from storage.
pub open spec fn restored(recs: Seq<ParserRecord>, next_id: u64) -> CacheState {
    CacheState { records: records_view(recs), next_id: next_id as nat }
}

/// One generation in a listing, marked when it is the current one.
#[derive(Debug)]
pub struct GenerationEntry {
    pub record: ParserRecord,
    pub current: bool,
}

impl ParserCache {
    /// Lists every generation of `url` in storing order, marking the current
    /// one. Without a URL this is a usage error.
    pub fn list_generations(&self, url: Option<&str>) -> (r: Result<Vec<GenerationEntry>, AdminError>)
        requires
            self@.well_formed(),
        ensures
            match url {
                None => r == Err::<Vec<GenerationEntry>, AdminError>(AdminError::MissingUrl),
                Some(u) => r matches Ok(v) && {
                    let gens = generations(self@.records, u@);
                    &&& v@.len() == gens.len()
                    &&& forall|i: int| 0 <= i < gens.len() ==> {
                        &&& #[trigger] v@[i].record@ == gens[i]
                        &&& v@[i].current == (gens[i].sequence_number == max_sequence(self@.records, u@))
                    }
                },
            },
    {
        let u = match url {
            None => return Err(AdminError::MissingUrl),
            Some(u) => u,
        };
        let current = self.current_sequence_number(u);
        let gens = match self.all_generations(u) {
            None => Vec::new(),
            Some(v) => v,
        };
        proof {
            lemma_current_record(self@.records, u@);
            lemma_generations(self@.records, u@);
        }
        let ghost g = generations(self@.records, u@);
        assert(records_view(gens@) =~= g);
        let mut out: Vec<GenerationEntry> = Vec::new();
        let mut i: usize = 0;
        while i < gens.len()
            invariant
                i <= gens.len(),
                records_view(gens@) == g,
                out@.len() == i,
                current == (if max_sequence(self@.records, u@) == 0 {
                    None
                } else {
                    Some(max_sequence(self@.records, u@) as u64)
                }),
                forall|j: int| 0 <= j < g.len() ==> g[j].sequence_number >= 1,
                forall|j: int| 0 <= j < i ==> {
                    &&& #[trigger] out@[j].record@ == g[j]
                    &&& out@[j].current == (g[j].sequence_number == max_sequence(self@.records, u@))
                },
            decreases gens.len() - i,
        {
            assert(gens@[i as int]@ == g[i as int]);
            let is_current = match current {
                Some(n) => gens[i].sequence_number == n,
                None => false,
            };
            out.push(GenerationEntry { record: gens[i].duplicate(), current: is_current });
            i = i + 1;
        }
        Ok(out)
    }

    /// Deletes the current generation of `url` and returns it; `Ok(None)`,
    /// changing nothing, on a cache miss. Without a URL this is a usage error.
    pub fn pop_current(&mut self, url: Option<&str>) -> (r: Result<Option<ParserRecord>, AdminError>)
        requires
            old(self)@.well_formed(),
        ensures
            final(self)@.well_formed(),
            match url {
                None => r is Err && r->Err_0 == AdminError::MissingUrl && final(self)@ == old(self)@,
                Some(u) => match r {
                    Ok(Some(rec)) => {
                        &&& current_record(old(self)@.records, u@) == Some(rec@)
                        &&& final(self)@ == old(self)@.without(rec.id)
                    },
                    Ok(None) => current_record(old(self)@.records, u@) is None && final(self)@ == old(self)@,
                    Err(_) => false,
                },
            },
    {
        let u = match url {
            None => return Err(AdminError::MissingUrl),
            Some(u) => u,
        };
        match self.current_generation(u) {
            None => Ok(None),
            Some(rec) => {
                self.delete_generation(&rec);
                Ok(Some(rec))
            },
        }
    }

    /// Rebuilds a cache from records read back from storage, in storing
    /// order, and the id counter stored beside them. Refuses records that
    /// break the cache's invariants: ids not increasing or not below the
    /// counter, a sequence number of 0, or two records sharing a URL and a
    /// sequence number.
    pub fn from_records(records: Vec<ParserRecord>, next_id: u64) -> (r: Option<ParserCache>)
        ensures
            match r {
                Some(c) => c@ == restored(records@, next_id) && c@.well_formed(),
                None => !restored(records@, next_id).well_formed(),
            },
    {
        let n = records.len();
        let ghost st = restored(records@, next_id);
        let mut i: usize = 0;
        while i < n
            invariant
                n == records.len(),
                i <= n,
                st == restored(records@, next_id),
                forall|a: int, b: int| 0 <= a < b < i ==> st.records[a].id < st.records[b].id,
                forall|a: int| 0 <= a < i ==> st.records[a].sequence_number >= 1,
                forall|a: int, b: int|
                    0 <= a < i && 0 <= b < i && st.records[a].url == st.records[b].url
                        && st.records[a].sequence_number == st.records[b].sequence_number ==> a == b,
            decreases n - i,
        {
            assert(st.records[i as int] == records@[i as int]@);
            if records[i].sequence_number == 0 {
                assert(!st.well_formed());
                return None;
            }
            if i > 0 && records[i - 1].id >= records[i].id {
                assert(st.records[i - 1] == records@[i - 1]@);
                assert(!st.well_formed());
                return None;
            }
            let mut j: usize = 0;
            while j < i
                invariant
                    n == records.len(),
                    j <= i < n,
                    st == restored(records@, next_id),
                    st.records[i as int] == records@[i as int]@,
                    forall|a: int| 0 <= a < j ==> !(st.records[a].url == st.records[i as int].url
                        && st.records[a].sequence_number == st.records[i as int].sequence_number),
                decreases i - j,
            {
                assert(st.records[j as int] == records@[j as int]@);
                if records[j].url == records[i].url && records[j].sequence_number == records[i].sequence_number {
                    assert(!st.well_formed());
                    return None;
                }
                j = j + 1;
            }
            i = i + 1;
        }
        if n == 0 {
            return Some(ParserCache { records, next_id });
        }
        assert(st.records[n - 1] == records@[n - 1]@);
        if records[n - 1].id >= next_id {
            assert(!st.well_formed());
            return None;
        }
        proof {
            assert forall|a: int| 0 <= a < n implies (st.records[a].id as nat) < st.next_id by {
                if a < n - 1 {
                    assert(st.records[a].id < st.records[n - 1].id);
                }
            }
        }
        Some(ParserCache { records, next_id })
    }
}

/// The state after storing each of `rules` for `url`, in order.
pub open spec fn stored_all(st: CacheState, url: Seq<char>, rules: Seq<Seq<char>>) -> CacheState
    decreases rules.len(),
{
    if rules.len() == 0 {
        st
    } else {
        stored_all(st, url, rules.drop_last()).stored(url, rules.last())
    }
}

/// Storing for a URL that has no generation yet makes the new record its
/// current generation, with sequence number 1.
pub proof fn first_store_is_generation_one(st: CacheState, url: Seq<char>, rules: Seq<char>)
    requires
        st.well_formed(),
        generations(st.records, url).len() == 0,
    ensures
        max_sequence(st.stored(url, rules).records, url) == 1,
        current_record(st.stored(url, rules).records, url) == Some(st.stored(url, rules).records.last()),
        st.stored(url, rules).records.drop_last() == st.records,
        st.stored(url, rules).records.last() == (RecordView {
            id: st.next_id as u64,
            url,
            sequence_number: 1,
            rules,
        }),
        st.stored(url, rules).next_id == st.next_id + 1,
{
    lemma_generations(st.records, url);
    lemma_current_record(st.records, url);
    assert(st.stored(url, rules).records.drop_last() =~= st.records);
}

/// Storing N rule sets in turn for a URL that has no generation yet leaves
/// exactly N generations for it, numbered 1 to N in storing order, each with
/// the rules stored at that turn; the current sequence number is then N.
pub proof fn stores_number_generations_from_one(st: CacheState, url: Seq<char>, rules: Seq<Seq<char>>)
    requires
        generations(st.records, url).len() == 0,
        rules.len() < u64::MAX,
    ensures
        max_sequence(stored_all(st, url, rules).records, url) == rules.len(),
        generations(stored_all(st, url, rules).records, url).len() == rules.len(),
        forall|i: int| 0 <= i < rules.len() ==> {
            &&& #[trigger] generations(stored_all(st, url, rules).records, url)[i].sequence_number == i + 1
            &&& generations(stored_all(st, url, rules).records, url)[i].rules == rules[i]
        },
        forall|i: int, j: int| 0 <= i < j < rules.len() ==>
            #[trigger] generations(stored_all(st, url, rules).records, url)[i].sequence_number
                != #[trigger] generations(stored_all(st, url, rules).records, url)[j].sequence_number,
        rules.len() > 0 ==> {
            &&& current_record(stored_all(st, url, rules).records, url)
                == Some(stored_all(st, url, rules).records.last())
            &&& stored_all(st, url, rules).records.last().rules == rules.last()
        },
    decreases rules.len(),
{
    if rules.len() == 0 {
        lemma_generations(st.records, url);
        lemma_current_record(st.records, url);
    } else {
        let front = rules.drop_last();
        stores_number_generations_from_one(st, url, front);
        let prev = stored_all(st, url, front);
        let end = stored_all(st, url, rules);
        assert(end.records.drop_last() =~= prev.records);
        assert(generations(end.records, url) =~= generations(prev.records, url).push(end.records.last()));
        if front.len() == 0 {
            assert(prev == st);
            lemma_generations(st.records, url);
            lemma_current_record(st.records, url);
        }
        assert forall|i: int| 0 <= i < rules.len() implies {
            &&& #[trigger] generations(end.records, url)[i].sequence_number == i + 1
            &&& generations(end.records, url)[i].rules == rules[i]
        } by {
            if i < front.len() {
                assert(generations(end.records, url)[i] == generations(prev.records, url)[i]);
                assert(front[i] == rules[i]);
            }
        }
    }
}

/// Deleting the current generation of a URL makes the highest remaining
/// generation of that URL current, with a smaller sequence number; when it
/// was the only generation, the URL no longer has a current generation.
pub proof fn deleting_current_generation(st: CacheState, url: Seq<char>)
    requires
        st.well_formed(),
        current_record(st.records, url) is Some,
    ensures
        ({
            let c = current_record(st.records, url)->Some_0;
            let after = st.without(c.id);
            &&& (current_record(after.records, url) is None <==> forall|i: int|
                0 <= i < st.records.len() && st.records[i].url == url ==> st.records[i].id == c.id)
            &&& (current_record(after.records, url) matches Some(n) ==> {
                &&& n.sequence_number < c.sequence_number
                &&& st.records.contains(n)
                &&& forall|i: int|
                    0 <= i < st.records.len() && st.records[i].url == url && st.records[i].id != c.id
                        ==> st.records[i].sequence_number <= n.sequence_number
            })
        }),
{
    let recs = st.records;
    let c = current_record(recs, url)->Some_0;
    lemma_current_record(recs, url);
    let k0 = choose|k: int| 0 <= k < recs.len() && recs[k] == c;
    assert(recs[k0].id == c.id);
    let k = choose|k: int| 0 <= k < recs.len() && recs[k].id == c.id;
    if k < k0 {
        assert(recs[k].id < recs[k0].id);
    } else if k0 < k {
        assert(recs[k0].id < recs[k].id);
    }
    assert(k == k0);
    let rest = recs.remove(k);
    assert(st.without(c.id).records == rest);
    lemma_current_record(rest, url);
    assert forall|i: int| 0 <= i < rest.len() implies rest[i] == (if i < k { recs[i] } else { recs[i + 1] }) by {}
    if current_record(rest, url) is None {
        assert forall|i: int| 0 <= i < recs.len() && recs[i].url == url implies recs[i].id == c.id by {
            if i < k {
                assert(rest[i] == recs[i]);
            } else if i > k {
                assert(rest[i - 1] == recs[i]);
            }
        }
    } else {
        if forall|i: int| 0 <= i < recs.len() && recs[i].url == url ==> recs[i].id == c.id {
            let n = current_record(rest, url)->Some_0;
            let m = choose|m: int| 0 <= m < rest.len() && rest[m] == n;
            if m < k {
                assert(recs[m] == n);
            } else {
                assert(recs[m + 1] == n);
            }
        }
    }
    if let Some(n) = current_record(rest, url) {
        let m = choose|m: int| 0 <= m < rest.len() && rest[m] == n;
        let mm = if m < k { m } else { m + 1 };
        assert(recs[mm] == n);
        assert(mm != k);
        assert(recs.contains(n));
        assert forall|i: int|
            0 <= i < recs.len() && recs[i].url == url && recs[i].id != c.id
            implies recs[i].sequence_number <= n.sequence_number by {
            if i < k {
                assert(rest[i] == recs[i]);
            } else if i > k {
                assert(rest[i - 1] == recs[i]);
            }
        }
    }
}

} // verus!
