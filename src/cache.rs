//! The entry cache: records of resolved log entries, keyed by entry
//! identifier, filled lazily and never changed once filled.
use crate::timestamp::{
    decimal, denotes, iso_text, push_decimal, render_integration_time, representable, UtcDateTime,
};
use vstd::prelude::*;

verus! {

/// What this library reads of a resolved log entry.
#[derive(Clone, Copy, Debug, PartialEq, Eq, Structural)]
pub struct EntryRecord {
    pub log_index: i64,
    pub integrated_time: i64,
}

/// The decimal numeral of `n`, with a minus sign when negative.
pub open spec fn signed_decimal(n: int) -> Seq<char> {
    if n < 0 {
        seq!['-'] + decimal((-n) as nat)
    } else {
        decimal(n as nat)
    }
}

impl EntryRecord {
    /// The log index as decimal text.
    pub fn index_text(&self) -> (r: String)
        ensures
            r@ == signed_decimal(self.log_index as int),
    {
        let mut out = String::new();
        let n = self.log_index as i128;
        if n < 0 {
            out.append("-");
            proof {
                reveal_strlit("-");
            }
            push_decimal(&mut out, (-n) as u64);
        } else {
            push_decimal(&mut out, n as u64);
        }
        assert(out@ =~= signed_decimal(self.log_index as int));
        out
    }

    /// The integration time as UTC date-time text, `None` when it lies outside
    /// the years that can be rendered.
    pub fn time_text(&self) -> (r: Option<String>)
        ensures
            r is Some <==> representable(self.integrated_time as int),
            r matches Some(s) ==> exists|t: UtcDateTime|
                denotes(t, self.integrated_time as int) && s@ == iso_text(t),
    {
        render_integration_time(self.integrated_time)
    }
}

/// What resolving an identifier calls for.
#[derive(Clone, Copy, Debug, PartialEq, Eq, Structural)]
pub enum ResolveStep {
    /// The record is cached: it is the answer and nothing is fetched.
    Cached(EntryRecord),
    /// The record is not cached: it has to be fetched.
    Fetch,
}

/// The step that resolving `key` against the cache contents `m` calls for.
pub open spec fn resolve_step(m: Map<Seq<char>, EntryRecord>, key: Seq<char>) -> ResolveStep {
    if m.contains_key(key) {
        ResolveStep::Cached(m[key])
    } else {
        ResolveStep::Fetch
    }
}

/// The cache contents after a fetch of `key` completed: a fetched record is
/// added unless `key` is already resolved; a failure (`None`) changes nothing.
pub open spec fn after_fetch(
    m: Map<Seq<char>, EntryRecord>,
    key: Seq<char>,
    outcome: Option<EntryRecord>,
) -> Map<Seq<char>, EntryRecord> {
    match outcome {
        Some(r) => if m.contains_key(key) {
            m
        } else {
            m.insert(key, r)
        },
        None => m,
    }
}

/// What a fetch's outcome carries: the record, or `None` on failure.
pub open spec fn fetch_outcome<E>(outcome: Result<EntryRecord, E>) -> Option<EntryRecord> {
    match outcome {
        Ok(r) => Some(r),
        Err(_) => None,
    }
}

/// Resolved entry records keyed by entry identifier. A missing key means "not
/// resolved yet"; entries are added, never removed or replaced.
pub struct EntryCache {
    entries: Vec<(String, EntryRecord)>,
    contents: Ghost<Map<Seq<char>, EntryRecord>>,
}

impl View for EntryCache {
    type V = Map<Seq<char>, EntryRecord>;

    closed spec fn view(&self) -> Map<Seq<char>, EntryRecord> {
        self.contents@
    }
}

impl EntryCache {
    /// Each identifier is stored once, and the stored pairs are the contents.
    pub closed spec fn wf(&self) -> bool {
        &&& forall|i: int, j: int|
            0 <= i < j < self.entries@.len() ==> self.entries@[i].0@ != self.entries@[j].0@
        &&& forall|i: int|
            0 <= i < self.entries@.len() ==> #[trigger] self.contents@.contains_key(
                self.entries@[i].0@,
            ) && self.contents@[self.entries@[i].0@] == self.entries@[i].1
        &&& forall|k: Seq<char>|
            #[trigger] self.contents@.contains_key(k) ==> exists|i: int|
                0 <= i < self.entries@.len() && self.entries@[i].0@ == k
    }

    /// An empty cache.
    pub fn new() -> (r: EntryCache)
        ensures
            r.wf(),
            r@ == Map::<Seq<char>, EntryRecord>::empty(),
    {
        EntryCache { entries: Vec::new(), contents: Ghost(Map::empty()) }
    }

    /// The record resolved for `id`, if any.
    pub fn lookup(&self, id: &String) -> (r: Option<EntryRecord>)
        requires
            self.wf(),
        ensures
            r is Some <==> self@.contains_key(id@),
            r matches Some(rec) ==> rec == self@[id@],
    {
        let mut i: usize = 0;
        while i < self.entries.len()
            invariant
                self.wf(),
                i <= self.entries@.len(),
                forall|j: int| 0 <= j < i ==> self.entries@[j].0@ != id@,
            decreases self.entries@.len() - i,
        {
            if self.entries[i].0 == *id {
                assert(self.contents@.contains_key(self.entries@[i as int].0@));
                return Some(self.entries[i].1);
            }
            i = i + 1;
        }
        None
    }

    /// Resolving `id`: a cached record is the answer; otherwise a fetch is due.
    pub fn resolve(&self, id: &String) -> (r: ResolveStep)
        requires
            self.wf(),
        ensures
            r == resolve_step(self@, id@),
    {
        match self.lookup(id) {
            Some(rec) => ResolveStep::Cached(rec),
            None => ResolveStep::Fetch,
        }
    }

    /// Applies the outcome of a fetch of `id` as it arrives: a record is
    /// stored unless `id` is already resolved, an error is dropped.
    pub fn record_fetch<E>(&mut self, id: String, outcome: Result<EntryRecord, E>)
        requires
            old(self).wf(),
        ensures
            final(self).wf(),
            final(self)@ == after_fetch(old(self)@, id@, fetch_outcome(outcome)),
    {
        match outcome {
            Ok(rec) => {
                if self.lookup(&id).is_none() {
                    let ghost key = id@;
                    self.contents = Ghost(self.contents@.insert(key, rec));
                    self.entries.push((id, rec));
                    assert(self.entries@[self.entries@.len() - 1].0@ == key);
                    assert forall|k: Seq<char>| #[trigger]
                        self.contents@.contains_key(k) implies exists|i: int|
                        0 <= i < self.entries@.len() && self.entries@[i].0@ == k by {
                        if k != key {
                            assert(old(self).contents@.contains_key(k));
                            let i = choose|i: int|
                                0 <= i < old(self).entries@.len() && old(self).entries@[i].0@
                                    == k;
                            assert(self.entries@[i] == old(self).entries@[i]);
                        } else {
                            assert(self.entries@[self.entries@.len() - 1].0@ == k);
                        }
                    }
                }
            },
            Err(_) => {},
        }
    }
}

/// Resolving an identifier twice, when the first resolution fetched its record
/// successfully, fetches once: the second resolution is served from the cache
/// with the very record that the fetch returned.
pub proof fn lemma_second_resolve_cached(
    m: Map<Seq<char>, EntryRecord>,
    key: Seq<char>,
    rec: EntryRecord,
)
    requires
        !m.contains_key(key),
    ensures
        resolve_step(m, key) == ResolveStep::Fetch,
        resolve_step(after_fetch(m, key, Some(rec)), key) == ResolveStep::Cached(rec),
{
}

/// A failed fetch leaves the identifier unresolved, so resolving it again
/// fetches again instead of answering with a cached failure.
pub proof fn lemma_failed_fetch_retried(m: Map<Seq<char>, EntryRecord>, key: Seq<char>)
    requires
        !m.contains_key(key),
    ensures
        !after_fetch(m, key, None).contains_key(key),
        resolve_step(after_fetch(m, key, None), key) == ResolveStep::Fetch,
{
}

} // verus!
