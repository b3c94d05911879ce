use vstd::prelude::*;

use crate::report::Diagnostic;
use crate::table::Table;
use crate::text::{chars_eq, chars_of};

verus! {

/// Diagnostics computed for a document, tagged with the fingerprint of the
/// text they were computed on.
pub struct CachedResult {
    pub diagnostics: Vec<Diagnostic>,
    pub fingerprint: String,
    /// When the result was computed, in milliseconds of the caller's clock.
    pub created_at: u64,
}

/// What the cache answers for an identity and the fingerprint that the
/// caller already holds.
#[derive(Debug, Clone, Copy, PartialEq, Eq, Structural)]
pub enum CacheAnswer {
    /// The caller holds the current result.
    Unchanged,
    /// The cached result is to be sent in full.
    Full,
    /// Nothing is cached.
    Miss,
}

/// The answer for `id` when the caller holds `known`.
pub open spec fn answer_for(
    results: Map<Seq<char>, CachedResult>,
    id: Seq<char>,
    known: Option<Seq<char>>,
) -> CacheAnswer {
    if !results.contains_key(id) {
        CacheAnswer::Miss
    } else if known == Some(results[id].fingerprint@) {
        CacheAnswer::Unchanged
    } else {
        CacheAnswer::Full
    }
}

pub open spec fn known_view(known: Option<&str>) -> Option<Seq<char>> {
    match known {
        Some(k) => Some(k@),
        None => None,
    }
}

/// Results of earlier runs of the tool, one per document identity.
pub struct ResultCache {
    results: Table<CachedResult>,
}

impl ResultCache {
    /// The result under each identity.
    pub closed spec fn results(&self) -> Map<Seq<char>, CachedResult> {
        self.results.map()
    }

    pub closed spec fn wf(&self) -> bool {
        self.results.wf()
    }

    /// An empty cache.
    pub fn new() -> (r: Self)
        ensures
            r.wf(),
            r.results() == Map::<Seq<char>, CachedResult>::empty(),
    {
        ResultCache { results: Table::new() }
    }

    /// Whether the caller, holding the fingerprint `known`, is current for
    /// `id`, should get the cached result, or finds nothing.
    pub fn lookup(&self, id: &str, known: Option<&str>) -> (r: CacheAnswer)
        requires
            self.wf(),
        ensures
            r == answer_for(self.results(), id@, known_view(known)),
    {
        match self.results.get(id) {
            None => CacheAnswer::Miss,
            Some(entry) => match known {
                Some(k) => {
                    if chars_eq(&chars_of(k), &chars_of(entry.fingerprint.as_str())) {
                        CacheAnswer::Unchanged
                    } else {
                        CacheAnswer::Full
                    }
                },
                None => CacheAnswer::Full,
            },
        }
    }

    /// The cached result under `id`.
    pub fn get(&self, id: &str) -> (r: Option<&CachedResult>)
        requires
            self.wf(),
        ensures
            match r {
                Some(c) => self.results().contains_key(id@) && self.results()[id@] == *c,
                None => !self.results().contains_key(id@),
            },
    {
        self.results.get(id)
    }

    /// Caches `result` under `id`, in place of any earlier one.
    pub fn store(&mut self, id: String, result: CachedResult)
        requires
            old(self).wf(),
        ensures
            final(self).wf(),
            final(self).results() == old(self).results().insert(id@, result),
    {
        self.invalidate(id.as_str());
        self.results.push_new(id, result);
    }

    /// Drops the result under `id`, if any.
    pub fn invalidate(&mut self, id: &str)
        requires
            old(self).wf(),
        ensures
            final(self).wf(),
            final(self).results() == old(self).results().remove(id@),
    {
        match self.results.find(id) {
            Some(i) => {
                self.results.remove_at(i);
            },
            None => {
                assert(self.results.map().remove(id@) =~= self.results.map());
            },
        }
    }

    /// Drops every result.
    pub fn clear(&mut self)
        requires
            old(self).wf(),
        ensures
            final(self).wf(),
            final(self).results() == Map::<Seq<char>, CachedResult>::empty(),
    {
        self.results.clear();
    }
}

/// The cache answers `Unchanged` exactly when the caller's fingerprint is
/// the one cached for the identity.
pub proof fn lemma_unchanged_iff_current(
    results: Map<Seq<char>, CachedResult>,
    id: Seq<char>,
    known: Seq<char>,
)
    ensures
        (answer_for(results, id, Some(known)) == CacheAnswer::Unchanged) <==> (
        results.contains_key(id) && results[id].fingerprint@ == known),
{
}

/// After the result of an identity is dropped, the cache misses it,
/// whatever the caller holds.
pub proof fn lemma_invalidated_misses(
    before: Map<Seq<char>, CachedResult>,
    id: Seq<char>,
    known: Option<Seq<char>>,
)
    ensures
        answer_for(before.remove(id), id, known) == CacheAnswer::Miss,
{
}

} // verus!
