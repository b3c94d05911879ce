use vstd::prelude::*;

use crate::cache::{CacheAnswer, CachedResult, ResultCache};
use crate::cache;
use crate::report::{parse_phpcs_output, Diagnostic, DiagnosticView};
use crate::report;
use crate::store::{decompress_document, Document, DocumentStore, StoreError};
use crate::store;
use crate::text::{chars_eq, chars_of};

verus! {

/// Copy of a diagnostic.
pub fn clone_diagnostic(d: &Diagnostic) -> (r: Diagnostic)
    ensures
        r@ == d@,
{
    Diagnostic {
        range: d.range,
        severity: d.severity,
        code: match &d.code {
            Some(c) => Some(c.clone()),
            None => None,
        },
        source: d.source.clone(),
        message: d.message.clone(),
        fixable: d.fixable,
        rule: d.rule.clone(),
        raw_severity: d.raw_severity,
    }
}

pub open spec fn views(v: Seq<Diagnostic>) -> Seq<DiagnosticView> {
    v.map_values(|d: Diagnostic| d@)
}

/// Copy of a list of diagnostics.
pub fn clone_diagnostics(v: &Vec<Diagnostic>) -> (r: Vec<Diagnostic>)
    ensures
        views(r@) == views(v@),
{
    let mut out: Vec<Diagnostic> = Vec::new();
    let mut i: usize = 0;
    while i < v.len()
        invariant
            i <= v@.len(),
            views(out@) == views(v@.subrange(0, i as int)),
        decreases v@.len() - i,
    {
        let d = clone_diagnostic(&v[i]);
        let ghost before = out@;
        out.push(d);
        proof {
            assert(views(out@) =~= views(before).push(v@[i as int]@));
            assert(views(v@.subrange(0, i + 1)) =~= views(v@.subrange(0, i as int)).push(
                v@[i as int]@,
            ));
        }
        i += 1;
    }
    proof {
        assert(v@.subrange(0, v@.len() as int) =~= v@);
    }
    out
}

/// What a diagnostic request calls for.
pub enum Plan {
    /// The caller holds the current result, whose fingerprint this is.
    Unchanged(String),
    /// The cached diagnostics, with their fingerprint.
    Full(Vec<Diagnostic>, String),
    /// The tool must run on `text`, the document with this fingerprint.
    Run { text: String, fingerprint: String },
    /// The store holds no such document.
    Absent,
    /// The stored document cannot be restored.
    Unreadable,
}

/// The shape of a plan.
#[derive(Debug, Clone, Copy, PartialEq, Eq, Structural)]
pub enum PlanKind {
    Unchanged,
    Full,
    Run,
    Absent,
    Unreadable,
}

/// The answer to a diagnostic request.
pub enum Report {
    /// Nothing changed since the result with this identifier.
    Unchanged(String),
    /// The complete current set; without an identifier when it is not known
    /// to be current.
    Full { result_id: Option<String>, items: Vec<Diagnostic> },
}

/// The coding standard in the options that the editor starts the server with.
pub enum InitStandard {
    /// The editor sent no options.
    NotGiven,
    /// The options could not be read.
    Unreadable,
    /// The options, with the standard they name if any.
    Given(Option<String>),
}

/// The state of the language server: open documents, cached results, the
/// coding standard and the tool's path.
pub struct Server {
    documents: DocumentStore,
    cache: ResultCache,
    standard: Option<String>,
    tool_path: Option<String>,
}

impl Server {
    /// The document store.
    pub closed spec fn store(&self) -> DocumentStore {
        self.documents
    }

    /// The open documents, under their identities.
    pub open spec fn documents(&self) -> Map<Seq<char>, Document> {
        self.store().documents()
    }

    pub closed spec fn results(&self) -> Map<Seq<char>, CachedResult> {
        self.cache.results()
    }

    /// The memory counter: the total size of the compressed payloads.
    pub open spec fn memory(&self) -> int {
        self.store().memory()
    }

    pub closed spec fn standard_view(&self) -> Option<Seq<char>> {
        match self.standard {
            Some(s) => Some(s@),
            None => None,
        }
    }

    pub closed spec fn tool_path_view(&self) -> Option<Seq<char>> {
        match self.tool_path {
            Some(s) => Some(s@),
            None => None,
        }
    }

    pub closed spec fn cache_wf(&self) -> bool {
        self.cache.wf()
    }

    /// The store is well formed (one document per identity, the memory
    /// counter equal to the total size of the payloads), and every cached
    /// result belongs to an open document and carries that document's
    /// current fingerprint.
    pub open spec fn wf(&self) -> bool {
        &&& self.store().wf()
        &&& self.cache_wf()
        &&& forall|id: Seq<char>|
            #[trigger] self.results().contains_key(id) ==> self.documents().contains_key(id)
                && self.results()[id].fingerprint@ == self.documents()[id].fingerprint_view()
    }

    /// The shape of the plan for a request on `id` from a caller holding `known`.
    pub open spec fn plan_kind(&self, id: Seq<char>, known: Option<Seq<char>>) -> PlanKind {
        match cache::answer_for(self.results(), id, known) {
            CacheAnswer::Unchanged => PlanKind::Unchanged,
            CacheAnswer::Full => PlanKind::Full,
            CacheAnswer::Miss => if !self.documents().contains_key(id) {
                PlanKind::Absent
            } else if store::restored_text(self.documents()[id].payload()) is Ok {
                PlanKind::Run
            } else {
                PlanKind::Unreadable
            },
        }
    }

    /// A server with nothing open and no standard.
    pub fn new() -> (r: Self)
        ensures
            r.wf(),
            r.documents() == Map::<Seq<char>, Document>::empty(),
            r.results() == Map::<Seq<char>, CachedResult>::empty(),
            r.memory() == 0,
            r.standard_view() is None,
            r.tool_path_view() is None,
    {
        Server {
            documents: DocumentStore::new(),
            cache: ResultCache::new(),
            standard: None,
            tool_path: None,
        }
    }

    /// Total size of the compressed documents.
    pub fn memory_usage(&self) -> (r: u128)
        ensures
            r == self.memory(),
    {
        self.documents.memory_usage()
    }

    /// Number of open documents.
    pub fn document_count(&self) -> (r: usize)
        requires
            self.wf(),
        ensures
            r == self.documents().len(),
    {
        self.documents.len()
    }

    /// The stored document under `id`.
    pub fn document(&self, id: &str) -> (r: Option<&Document>)
        requires
            self.wf(),
        ensures
            match r {
                Some(d) => self.documents().contains_key(id@) && self.documents()[id@] == *d,
                None => !self.documents().contains_key(id@),
            },
    {
        self.documents.get(id)
    }

    /// Stores the full text of a document that was opened or changed, and
    /// drops its cached result.
    pub fn did_open(&mut self, id: String, text: &str)
        requires
            old(self).wf(),
            vstd::utf8::encode_utf8(text@).len() <= u32::MAX,
        ensures
            final(self).wf(),
            final(self).documents().dom() == old(self).documents().dom().insert(id@),
            store::stored_for(final(self).documents()[id@], text@),
            forall|k: Seq<char>|
                k != id@ && old(self).documents().contains_key(k) ==> final(self).documents()[k]
                    == old(self).documents()[k],
            final(self).results() == old(self).results().remove(id@),
            final(self).memory() == old(self).memory() - (if old(self).documents().contains_key(
                id@,
            ) {
                old(self).documents()[id@].payload().len() as int
            } else {
                0
            }) + final(self).documents()[id@].payload().len(),
            final(self).standard_view() == old(self).standard_view(),
            final(self).tool_path_view() == old(self).tool_path_view(),
    {
        let ghost key = id@;
        self.cache.invalidate(id.as_str());
        self.documents.put(id, text);
        proof {
            assert forall|k: Seq<char>| #[trigger] self.results().contains_key(k) implies self.documents().contains_key(k)
                && self.results()[k].fingerprint@ == self.documents()[k].fingerprint_view() by {
                assert(k != key);
                assert(old(self).results().contains_key(k));
            }
        }
    }

    /// Applies a change that carries the full new text, if it carries any.
    pub fn did_change(&mut self, id: String, text: Option<&str>)
        requires
            old(self).wf(),
            text matches Some(t) ==> vstd::utf8::encode_utf8(t@).len() <= u32::MAX,
        ensures
            final(self).wf(),
            text is None ==> *final(self) == *old(self),
            text matches Some(t) ==> {
                &&& final(self).documents().dom() == old(self).documents().dom().insert(id@)
                &&& store::stored_for(final(self).documents()[id@], t@)
                &&& final(self).results() == old(self).results().remove(id@)
                &&& final(self).memory() == old(self).memory() - (if old(
                    self,
                ).documents().contains_key(id@) {
                    old(self).documents()[id@].payload().len() as int
                } else {
                    0
                }) + final(self).documents()[id@].payload().len()
            },
    {
        match text {
            Some(t) => self.did_open(id, t),
            None => {},
        }
    }

    /// Forgets a closed document and its cached result; returns the size
    /// of the payload freed.
    pub fn did_close(&mut self, id: &str) -> (freed: usize)
        requires
            old(self).wf(),
        ensures
            final(self).wf(),
            final(self).documents() == old(self).documents().remove(id@),
            final(self).results() == old(self).results().remove(id@),
            freed == (if old(self).documents().contains_key(id@) {
                old(self).documents()[id@].payload().len()
            } else {
                0
            }),
            final(self).memory() == old(self).memory() - freed,
    {
        self.cache.invalidate(id);
        let freed = self.documents.remove(id);
        proof {
            assert forall|k: Seq<char>| #[trigger] self.results().contains_key(k) implies self.documents().contains_key(k)
                && self.results()[k].fingerprint@ == self.documents()[k].fingerprint_view() by {
                assert(old(self).results().contains_key(k));
            }
        }
        freed
    }

    /// The coding standard in use; none means the tool's default.
    pub fn standard(&self) -> (r: Option<&String>)
        ensures
            match r {
                Some(s) => self.standard_view() == Some(s@),
                None => self.standard_view() is None,
            },
    {
        match &self.standard {
            Some(s) => Some(s),
            None => None,
        }
    }

    /// Replaces the coding standard and drops every cached result, which
    /// may have been computed under the old one.
    pub fn set_standard(&mut self, standard: Option<String>)
        requires
            old(self).wf(),
        ensures
            final(self).wf(),
            final(self).standard_view() == (match standard {
                Some(s) => Some(s@),
                None => None,
            }),
            final(self).documents() == old(self).documents(),
            final(self).memory() == old(self).memory(),
            final(self).results() == Map::<Seq<char>, CachedResult>::empty(),
            final(self).tool_path_view() == old(self).tool_path_view(),
    {
        self.standard = standard;
        self.cache.clear();
    }

    /// Takes the standard from the start-up options: the one they name, if
    /// any; without options, the configuration file `discovered` in the
    /// workspace, or none.
    pub fn initialize(&mut self, init: InitStandard, discovered: Option<String>)
        requires
            old(self).wf(),
        ensures
            final(self).wf(),
            final(self).documents() == old(self).documents(),
            final(self).memory() == old(self).memory(),
            final(self).tool_path_view() == old(self).tool_path_view(),
            final(self).standard_view() == (match init {
                InitStandard::NotGiven => match discovered {
                    Some(d) => Some(d@),
                    None => None,
                },
                InitStandard::Given(Some(s)) => Some(s@),
                _ => old(self).standard_view(),
            }),
    {
        match init {
            InitStandard::NotGiven => self.set_standard(discovered),
            InitStandard::Given(Some(s)) => self.set_standard(Some(s)),
            _ => {},
        }
    }

    /// A configuration change: the tool's path is found again, the standard
    /// becomes the one given at top level, else the one given in the tool's
    /// section, else stays; every cached result is dropped.
    pub fn did_change_configuration(&mut self, section: Option<String>, top: Option<String>)
        requires
            old(self).wf(),
        ensures
            final(self).wf(),
            final(self).tool_path_view() is None,
            final(self).standard_view() == (match top {
                Some(s) => Some(s@),
                None => match section {
                    Some(s) => Some(s@),
                    None => old(self).standard_view(),
                },
            }),
            final(self).documents() == old(self).documents(),
            final(self).memory() == old(self).memory(),
            final(self).results() == Map::<Seq<char>, CachedResult>::empty(),
    {
        self.tool_path = None;
        match top {
            Some(s) => {
                self.standard = Some(s);
            },
            None => match section {
                Some(s) => {
                    self.standard = Some(s);
                },
                None => {},
            },
        }
        self.cache.clear();
    }

    /// The workspace changed: the tool's path is found again and every
    /// cached result is dropped.
    pub fn did_change_workspace_folders(&mut self)
        requires
            old(self).wf(),
        ensures
            final(self).wf(),
            final(self).tool_path_view() is None,
            final(self).standard_view() == old(self).standard_view(),
            final(self).documents() == old(self).documents(),
            final(self).memory() == old(self).memory(),
            final(self).results() == Map::<Seq<char>, CachedResult>::empty(),
    {
        self.tool_path = None;
        self.cache.clear();
    }

    /// Forgets every document and result.
    pub fn shutdown(&mut self)
        requires
            old(self).wf(),
        ensures
            final(self).wf(),
            final(self).documents() == Map::<Seq<char>, Document>::empty(),
            final(self).results() == Map::<Seq<char>, CachedResult>::empty(),
            final(self).memory() == 0,
    {
        self.documents.clear();
        self.cache.clear();
    }

    /// The tool's path found earlier, if it is still known.
    pub fn tool_path(&self) -> (r: Option<&String>)
        ensures
            match r {
                Some(s) => self.tool_path_view() == Some(s@),
                None => self.tool_path_view() is None,
            },
    {
        match &self.tool_path {
            Some(s) => Some(s),
            None => None,
        }
    }

    /// Remembers the tool's path.
    pub fn set_tool_path(&mut self, path: String)
        requires
            old(self).wf(),
        ensures
            final(self).wf(),
            final(self).tool_path_view() == Some(path@),
            final(self).standard_view() == old(self).standard_view(),
            final(self).documents() == old(self).documents(),
            final(self).memory() == old(self).memory(),
            final(self).results() == old(self).results(),
    {
        self.tool_path = Some(path);
        assert(self.results() == old(self).results());
        assert(self.documents() == old(self).documents());
    }

    /// What a diagnostic request on `id` from a caller holding `known`
    /// calls for: the cache's answer when it has one; else a run of the tool
    /// on the stored text, or the news that the text is absent or cannot be
    /// restored.
    pub fn begin_diagnostic(&self, id: &str, known: Option<&str>) -> (r: Plan)
        requires
            self.wf(),
        ensures
            self.plan_kind(id@, cache::known_view(known)) == (match r {
                Plan::Unchanged(_) => PlanKind::Unchanged,
                Plan::Full(_, _) => PlanKind::Full,
                Plan::Run { .. } => PlanKind::Run,
                Plan::Absent => PlanKind::Absent,
                Plan::Unreadable => PlanKind::Unreadable,
            }),
            r matches Plan::Unchanged(f) ==> f@ == self.results()[id@].fingerprint@,
            r matches Plan::Full(items, f) ==> f@ == self.results()[id@].fingerprint@ && views(
                items@,
            ) == views(self.results()[id@].diagnostics@),
            r matches Plan::Run { text, fingerprint } ==> store::restored_text(
                self.documents()[id@].payload(),
            ) == Ok::<Seq<char>, StoreError>(text@) && fingerprint@
                == self.documents()[id@].fingerprint_view(),
    {
        match self.cache.lookup(id, known) {
            CacheAnswer::Unchanged => {
                let c = self.cache.get(id).unwrap();
                Plan::Unchanged(c.fingerprint.clone())
            },
            CacheAnswer::Full => {
                let c = self.cache.get(id).unwrap();
                Plan::Full(clone_diagnostics(&c.diagnostics), c.fingerprint.clone())
            },
            CacheAnswer::Miss => match self.documents.get(id) {
                None => Plan::Absent,
                Some(doc) => match decompress_document(doc) {
                    Ok(text) => Plan::Run { text, fingerprint: doc.fingerprint().clone() },
                    Err(_) => Plan::Unreadable,
                },
            },
        }
    }

    /// Completes a request for which the tool ran on `text`, the document
    /// `id` with fingerprint `fingerprint`. Without output (the run failed)
    /// the answer is empty and has no identifier. With output, the
    /// diagnostics are parsed from it, cached if the document still has that
    /// fingerprint, and sent with the fingerprint as identifier.
    pub fn finish_diagnostic(
        &mut self,
        id: String,
        text: &str,
        fingerprint: String,
        output: Option<&str>,
        now: u64,
    ) -> (r: Report)
        requires
            old(self).wf(),
        ensures
            final(self).wf(),
            final(self).documents() == old(self).documents(),
            final(self).memory() == old(self).memory(),
            final(self).standard_view() == old(self).standard_view(),
            final(self).tool_path_view() == old(self).tool_path_view(),
            match output {
                None => {
                    &&& final(self).results() == old(self).results()
                    &&& r matches Report::Full { result_id, items } && result_id is None
                        && items@.len() == 0
                },
                Some(out) => {
                    &&& r matches Report::Full { result_id, items } && result_id matches Some(
                        f,
                    ) && f@ == fingerprint@ && views(items@) == report::output_diagnostics(
                        out@,
                        Some(text@),
                    )
                    &&& if old(self).documents().contains_key(id@) && old(
                        self,
                    ).documents()[id@].fingerprint_view() == fingerprint@ {
                        &&& final(self).results().dom() == old(self).results().dom().insert(id@)
                        &&& final(self).results()[id@].fingerprint@ == fingerprint@
                        &&& views(final(self).results()[id@].diagnostics@)
                            == report::output_diagnostics(out@, Some(text@))
                        &&& forall|k: Seq<char>|
                            k != id@ && #[trigger] old(self).results().contains_key(k)
                                ==> final(self).results()[k] == old(self).results()[k]
                    } else {
                        final(self).results() == old(self).results()
                    }
                },
            },
    {
        match output {
            None => Report::Full { result_id: None, items: Vec::new() },
            Some(out) => {
                let chars = chars_of(text);
                let items = parse_phpcs_output(out, Some(&chars));
                let current = match self.documents.get(id.as_str()) {
                    Some(doc) => chars_eq(
                        &chars_of(doc.fingerprint().as_str()),
                        &chars_of(fingerprint.as_str()),
                    ),
                    None => false,
                };
                if current {
                    let result = CachedResult {
                        diagnostics: clone_diagnostics(&items),
                        fingerprint: fingerprint.clone(),
                        created_at: now,
                    };
                    let ghost key = id@;
                    self.cache.store(id, result);
                    proof {
                        assert forall|k: Seq<char>| #[trigger] self.results().contains_key(k) implies self.documents().contains_key(k)
                            && self.results()[k].fingerprint@ == self.documents()[k].fingerprint_view() by {
                            if k != key {
                                assert(old(self).results().contains_key(k));
                            }
                        }
                    }
                }
                Report::Full { result_id: Some(fingerprint), items }
            },
        }
    }
}

/// Once a result is cached for a document, a request that passes its
/// fingerprint is answered `Unchanged` and calls for no run of the tool.
pub proof fn lemma_repeat_request_unchanged(s: Server, id: Seq<char>, f: Seq<char>)
    requires
        s.wf(),
        s.results().contains_key(id),
        s.results()[id].fingerprint@ == f,
    ensures
        s.plan_kind(id, Some(f)) == PlanKind::Unchanged,
{
}

/// After a change of a document's text, no cached result is served for it:
/// the next request runs the tool on the new text, or reports it unreadable.
pub proof fn lemma_changed_document_reruns(
    before: Server,
    after: Server,
    id: Seq<char>,
    text: Seq<char>,
    known: Option<Seq<char>>,
)
    requires
        after.wf(),
        after.documents().contains_key(id),
        store::stored_for(after.documents()[id], text),
        after.results() == before.results().remove(id),
    ensures
        after.plan_kind(id, known) == PlanKind::Run,
{
    store::lemma_round_trip(text, after.documents()[id]);
}

} // verus!
