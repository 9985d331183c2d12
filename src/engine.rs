//! The coordinator: open documents, cached results, and the decisions of
//! each diagnostics request. The caller runs the analyzer between
//! `begin_request` and `finish_request`.
use vstd::prelude::*;
use vstd::utf8::encode_utf8;
use crate::analyzer::{analyzer_choice, build_invocation, invocation_of, Invocation, DEFAULT_RULESETS, SYSTEM_ANALYZER};
use crate::extract::{extract_json_from_output, payload_of};
use crate::json::{parse_phpmd_output, parsed_report};
use crate::report::{copy_all, diag_views, diagnostics_for, diagnostics_of, violation_views, Diagnostic, DiagnosticView, Violation};

use crate::store::{checksum_of, compress_document, decompress_document, document_of, Document};
use crate::table::Table;

verus! {

/// The diagnostics last computed for a document.
pub struct CachedResults {
    pub diagnostics: Vec<Diagnostic>,
    pub result_id: u64,
    /// Checksum of the text they were computed from.
    pub content_checksum: String,
}

pub struct CachedView {
    pub diagnostics: Seq<DiagnosticView>,
    pub result_id: u64,
    pub checksum: Seq<char>,
}

impl View for CachedResults {
    type V = CachedView;

    open spec fn view(&self) -> CachedView {
        CachedView {
            diagnostics: diag_views(self.diagnostics@),
            result_id: self.result_id,
            checksum: self.content_checksum@,
        }
    }
}

/// The coordinator's state as a value.
pub struct EngineView {
    /// Text of each open document.
    pub texts: Map<Seq<char>, Seq<char>>,
    pub cache: Map<Seq<char>, CachedView>,
    /// The next result identifier to hand out.
    pub next_id: u64,
    pub rulesets: Option<Seq<char>>,
    pub analyzer_path: Option<Seq<char>>,
}

pub struct DiagnosticsEngine {
    docs: Table<Document>,
    cache: Table<CachedResults>,
    next_id: u64,
    rulesets: Option<String>,
    analyzer_path: Option<String>,
    texts: Ghost<Map<Seq<char>, Seq<char>>>,
}

pub open spec fn opt_text(o: Option<String>) -> Option<Seq<char>> {
    match o {
        Some(s) => Some(s@),
        None => None,
    }
}

/// Text that the store can hold: its length fits the compressed form's
/// 32-bit length prefix.
pub open spec fn storable(t: Seq<char>) -> bool {
    encode_utf8(t).len() <= u32::MAX
}

impl View for DiagnosticsEngine {
    type V = EngineView;

    closed spec fn view(&self) -> EngineView {
        EngineView {
            texts: self.texts@,
            cache: self.cache@,
            next_id: self.next_id,
            rulesets: opt_text(self.rulesets),
            analyzer_path: opt_text(self.analyzer_path),
        }
    }
}

/// What a request answers.
pub enum Report {
    /// The client's result is current.
    Unchanged(u64),
    /// The diagnostics, with the identifier to quote next time (none when
    /// they were not cached).
    Full { result_id: Option<u64>, diagnostics: Vec<Diagnostic> },
}

/// What a request needs next.
pub enum Step {
    Done(Report),
    /// Run the analyzer on `content`; its checksum is `checksum`.
    Analyze { content: String, checksum: String },
    /// The document is not open: read it and `open` it.
    NeedsDocument,
}

/// The answer a request gets from the cache alone, if it can.
pub open spec fn cached_answer(v: EngineView, id: Seq<char>) -> bool {
    v.cache.contains_key(id) && v.texts.contains_key(id) && v.cache[id].checksum == checksum_of(
        v.texts[id],
    )
}

/// The state after a request's cache check: a stale entry is dropped.
pub open spec fn after_check(v: EngineView, id: Seq<char>) -> EngineView {
    if cached_answer(v, id) {
        v
    } else {
        EngineView { cache: v.cache.remove(id), ..v }
    }
}

/// The state after `open` or `change` of `id` to `text`.
pub open spec fn after_put(v: EngineView, id: Seq<char>, text: Seq<char>) -> EngineView {
    EngineView { texts: v.texts.insert(id, text), cache: v.cache.remove(id), ..v }
}

/// The state after an analysis of text with checksum `checksum` stored
/// `ds` for `id`.
pub open spec fn after_store(v: EngineView, id: Seq<char>, checksum: Seq<char>, ds: Seq<DiagnosticView>) -> EngineView {
    if v.next_id < u64::MAX {
        EngineView {
            cache: v.cache.insert(
                id,
                CachedView { diagnostics: ds, result_id: v.next_id, checksum },
            ),
            next_id: (v.next_id + 1) as u64,
            ..v
        }
    } else {
        v
    }
}

/// The text of `id`, when it is open.
pub open spec fn text_of(v: EngineView, id: Seq<char>) -> Option<Seq<char>> {
    if v.texts.contains_key(id) {
        Some(v.texts[id])
    } else {
        None
    }
}

/// `r` is what a request for `id` gets in state `v`, the client quoting
/// `prev`: the cached diagnostics while their checksum is that of the
/// current text (or `Unchanged` when the client quotes their identifier),
/// else an analysis of the current text, else a request for the document.
pub open spec fn answers(r: Step, v: EngineView, id: Seq<char>, prev: Option<u64>) -> bool {
    if cached_answer(v, id) {
        let e = v.cache[id];
        if prev == Some(e.result_id) {
            r matches Step::Done(Report::Unchanged(x)) && x == e.result_id
        } else {
            r matches Step::Done(Report::Full { result_id, diagnostics }) && result_id == Some(
                e.result_id,
            ) && diag_views(diagnostics@) == e.diagnostics
        }
    } else if v.texts.contains_key(id) {
        r matches Step::Analyze { content, checksum } && content@ == v.texts[id] && checksum@
            == checksum_of(v.texts[id])
    } else {
        r is NeedsDocument
    }
}

/// `r` is the full report of diagnostics `ds` stored in state `v`.
pub open spec fn reports(r: Report, v: EngineView, ds: Seq<DiagnosticView>) -> bool {
    r matches Report::Full { result_id, diagnostics } && diag_views(diagnostics@) == ds
        && result_id == if v.next_id < u64::MAX {
        Some(v.next_id)
    } else {
        None
    }
}

impl DiagnosticsEngine {
    pub closed spec fn wf(&self) -> bool {
        &&& self.docs.wf()
        &&& self.cache.wf()
        &&& self.docs@.dom() == self.texts@.dom()
        &&& forall|id: Seq<char>|
            #[trigger] self.texts@.contains_key(id) ==> self.docs@[id] == document_of(
                self.texts@[id],
            ) && storable(self.texts@[id])
        &&& forall|id: Seq<char>|
            #[trigger] self.cache@.contains_key(id) ==> self.cache@[id].result_id < self.next_id
    }

    pub fn new() -> (r: Self)
        ensures
            r.wf(),
            r@.texts == Map::<Seq<char>, Seq<char>>::empty(),
            r@.cache == Map::<Seq<char>, CachedView>::empty(),
            r@.next_id == 0,
            r@.rulesets is None,
            r@.analyzer_path is None,
    {
        let r = DiagnosticsEngine {
            docs: Table::new(),
            cache: Table::new(),
            next_id: 0,
            rulesets: None,
            analyzer_path: None,
            texts: Ghost(Map::empty()),
        };
        assert(r.docs@.dom() =~= r.texts@.dom());
        r
    }

    /// Stores `text` as the content of `id` and drops its cached results.
    pub fn open(&mut self, id: &str, text: &str)
        requires
            old(self).wf(),
            storable(text@),
        ensures
            final(self).wf(),
            final(self)@ == after_put(old(self)@, id@, text@),
    {
        let doc = compress_document(text);
        self.docs.insert(id, doc);
        self.texts = Ghost(self.texts@.insert(id@, text@));
        self.cache.remove(id);
        assert(self.docs@.dom() =~= self.texts@.dom());
        assert(self@ =~= after_put(old(self)@, id@, text@));
    }

    /// Replaces the content of `id` with `text`; the same as `open`.
    pub fn change(&mut self, id: &str, text: &str)
        requires
            old(self).wf(),
            storable(text@),
        ensures
            final(self).wf(),
            final(self)@ == after_put(old(self)@, id@, text@),
    {
        self.open(id, text)
    }

    /// Forgets `id` and its cached results.
    pub fn close(&mut self, id: &str)
        requires
            old(self).wf(),
        ensures
            final(self).wf(),
            final(self)@ == (EngineView {
                texts: old(self)@.texts.remove(id@),
                cache: old(self)@.cache.remove(id@),
                ..old(self)@
            }),
    {
        self.docs.remove(id);
        self.texts = Ghost(self.texts@.remove(id@));
        self.cache.remove(id);
        assert(self.docs@.dom() =~= self.texts@.dom());
        assert(self@ =~= EngineView {
            texts: old(self)@.texts.remove(id@),
            cache: old(self)@.cache.remove(id@),
            ..old(self)@
        });
    }

    /// Forgets every document and every cached result.
    pub fn shutdown(&mut self)
        requires
            old(self).wf(),
        ensures
            final(self).wf(),
            final(self)@ == (EngineView {
                texts: Map::empty(),
                cache: Map::empty(),
                ..old(self)@
            }),
    {
        self.docs.clear();
        self.cache.clear();
        self.texts = Ghost(Map::empty());
        assert(self.docs@.dom() =~= self.texts@.dom());
        assert(self@ =~= EngineView { texts: Map::empty(), cache: Map::empty(), ..old(self)@ });
    }

    /// The workspace changed: the analyzer is looked up again and every
    /// cached result is dropped.
    pub fn workspace_changed(&mut self)
        requires
            old(self).wf(),
        ensures
            final(self).wf(),
            final(self)@ == (EngineView {
                cache: Map::empty(),
                analyzer_path: None,
                ..old(self)@
            }),
    {
        self.cache.clear();
        self.analyzer_path = None;
        assert(self@ =~= EngineView { cache: Map::empty(), analyzer_path: None, ..old(self)@ });
    }
}

impl DiagnosticsEngine {
    /// New settings: `nested` from the `phpmd` section, `direct` from a
    /// top-level `rulesets` entry, which wins. The analyzer is looked up
    /// again and every cached result is dropped.
    pub fn settings_changed(&mut self, nested: Option<String>, direct: Option<String>)
        requires
            old(self).wf(),
        ensures
            final(self).wf(),
            final(self)@ == (EngineView {
                cache: Map::empty(),
                analyzer_path: None,
                rulesets: if direct is Some {
                    opt_text(direct)
                } else if nested is Some {
                    opt_text(nested)
                } else {
                    old(self)@.rulesets
                },
                ..old(self)@
            }),
    {
        self.analyzer_path = None;
        match nested {
            Some(n) => {
                self.rulesets = Some(n);
            },
            None => {},
        }
        match direct {
            Some(d) => {
                self.rulesets = Some(d);
            },
            None => {},
        }
        self.cache.clear();
    }

    /// The current text of `id`, when it is open.
    pub fn document_text(&self, id: &str) -> (r: Option<String>)
        requires
            self.wf(),
        ensures
            opt_text(r) == text_of(self@, id@),
    {
        match self.docs.get(id) {
            Some(d) => {
                assert(d@.compressed_data == crate::store::lz4_block(encode_utf8(self.texts@[id@])));
                match decompress_document(d) {
                    Ok(t) => Some(t),
                    Err(_) => None,
                }
            },
            None => None,
        }
    }

    /// The first half of a diagnostics request for `id`, the client quoting
    /// the result identifier `previous`.
    pub fn begin_request(&mut self, id: &str, previous: Option<u64>) -> (r: Step)
        requires
            old(self).wf(),
        ensures
            final(self).wf(),
            final(self)@ == after_check(old(self)@, id@),
            answers(r, old(self)@, id@, previous),
    {
        let current: Option<String> = match self.docs.get(id) {
            Some(d) => Some(d.checksum.clone()),
            None => None,
        };
        match self.cache.get(id) {
            Some(entry) => {
                match &current {
                    Some(c) => {
                        if crate::text::same(
                            &crate::text::chars_of(entry.content_checksum.as_str()),
                            &crate::text::chars_of(c.as_str()),
                        ) {
                            let rid = entry.result_id;
                            match previous {
                                Some(p) => {
                                    if p == rid {
                                        return Step::Done(Report::Unchanged(rid));
                                    }
                                },
                                None => {},
                            }
                            return Step::Done(
                                Report::Full {
                                    result_id: Some(rid),
                                    diagnostics: copy_all(&entry.diagnostics),
                                },
                            );
                        }
                    },
                    None => {},
                }
            },
            None => {},
        }
        self.cache.remove(id);
        assert(self@ =~= after_check(old(self)@, id@));
        match self.document_text(id) {
            Some(t) => {
                let checksum = crate::store::checksum(t.as_str());
                Step::Analyze { content: t, checksum }
            },
            None => Step::NeedsDocument,
        }
    }

    /// Stores the diagnostics of `violations`, found in text whose checksum
    /// is `checksum`, as the results of `id`, their ranges resolved over
    /// the current text of `id`.
    pub fn record_analysis(&mut self, id: &str, checksum: &str, violations: &Vec<Violation>) -> (r:
        Report)
        requires
            old(self).wf(),
        ensures
            final(self).wf(),
            final(self)@ == after_store(
                old(self)@,
                id@,
                checksum@,
                diagnostics_of(violation_views(violations@), text_of(old(self)@, id@)),
            ),
            reports(
                r,
                old(self)@,
                diagnostics_of(violation_views(violations@), text_of(old(self)@, id@)),
            ),
    {
        let text = self.document_text(id);
        let ds = match &text {
            Some(t) => diagnostics_for(violations, Some(t.as_str())),
            None => diagnostics_for(violations, None),
        };
        if self.next_id < u64::MAX {
            let rid = self.next_id;
            let entry = CachedResults {
                diagnostics: copy_all(&ds),
                result_id: rid,
                content_checksum: crate::text::owned(checksum),
            };
            self.cache.insert(id, entry);
            self.next_id = self.next_id + 1;
            assert(self@ =~= after_store(
                old(self)@,
                id@,
                checksum@,
                diagnostics_of(violation_views(violations@), text_of(old(self)@, id@)),
            ));
            Report::Full { result_id: Some(rid), diagnostics: ds }
        } else {
            Report::Full { result_id: None, diagnostics: ds }
        }
    }

    /// The answer when no analysis could run for a request (the analyzer
    /// could not start or ran past its deadline, or the document could not
    /// be read): no diagnostics and no result identifier. Nothing is
    /// stored.
    pub fn fail_request(&self) -> (r: Report)
        ensures
            r matches Report::Full { result_id, diagnostics } && result_id is None
                && diagnostics@.len() == 0,
    {
        Report::Full { result_id: None, diagnostics: Vec::new() }
    }

    /// The second half of a request: the analyzer printed `raw_output` for
    /// text of `id` whose checksum is `checksum`. Its findings are stored
    /// as the results of `id`.
    pub fn finish_request(&mut self, id: &str, checksum: &str, raw_output: &str) -> (r: Report)
        requires
            old(self).wf(),
        ensures
            final(self).wf(),
            final(self)@ == after_store(
                old(self)@,
                id@,
                checksum@,
                diagnostics_of(parsed_report(payload_of(raw_output@)), text_of(old(self)@, id@)),
            ),
            reports(
                r,
                old(self)@,
                diagnostics_of(parsed_report(payload_of(raw_output@)), text_of(old(self)@, id@)),
            ),
    {
        let payload = extract_json_from_output(raw_output);
        let violations = parse_phpmd_output(payload.as_str());
        self.record_analysis(id, checksum, &violations)
    }
}

/// Sizes of what the engine holds, for logging.
pub struct MemoryStats {
    pub documents: usize,
    pub original_bytes: usize,
    pub compressed_bytes: usize,
    pub cached_results: usize,
}

impl DiagnosticsEngine {
    /// The rulesets or configuration file in use, if one was chosen.
    pub fn rulesets(&self) -> (r: Option<String>)
        ensures
            opt_text(r) == self@.rulesets,
    {
        match &self.rulesets {
            Some(s) => Some(s.clone()),
            None => None,
        }
    }

    /// Whether configuration files should be looked for: nothing is chosen
    /// yet, or only the default rulesets.
    pub fn needs_discovery(&self) -> (r: bool)
        ensures
            r == (self@.rulesets is None || self@.rulesets == Some(DEFAULT_RULESETS@)),
    {
        match &self.rulesets {
            Some(s) => crate::text::is_text(&crate::text::chars_of(s.as_str()), DEFAULT_RULESETS),
            None => true,
        }
    }

    /// Uses `rulesets` (names, or a configuration file's path) from now on.
    pub fn set_rulesets(&mut self, rulesets: String)
        requires
            old(self).wf(),
        ensures
            final(self).wf(),
            final(self)@ == (EngineView { rulesets: Some(rulesets@), ..old(self)@ }),
    {
        self.rulesets = Some(rulesets);
    }

    /// Takes the rulesets given at start-up, if any; the result says
    /// whether configuration files should still be looked for.
    pub fn apply_initialization(&mut self, provided: Option<String>) -> (discover: bool)
        requires
            old(self).wf(),
        ensures
            final(self).wf(),
            discover == provided is None,
            final(self)@ == (EngineView {
                rulesets: if provided is Some {
                    opt_text(provided)
                } else {
                    old(self)@.rulesets
                },
                ..old(self)@
            }),
    {
        match provided {
            Some(r) => {
                self.rulesets = Some(r);
                false
            },
            None => true,
        }
    }

    /// The analyzer chosen earlier, if it is still valid.
    pub fn analyzer_path(&self) -> (r: Option<String>)
        ensures
            opt_text(r) == self@.analyzer_path,
    {
        match &self.analyzer_path {
            Some(s) => Some(s.clone()),
            None => None,
        }
    }

    /// Chooses the analyzer among those found and remembers it.
    pub fn choose_analyzer_path(&mut self, project_local: Option<String>, bundled: Option<String>) -> (r: String)
        requires
            old(self).wf(),
        ensures
            final(self).wf(),
            r@ == analyzer_choice(opt_text(project_local), opt_text(bundled)),
            final(self)@ == (EngineView { analyzer_path: Some(r@), ..old(self)@ }),
    {
        let chosen = match project_local {
            Some(p) => p,
            None => match bundled {
                Some(b) => b,
                None => crate::text::owned(SYSTEM_ANALYZER),
            },
        };
        self.analyzer_path = Some(chosen.clone());
        chosen
    }

    /// The command line that analyzes `target` with `analyzer` under the
    /// current rulesets.
    pub fn invocation(&self, analyzer: &str, target: &str) -> (r: Invocation)
        ensures
            (r.program@, crate::analyzer::string_views(r.args@)) == invocation_of(
                analyzer@,
                target@,
                self@.rulesets,
            ),
    {
        match &self.rulesets {
            Some(s) => build_invocation(analyzer, target, Some(s.as_str())),
            None => build_invocation(analyzer, target, None),
        }
    }

    /// Counts of open documents and cached results, and the documents'
    /// total sizes (saturating).
    pub fn memory_stats(&self) -> (r: MemoryStats)
        requires
            self.wf(),
        ensures
            r.documents == self@.texts.len(),
            r.cached_results == self@.cache.len(),
    {
        let n = self.docs.len();
        let mut original: usize = 0;
        let mut compressed: usize = 0;
        let mut i: usize = 0;
        while i < n
            invariant
                self.wf(),
                n == self.docs@.len(),
                0 <= i <= n,
            decreases n - i,
        {
            let d = self.docs.value_at(i);
            original = original.saturating_add(d.original_size);
            compressed = compressed.saturating_add(d.compressed_data.len());
            i = i + 1;
        }
        assert(self.docs@.dom() =~= self.texts@.dom());
        MemoryStats {
            documents: n,
            original_bytes: original,
            compressed_bytes: compressed,
            cached_results: self.cache.len(),
        }
    }
}

/// Once the diagnostics of the current text of `id` are stored, a request
/// gets them from the cache, under the identifier handed out, and leaves
/// the state as it is.
pub proof fn lemma_request_after_analysis(v: EngineView, id: Seq<char>, ds: Seq<DiagnosticView>)
    requires
        v.texts.contains_key(id),
        v.next_id < u64::MAX,
    ensures
        ({
            let v1 = after_store(v, id, checksum_of(v.texts[id]), ds);
            &&& cached_answer(v1, id)
            &&& after_check(v1, id) == v1
            &&& v1.cache[id].diagnostics == ds
            &&& v1.cache[id].result_id == v.next_id
        }),
{
}

/// Asking twice for unchanged content without a result identifier gives
/// the same diagnostics under the same identifier; quoting that
/// identifier then gets `Unchanged`.
pub proof fn lemma_repeat_request(v: EngineView, id: Seq<char>, r1: Step, r2: Step, r3: Step)
    requires
        cached_answer(v, id),
        answers(r1, v, id, None),
        answers(r2, after_check(v, id), id, None),
        answers(r3, after_check(after_check(v, id), id), id, Some(v.cache[id].result_id)),
    ensures
        r1 matches Step::Done(Report::Full { result_id, diagnostics }) && r2 matches Step::Done(
            Report::Full { result_id: result_id2, diagnostics: diagnostics2 },
        ) && result_id == result_id2 && diag_views(diagnostics@) == diag_views(diagnostics2@)
            && result_id == Some(v.cache[id].result_id),
        r3 matches Step::Done(Report::Unchanged(x)) && x == v.cache[id].result_id,
{
}

/// A request is answered from the cache only while the cached checksum is
/// that of the document's current text.
pub proof fn lemma_no_stale_answer(v: EngineView, id: Seq<char>, prev: Option<u64>, r: Step)
    requires
        answers(r, v, id, prev),
        r is Done,
    ensures
        v.cache.contains_key(id),
        v.texts.contains_key(id),
        v.cache[id].checksum == checksum_of(v.texts[id]),
{
}

/// After `id` changes to `text`, its cached results are gone, the next
/// request analyzes `text`, and what that analysis stores carries the
/// checksum of `text`.
pub proof fn lemma_change_discards(
    v: EngineView,
    id: Seq<char>,
    text: Seq<char>,
    prev: Option<u64>,
    r: Step,
    ds: Seq<DiagnosticView>,
)
    requires
        answers(r, after_put(v, id, text), id, prev),
    ensures
        !after_put(v, id, text).cache.contains_key(id),
        after_put(v, id, text).texts[id] == text,
        after_check(after_put(v, id, text), id) == after_put(v, id, text),
        r matches Step::Analyze { content, checksum } && content@ == text && checksum@
            == checksum_of(text),
        ({
            let v2 = after_store(after_put(v, id, text), id, checksum_of(text), ds);
            &&& v2.cache.contains_key(id) ==> v2.cache[id].checksum == checksum_of(text)
            &&& v.texts.contains_key(id) && checksum_of(v.texts[id]) != checksum_of(text)
                && v2.cache.contains_key(id) ==> v2.cache[id].checksum != checksum_of(v.texts[id])
        }),
{
    let v1 = after_put(v, id, text);
    assert(v1.cache.remove(id) =~= v1.cache);
}

/// End to end: when the analyzer's report for the current text of `id`
/// holds one finding of a method rule over more than five lines, with a
/// rule set named with ASCII letters, digits and spaces, the request gets
/// exactly one diagnostic, on the finding's first line only, with the
/// severity of its priority and a result identifier.
pub proof fn lemma_long_method_request(r: Report, v: EngineView, id: Seq<char>, f: crate::report::ViolationView)
    requires
        v.next_id < u64::MAX,
        reports(r, v, diagnostics_of(seq![f], text_of(v, id))),
        crate::rules::rule_class(f.rule) == crate::rules::RuleClass::Method,
        f.end_line > f.begin_line,
        f.end_line - f.begin_line > 5,
        crate::report::plain_rule_set(f.rule_set),
    ensures
        r matches Report::Full { result_id, diagnostics } && result_id == Some(v.next_id)
            && diagnostics@.len() == 1 && diagnostics@[0]@.severity == crate::rules::severity_of(
            f.priority,
        ) && diagnostics@[0]@.range.start_line == crate::rules::zero_based(f.begin_line)
            && diagnostics@[0]@.range.end_line == crate::rules::zero_based(f.begin_line),
{
    crate::report::lemma_long_method_finding(f, text_of(v, id));
    if let Report::Full { result_id, diagnostics } = r {
        assert(diag_views(diagnostics@).len() == diagnostics@.len());
        assert(diag_views(diagnostics@)[0] == diagnostics@[0]@);
    }
}

} // verus!
