//! The session store: one document record per URI, holding the text buffer
//! and the snapshot compiled from it, swapped as a whole, plus the shutdown
//! flag.

use crate::complete::{completion_candidates, candidates_view, get_completion, Candidate, SyntaxNode};
use crate::hints::{build_inlay_hints, hints_view, type_hints, TypeHint};
use crate::resolve::{
    all_references, build_rename_edit, definition_at, edits_replace, get_definition,
    get_references, is_valid_uri, uri_parses, TextEdit,
};
use crate::snapshot::Snapshot;
use crate::text::{offsets_range, offsets_to_range, rope_chars, rope_text, Position, Range};
use crate::tokens::{build_semantic_tokens, build_semantic_tokens_range, SemanticToken, token_stream};
use dashmap::DashMap;
use ropey::Rope;
use std::sync::Arc;
use vstd::prelude::*;

verus! {

/// One open document: its text and the snapshot compiled from that text.
#[derive(Debug)]
pub struct Document {
    pub rope: Rope,
    pub snapshot: Snapshot,
}

/// dashmap's `DashMap`, opaque here: what it holds is known only through
/// `stored_documents`, as the wrappers below state.
#[verifier::external_type_specification]
#[verifier::external_body]
#[verifier::reject_recursive_types(K)]
#[verifier::reject_recursive_types(V)]
#[verifier::reject_recursive_types(S)]
pub struct ExDashMap<K, V, S>(DashMap<K, V, S>);

/// The documents that a document map holds, by URI.
pub uninterp spec fn stored_documents(m: DashMap<String, Arc<Document>>) -> Map<Seq<char>, Document>;

/// Relies on `DashMap::new`: a new map is empty.
#[verifier::external_body]
fn map_new() -> (m: DashMap<String, Arc<Document>>)
    ensures
        stored_documents(m).dom().len() == 0 && stored_documents(m).dom().finite(),
{
    DashMap::new()
}

/// Relies on `DashMap::insert`: the key maps to the value afterwards, other
/// keys are untouched. Exclusive access keeps the contents a function of the
/// map.
#[verifier::external_body]
fn map_insert(m: &mut DashMap<String, Arc<Document>>, key: String, value: Arc<Document>)
    ensures
        stored_documents(*final(m)) == stored_documents(*old(m)).insert(key@, *value),
{
    m.insert(key, value);
}

/// Relies on `DashMap::remove`: the key is absent afterwards, other keys are
/// untouched.
#[verifier::external_body]
fn map_remove(m: &mut DashMap<String, Arc<Document>>, key: &str)
    ensures
        stored_documents(*final(m)) == stored_documents(*old(m)).remove(key@),
{
    m.remove(key);
}

/// Relies on `DashMap::clear`: no key is left.
#[verifier::external_body]
fn map_clear(m: &mut DashMap<String, Arc<Document>>)
    ensures
        stored_documents(*final(m)).dom().len() == 0 && stored_documents(*final(m)).dom().finite(),
{
    m.clear();
}

/// Relies on `DashMap::get`: the value stored under the key, if any; the
/// `Arc` is cloned out of the guard, which is released at once.
#[verifier::external_body]
fn map_get(m: &DashMap<String, Arc<Document>>, key: &str) -> (r: Option<Arc<Document>>)
    ensures
        match r {
            Some(d) => stored_documents(*m).contains_key(key@) && *d == stored_documents(*m)[key@],
            None => !stored_documents(*m).contains_key(key@),
        },
{
    m.get(key).map(|e| Arc::clone(e.value()))
}

/// A diagnostic ready to publish.
#[derive(Clone, Debug)]
pub struct PublishedDiagnostic {
    pub range: Range,
    pub message: String,
}

/// Diagnostics for the first `n` compiler diagnostics: those whose span lies
/// in the text, at their ranges.
pub open spec fn diagnostics_view(rope: Rope, snap: Snapshot, n: int) -> Seq<(Range, Seq<char>)>
    decreases n,
{
    if n <= 0 {
        Seq::empty()
    } else {
        let prev = diagnostics_view(rope, snap, n - 1);
        let d = snap.diagnostics@[n - 1];
        match offsets_range(rope, d.span.start as int, d.span.end as int) {
            Some(r) => prev.push((r, d.message@)),
            None => prev,
        }
    }
}

pub open spec fn published_view(ds: Seq<PublishedDiagnostic>) -> Seq<(Range, Seq<char>)> {
    ds.map_values(|d: PublishedDiagnostic| (d.range, d.message@))
}

/// The compiler's diagnostics at their ranges; those outside the text are
/// dropped.
pub fn collect_diagnostics(rope: &Rope, snap: &Snapshot) -> (r: Vec<PublishedDiagnostic>)
    ensures
        published_view(r@) == diagnostics_view(*rope, *snap, snap.diagnostics@.len() as int),
{
    let mut out: Vec<PublishedDiagnostic> = Vec::new();
    let mut i: usize = 0;
    while i < snap.diagnostics.len()
        invariant
            i <= snap.diagnostics@.len(),
            published_view(out@) =~= diagnostics_view(*rope, *snap, i as int),
        decreases snap.diagnostics@.len() - i,
    {
        let d = &snap.diagnostics[i];
        let ghost prev = out@;
        match offsets_to_range(d.span.start, d.span.end, rope) {
            Some(r) => {
                out.push(PublishedDiagnostic { range: r, message: d.message.clone() });
                assert(published_view(out@) =~= published_view(prev).push((r, d.message@)));
            },
            None => {},
        }
        i = i + 1;
    }
    out
}

/// The open documents of a client session.
pub struct Session {
    docs: DashMap<String, Arc<Document>>,
    shutting_down: bool,
}

impl Session {
    /// The documents held, by URI.
    pub closed spec fn documents(&self) -> Map<Seq<char>, Document> {
        stored_documents(self.docs)
    }

    /// Whether shutdown was requested.
    pub closed spec fn shutdown_requested(&self) -> bool {
        self.shutting_down
    }

    pub fn new() -> (s: Session)
        ensures
            s.documents() == Map::<Seq<char>, Document>::empty(),
            !s.shutdown_requested(),
    {
        Session { docs: map_new(), shutting_down: false }
    }

    pub fn is_shutting_down(&self) -> (r: bool)
        ensures
            r == self.shutdown_requested(),
    {
        self.shutting_down
    }

    /// A document was opened, changed or saved with full text `text`, which the
    /// compiler turned into `snapshot`. The record for `uri` is replaced as a
    /// whole. Returns the diagnostics to publish: none once shutdown was
    /// requested or when `uri` is not a valid URI.
    pub fn on_change(&mut self, uri: String, text: &str, snapshot: Snapshot) -> (r: Option<Vec<PublishedDiagnostic>>)
        ensures
            final(self).documents().contains_key(uri@),
            rope_chars(final(self).documents()[uri@].rope) == text@,
            final(self).documents()[uri@].snapshot == snapshot,
            final(self).documents().remove(uri@) == old(self).documents().remove(uri@),
            final(self).shutdown_requested() == old(self).shutdown_requested(),
            r is Some <==> (!old(self).shutdown_requested() && uri_parses(uri@)),
            r matches Some(ds) ==> published_view(ds@) == diagnostics_view(
                final(self).documents()[uri@].rope,
                snapshot,
                snapshot.diagnostics@.len() as int,
            ),
    {
        let rope = Rope::from_str(text);
        let diagnostics = collect_diagnostics(&rope, &snapshot);
        let publish = if self.shutting_down {
            None
        } else if is_valid_uri(uri.as_str()) {
            Some(diagnostics)
        } else {
            None
        };
        let ghost before = self.documents();
        let doc = Document { rope, snapshot };
        map_insert(&mut self.docs, uri, Arc::new(doc));
        assert(self.documents().remove(uri@) =~= before.remove(uri@));
        publish
    }

    /// A document was closed: its record is dropped.
    pub fn close(&mut self, uri: &str)
        ensures
            final(self).documents() == old(self).documents().remove(uri@),
            final(self).shutdown_requested() == old(self).shutdown_requested(),
    {
        map_remove(&mut self.docs, uri);
    }

    /// Shutdown: no diagnostics are published from now on, and every record is
    /// dropped.
    pub fn shutdown(&mut self)
        ensures
            final(self).documents() == Map::<Seq<char>, Document>::empty(),
            final(self).shutdown_requested(),
    {
        self.shutting_down = true;
        map_clear(&mut self.docs);
    }

    /// The record of `uri`, if open.
    pub fn document(&self, uri: &str) -> (r: Option<Arc<Document>>)
        ensures
            match r {
                Some(d) => self.documents().contains_key(uri@) && *d == self.documents()[uri@],
                None => !self.documents().contains_key(uri@),
            },
    {
        map_get(&self.docs, uri)
    }

    /// Go to definition in `uri` from `position`.
    pub fn goto_definition(&self, uri: &str, position: Position) -> (r: Option<Range>)
        ensures
            r == match self.documents().get(uri@) {
                Some(d) => definition_at(d.rope, d.snapshot, position),
                None => None,
            },
    {
        match self.document(uri) {
            Some(d) => get_definition(&d.rope, &d.snapshot, position),
            None => None,
        }
    }

    /// Every location of the symbol at `position` in `uri`.
    pub fn references(&self, uri: &str, position: Position, include_declaration: bool) -> (r: Option<Vec<Range>>)
        ensures
            match self.documents().get(uri@) {
                Some(d) => if uri_parses(uri@) {
                    match r {
                        Some(v) => all_references(d.rope, d.snapshot, position, include_declaration) == Some(v@),
                        None => all_references(d.rope, d.snapshot, position, include_declaration) is None,
                    }
                } else {
                    r is None
                },
                None => r is None,
            },
    {
        match self.document(uri) {
            Some(d) => get_references(&d.rope, &d.snapshot, uri, position, include_declaration),
            None => None,
        }
    }

    /// Rename the symbol at `position` in `uri`: all of its locations, or
    /// nothing.
    pub fn rename(&self, uri: &str, position: Position, new_name: &String) -> (r: Option<Vec<TextEdit>>)
        ensures
            match self.documents().get(uri@) {
                Some(d) => {
                    &&& r is Some <==> (uri_parses(uri@) && all_references(d.rope, d.snapshot, position, true) is Some)
                    &&& r matches Some(es) ==> edits_replace(es@, all_references(d.rope, d.snapshot, position, true).unwrap(), new_name@)
                },
                None => r is None,
            },
    {
        match self.document(uri) {
            Some(d) => build_rename_edit(&d.rope, &d.snapshot, uri, position, new_name),
            None => None,
        }
    }

    /// Completion in `uri` at `position`, where `node` is the smallest syntax
    /// node enclosing it.
    pub fn completion(&self, uri: &str, position: Position, node: Option<&SyntaxNode>) -> (r: Option<Vec<Candidate>>)
        ensures
            match self.documents().get(uri@) {
                Some(d) => match r {
                    Some(cs) => crate::text::position_offset(d.rope, position) is Some && candidates_view(cs@)
                        == completion_candidates(d.rope, d.snapshot, match node {
                        Some(n) => Some(*n),
                        None => None,
                    }),
                    None => crate::text::position_offset(d.rope, position) is None,
                },
                None => r is None,
            },
    {
        match self.document(uri) {
            Some(d) => get_completion(&d.rope, &d.snapshot, position, node),
            None => None,
        }
    }

    /// Semantic tokens of all of `uri`.
    pub fn semantic_tokens_full(&self, uri: &str) -> (r: Option<Vec<SemanticToken>>)
        ensures
            match self.documents().get(uri@) {
                Some(d) => r matches Some(v) && v@ == token_stream(d.rope, d.snapshot, None),
                None => r is None,
            },
    {
        match self.document(uri) {
            Some(d) => Some(build_semantic_tokens(&d.rope, &d.snapshot)),
            None => None,
        }
    }

    /// Semantic tokens of `uri` that start in `range`.
    pub fn semantic_tokens_range(&self, uri: &str, range: Range) -> (r: Option<Vec<SemanticToken>>)
        ensures
            match self.documents().get(uri@) {
                Some(d) => match (crate::text::position_offset(d.rope, range.start), crate::text::position_offset(d.rope, range.end)) {
                    (Some(lo), Some(hi)) => r matches Some(v) && v@ == token_stream(d.rope, d.snapshot, Some((lo as usize, hi as usize))),
                    _ => r is None,
                },
                None => r is None,
            },
    {
        match self.document(uri) {
            Some(d) => build_semantic_tokens_range(&d.rope, &d.snapshot, range),
            None => None,
        }
    }

    /// Type hints of `uri`.
    pub fn inlay_hints(&self, uri: &str) -> (r: Option<Vec<TypeHint>>)
        ensures
            match self.documents().get(uri@) {
                Some(d) => r matches Some(v) && hints_view(v@) == type_hints(d.rope, d.snapshot, d.snapshot.symbols@.len() as int),
                None => r is None,
            },
    {
        match self.document(uri) {
            Some(d) => Some(build_inlay_hints(&d.rope, &d.snapshot)),
            None => None,
        }
    }

    /// The stored text of `uri`, for a save that carries none.
    pub fn stored_text(&self, uri: &str) -> (r: Option<String>)
        ensures
            match r {
                Some(t) => self.documents().contains_key(uri@) && t@ == rope_chars(self.documents()[uri@].rope),
                None => !self.documents().contains_key(uri@),
            },
    {
        match self.document(uri) {
            Some(d) => {
                let total = d.rope.len_chars();
                Some(rope_text(&d.rope, 0, total))
            },
            None => None,
        }
    }
}

} // verus!
