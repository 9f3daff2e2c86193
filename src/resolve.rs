//! Definition, reference and rename queries at a cursor position.

use crate::snapshot::{find_in_index, index_lookup, Snapshot, Span};
use crate::text::{
    offsets_range, offsets_to_range, position_offset, position_to_offset, Position, Range,
};
use ropey::Rope;
use std::str::FromStr;
use tower_lsp_server::ls_types::Uri;
use vstd::prelude::*;

verus! {

/// Whether a string parses as a document identifier.
pub uninterp spec fn uri_parses(s: Seq<char>) -> bool;

/// Relies on `Uri::from_str` of tower-lsp-server's `ls_types`: whether the text
/// is a well-formed URI depends on the text alone.
#[verifier::external_body]
pub(crate) fn is_valid_uri(uri: &str) -> (r: bool)
    ensures
        r == uri_parses(uri@),
{
    Uri::from_str(uri).is_ok()
}

/// One replacement of the text in a range.
#[derive(Clone, Debug)]
pub struct TextEdit {
    pub range: Range,
    pub new_text: String,
}

/// The symbol that reference `rid` resolves to, when both ids are in range.
pub open spec fn resolved_symbol(snap: Snapshot, rid: int) -> Option<usize> {
    if 0 <= rid < snap.references@.len() {
        match snap.references@[rid] {
            Some(sid) => if sid < snap.symbols@.len() {
                Some(sid)
            } else {
                None
            },
            None => None,
        }
    } else {
        None
    }
}

/// The symbol that the reference standing at offset `o` resolves to.
pub open spec fn symbol_of_reference_at(snap: Snapshot, o: int) -> Option<usize> {
    match index_lookup(snap.reference_index@, o) {
        Some(e) => resolved_symbol(snap, e.id as int),
        None => None,
    }
}

/// The symbol governing offset `o`: the one a reference there resolves to,
/// else the one whose definition is there; ids out of range count as absent.
pub open spec fn symbol_at(snap: Snapshot, o: int) -> Option<usize> {
    match symbol_of_reference_at(snap, o) {
        Some(sid) => Some(sid),
        None => match index_lookup(snap.symbol_index@, o) {
            Some(e) => if e.id < snap.symbols@.len() {
                Some(e.id)
            } else {
                None
            },
            None => None,
        },
    }
}

/// Where the definition for offset `o` lies: the definition of the symbol a
/// reference there resolves to, else a non-empty definition span there.
pub open spec fn definition_span(snap: Snapshot, o: int) -> Option<Span> {
    match symbol_of_reference_at(snap, o) {
        Some(sid) => Some(snap.symbols@[sid as int].span),
        None => match index_lookup(snap.symbol_index@, o) {
            Some(e) => if e.span.start < e.span.end {
                Some(e.span)
            } else {
                None
            },
            None => None,
        },
    }
}

/// The definition range for the cursor at `pos`.
pub open spec fn definition_at(rope: Rope, snap: Snapshot, pos: Position) -> Option<Range> {
    match position_offset(rope, pos) {
        Some(o) => match definition_span(snap, o) {
            Some(sp) => offsets_range(rope, sp.start as int, sp.end as int),
            None => None,
        },
        None => None,
    }
}

/// The ranges of the first `n` references that resolve to `sid`, in table
/// order; a reference without a span or whose span leaves the text is skipped.
pub open spec fn reference_ranges(rope: Rope, snap: Snapshot, sid: usize, n: int) -> Seq<Range>
    decreases n,
{
    if n <= 0 {
        Seq::empty()
    } else {
        let prev = reference_ranges(rope, snap, sid, n - 1);
        let i = n - 1;
        if i < snap.references@.len() && snap.references@[i] == Some(sid) && i
            < snap.reference_spans@.len() {
            let sp = snap.reference_spans@[i];
            match offsets_range(rope, sp.start as int, sp.end as int) {
                Some(r) => prev.push(r),
                None => prev,
            }
        } else {
            prev
        }
    }
}

/// All locations of the symbol governing `pos`: its definition first when
/// asked for, then every reference to it in table order.
pub open spec fn all_references(rope: Rope, snap: Snapshot, pos: Position, include_declaration: bool) -> Option<Seq<Range>> {
    match position_offset(rope, pos) {
        Some(o) => match symbol_at(snap, o) {
            Some(sid) => {
                let refs = reference_ranges(rope, snap, sid, snap.references@.len() as int);
                if include_declaration {
                    let sp = snap.symbols@[sid as int].span;
                    match offsets_range(rope, sp.start as int, sp.end as int) {
                        Some(d) => Some(seq![d] + refs),
                        None => None,
                    }
                } else {
                    Some(refs)
                }
            },
            None => None,
        },
        None => None,
    }
}

/// The edits replace exactly the given ranges, in order, each by `name`.
pub open spec fn edits_replace(edits: Seq<TextEdit>, ranges: Seq<Range>, name: Seq<char>) -> bool {
    &&& edits.len() == ranges.len()
    &&& forall|i: int| 0 <= i < edits.len() ==> (#[trigger] edits[i]).range == ranges[i] && edits[i].new_text@ == name
}

pub(crate) fn resolve_reference(snap: &Snapshot, rid: usize) -> (r: Option<usize>)
    ensures
        r == resolved_symbol(*snap, rid as int),
{
    if rid >= snap.references.len() {
        return None;
    }
    match snap.references[rid] {
        Some(sid) => if sid < snap.symbols.len() {
            Some(sid)
        } else {
            None
        },
        None => None,
    }
}

fn reference_symbol_at(snap: &Snapshot, offset: usize) -> (r: Option<usize>)
    ensures
        r == symbol_of_reference_at(*snap, offset as int),
{
    match find_in_index(&snap.reference_index, offset) {
        Some(e) => resolve_reference(snap, e.id),
        None => None,
    }
}

/// The symbol governing an offset: through a reference there first, then
/// through a definition there. Stale ids give none.
pub fn get_symbol_at(snap: &Snapshot, offset: usize) -> (r: Option<usize>)
    ensures
        r == symbol_at(*snap, offset as int),
{
    match reference_symbol_at(snap, offset) {
        Some(sid) => Some(sid),
        None => match find_in_index(&snap.symbol_index, offset) {
            Some(e) => if e.id < snap.symbols.len() {
                Some(e.id)
            } else {
                None
            },
            None => None,
        },
    }
}

/// The definition span for an offset: reference first, then definition.
pub fn find_definition_span(snap: &Snapshot, offset: usize) -> (r: Option<Span>)
    ensures
        r == definition_span(*snap, offset as int),
{
    match reference_symbol_at(snap, offset) {
        Some(sid) => Some(snap.symbols[sid].span),
        None => match find_in_index(&snap.symbol_index, offset) {
            Some(e) => if e.span.start < e.span.end {
                Some(e.span)
            } else {
                None
            },
            None => None,
        },
    }
}

/// Go to definition from the cursor at `position`.
pub fn get_definition(rope: &Rope, snap: &Snapshot, position: Position) -> (r: Option<Range>)
    ensures
        r == definition_at(*rope, *snap, position),
{
    let offset = match position_to_offset(position, rope) {
        Some(o) => o,
        None => return None,
    };
    match find_definition_span(snap, offset) {
        Some(sp) => offsets_to_range(sp.start, sp.end, rope),
        None => None,
    }
}

/// Ranges of every reference resolving to `sid`, in table order; references
/// with stale ids or spans outside the text are skipped.
pub fn get_reference_ranges(rope: &Rope, snap: &Snapshot, sid: usize) -> (r: Vec<Range>)
    ensures
        r@ == reference_ranges(*rope, *snap, sid, snap.references@.len() as int),
{
    let mut out: Vec<Range> = Vec::new();
    let mut i: usize = 0;
    while i < snap.references.len()
        invariant
            i <= snap.references@.len(),
            out@ == reference_ranges(*rope, *snap, sid, i as int),
        decreases snap.references@.len() - i,
    {
        if snap.references[i] == Some(sid) && i < snap.reference_spans.len() {
            let sp = snap.reference_spans[i];
            match offsets_to_range(sp.start, sp.end, rope) {
                Some(r) => out.push(r),
                None => {},
            }
        }
        i = i + 1;
    }
    out
}

/// All locations of the symbol at `position`: its definition first when
/// `include_declaration`, then its references in the order they were recorded.
pub fn find_all_references(rope: &Rope, snap: &Snapshot, position: Position, include_declaration: bool) -> (r: Option<Vec<Range>>)
    ensures
        match r {
            Some(v) => all_references(*rope, *snap, position, include_declaration) == Some(v@),
            None => all_references(*rope, *snap, position, include_declaration) is None,
        },
{
    let offset = match position_to_offset(position, rope) {
        Some(o) => o,
        None => return None,
    };
    let sid = match get_symbol_at(snap, offset) {
        Some(s) => s,
        None => return None,
    };
    let refs = get_reference_ranges(rope, snap, sid);
    if include_declaration {
        let sp = snap.symbols[sid].span;
        match offsets_to_range(sp.start, sp.end, rope) {
            Some(d) => {
                let mut out: Vec<Range> = Vec::new();
                out.push(d);
                let mut rest = refs;
                out.append(&mut rest);
                assert(out@ =~= seq![d] + refs@);
                Some(out)
            },
            None => None,
        }
    } else {
        Some(refs)
    }
}

/// The references request for the document named `uri`: none when the name
/// is not a valid URI.
pub fn get_references(rope: &Rope, snap: &Snapshot, uri: &str, position: Position, include_declaration: bool) -> (r: Option<Vec<Range>>)
    ensures
        !uri_parses(uri@) ==> r is None,
        uri_parses(uri@) ==> match r {
            Some(v) => all_references(*rope, *snap, position, include_declaration) == Some(v@),
            None => all_references(*rope, *snap, position, include_declaration) is None,
        },
{
    if !is_valid_uri(uri) {
        return None;
    }
    find_all_references(rope, snap, position, include_declaration)
}

/// One edit per range, each replacing it by `new_name`.
pub fn edits_for(ranges: &Vec<Range>, new_name: &String) -> (r: Vec<TextEdit>)
    ensures
        edits_replace(r@, ranges@, new_name@),
{
    let mut out: Vec<TextEdit> = Vec::new();
    let mut i: usize = 0;
    while i < ranges.len()
        invariant
            i <= ranges@.len(),
            edits_replace(out@, ranges@.subrange(0, i as int), new_name@),
        decreases ranges@.len() - i,
    {
        out.push(TextEdit { range: ranges[i], new_text: new_name.clone() });
        i = i + 1;
        assert(edits_replace(out@, ranges@.subrange(0, i as int), new_name@));
    }
    assert(ranges@.subrange(0, ranges@.len() as int) =~= ranges@);
    out
}

/// Rename the symbol at `position` to `new_name`, in the document named
/// `uri`. Either every location that the references query with declaration
/// gives is replaced by `new_name` verbatim, or there is no edit at all.
pub fn build_rename_edit(rope: &Rope, snap: &Snapshot, uri: &str, position: Position, new_name: &String) -> (r: Option<Vec<TextEdit>>)
    ensures
        r is Some <==> (uri_parses(uri@) && all_references(*rope, *snap, position, true) is Some),
        r matches Some(edits) ==> edits_replace(
            edits@,
            all_references(*rope, *snap, position, true).unwrap(),
            new_name@,
        ),
{
    let refs = match find_all_references(rope, snap, position, true) {
        Some(v) => v,
        None => return None,
    };
    if !is_valid_uri(uri) {
        return None;
    }
    Some(edits_for(&refs, new_name))
}

} // verus!
