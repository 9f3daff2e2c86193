//! Completion candidates at a cursor: the fields of a structure after a field
//! access, otherwise every variable, function and structure of the document.

use crate::resolve::{resolved_symbol, resolve_reference};
use crate::snapshot::{find_in_index, index_lookup, FieldDef, Snapshot, Span, StructDef, SymbolKind};
use crate::text::{position_offset, position_to_offset, rope_chars, rope_text, Position};
use ropey::Rope;
use vstd::prelude::*;

verus! {

/// The expression shapes that completion tells apart.
#[derive(Debug)]
pub enum Expr {
    /// A plain name.
    Name(Span),
    /// A field access `object.field`.
    Field(ExprField),
    /// Anything else.
    Other(Span),
}

/// A field access; either part may be missing while the user is typing.
#[derive(Debug)]
pub struct ExprField {
    pub object: Option<Box<Expr>>,
    pub field: Option<String>,
    pub span: Span,
}

/// The smallest syntax node enclosing the cursor, as far as completion cares.
#[derive(Debug)]
pub enum SyntaxNode {
    FieldAccess(ExprField),
    Other,
}

/// What a completion candidate names.
#[derive(Clone, Copy, Debug, PartialEq, Eq, Structural)]
pub enum CandidateKind {
    Variable,
    Function,
    Struct,
    Field,
}

/// One completion candidate: the text to insert, what it names, and the
/// printed type shown beside it, if any.
#[derive(Clone, Debug)]
pub struct Candidate {
    pub label: String,
    pub kind: CandidateKind,
    pub detail: Option<String>,
}

/// What a candidate shows, as plain values.
pub type CandidateView = (Seq<char>, CandidateKind, Option<Seq<char>>);

pub open spec fn candidate_view(c: Candidate) -> CandidateView {
    (c.label@, c.kind, match c.detail {
        Some(d) => Some(d@),
        None => None,
    })
}

pub open spec fn candidates_view(cs: Seq<Candidate>) -> Seq<CandidateView> {
    cs.map_values(|c: Candidate| candidate_view(c))
}

pub open spec fn expr_span(e: Expr) -> Span {
    match e {
        Expr::Name(s) => s,
        Expr::Field(f) => f.span,
        Expr::Other(s) => s,
    }
}

/// The field names accessed on top of a plain name, outermost first; none when
/// the chain does not end in a plain name or a part is missing.
pub open spec fn access_path(e: Expr) -> Option<Seq<Seq<char>>>
    decreases e,
{
    match e {
        Expr::Name(_) => Some(Seq::empty()),
        Expr::Field(f) => match f.object {
            Some(o) => match f.field {
                Some(name) => match access_path(*o) {
                    Some(p) => Some(p.push(name@)),
                    None => None,
                },
                None => None,
            },
            None => None,
        },
        Expr::Other(_) => None,
    }
}

/// The first structure with the given id.
pub open spec fn struct_lookup(structs: Seq<StructDef>, id: usize) -> Option<StructDef>
    decreases structs.len(),
{
    if structs.len() == 0 {
        None
    } else if structs[0].id == id {
        Some(structs[0])
    } else {
        struct_lookup(structs.drop_first(), id)
    }
}

/// The first field with the given name.
pub open spec fn field_lookup(fields: Seq<FieldDef>, name: Seq<char>) -> Option<FieldDef>
    decreases fields.len(),
{
    if fields.len() == 0 {
        None
    } else if fields[0].name@ == name {
        Some(fields[0])
    } else {
        field_lookup(fields.drop_first(), name)
    }
}

/// The structure reached from structure `id` by following the field names of
/// `path` in order; none when a field is missing or is not a structure.
pub open spec fn walk_path(snap: Snapshot, id: usize, path: Seq<Seq<char>>) -> Option<usize>
    decreases path.len(),
{
    if path.len() == 0 {
        Some(id)
    } else {
        match struct_lookup(snap.structs@, id) {
            Some(sd) => match field_lookup(sd.fields@, path[0]) {
                Some(fd) => match fd.ty.struct_id {
                    Some(next) => walk_path(snap, next, path.drop_first()),
                    None => None,
                },
                None => None,
            },
            None => None,
        }
    }
}

/// The structure type of the symbol named by the reference at offset `o`.
pub open spec fn struct_of_reference_at(snap: Snapshot, o: int) -> Option<usize> {
    match index_lookup(snap.reference_index@, o) {
        Some(e) => match resolved_symbol(snap, e.id as int) {
            Some(sid) => snap.symbols@[sid as int].ty.struct_id,
            None => None,
        },
        None => None,
    }
}

/// The structure whose fields follow the access `f`.
pub open spec fn field_access_struct(snap: Snapshot, f: ExprField) -> Option<StructDef> {
    match f.object {
        Some(o) => match access_path(*o) {
            Some(path) => match struct_of_reference_at(snap, expr_span(*o).start as int) {
                Some(base) => match walk_path(snap, base, path) {
                    Some(id) => struct_lookup(snap.structs@, id),
                    None => None,
                },
                None => None,
            },
            None => None,
        },
        None => None,
    }
}

pub open spec fn field_candidate(fd: FieldDef) -> CandidateView {
    (fd.name@, CandidateKind::Field, Some(fd.ty.name@))
}

/// The candidates from the first `n` symbols: each variable, function and
/// structure whose non-empty span lies in the text, labelled by that text.
pub open spec fn symbol_candidates(rope: Rope, snap: Snapshot, n: int) -> Seq<CandidateView>
    decreases n,
{
    if n <= 0 {
        Seq::empty()
    } else {
        let prev = symbol_candidates(rope, snap, n - 1);
        let sym = snap.symbols@[n - 1];
        let text = rope_chars(rope);
        if sym.span.start < sym.span.end && sym.span.end <= text.len() {
            let label = text.subrange(sym.span.start as int, sym.span.end as int);
            match sym.kind {
                SymbolKind::Variable => prev.push((label, CandidateKind::Variable, Some(sym.ty.name@))),
                SymbolKind::Function => prev.push((label, CandidateKind::Function, None)),
                SymbolKind::Struct => prev.push((label, CandidateKind::Struct, None)),
                _ => prev,
            }
        } else {
            prev
        }
    }
}

/// The candidates for a cursor in `node`: the fields of the structure that a
/// field access leads to; otherwise, or when the access does not resolve,
/// every symbol candidate of the document.
pub open spec fn completion_candidates(rope: Rope, snap: Snapshot, node: Option<SyntaxNode>) -> Seq<CandidateView> {
    let all = symbol_candidates(rope, snap, snap.symbols@.len() as int);
    match node {
        Some(SyntaxNode::FieldAccess(f)) => match field_access_struct(snap, f) {
            Some(sd) => sd.fields@.map_values(|fd: FieldDef| field_candidate(fd)),
            None => all,
        },
        _ => all,
    }
}

fn get_access_path(e: &Expr) -> (r: Option<Vec<String>>)
    ensures
        match r {
            Some(v) => access_path(*e) == Some(v@.map_values(|s: String| s@)),
            None => access_path(*e) is None,
        },
    decreases e,
{
    match e {
        Expr::Name(_) => Some(Vec::new()),
        Expr::Field(f) => match &f.object {
            Some(o) => match &f.field {
                Some(name) => match get_access_path(o) {
                    Some(mut p) => {
                        let ghost before = p@;
                        p.push(name.clone());
                        assert(p@.map_values(|s: String| s@) =~= before.map_values(|s: String| s@).push(name@));
                        Some(p)
                    },
                    None => None,
                },
                None => None,
            },
            None => None,
        },
        Expr::Other(_) => None,
    }
}

fn find_struct(structs: &Vec<StructDef>, id: usize) -> (r: Option<usize>)
    ensures
        match r {
            Some(i) => i < structs@.len() && struct_lookup(structs@, id) == Some(structs@[i as int]),
            None => struct_lookup(structs@, id) is None,
        },
{
    let mut i: usize = 0;
    assert(structs@.subrange(0, structs@.len() as int) =~= structs@);
    while i < structs.len()
        invariant
            i <= structs@.len(),
            struct_lookup(structs@, id) == struct_lookup(structs@.subrange(i as int, structs@.len() as int), id),
        decreases structs@.len() - i,
    {
        let ghost rest = structs@.subrange(i as int, structs@.len() as int);
        assert(rest[0] == structs@[i as int]);
        if structs[i].id == id {
            return Some(i);
        }
        assert(rest.drop_first() =~= structs@.subrange(i + 1, structs@.len() as int));
        i = i + 1;
    }
    None
}

fn find_field(fields: &Vec<FieldDef>, name: &String) -> (r: Option<usize>)
    ensures
        match r {
            Some(i) => i < fields@.len() && field_lookup(fields@, name@) == Some(fields@[i as int]),
            None => field_lookup(fields@, name@) is None,
        },
{
    let mut i: usize = 0;
    assert(fields@.subrange(0, fields@.len() as int) =~= fields@);
    while i < fields.len()
        invariant
            i <= fields@.len(),
            field_lookup(fields@, name@) == field_lookup(fields@.subrange(i as int, fields@.len() as int), name@),
        decreases fields@.len() - i,
    {
        let ghost rest = fields@.subrange(i as int, fields@.len() as int);
        assert(rest[0] == fields@[i as int]);
        if fields[i].name == *name {
            return Some(i);
        }
        assert(rest.drop_first() =~= fields@.subrange(i + 1, fields@.len() as int));
        i = i + 1;
    }
    None
}

/// Follow the field names of `path` from structure `id`.
pub fn resolve_field_path(snap: &Snapshot, id: usize, path: &Vec<String>) -> (r: Option<usize>)
    ensures
        r == walk_path(*snap, id, path@.map_values(|s: String| s@)),
{
    let ghost names = path@.map_values(|s: String| s@);
    let mut cur = id;
    let mut i: usize = 0;
    assert(names.subrange(0, names.len() as int) =~= names);
    while i < path.len()
        invariant
            i <= path@.len(),
            names == path@.map_values(|s: String| s@),
            walk_path(*snap, id, names) == walk_path(*snap, cur, names.subrange(i as int, names.len() as int)),
        decreases path@.len() - i,
    {
        let ghost rest = names.subrange(i as int, names.len() as int);
        assert(rest[0] == path@[i as int]@);
        assert(rest.drop_first() =~= names.subrange(i + 1, names.len() as int));
        let si = match find_struct(&snap.structs, cur) {
            Some(si) => si,
            None => return None,
        };
        let fi = match find_field(&snap.structs[si].fields, &path[i]) {
            Some(fi) => fi,
            None => return None,
        };
        match snap.structs[si].fields[fi].ty.struct_id {
            Some(next) => cur = next,
            None => return None,
        }
        i = i + 1;
    }
    Some(cur)
}

/// The structure type of the symbol named by the reference at `offset`.
fn struct_of_reference(snap: &Snapshot, offset: usize) -> (r: Option<usize>)
    ensures
        r == struct_of_reference_at(*snap, offset as int),
{
    match find_in_index(&snap.reference_index, offset) {
        Some(e) => match resolve_reference(snap, e.id) {
            Some(sid) => snap.symbols[sid].ty.struct_id,
            None => None,
        },
        None => None,
    }
}

/// Index in `snap.structs` of the structure whose fields follow the field
/// access `f`, when the access resolves.
pub fn get_struct_from_field(snap: &Snapshot, f: &ExprField) -> (r: Option<usize>)
    ensures
        match r {
            Some(i) => i < snap.structs@.len() && field_access_struct(*snap, *f) == Some(snap.structs@[i as int]),
            None => field_access_struct(*snap, *f) is None,
        },
{
    let object = match &f.object {
        Some(o) => o,
        None => return None,
    };
    let path = match get_access_path(object) {
        Some(p) => p,
        None => return None,
    };
    let start = match &**object {
        Expr::Name(sp) => sp.start,
        Expr::Field(inner) => inner.span.start,
        Expr::Other(sp) => sp.start,
    };
    let base = match struct_of_reference(snap, start) {
        Some(b) => b,
        None => return None,
    };
    let id = match resolve_field_path(snap, base, &path) {
        Some(id) => id,
        None => return None,
    };
    find_struct(&snap.structs, id)
}

/// One candidate per field of a structure, in declaration order.
pub fn field_completions(sd: &StructDef) -> (r: Vec<Candidate>)
    ensures
        candidates_view(r@) == sd.fields@.map_values(|fd: FieldDef| field_candidate(fd)),
{
    let mut out: Vec<Candidate> = Vec::new();
    let mut i: usize = 0;
    while i < sd.fields.len()
        invariant
            i <= sd.fields@.len(),
            candidates_view(out@) =~= sd.fields@.subrange(0, i as int).map_values(|fd: FieldDef| field_candidate(fd)),
        decreases sd.fields@.len() - i,
    {
        let fd = &sd.fields[i];
        let ghost prev = out@;
        let c = Candidate {
            label: fd.name.clone(),
            kind: CandidateKind::Field,
            detail: Some(fd.ty.name.clone()),
        };
        assert(candidate_view(c) == field_candidate(sd.fields@[i as int]));
        out.push(c);
        assert(candidates_view(out@) =~= candidates_view(prev).push(candidate_view(c)));
        assert(sd.fields@.subrange(0, i + 1) =~= sd.fields@.subrange(0, i as int).push(sd.fields@[i as int]));
        i = i + 1;
        assert(candidates_view(out@) =~= sd.fields@.subrange(0, i as int).map_values(|fd: FieldDef| field_candidate(fd)));
    }
    assert(sd.fields@.subrange(0, sd.fields@.len() as int) =~= sd.fields@);
    out
}

/// Every variable, function and structure of the snapshot, with no regard to
/// scope, labelled by the text of its definition; a symbol whose span is empty
/// or leaves the text is dropped.
pub fn symbol_completions(rope: &Rope, snap: &Snapshot) -> (r: Vec<Candidate>)
    ensures
        candidates_view(r@) == symbol_candidates(*rope, *snap, snap.symbols@.len() as int),
{
    let total = rope.len_chars();
    let mut out: Vec<Candidate> = Vec::new();
    let mut i: usize = 0;
    while i < snap.symbols.len()
        invariant
            i <= snap.symbols@.len(),
            total == rope_chars(*rope).len(),
            candidates_view(out@) =~= symbol_candidates(*rope, *snap, i as int),
        decreases snap.symbols@.len() - i,
    {
        let sym = &snap.symbols[i];
        let ghost prev = out@;
        if sym.span.start < sym.span.end && sym.span.end <= total {
            let kind = match sym.kind {
                SymbolKind::Variable => Some(CandidateKind::Variable),
                SymbolKind::Function => Some(CandidateKind::Function),
                SymbolKind::Struct => Some(CandidateKind::Struct),
                _ => None,
            };
            match kind {
                Some(k) => {
                    let label = rope_text(rope, sym.span.start, sym.span.end);
                    let detail = match k {
                        CandidateKind::Variable => Some(sym.ty.name.clone()),
                        _ => None,
                    };
                    out.push(Candidate { label, kind: k, detail });
                    assert(candidates_view(out@) =~= candidates_view(prev).push(candidate_view(out@.last())));
                },
                None => {},
            }
        }
        i = i + 1;
    }
    out
}

/// Completion at `position`, where `node` is the smallest syntax node that
/// encloses the cursor, if any. None when the position is not in the text.
pub fn get_completion(rope: &Rope, snap: &Snapshot, position: Position, node: Option<&SyntaxNode>) -> (r: Option<Vec<Candidate>>)
    ensures
        r is Some <==> position_offset(*rope, position) is Some,
        r matches Some(cs) ==> candidates_view(cs@) == completion_candidates(
            *rope,
            *snap,
            match node {
                Some(n) => Some(*n),
                None => None,
            },
        ),
{
    match position_to_offset(position, rope) {
        Some(_) => {},
        None => return None,
    }
    match node {
        Some(SyntaxNode::FieldAccess(f)) => match get_struct_from_field(snap, f) {
            Some(si) => Some(field_completions(&snap.structs[si])),
            None => Some(symbol_completions(rope, snap)),
        },
        _ => Some(symbol_completions(rope, snap)),
    }
}

} // verus!
