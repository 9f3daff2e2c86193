//! The semantic snapshot of one document: what the compiler recorded about
//! its symbols, references and structures, and the stabbing queries over it.

use vstd::prelude::*;

verus! {

/// A half-open `[start, end)` range of char offsets.
#[derive(Clone, Copy, Debug, PartialEq, Eq, Structural)]
pub struct Span {
    pub start: usize,
    pub end: usize,
}

/// What a declared name stands for.
#[derive(Clone, Copy, Debug, PartialEq, Eq, Structural)]
pub enum SymbolKind {
    Function,
    Variable,
    Parameter,
    Struct,
    Field,
}

/// The resolved type of a symbol or field: its printed form, and the symbol id
/// of the structure when the type is one.
#[derive(Clone, Debug)]
pub struct TypeRef {
    pub struct_id: Option<usize>,
    pub name: String,
}

/// A declared name.
#[derive(Clone, Debug)]
pub struct Symbol {
    pub kind: SymbolKind,
    pub span: Span,
    pub ty: TypeRef,
}

/// One field of a structure.
#[derive(Clone, Debug)]
pub struct FieldDef {
    pub name: String,
    pub ty: TypeRef,
}

/// A structure, keyed by the symbol id of its declaration.
#[derive(Clone, Debug)]
pub struct StructDef {
    pub id: usize,
    pub fields: Vec<FieldDef>,
}

/// One entry of an interval index: a span and the id it maps to.
#[derive(Clone, Copy, Debug, PartialEq, Eq, Structural)]
pub struct IndexEntry {
    pub span: Span,
    pub id: usize,
}

/// A problem the compiler reported, with where it lies.
#[derive(Clone, Debug)]
pub struct Diagnostic {
    pub span: Span,
    pub message: String,
}

/// The compiler's analysis of one document version. Ids index `symbols` and
/// `references`; the tables come from outside and any id may be stale.
#[derive(Clone, Debug)]
pub struct Snapshot {
    pub symbols: Vec<Symbol>,
    /// For each reference, the symbol it resolves to, if any.
    pub references: Vec<Option<usize>>,
    /// For each reference, where it stands.
    pub reference_spans: Vec<Span>,
    /// Interval index from definition spans to symbol ids, in start order.
    pub symbol_index: Vec<IndexEntry>,
    /// Interval index from reference spans to reference ids, in start order.
    pub reference_index: Vec<IndexEntry>,
    pub structs: Vec<StructDef>,
    pub diagnostics: Vec<Diagnostic>,
}

/// The span holds offset `o`.
pub open spec fn covers(s: Span, o: int) -> bool {
    s.start <= o < s.end
}

/// The first entry of an interval index whose span holds offset `o`.
pub open spec fn index_lookup(idx: Seq<IndexEntry>, o: int) -> Option<IndexEntry>
    decreases idx.len(),
{
    if idx.len() == 0 {
        None
    } else if covers(idx[0].span, o) {
        Some(idx[0])
    } else {
        index_lookup(idx.drop_first(), o)
    }
}

/// Stabbing query: the first entry of the index whose span holds `offset`.
pub fn find_in_index(idx: &Vec<IndexEntry>, offset: usize) -> (r: Option<IndexEntry>)
    ensures
        r == index_lookup(idx@, offset as int),
{
    let mut i: usize = 0;
    assert(idx@.subrange(0, idx@.len() as int) =~= idx@);
    while i < idx.len()
        invariant
            i <= idx@.len(),
            index_lookup(idx@, offset as int) == index_lookup(
                idx@.subrange(i as int, idx@.len() as int),
                offset as int,
            ),
        decreases idx@.len() - i,
    {
        let e = idx[i];
        let ghost rest = idx@.subrange(i as int, idx@.len() as int);
        assert(rest[0] == e);
        if e.span.start <= offset && offset < e.span.end {
            return Some(e);
        }
        assert(rest.drop_first() =~= idx@.subrange(i + 1, idx@.len() as int));
        i = i + 1;
    }
    None
}

} // verus!
