//! Inlay hints: the type of each variable, shown after its definition.

use crate::snapshot::{Snapshot, SymbolKind};
use crate::text::{offset_position, offset_to_position, offsets_range, offsets_to_range, Position, Range};
use ropey::Rope;
use vstd::prelude::*;

verus! {

/// A type hint: where it stands, the printed type, and for a structure type
/// the range of the structure's definition, to navigate to.
#[derive(Clone, Debug)]
pub struct TypeHint {
    pub position: Position,
    pub label: String,
    pub target: Option<Range>,
}

/// What a hint shows, as plain values.
pub type TypeHintView = (Position, Seq<char>, Option<Range>);

pub open spec fn hints_view(hs: Seq<TypeHint>) -> Seq<TypeHintView> {
    hs.map_values(|h: TypeHint| (h.position, h.label@, h.target))
}

/// Hints for the first `n` symbols: one per variable whose definition ends in
/// the text; a structure type links to its definition, and a hint whose
/// structure is out of range or outside the text is dropped.
pub open spec fn type_hints(rope: Rope, snap: Snapshot, n: int) -> Seq<TypeHintView>
    decreases n,
{
    if n <= 0 {
        Seq::empty()
    } else {
        let prev = type_hints(rope, snap, n - 1);
        let sym = snap.symbols@[n - 1];
        if sym.kind == SymbolKind::Variable {
            match offset_position(rope, sym.span.end as int) {
                Some(p) => match sym.ty.struct_id {
                    Some(id) => if id < snap.symbols@.len() {
                        let sp = snap.symbols@[id as int].span;
                        match offsets_range(rope, sp.start as int, sp.end as int) {
                            Some(t) => prev.push((p, sym.ty.name@, Some(t))),
                            None => prev,
                        }
                    } else {
                        prev
                    },
                    None => prev.push((p, sym.ty.name@, None)),
                },
                None => prev,
            }
        } else {
            prev
        }
    }
}

/// One type hint per variable of the snapshot, in table order.
pub fn build_inlay_hints(rope: &Rope, snap: &Snapshot) -> (r: Vec<TypeHint>)
    ensures
        hints_view(r@) == type_hints(*rope, *snap, snap.symbols@.len() as int),
{
    let mut out: Vec<TypeHint> = Vec::new();
    let mut i: usize = 0;
    while i < snap.symbols.len()
        invariant
            i <= snap.symbols@.len(),
            hints_view(out@) =~= type_hints(*rope, *snap, i as int),
        decreases snap.symbols@.len() - i,
    {
        let sym = &snap.symbols[i];
        let ghost prev = out@;
        if sym.kind == SymbolKind::Variable {
            match offset_to_position(sym.span.end, rope) {
                Some(p) => match sym.ty.struct_id {
                    Some(id) => if id < snap.symbols.len() {
                        let sp = snap.symbols[id].span;
                        match offsets_to_range(sp.start, sp.end, rope) {
                            Some(t) => {
                                out.push(TypeHint { position: p, label: sym.ty.name.clone(), target: Some(t) });
                                assert(hints_view(out@) =~= hints_view(prev).push((p, sym.ty.name@, Some(t))));
                            },
                            None => {},
                        }
                    },
                    None => {
                        out.push(TypeHint { position: p, label: sym.ty.name.clone(), target: None });
                        assert(hints_view(out@) =~= hints_view(prev).push((p, sym.ty.name@, None)));
                    },
                },
                None => {},
            }
        }
        i = i + 1;
    }
    out
}

} // verus!
