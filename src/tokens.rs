//! Semantic tokens: one entry per definition and resolved reference, sorted by
//! start offset and delta-encoded against the previous token's position.

use crate::resolve::{reference_ranges, resolve_reference, resolved_symbol, symbol_of_reference_at};
use crate::snapshot::{index_lookup, Snapshot, Span, SymbolKind};
use crate::text::{
    line_boundary, line_holds, line_of_offset, lemma_some_line_holds,
    lines_in_order, offset_position, offset_to_position, position_offset, position_to_offset,
    rope_chars, Position, Range,
};
use ropey::Rope;
use vstd::prelude::*;

verus! {

/// A token before encoding: its start offset, its length and its kind.
#[derive(Clone, Copy, Debug, PartialEq, Eq, Structural)]
pub struct TokenEntry {
    pub start: usize,
    pub length: usize,
    pub kind: u32,
}

/// A token at an absolute position.
#[derive(Clone, Copy, Debug, PartialEq, Eq, Structural)]
pub struct AbsToken {
    pub line: usize,
    pub column: usize,
    pub length: usize,
    pub kind: u32,
}

/// A token of the wire stream, positioned relative to the one before it.
#[derive(Clone, Copy, Debug, PartialEq, Eq, Structural)]
pub struct SemanticToken {
    pub delta_line: usize,
    pub delta_start: usize,
    pub length: usize,
    pub token_type: u32,
    pub token_modifiers: u32,
}

/// The fixed legend: function, variable, parameter, structure, field.
pub open spec fn kind_code(k: SymbolKind) -> u32 {
    match k {
        SymbolKind::Function => 0,
        SymbolKind::Variable => 1,
        SymbolKind::Parameter => 2,
        SymbolKind::Struct => 3,
        SymbolKind::Field => 4,
    }
}

/// Length of a span; a reversed span counts as empty.
pub open spec fn span_len(s: Span) -> usize {
    if s.end >= s.start {
        (s.end - s.start) as usize
    } else {
        0
    }
}

/// The token starting at `start` is kept: always without a window, else when
/// it starts in `[lo, hi)`.
pub open spec fn in_window(start: usize, window: Option<(usize, usize)>) -> bool {
    match window {
        Some((lo, hi)) => lo <= start < hi,
        None => true,
    }
}

/// Entries for the definitions of the first `n` symbols.
pub open spec fn definition_entries(snap: Snapshot, window: Option<(usize, usize)>, n: int) -> Seq<TokenEntry>
    decreases n,
{
    if n <= 0 {
        Seq::empty()
    } else {
        let prev = definition_entries(snap, window, n - 1);
        let sym = snap.symbols@[n - 1];
        if in_window(sym.span.start, window) {
            prev.push(TokenEntry { start: sym.span.start, length: span_len(sym.span), kind: kind_code(sym.kind) })
        } else {
            prev
        }
    }
}

/// Entries for the first `n` reference spans whose reference resolves to a
/// symbol in range, with that symbol's kind.
pub open spec fn reference_entries(snap: Snapshot, window: Option<(usize, usize)>, n: int) -> Seq<TokenEntry>
    decreases n,
{
    if n <= 0 {
        Seq::empty()
    } else {
        let prev = reference_entries(snap, window, n - 1);
        let sp = snap.reference_spans@[n - 1];
        match resolved_symbol(snap, n - 1) {
            Some(sid) => if in_window(sp.start, window) {
                prev.push(TokenEntry { start: sp.start, length: span_len(sp), kind: kind_code(snap.symbols@[sid as int].kind) })
            } else {
                prev
            },
            None => prev,
        }
    }
}

/// All entries: definitions first, then references, each in table order.
pub open spec fn token_entries(snap: Snapshot, window: Option<(usize, usize)>) -> Seq<TokenEntry> {
    definition_entries(snap, window, snap.symbols@.len() as int) + reference_entries(
        snap,
        window,
        snap.reference_spans@.len() as int,
    )
}

/// `e` placed after every entry of the sorted `s` that starts no later.
pub open spec fn insert_by_start(s: Seq<TokenEntry>, e: TokenEntry) -> Seq<TokenEntry>
    decreases s.len(),
{
    if s.len() == 0 {
        seq![e]
    } else if s.last().start <= e.start {
        s.push(e)
    } else {
        insert_by_start(s.drop_last(), e).push(s.last())
    }
}

/// Stable sort by start offset.
pub open spec fn sort_by_start(s: Seq<TokenEntry>) -> Seq<TokenEntry>
    decreases s.len(),
{
    if s.len() == 0 {
        s
    } else {
        insert_by_start(sort_by_start(s.drop_last()), s.last())
    }
}

pub open spec fn sorted_by_start(s: Seq<TokenEntry>) -> bool {
    forall|i: int, j: int| 0 <= i <= j < s.len() ==> #[trigger] s[i].start <= #[trigger] s[j].start
}

/// The entries whose start lies in the text, at their positions.
pub open spec fn positioned(rope: Rope, s: Seq<TokenEntry>) -> Seq<AbsToken>
    decreases s.len(),
{
    if s.len() == 0 {
        Seq::empty()
    } else {
        let prev = positioned(rope, s.drop_last());
        let e = s.last();
        match offset_position(rope, e.start as int) {
            Some(p) => prev.push(AbsToken { line: p.line, column: p.character, length: e.length, kind: e.kind }),
            None => prev,
        }
    }
}

/// Positions never go backwards: by line, then by column.
pub open spec fn in_text_order(ts: Seq<AbsToken>) -> bool {
    forall|i: int| 0 < i < ts.len() ==> {
        let a = #[trigger] ts[i - 1];
        let b = ts[i];
        a.line < b.line || (a.line == b.line && a.column <= b.column)
    }
}

/// The wire form of token `i`: its line relative to the previous token's, and
/// its column relative to the previous token's when on the same line.
pub open spec fn encode_at(ts: Seq<AbsToken>, i: int) -> SemanticToken {
    let (pl, pc) = if i == 0 {
        (0int, 0int)
    } else {
        (ts[i - 1].line as int, ts[i - 1].column as int)
    };
    let dl = ts[i].line - pl;
    SemanticToken {
        delta_line: dl as usize,
        delta_start: if dl == 0 {
            (ts[i].column - pc) as usize
        } else {
            ts[i].column
        },
        length: ts[i].length,
        token_type: ts[i].kind,
        token_modifiers: 0,
    }
}

pub open spec fn delta_encode(ts: Seq<AbsToken>) -> Seq<SemanticToken> {
    Seq::new(ts.len(), |i: int| encode_at(ts, i))
}

/// Absolute tokens recovered by accumulating the deltas from `(0, 0)`.
pub open spec fn delta_decode(ds: Seq<SemanticToken>) -> Seq<AbsToken>
    decreases ds.len(),
{
    if ds.len() == 0 {
        Seq::empty()
    } else {
        let prev = delta_decode(ds.drop_last());
        let d = ds.last();
        let (pl, pc) = if prev.len() == 0 {
            (0int, 0int)
        } else {
            (prev.last().line as int, prev.last().column as int)
        };
        let line = pl + d.delta_line;
        let column = if d.delta_line == 0 {
            pc + d.delta_start
        } else {
            d.delta_start as int
        };
        prev.push(AbsToken { line: line as usize, column: column as usize, length: d.length, kind: d.token_type })
    }
}

/// The token stream for `window` of the document.
pub open spec fn token_stream(rope: Rope, snap: Snapshot, window: Option<(usize, usize)>) -> Seq<SemanticToken> {
    delta_encode(positioned(rope, sort_by_start(token_entries(snap, window))))
}

/// Decoding an encoded stream of tokens in text order gives the tokens back.
pub proof fn lemma_delta_round_trip(ts: Seq<AbsToken>)
    requires
        in_text_order(ts),
    ensures
        delta_decode(delta_encode(ts)) == ts,
    decreases ts.len(),
{
    if ts.len() > 0 {
        let init = ts.drop_last();
        assert(in_text_order(init)) by {
            assert forall|i: int| 0 < i < init.len() implies {
                let a = #[trigger] init[i - 1];
                let b = init[i];
                a.line < b.line || (a.line == b.line && a.column <= b.column)
            } by {
                assert(ts[i - 1] == init[i - 1]);
            }
        }
        lemma_delta_round_trip(init);
        assert(delta_encode(ts).drop_last() =~= delta_encode(init));
        let n = ts.len() - 1;
        if n > 0 {
            assert(ts[n - 1] == init.last());
            let a = ts[n - 1];
            let b = ts[n];
            assert(a.line < b.line || (a.line == b.line && a.column <= b.column));
        }
        assert(delta_decode(delta_encode(ts)) =~= ts);
    }
}

/// Inserting before the first entry that starts later is what
/// `insert_by_start` does.
proof fn lemma_insert_at(s: Seq<TokenEntry>, e: TokenEntry, j: int)
    requires
        0 <= j <= s.len(),
        j == s.len() || s.last().start > e.start,
        j == 0 || s[j - 1].start <= e.start,
        forall|k: int| j <= k < s.len() ==> #[trigger] s[k].start > e.start,
    ensures
        insert_by_start(s, e) == s.insert(j, e),
    decreases s.len(),
{
    if s.len() == 0 {
        assert(s.insert(j, e) =~= seq![e]);
    } else if j == s.len() {
        assert(s.insert(j, e) =~= s.push(e));
    } else {
        let init = s.drop_last();
        if j < init.len() {
            assert(init.last() == s[s.len() - 2]);
        }
        lemma_insert_at(init, e, j);
        assert(s.insert(j, e) =~= init.insert(j, e).push(s.last()));
    }
}

fn insert_entry(v: &mut Vec<TokenEntry>, e: TokenEntry)
    requires
        sorted_by_start(old(v)@),
    ensures
        final(v)@ == insert_by_start(old(v)@, e),
        sorted_by_start(final(v)@),
{
    let mut j: usize = v.len();
    while j > 0 && v[j - 1].start > e.start
        invariant
            j <= v@.len(),
            forall|k: int| j <= k < v@.len() ==> #[trigger] v@[k].start > e.start,
        decreases j,
    {
        j = j - 1;
    }
    let ghost s = v@;
    proof {
        if j < s.len() {
            assert(s[s.len() - 1].start > e.start);
        }
        lemma_insert_at(s, e, j as int);
    }
    proof {
        lemma_insert_at_sorted(s, e, j as int);
    }
    v.insert(j, e);
}

/// Stable sort of the entries by start offset: entries that start together
/// keep their order.
pub fn sort_tokens(entries: &Vec<TokenEntry>) -> (r: Vec<TokenEntry>)
    ensures
        r@ == sort_by_start(entries@),
        sorted_by_start(r@),
{
    let mut out: Vec<TokenEntry> = Vec::new();
    let mut i: usize = 0;
    assert(entries@.subrange(0, 0) =~= Seq::<TokenEntry>::empty());
    while i < entries.len()
        invariant
            i <= entries@.len(),
            out@ == sort_by_start(entries@.subrange(0, i as int)),
            sorted_by_start(out@),
        decreases entries@.len() - i,
    {
        let ghost pre = entries@.subrange(0, i + 1);
        assert(pre.drop_last() =~= entries@.subrange(0, i as int));
        assert(pre.last() == entries@[i as int]);
        insert_entry(&mut out, entries[i]);
        i = i + 1;
    }
    assert(entries@.subrange(0, entries@.len() as int) =~= entries@);
    out
}

/// Later offsets never lie at earlier positions.
pub proof fn lemma_position_monotone(r: Rope, n: int, o1: int, o2: int)
    requires
        lines_in_order(r, n),
        n <= usize::MAX,
        rope_chars(r).len() <= usize::MAX,
        0 <= o1 <= o2 <= rope_chars(r).len(),
    ensures
        offset_position(r, o1) matches Some(p1) && offset_position(r, o2) matches Some(p2) && (
        p1.line < p2.line || (p1.line == p2.line && p1.character <= p2.character)),
{
    let len = rope_chars(r).len() as int;
    let l1 = line_of_offset(r, o1);
    let l2 = line_of_offset(r, o2);
    if o1 < len {
        lemma_some_line_holds(r, n, o1, 0);
        assert(line_holds(r, l1, o1));
    }
    if o2 < len {
        lemma_some_line_holds(r, n, o2, 0);
        assert(line_holds(r, l2, o2));
        if l1 > l2 {
            assert(line_boundary(r, l2 + 1) <= line_boundary(r, l1));
        }
    }
    assert(0 <= l1 < n && 0 <= l2 < n);
    assert(l1 <= l2);
    if l1 == l2 {
        assert(o1 - line_boundary(r, l1) <= o2 - line_boundary(r, l2));
    }
    assert(line_boundary(r, l1) <= o1) by {
        if o1 == len {
            assert(line_boundary(r, n - 1) <= line_boundary(r, n));
        }
    }
    assert(line_boundary(r, l2) <= o2) by {
        if o2 == len {
            assert(line_boundary(r, n - 1) <= line_boundary(r, n));
        }
    }
}

/// Delta-encode sorted entries; an entry whose start lies outside the text is
/// dropped and does not move the reference point of the next one.
pub fn encode_tokens(rope: &Rope, sorted: &Vec<TokenEntry>) -> (r: Vec<SemanticToken>)
    requires
        sorted_by_start(sorted@),
    ensures
        r@ == delta_encode(positioned(*rope, sorted@)),
{
    let n = rope.len_lines();
    let total = rope.len_chars();
    let mut out: Vec<SemanticToken> = Vec::new();
    let mut pre_line: usize = 0;
    let mut pre_start: usize = 0;
    let ghost mut last_off: int = 0;
    let mut i: usize = 0;
    assert(sorted@.subrange(0, 0) =~= Seq::<TokenEntry>::empty());
    while i < sorted.len()
        invariant
            i <= sorted@.len(),
            sorted_by_start(sorted@),
            lines_in_order(*rope, n as int),
            total == rope_chars(*rope).len(),
            out@ == delta_encode(positioned(*rope, sorted@.subrange(0, i as int))),
            ({
                let ps = positioned(*rope, sorted@.subrange(0, i as int));
                &&& ps.len() == 0 ==> pre_line == 0 && pre_start == 0
                &&& ps.len() > 0 ==> (ps.last().line == pre_line && ps.last().column == pre_start
                    && offset_position(*rope, last_off) == Some(Position { line: pre_line, character: pre_start })
                    && 0 <= last_off <= rope_chars(*rope).len()
                    && (forall|k: int| i <= k < sorted@.len() ==> last_off <= #[trigger] sorted@[k].start))
            }),
        decreases sorted@.len() - i,
    {
        let e = sorted[i];
        let ghost pre = sorted@.subrange(0, i + 1);
        let ghost ps = positioned(*rope, sorted@.subrange(0, i as int));
        assert(pre.drop_last() =~= sorted@.subrange(0, i as int));
        assert(pre.last() == e);
        match offset_to_position(e.start, rope) {
            Some(p) => {
                let ghost t = AbsToken { line: p.line, column: p.character, length: e.length, kind: e.kind };
                proof {
                    if ps.len() > 0 {
                        assert(last_off <= sorted@[i as int].start);
                        lemma_position_monotone(*rope, n as int, last_off, e.start as int);
                    }
                }
                let delta_line = p.line - pre_line;
                let delta_start = if delta_line == 0 {
                    p.character - pre_start
                } else {
                    p.character
                };
                let tok = SemanticToken {
                    delta_line,
                    delta_start,
                    length: e.length,
                    token_type: e.kind,
                    token_modifiers: 0,
                };
                assert(positioned(*rope, pre) == ps.push(t));
                assert(encode_at(ps.push(t), ps.len() as int) == tok);
                assert(delta_encode(ps.push(t)) =~= delta_encode(ps).push(tok)) by {
                    assert forall|k: int| 0 <= k < ps.len() implies encode_at(ps.push(t), k) == encode_at(ps, k) by {
                        if k > 0 {
                            assert(ps.push(t)[k - 1] == ps[k - 1]);
                        }
                    }
                }
                out.push(tok);
                pre_line = p.line;
                pre_start = p.character;
                proof {
                    last_off = e.start as int;
                }
            },
            None => {
                assert(positioned(*rope, pre) == ps);
            },
        }
        i = i + 1;
    }
    assert(sorted@.subrange(0, sorted@.len() as int) =~= sorted@);
    out
}

/// The token entries of a snapshot, restricted to those starting in `window`.
pub fn collect_tokens(snap: &Snapshot, window: Option<(usize, usize)>) -> (r: Vec<TokenEntry>)
    ensures
        r@ == token_entries(*snap, window),
{
    let mut defs: Vec<TokenEntry> = Vec::new();
    let mut i: usize = 0;
    while i < snap.symbols.len()
        invariant
            i <= snap.symbols@.len(),
            defs@ == definition_entries(*snap, window, i as int),
        decreases snap.symbols@.len() - i,
    {
        let sym = &snap.symbols[i];
        let keep = match window {
            Some((lo, hi)) => lo <= sym.span.start && sym.span.start < hi,
            None => true,
        };
        if keep {
            let length = if sym.span.end >= sym.span.start {
                sym.span.end - sym.span.start
            } else {
                0
            };
            defs.push(TokenEntry { start: sym.span.start, length, kind: token_kind(sym.kind) });
        }
        i = i + 1;
    }
    let mut refs: Vec<TokenEntry> = Vec::new();
    let mut j: usize = 0;
    while j < snap.reference_spans.len()
        invariant
            j <= snap.reference_spans@.len(),
            refs@ == reference_entries(*snap, window, j as int),
        decreases snap.reference_spans@.len() - j,
    {
        let sp = snap.reference_spans[j];
        match resolve_reference(snap, j) {
            Some(sid) => {
                let keep = match window {
                    Some((lo, hi)) => lo <= sp.start && sp.start < hi,
                    None => true,
                };
                if keep {
                    let length = if sp.end >= sp.start {
                        sp.end - sp.start
                    } else {
                        0
                    };
                    refs.push(TokenEntry { start: sp.start, length, kind: token_kind(snap.symbols[sid].kind) });
                }
            },
            None => {},
        }
        j = j + 1;
    }
    defs.append(&mut refs);
    defs
}

/// The legend index of a symbol kind.
pub fn token_kind(kind: SymbolKind) -> (r: u32)
    ensures
        r == kind_code(kind),
{
    match kind {
        SymbolKind::Function => 0,
        SymbolKind::Variable => 1,
        SymbolKind::Parameter => 2,
        SymbolKind::Struct => 3,
        SymbolKind::Field => 4,
    }
}

/// Inserting into a sorted sequence keeps it sorted.
proof fn lemma_insert_keeps_sorted(s: Seq<TokenEntry>, e: TokenEntry)
    requires
        sorted_by_start(s),
    ensures
        sorted_by_start(insert_by_start(s, e)),
        exists|j: int|
            0 <= j <= s.len() && insert_by_start(s, e) == s.insert(j, e) && (j == 0 || s[j - 1].start
                <= e.start) && (forall|k: int| j <= k < s.len() ==> #[trigger] s[k].start > e.start),
    decreases s.len(),
{
    let r = insert_by_start(s, e);
    if s.len() == 0 {
        assert(r =~= s.insert(0, e));
    } else if s.last().start <= e.start {
        assert(r =~= s.insert(s.len() as int, e));
    } else {
        let init = s.drop_last();
        lemma_insert_keeps_sorted(init, e);
        let j = choose|j: int|
            0 <= j <= init.len() && insert_by_start(init, e) == init.insert(j, e) && (j == 0
                || init[j - 1].start <= e.start) && (forall|k: int|
                j <= k < init.len() ==> #[trigger] init[k].start > e.start);
        assert(r =~= s.insert(j, e));
        assert forall|k: int| j <= k < s.len() implies #[trigger] s[k].start > e.start by {
            if k < init.len() {
                assert(s[k] == init[k]);
            }
        }
    }
    let j = choose|j: int|
        0 <= j <= s.len() && r == s.insert(j, e) && (j == 0 || s[j - 1].start <= e.start) && (
        forall|k: int| j <= k < s.len() ==> #[trigger] s[k].start > e.start);
    lemma_insert_at_sorted(s, e, j);
}

/// Inserting before the first later entry keeps a sorted sequence sorted.
proof fn lemma_insert_at_sorted(s: Seq<TokenEntry>, e: TokenEntry, j: int)
    requires
        sorted_by_start(s),
        0 <= j <= s.len(),
        j == 0 || s[j - 1].start <= e.start,
        forall|k: int| j <= k < s.len() ==> #[trigger] s[k].start > e.start,
    ensures
        sorted_by_start(s.insert(j, e)),
{
    let r = s.insert(j, e);
    assert forall|a: int, b: int| 0 <= a <= b < r.len() implies #[trigger] r[a].start
        <= #[trigger] r[b].start by {
        if a < j {
            assert(r[a] == s[a]);
            if b < j {
                assert(r[b] == s[b]);
            } else if b == j {
                assert(s[a].start <= s[j - 1].start);
            } else {
                assert(r[b] == s[b - 1]);
            }
        } else if a == j {
            if b > j {
                assert(r[b] == s[b - 1]);
            }
        } else {
            assert(r[a] == s[a - 1]);
            assert(r[b] == s[b - 1]);
        }
    }
}

/// The stable sort yields entries in start order.
pub proof fn lemma_sort_sorted(s: Seq<TokenEntry>)
    ensures
        sorted_by_start(sort_by_start(s)),
    decreases s.len(),
{
    if s.len() > 0 {
        lemma_sort_sorted(s.drop_last());
        lemma_insert_keeps_sorted(sort_by_start(s.drop_last()), s.last());
    }
}

/// Entries in start order land at positions in text order.
pub proof fn lemma_positioned_in_order(rope: Rope, n: int, s: Seq<TokenEntry>)
    requires
        lines_in_order(rope, n),
        n <= usize::MAX,
        rope_chars(rope).len() <= usize::MAX,
        sorted_by_start(s),
    ensures
        in_text_order(positioned(rope, s)),
        positioned(rope, s).len() > 0 ==> exists|k: int|
            0 <= k < s.len() && offset_position(rope, s[k].start as int) == Some(
                Position {
                    line: positioned(rope, s).last().line,
                    character: positioned(rope, s).last().column,
                },
            ),
    decreases s.len(),
{
    if s.len() > 0 {
        let init = s.drop_last();
        let e = s.last();
        let pi = positioned(rope, init);
        assert(sorted_by_start(init)) by {
            assert forall|a: int, b: int| 0 <= a <= b < init.len() implies #[trigger] init[a].start
                <= #[trigger] init[b].start by {
                assert(init[a] == s[a] && init[b] == s[b]);
            }
        }
        lemma_positioned_in_order(rope, n, init);
        match offset_position(rope, e.start as int) {
            Some(p) => {
                let t = AbsToken { line: p.line, column: p.character, length: e.length, kind: e.kind };
                assert(positioned(rope, s) == pi.push(t));
                if pi.len() > 0 {
                    let k = choose|k: int|
                        0 <= k < init.len() && offset_position(rope, init[k].start as int) == Some(
                            Position { line: pi.last().line, character: pi.last().column },
                        );
                    assert(init[k] == s[k]);
                    assert(s[k].start <= s[s.len() - 1].start);
                    lemma_position_monotone(rope, n, init[k].start as int, e.start as int);
                }
                assert forall|i: int| 0 < i < pi.push(t).len() implies {
                    let a = #[trigger] pi.push(t)[i - 1];
                    let b = pi.push(t)[i];
                    a.line < b.line || (a.line == b.line && a.column <= b.column)
                } by {
                    if i < pi.len() {
                        assert(pi.push(t)[i - 1] == pi[i - 1]);
                        assert(pi.push(t)[i] == pi[i]);
                    }
                }
                assert(offset_position(rope, s[s.len() - 1].start as int) == Some(
                    Position { line: t.line, character: t.column },
                ));
            },
            None => {
                assert(positioned(rope, s) == pi);
                if pi.len() > 0 {
                    let k = choose|k: int|
                        0 <= k < init.len() && offset_position(rope, init[k].start as int) == Some(
                            Position { line: pi.last().line, character: pi.last().column },
                        );
                    assert(init[k] == s[k]);
                }
            },
        }
    }
}

/// Decoding a built token stream by accumulating its deltas gives back the
/// sorted tokens at their absolute positions.
pub proof fn lemma_token_stream_decodes(rope: Rope, n: int, snap: Snapshot, window: Option<(usize, usize)>)
    requires
        lines_in_order(rope, n),
        n <= usize::MAX,
        rope_chars(rope).len() <= usize::MAX,
    ensures
        delta_decode(token_stream(rope, snap, window)) == positioned(
            rope,
            sort_by_start(token_entries(snap, window)),
        ),
{
    let sorted = sort_by_start(token_entries(snap, window));
    lemma_sort_sorted(token_entries(snap, window));
    lemma_positioned_in_order(rope, n, sorted);
    lemma_delta_round_trip(positioned(rope, sorted));
}

/// A reference id at or past the end of the reference table resolves to
/// nothing: a lookup landing on it finds no symbol, and it adds no location to
/// a references answer and no token to a stream.
pub proof fn lemma_stale_reference_skipped(
    rope: Rope,
    snap: Snapshot,
    sid: usize,
    window: Option<(usize, usize)>,
    rid: int,
    o: int,
)
    requires
        rid >= snap.references@.len(),
    ensures
        resolved_symbol(snap, rid) is None,
        reference_entries(snap, window, rid + 1) == reference_entries(snap, window, rid),
        reference_ranges(rope, snap, sid, rid + 1) == reference_ranges(rope, snap, sid, rid),
        index_lookup(snap.reference_index@, o) matches Some(e) && e.id >= snap.references@.len()
            ==> symbol_of_reference_at(snap, o) is None,
{
}

/// Tokens of the whole document.
pub fn build_semantic_tokens(rope: &Rope, snap: &Snapshot) -> (r: Vec<SemanticToken>)
    ensures
        r@ == token_stream(*rope, *snap, None),
{
    let entries = collect_tokens(snap, None);
    let sorted = sort_tokens(&entries);
    encode_tokens(rope, &sorted)
}

/// Tokens starting inside `range`; none when an end of the range is not in
/// the text. A token starting before the range is left out even if it
/// overlaps it.
pub fn build_semantic_tokens_range(rope: &Rope, snap: &Snapshot, range: Range) -> (r: Option<Vec<SemanticToken>>)
    ensures
        match (position_offset(*rope, range.start), position_offset(*rope, range.end)) {
            (Some(lo), Some(hi)) => r matches Some(v) && v@ == token_stream(*rope, *snap, Some((lo as usize, hi as usize))),
            _ => r is None,
        },
{
    let lo = match position_to_offset(range.start, rope) {
        Some(o) => o,
        None => return None,
    };
    let hi = match position_to_offset(range.end, rope) {
        Some(o) => o,
        None => return None,
    };
    let entries = collect_tokens(snap, Some((lo, hi)));
    let sorted = sort_tokens(&entries);
    Some(encode_tokens(rope, &sorted))
}

} // verus!
