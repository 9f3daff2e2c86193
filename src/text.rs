//! Translation between char offsets and (line, column) positions over a
//! rope text buffer.

use ropey::Rope;
use vstd::prelude::*;

verus! {

/// ropey's `Rope`, opaque here: what it holds is known only through
/// `rope_chars` and `rope_line_starts`, as its methods below state.
#[verifier::external_type_specification]
#[verifier::external_body]
pub struct ExRope(Rope);

/// The characters that a rope holds.
pub uninterp spec fn rope_chars(r: Rope) -> Seq<char>;

/// The char offsets at which the lines of a rope begin, one per line.
pub uninterp spec fn rope_line_starts(r: Rope) -> Seq<int>;

/// Start of line `l`; one past the last line this is the end of the text.
pub open spec fn line_boundary(r: Rope, l: int) -> int {
    if 0 <= l < rope_line_starts(r).len() {
        rope_line_starts(r)[l]
    } else {
        rope_chars(r).len() as int
    }
}

/// The rope has `n` lines, the first starts at 0, and line starts never
/// decrease up to the end of the text.
pub open spec fn lines_in_order(r: Rope, n: int) -> bool {
    &&& n == rope_line_starts(r).len()
    &&& n >= 1
    &&& line_boundary(r, 0) == 0
    &&& forall|i: int, j: int|
        0 <= i <= j <= n ==> #[trigger] line_boundary(r, i) <= #[trigger] line_boundary(r, j)
}

/// Relies on ropey's `Rope::from_str`: the rope holds exactly the given text.
pub assume_specification[ Rope::from_str ](text: &str) -> (r: Rope)
    ensures
        rope_chars(r) == text@,
;

/// Relies on ropey's `Rope::len_chars`: the number of chars held.
pub assume_specification[ Rope::len_chars ](r: &Rope) -> (n: usize)
    ensures
        n == rope_chars(*r).len(),
;

/// Relies on ropey's `Rope::len_lines`: line breaks plus one; lines start in
/// text order, the first at offset 0.
pub assume_specification[ Rope::len_lines ](r: &Rope) -> (n: usize)
    ensures
        lines_in_order(*r, n as int),
;

/// Relies on ropey's `Rope::char_to_line`: the line holding a char; one past
/// the end gives the last line. Panics past that, hence the `requires`.
pub assume_specification[ Rope::char_to_line ](r: &Rope, char_idx: usize) -> (l: usize)
    requires
        char_idx <= rope_chars(*r).len(),
    ensures
        l < rope_line_starts(*r).len(),
        char_idx < rope_chars(*r).len() ==> line_boundary(*r, l as int) <= char_idx
            < line_boundary(*r, l + 1),
        char_idx == rope_chars(*r).len() ==> l == rope_line_starts(*r).len() - 1,
;

/// Relies on ropey's `Rope::line_to_char`: the offset where a line starts; one
/// past the last line gives the end of the text. Panics past that.
pub assume_specification[ Rope::line_to_char ](r: &Rope, line_idx: usize) -> (c: usize)
    requires
        line_idx <= rope_line_starts(*r).len(),
    ensures
        c == line_boundary(*r, line_idx as int),
;

/// Relies on ropey's `Rope::slice` and `String::from` on the slice: the chars
/// from `start` up to `end`. Panics unless `start <= end <= len`.
#[verifier::external_body]
pub(crate) fn rope_text(rope: &Rope, start: usize, end: usize) -> (r: String)
    requires
        start <= end <= rope_chars(*rope).len(),
    ensures
        r@ == rope_chars(*rope).subrange(start as int, end as int),
{
    String::from(rope.slice(start..end))
}

/// A (line, column) coordinate; the column counts chars from the line start.
#[derive(Clone, Copy, Debug, PartialEq, Eq, Structural)]
pub struct Position {
    pub line: usize,
    pub character: usize,
}

/// A pair of positions delimiting a stretch of text.
#[derive(Clone, Copy, Debug, PartialEq, Eq, Structural)]
pub struct Range {
    pub start: Position,
    pub end: Position,
}

/// Number of chars on line `l`, its line break included.
pub open spec fn line_len(r: Rope, l: int) -> int {
    line_boundary(r, l + 1) - line_boundary(r, l)
}

/// Line `l` exists and holds the char at `o`.
pub open spec fn line_holds(r: Rope, l: int, o: int) -> bool {
    0 <= l < rope_line_starts(r).len() && line_boundary(r, l) <= o < line_boundary(r, l + 1)
}

/// The line on which offset `o` lies; the end of the text lies on the last line.
pub open spec fn line_of_offset(r: Rope, o: int) -> int {
    if o == rope_chars(r).len() {
        rope_line_starts(r).len() - 1
    } else {
        choose|l: int| line_holds(r, l, o)
    }
}

/// The position of offset `o`, or none past the end of the text.
pub open spec fn offset_position(r: Rope, o: int) -> Option<Position> {
    if 0 <= o <= rope_chars(r).len() {
        let l = line_of_offset(r, o);
        Some(Position { line: l as usize, character: (o - line_boundary(r, l)) as usize })
    } else {
        None
    }
}

/// The offset of a position, its column clamped to the line's length; none
/// when the line does not exist.
pub open spec fn position_offset(r: Rope, p: Position) -> Option<int> {
    if p.line < rope_line_starts(r).len() {
        let len = line_len(r, p.line as int);
        let col = if p.character >= len {
            len
        } else {
            p.character as int
        };
        Some(line_boundary(r, p.line as int) + col)
    } else {
        None
    }
}

/// The range from the position of `start` to that of `end`, when both exist.
pub open spec fn offsets_range(r: Rope, start: int, end: int) -> Option<Range> {
    match (offset_position(r, start), offset_position(r, end)) {
        (Some(s), Some(e)) => Some(Range { start: s, end: e }),
        _ => None,
    }
}

/// At most one line holds a given offset.
pub proof fn lemma_line_unique(r: Rope, n: int, l1: int, l2: int, o: int)
    requires
        lines_in_order(r, n),
        line_holds(r, l1, o),
        line_holds(r, l2, o),
    ensures
        l1 == l2,
{
    if l1 < l2 {
        assert(line_boundary(r, l1 + 1) <= line_boundary(r, l2));
    } else if l2 < l1 {
        assert(line_boundary(r, l2 + 1) <= line_boundary(r, l1));
    }
}

/// The position of a char offset: `(line, offset - line start)`, the end of the
/// text at the last line; none past the end.
pub fn offset_to_position(offset: usize, rope: &Rope) -> (p: Option<Position>)
    ensures
        p == offset_position(*rope, offset as int),
{
    let total = rope.len_chars();
    if offset > total {
        return None;
    }
    let n = rope.len_lines();
    if offset == total {
        let line = n - 1;
        let start = rope.line_to_char(line);
        assert(line_boundary(*rope, line as int) <= line_boundary(*rope, n as int));
        return Some(Position { line, character: offset - start });
    }
    let line = rope.char_to_line(offset);
    let start = rope.line_to_char(line);
    proof {
        let l = line_of_offset(*rope, offset as int);
        assert(line_holds(*rope, line as int, offset as int));
        lemma_line_unique(*rope, n as int, l, line as int, offset as int);
    }
    Some(Position { line, character: offset - start })
}

/// The char offset of a position; a column past the line's end is clamped to
/// it; none when the line does not exist.
pub fn position_to_offset(position: Position, rope: &Rope) -> (o: Option<usize>)
    ensures
        match o {
            Some(v) => position_offset(*rope, position) == Some(v as int),
            None => position_offset(*rope, position) is None,
        },
{
    let n = rope.len_lines();
    let line = position.line;
    if line >= n {
        return None;
    }
    let start = rope.line_to_char(line);
    let next = rope.line_to_char(line + 1);
    assert(line_boundary(*rope, line as int) <= line_boundary(*rope, line + 1));
    let len = next - start;
    let col = if position.character >= len {
        len
    } else {
        position.character
    };
    Some(start + col)
}

/// The range of the whole text: from the start to the end of the last line.
pub fn full_range(rope: &Rope) -> (r: Range)
    ensures
        Some(r.end) == offset_position(*rope, rope_chars(*rope).len() as int),
        r.start == (Position { line: 0, character: 0 }),
{
    let total = rope.len_chars();
    let n = rope.len_lines();
    let line = n - 1;
    let start = rope.line_to_char(line);
    assert(line_boundary(*rope, line as int) <= line_boundary(*rope, n as int));
    Range { start: Position { line: 0, character: 0 }, end: Position { line, character: total - start } }
}

/// Offsets survive the trip to a position and back.
pub proof fn lemma_offset_round_trip(r: Rope, n: int, o: int)
    requires
        lines_in_order(r, n),
        n <= usize::MAX,
        rope_chars(r).len() <= usize::MAX,
        0 <= o <= rope_chars(r).len(),
    ensures
        offset_position(r, o) matches Some(p) && position_offset(r, p) == Some(o),
{
    let l = line_of_offset(r, o);
    if o < rope_chars(r).len() {
        lemma_some_line_holds(r, n, o, 0);
        assert(line_holds(r, l, o));
        assert(line_boundary(r, l) <= line_boundary(r, l + 1));
    } else {
        assert(line_boundary(r, n - 1) <= line_boundary(r, n));
    }
}

/// Every offset before the end of the text lies on some line at or after
/// line `l`, once line `l` starts at or before it.
pub proof fn lemma_some_line_holds(r: Rope, n: int, o: int, l: int)
    requires
        lines_in_order(r, n),
        0 <= o < rope_chars(r).len(),
        0 <= l < n,
        line_boundary(r, l) <= o,
    ensures
        exists|k: int| line_holds(r, k, o),
    decreases n - l,
{
    if l + 1 < n && line_boundary(r, l + 1) <= o {
        lemma_some_line_holds(r, n, o, l + 1);
    } else {
        assert(line_holds(r, l, o));
    }
}

/// A column past the end of its line lands where the line's length would.
pub proof fn lemma_column_clamped(r: Rope, n: int, line: usize, huge: usize)
    requires
        lines_in_order(r, n),
        line < n,
        huge >= line_len(r, line as int),
    ensures
        position_offset(r, Position { line, character: huge }) == position_offset(
            r,
            Position { line, character: line_len(r, line as int) as usize },
        ),
{
    assert(line_boundary(r, line as int) <= line_boundary(r, line + 1));
}

/// The range between two offsets, when both lie in the text.
pub fn offsets_to_range(start: usize, end: usize, rope: &Rope) -> (r: Option<Range>)
    ensures
        r == offsets_range(*rope, start as int, end as int),
{
    let s = offset_to_position(start, rope);
    let e = offset_to_position(end, rope);
    match (s, e) {
        (Some(s), Some(e)) => Some(Range { start: s, end: e }),
        _ => None,
    }
}

} // verus!
