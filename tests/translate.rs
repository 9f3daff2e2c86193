use l_lsp::text::{full_range, offset_to_position, offsets_to_range, position_to_offset, Position};
use ropey::Rope;

fn pos(line: usize, character: usize) -> Position {
    Position { line, character }
}

#[test]
fn offset_round_trip_every_offset() {
    let rope = Rope::from_str("ab\ncd\n\nxyz");
    for o in 0..=rope.len_chars() {
        let p = offset_to_position(o, &rope).unwrap();
        assert_eq!(position_to_offset(p, &rope), Some(o));
    }
}

#[test]
fn offset_positions_by_line() {
    let rope = Rope::from_str("ab\ncd\n\nxyz");
    assert_eq!(offset_to_position(0, &rope), Some(pos(0, 0)));
    assert_eq!(offset_to_position(2, &rope), Some(pos(0, 2)));
    assert_eq!(offset_to_position(3, &rope), Some(pos(1, 0)));
    assert_eq!(offset_to_position(6, &rope), Some(pos(2, 0)));
    assert_eq!(offset_to_position(9, &rope), Some(pos(3, 2)));
}

#[test]
fn offset_at_end_is_last_line_end() {
    let rope = Rope::from_str("ab\ncd\n\nxyz");
    assert_eq!(offset_to_position(10, &rope), Some(pos(3, 3)));
    let trailing = Rope::from_str("ab\n");
    assert_eq!(offset_to_position(3, &trailing), Some(pos(1, 0)));
}

#[test]
fn offset_past_end_is_none() {
    let rope = Rope::from_str("ab\ncd");
    assert_eq!(offset_to_position(6, &rope), None);
    let empty = Rope::from_str("");
    assert_eq!(offset_to_position(0, &empty), Some(pos(0, 0)));
    assert_eq!(offset_to_position(1, &empty), None);
}

#[test]
fn huge_column_clamps_to_line_length() {
    let rope = Rope::from_str("abc\nde\nfghij");
    // line 1 holds "de\n": three chars with its break
    assert_eq!(
        position_to_offset(pos(1, usize::MAX), &rope),
        position_to_offset(pos(1, 3), &rope)
    );
    assert_eq!(position_to_offset(pos(1, 1000), &rope), Some(7));
    assert_eq!(position_to_offset(pos(2, 99), &rope), Some(12));
    assert_eq!(position_to_offset(pos(1, 1), &rope), Some(5));
}

#[test]
fn line_out_of_range_is_none() {
    let rope = Rope::from_str("abc\nde");
    assert_eq!(position_to_offset(pos(2, 0), &rope), None);
    assert_eq!(position_to_offset(pos(1, 0), &rope), Some(4));
}

#[test]
fn offsets_to_range_needs_both_ends() {
    let rope = Rope::from_str("abc\nde");
    let r = offsets_to_range(1, 5, &rope).unwrap();
    assert_eq!(r.start, pos(0, 1));
    assert_eq!(r.end, pos(1, 1));
    assert!(offsets_to_range(1, 7, &rope).is_none());
}

#[test]
fn full_range_spans_whole_text() {
    let rope = Rope::from_str("abc\nde\nfghij");
    let r = full_range(&rope);
    assert_eq!(r.start, pos(0, 0));
    assert_eq!(r.end, pos(2, 5));
}
