use l_lsp::snapshot::{Snapshot, Span, Symbol, SymbolKind, TypeRef};
use l_lsp::text::{Position, Range};
use l_lsp::tokens::{
    build_semantic_tokens, build_semantic_tokens_range, collect_tokens, encode_tokens, sort_tokens,
    token_kind, SemanticToken, TokenEntry,
};
use ropey::Rope;

fn span(start: usize, end: usize) -> Span {
    Span { start, end }
}

fn sym(kind: SymbolKind, start: usize, end: usize) -> Symbol {
    Symbol { kind, span: span(start, end), ty: TypeRef { struct_id: None, name: "Int".to_string() } }
}

fn tok(delta_line: usize, delta_start: usize, length: usize, token_type: u32) -> SemanticToken {
    SemanticToken { delta_line, delta_start, length, token_type, token_modifiers: 0 }
}

fn snapshot(symbols: Vec<Symbol>, references: Vec<Option<usize>>, reference_spans: Vec<Span>) -> Snapshot {
    Snapshot {
        symbols,
        references,
        reference_spans,
        symbol_index: vec![],
        reference_index: vec![],
        structs: vec![],
        diagnostics: vec![],
    }
}

/// Accumulate deltas back into (line, column, length, kind).
fn decode(ts: &[SemanticToken]) -> Vec<(usize, usize, usize, u32)> {
    let (mut line, mut col) = (0usize, 0usize);
    let mut out = vec![];
    for t in ts {
        if t.delta_line == 0 {
            col += t.delta_start;
        } else {
            line += t.delta_line;
            col = t.delta_start;
        }
        out.push((line, col, t.length, t.token_type));
    }
    out
}

#[test]
fn delta_encoding_same_line_example() {
    let rope = Rope::from_str(&"x".repeat(20));
    let snap = snapshot(vec![sym(SymbolKind::Function, 0, 3), sym(SymbolKind::Variable, 10, 14)], vec![], vec![]);
    let got = build_semantic_tokens(&rope, &snap);
    assert_eq!(got, vec![tok(0, 0, 3, 0), tok(0, 10, 4, 1)]);
}

#[test]
fn delta_encoding_across_lines() {
    // lines start at 0, 10, 20
    let rope = Rope::from_str("fn main()\nlet x = 1\nlet yy = x\n");
    let snap = snapshot(
        vec![sym(SymbolKind::Function, 3, 7), sym(SymbolKind::Variable, 14, 15), sym(SymbolKind::Variable, 24, 26)],
        vec![Some(1)],
        vec![span(29, 30)],
    );
    let got = build_semantic_tokens(&rope, &snap);
    assert_eq!(got, vec![tok(0, 3, 4, 0), tok(1, 4, 1, 1), tok(1, 4, 2, 1), tok(0, 5, 1, 1)]);
    assert_eq!(decode(&got), vec![(0, 3, 4, 0), (1, 4, 1, 1), (2, 4, 2, 1), (2, 9, 1, 1)]);
}

#[test]
fn references_take_resolved_symbol_kind() {
    let rope = Rope::from_str(&"x".repeat(30));
    let snap = snapshot(
        vec![sym(SymbolKind::Struct, 0, 5), sym(SymbolKind::Parameter, 6, 7)],
        vec![Some(0), None, Some(1)],
        vec![span(10, 15), span(16, 18), span(20, 21)],
    );
    let got = build_semantic_tokens(&rope, &snap);
    assert_eq!(got, vec![tok(0, 0, 5, 3), tok(0, 6, 1, 2), tok(0, 4, 5, 3), tok(0, 10, 1, 2)]);
}

#[test]
fn stale_reference_ids_make_no_token() {
    let rope = Rope::from_str(&"x".repeat(30));
    let snap = snapshot(
        vec![sym(SymbolKind::Field, 0, 2)],
        vec![Some(0), Some(9)],
        vec![span(10, 12), span(20, 22), span(25, 27)],
    );
    let got = build_semantic_tokens(&rope, &snap);
    assert_eq!(got, vec![tok(0, 0, 2, 4), tok(0, 10, 2, 4)]);
}

#[test]
fn tokens_outside_text_are_dropped() {
    let rope = Rope::from_str("abcdef");
    let snap = snapshot(vec![sym(SymbolKind::Function, 1, 2), sym(SymbolKind::Variable, 40, 42), sym(SymbolKind::Variable, 4, 5)], vec![], vec![]);
    assert_eq!(build_semantic_tokens(&rope, &snap), vec![tok(0, 1, 1, 0), tok(0, 3, 1, 1)]);
}

#[test]
fn sort_is_stable_by_start() {
    let entries = vec![
        TokenEntry { start: 5, length: 1, kind: 0 },
        TokenEntry { start: 2, length: 2, kind: 1 },
        TokenEntry { start: 5, length: 3, kind: 2 },
        TokenEntry { start: 0, length: 4, kind: 3 },
        TokenEntry { start: 2, length: 5, kind: 4 },
    ];
    let sorted = sort_tokens(&entries);
    let kinds: Vec<u32> = sorted.iter().map(|e| e.kind).collect();
    assert_eq!(kinds, vec![3, 1, 4, 0, 2]);
}

#[test]
fn equal_starts_keep_collection_order() {
    let rope = Rope::from_str(&"x".repeat(10));
    // a definition and a reference at the same offset: the definition was collected first
    let snap = snapshot(vec![sym(SymbolKind::Variable, 2, 4), sym(SymbolKind::Function, 6, 7)], vec![Some(1)], vec![span(2, 3)]);
    assert_eq!(build_semantic_tokens(&rope, &snap), vec![tok(0, 2, 2, 1), tok(0, 0, 1, 0), tok(0, 4, 1, 0)]);
}

#[test]
fn range_filters_on_start_only() {
    let rope = Rope::from_str(&"x".repeat(30));
    let snap = snapshot(
        vec![sym(SymbolKind::Variable, 2, 8), sym(SymbolKind::Variable, 9, 20), sym(SymbolKind::Function, 15, 16)],
        vec![],
        vec![],
    );
    let range = Range { start: Position { line: 0, character: 5 }, end: Position { line: 0, character: 15 } };
    let got = build_semantic_tokens_range(&rope, &snap, range).unwrap();
    assert_eq!(got, vec![tok(0, 9, 11, 1)]);
    let bad = Range { start: Position { line: 0, character: 0 }, end: Position { line: 4, character: 0 } };
    assert_eq!(build_semantic_tokens_range(&rope, &snap, bad), None);
}

#[test]
fn legend_codes() {
    assert_eq!(token_kind(SymbolKind::Function), 0);
    assert_eq!(token_kind(SymbolKind::Variable), 1);
    assert_eq!(token_kind(SymbolKind::Parameter), 2);
    assert_eq!(token_kind(SymbolKind::Struct), 3);
    assert_eq!(token_kind(SymbolKind::Field), 4);
}

#[test]
fn reversed_span_has_zero_length() {
    let snap = snapshot(vec![sym(SymbolKind::Variable, 7, 3)], vec![], vec![]);
    let entries = collect_tokens(&snap, None);
    assert_eq!(entries, vec![TokenEntry { start: 7, length: 0, kind: 1 }]);
}

#[test]
fn encode_round_trips_sorted_tokens() {
    let rope = Rope::from_str("ab\ncdef\n\nghi");
    let entries = vec![
        TokenEntry { start: 0, length: 2, kind: 0 },
        TokenEntry { start: 1, length: 1, kind: 1 },
        TokenEntry { start: 4, length: 2, kind: 2 },
        TokenEntry { start: 9, length: 3, kind: 3 },
        TokenEntry { start: 11, length: 1, kind: 4 },
    ];
    let got = encode_tokens(&rope, &entries);
    assert_eq!(decode(&got), vec![(0, 0, 2, 0), (0, 1, 1, 1), (1, 1, 2, 2), (3, 0, 3, 3), (3, 2, 1, 4)]);
}
