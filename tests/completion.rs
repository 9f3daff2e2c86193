use l_lsp::complete::{get_completion, get_struct_from_field, resolve_field_path, Candidate, CandidateKind, Expr, ExprField, SyntaxNode};
use l_lsp::snapshot::{FieldDef, IndexEntry, Snapshot, Span, StructDef, Symbol, SymbolKind, TypeRef};
use l_lsp::text::Position;
use ropey::Rope;

fn span(start: usize, end: usize) -> Span {
    Span { start, end }
}

fn ty(name: &str, struct_id: Option<usize>) -> TypeRef {
    TypeRef { struct_id, name: name.to_string() }
}

fn field(name: &str, t: TypeRef) -> FieldDef {
    FieldDef { name: name.to_string(), ty: t }
}

const SOURCE: &str = "struct Point{x:Int,y:Int}\nlet p: Point = Point{x:1,y:2};\np.";

fn point_snapshot() -> Snapshot {
    Snapshot {
        symbols: vec![
            Symbol { kind: SymbolKind::Struct, span: span(7, 12), ty: ty("Point", Some(0)) },
            Symbol { kind: SymbolKind::Field, span: span(13, 14), ty: ty("Int", None) },
            Symbol { kind: SymbolKind::Field, span: span(19, 20), ty: ty("Int", None) },
            Symbol { kind: SymbolKind::Variable, span: span(30, 31), ty: ty("Point", Some(0)) },
        ],
        references: vec![Some(0), Some(0), Some(3)],
        reference_spans: vec![span(33, 38), span(41, 46), span(57, 58)],
        symbol_index: vec![
            IndexEntry { span: span(7, 12), id: 0 },
            IndexEntry { span: span(13, 14), id: 1 },
            IndexEntry { span: span(19, 20), id: 2 },
            IndexEntry { span: span(30, 31), id: 3 },
        ],
        reference_index: vec![
            IndexEntry { span: span(33, 38), id: 0 },
            IndexEntry { span: span(41, 46), id: 1 },
            IndexEntry { span: span(57, 58), id: 2 },
        ],
        structs: vec![StructDef { id: 0, fields: vec![field("x", ty("Int", None)), field("y", ty("Int", None))] }],
        diagnostics: vec![],
    }
}

fn access(object: Expr, name: Option<&str>, s: Span) -> ExprField {
    ExprField { object: Some(Box::new(object)), field: name.map(|n| n.to_string()), span: s }
}

fn summary(cs: &[Candidate]) -> Vec<(String, CandidateKind, Option<String>)> {
    cs.iter().map(|c| (c.label.clone(), c.kind, c.detail.clone())).collect()
}

fn end() -> Position {
    Position { line: 2, character: 2 }
}

#[test]
fn field_access_offers_exactly_the_fields() {
    let rope = Rope::from_str(SOURCE);
    let snap = point_snapshot();
    let node = SyntaxNode::FieldAccess(access(Expr::Name(span(57, 58)), None, span(57, 59)));
    let got = get_completion(&rope, &snap, end(), Some(&node)).unwrap();
    assert_eq!(
        summary(&got),
        vec![
            ("x".to_string(), CandidateKind::Field, Some("Int".to_string())),
            ("y".to_string(), CandidateKind::Field, Some("Int".to_string())),
        ]
    );
}

#[test]
fn plain_context_offers_all_symbols() {
    let rope = Rope::from_str(SOURCE);
    let snap = point_snapshot();
    let got = get_completion(&rope, &snap, end(), Some(&SyntaxNode::Other)).unwrap();
    let expected = vec![
        ("Point".to_string(), CandidateKind::Struct, None),
        ("p".to_string(), CandidateKind::Variable, Some("Point".to_string())),
    ];
    assert_eq!(summary(&got), expected);
    let none = get_completion(&rope, &snap, end(), None).unwrap();
    assert_eq!(summary(&none), expected);
}

#[test]
fn completion_outside_text_is_none() {
    let rope = Rope::from_str(SOURCE);
    let snap = point_snapshot();
    assert!(get_completion(&rope, &snap, Position { line: 9, character: 0 }, None).is_none());
}

#[test]
fn unresolved_access_falls_back_to_symbols() {
    let rope = Rope::from_str(SOURCE);
    let snap = point_snapshot();
    // p.x. : x is an Int, not a structure
    let inner = access(Expr::Name(span(57, 58)), Some("x"), span(57, 60));
    let node = SyntaxNode::FieldAccess(access(Expr::Field(inner), None, span(57, 61)));
    let got = get_completion(&rope, &snap, end(), Some(&node)).unwrap();
    assert_eq!(got.len(), 2);
    assert_eq!(got[0].label, "Point");
    // (1 + 2). : the base is not a plain name
    let node = SyntaxNode::FieldAccess(access(Expr::Other(span(57, 58)), None, span(57, 59)));
    assert!(get_struct_from_field(&snap, match &node {
        SyntaxNode::FieldAccess(f) => f,
        SyntaxNode::Other => unreachable!(),
    })
    .is_none());
}

#[test]
fn nested_access_walks_the_field_chain() {
    // struct Point{x:Int,y:Int} struct Line{start:Point} let l: Line ... l.start.
    let rope = Rope::from_str(&"z".repeat(80));
    let snap = Snapshot {
        symbols: vec![
            Symbol { kind: SymbolKind::Struct, span: span(0, 5), ty: ty("Point", Some(0)) },
            Symbol { kind: SymbolKind::Struct, span: span(10, 14), ty: ty("Line", Some(1)) },
            Symbol { kind: SymbolKind::Variable, span: span(20, 21), ty: ty("Line", Some(1)) },
        ],
        references: vec![Some(2)],
        reference_spans: vec![span(40, 41)],
        symbol_index: vec![],
        reference_index: vec![IndexEntry { span: span(40, 41), id: 0 }],
        structs: vec![
            StructDef { id: 1, fields: vec![field("start", ty("Point", Some(0)))] },
            StructDef { id: 0, fields: vec![field("x", ty("Int", None)), field("y", ty("Int", None))] },
        ],
        diagnostics: vec![],
    };
    let inner = access(Expr::Name(span(40, 41)), Some("start"), span(40, 47));
    let node = SyntaxNode::FieldAccess(access(Expr::Field(inner), None, span(40, 48)));
    let got = get_completion(&rope, &snap, Position { line: 0, character: 48 }, Some(&node)).unwrap();
    let labels: Vec<String> = got.iter().map(|c| c.label.clone()).collect();
    assert_eq!(labels, vec!["x".to_string(), "y".to_string()]);
    assert_eq!(resolve_field_path(&snap, 1, &vec!["start".to_string()]), Some(0));
    assert_eq!(resolve_field_path(&snap, 1, &vec!["end".to_string()]), None);
    assert_eq!(resolve_field_path(&snap, 1, &vec![]), Some(1));
}

#[test]
fn symbol_labels_come_from_the_text() {
    let rope = Rope::from_str("fn go(n) { let total = n }");
    let snap = Snapshot {
        symbols: vec![
            Symbol { kind: SymbolKind::Function, span: span(3, 5), ty: ty("fn", None) },
            Symbol { kind: SymbolKind::Parameter, span: span(6, 7), ty: ty("Int", None) },
            Symbol { kind: SymbolKind::Variable, span: span(15, 20), ty: ty("Int", None) },
            Symbol { kind: SymbolKind::Variable, span: span(30, 35), ty: ty("Int", None) },
            Symbol { kind: SymbolKind::Variable, span: span(8, 8), ty: ty("Int", None) },
        ],
        references: vec![],
        reference_spans: vec![],
        symbol_index: vec![],
        reference_index: vec![],
        structs: vec![],
        diagnostics: vec![],
    };
    let got = get_completion(&rope, &snap, Position { line: 0, character: 0 }, None).unwrap();
    assert_eq!(
        summary(&got),
        vec![
            ("go".to_string(), CandidateKind::Function, None),
            ("total".to_string(), CandidateKind::Variable, Some("Int".to_string())),
        ]
    );
}
