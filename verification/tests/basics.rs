use fowl::diagnostic::{Diagnostic, Element, LabelKind};
use fowl::manifest::Manifest;
use fowl::parser_ast::{BinaryOp, Op};
use fowl::source_span;
use fowl::span::Span;
use fowl::utils::{a_or_an, article_for};

#[test]
fn span_merge_covers_both() {
    let a = Span::new(2, 5);
    let b = Span::new(4, 9);
    let m = a.merge(b);
    assert_eq!(m, Span::new(2, 9));
    assert_eq!(b.merge(a).end(), 9);
}

#[test]
fn span_overlaps_and_is_empty() {
    assert!(Span::new(2, 5).overlaps(Span::new(4, 9)));
    assert!(!Span::new(2, 4).overlaps(Span::new(4, 9)));
    assert!(Span::new(3, 3).is_empty());
    assert!(!Span::new(3, 4).is_empty());
}

#[test]
fn source_span_keeps_file_and_source() {
    let s = source_span::Span::new(1, 3, "a.fo", "abcd");
    assert_eq!(s.file(), "a.fo");
    assert_eq!(s.source(), "abcd");
    assert_eq!(s.len(), 2);
    let t = s.merge(source_span::Span::new(0, 2, "a.fo", "abcd"));
    assert_eq!((t.start(), t.end()), (0, 3));
}

#[test]
fn articles() {
    assert_eq!(a_or_an("int"), "an");
    assert_eq!(a_or_an("string"), "a");
    assert_eq!(a_or_an("yak"), "an");
    assert_eq!(article_for(""), "a");
}

#[test]
fn diagnostics_keep_their_elements_in_order() {
    let sp = source_span::Span::new(0, 1, "a.fo", "x");
    let d = Diagnostic::new("E0042", sp, "broken")
        .with_help("try again")
        .with_note("a note")
        .with_label("here", sp);
    assert_eq!(d.code, "E0042");
    assert_eq!(d.message, "broken");
    let kinds: Vec<&str> = d
        .elements()
        .iter()
        .map(|e| match e {
            Element::Help(_) => "help",
            Element::Note(_) => "note",
            Element::Label { kind: LabelKind::Plain, .. } => "label",
            Element::Label { .. } => "other",
        })
        .collect();
    assert_eq!(kinds, vec!["help", "note", "label"]);
}

#[test]
fn binding_powers() {
    assert_eq!(Op::Add.infix_binding_power(), Some((7, 8)));
    assert_eq!(Op::Mul.infix_binding_power(), Some((9, 10)));
    assert_eq!(Op::FieldIndex.infix_binding_power(), Some((16, 15)));
    assert_eq!(Op::Bang.infix_binding_power(), None);
    assert_eq!(Op::Sub.prefix_binding_power(), ((), 11));
    assert_eq!(Op::Call.postfix_binding_power(), Some((13, ())));
    assert_eq!(Op::Add.postfix_binding_power(), None);
    assert_eq!(BinaryOp::from_op(Op::LtEq), Some(BinaryOp::LtEq));
}

#[test]
fn manifest_fields() {
    let m = Manifest::new("demo", "a demo", "0.1.0");
    assert_eq!(m.name(), "demo");
    assert_eq!(m.description(), "a demo");
    assert_eq!(m.version(), "0.1.0");
}

#[test]
fn span_converts_to_and_from_a_range() {
    let r: std::ops::Range<usize> = Span::new(2, 5).into();
    assert_eq!(r, 2..5);
    assert_eq!(Span::from(3..7), Span::new(3, 7));
    assert_eq!(Span::from(std::ops::Range::from(Span::new(0, 9))), Span::new(0, 9));
}

#[test]
fn span_text_is_start_colon_end() {
    assert_eq!(Span::new(12, 345).to_string(), "12:345");
    assert_eq!(Span::new(0, 0).to_string(), "0:0");
}
