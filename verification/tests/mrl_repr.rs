use monowiki::mrl::content::{Attributes, Block, Content, Inline};
use monowiki::mrl::error::Span;
use monowiki::mrl::expander::ExpandValue;
use monowiki::mrl::repr::value_debug_text;
use monowiki::mrl::shrubbery::{Literal, Scope, ScopeSet, Shrubbery, Symbol};
use monowiki::mrl::types::ContentKind;

#[test]
fn debug_text_of_scalars() {
    assert_eq!(value_debug_text(&ExpandValue::NoneValue), "None");
    assert_eq!(value_debug_text(&ExpandValue::Bool(true)), "Bool(true)");
    assert_eq!(value_debug_text(&ExpandValue::Int(-42)), "Int(-42)");
    assert_eq!(value_debug_text(&ExpandValue::Float("3.5".to_string())), "Float(3.5)");
    assert_eq!(value_debug_text(&ExpandValue::String("hi \"there\"".to_string())), "String(\"hi \\\"there\\\"\")");
    assert_eq!(value_debug_text(&ExpandValue::Symbol("s".to_string())), "Symbol(\"s\")");
}

#[test]
fn debug_text_of_collections() {
    let arr = ExpandValue::Array(vec![ExpandValue::Int(1), ExpandValue::Int(2)]);
    assert_eq!(value_debug_text(&arr), "Array([Int(1), Int(2)])");
    assert_eq!(value_debug_text(&ExpandValue::Array(vec![])), "Array([])");
    let map = ExpandValue::Mapping(vec![("a".to_string(), ExpandValue::Int(1)), ("b".to_string(), ExpandValue::Bool(false))]);
    assert_eq!(value_debug_text(&map), "Map({\"a\": Int(1), \"b\": Bool(false)})");
}

#[test]
fn debug_text_of_content() {
    let text = ExpandValue::Content(Content::Inline(Inline::Text("x".to_string())));
    assert_eq!(value_debug_text(&text), "Content(Inline(Text(\"x\")))");
    let para = ExpandValue::Content(Content::Block(Block::Paragraph {
        body: Box::new(Inline::Text("p".to_string())),
        attrs: Attributes::new(),
    }));
    assert_eq!(
        value_debug_text(&para),
        "Content(Block(Paragraph { body: Text(\"p\"), attrs: Attributes { id: None, classes: [], other: {} } }))"
    );
    let seq = ExpandValue::Content(Content::Sequence(vec![
        Content::Inline(Inline::Text("a".to_string())),
        Content::Inline(Inline::Emphasis(Box::new(Inline::Text("b".to_string())))),
    ]));
    assert_eq!(value_debug_text(&seq), "Content(Sequence([Inline(Text(\"a\")), Inline(Emphasis(Text(\"b\")))]))");
}

#[test]
fn debug_text_of_code() {
    let code = ExpandValue::Code(Box::new(Shrubbery::Literal(Literal::Int(42), Span::new(0, 2))), ContentKind::Content);
    assert_eq!(value_debug_text(&code), "Code(Literal(Int(42), Span { start: 0, end: 2 }), Content)");
    let mut scopes = ScopeSet::new();
    scopes.add(Scope::new(3));
    scopes.add(Scope::new(1));
    let ident = ExpandValue::Shrubbery(Box::new(Shrubbery::Identifier(Symbol::new(5), scopes, Span::new(0, 1))));
    assert_eq!(
        value_debug_text(&ident),
        "Shrubbery(Identifier(Symbol(5), ScopeSet { scopes: {Scope(1), Scope(3)} }, Span { start: 0, end: 1 }))"
    );
    let group = ExpandValue::Shrubbery(Box::new(Shrubbery::Parens(
        vec![Shrubbery::Literal(Literal::NoneLit, Span::new(1, 5)), Shrubbery::Prose("t".to_string(), Span::new(6, 7))],
        Span::new(0, 8),
    )));
    assert_eq!(
        value_debug_text(&group),
        "Shrubbery(Parens([Literal(None, Span { start: 1, end: 5 }), Prose(\"t\", Span { start: 6, end: 7 })], Span { start: 0, end: 8 }))"
    );
}
