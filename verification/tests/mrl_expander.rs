use monowiki::mrl::checker::TypeChecker;
use monowiki::mrl::content::{Attributes, Block, Content, Inline};
use monowiki::mrl::expander::Builtin;
use monowiki::mrl::types::{ContentKind, MrlType};
use monowiki::mrl::error::{MrlError, Span};
use monowiki::mrl::shrubbery::{Literal, ScopeSet, Shrubbery, Symbol};
use monowiki::mrl::execute;
use monowiki::mrl::expander::{ExpandValue, Expander};
use monowiki::mrl::interpreter::Interpreter;
use monowiki::mrl::lexer::tokenize;
use monowiki::mrl::parser::parse;
use monowiki::mrl::parse_source;

#[test]
fn test_expand_literal() {
    let mut expander = Expander::new();
    let tokens = tokenize("42").unwrap();
    let shrub = parse(&tokens).unwrap();
    let result = expander.expand(&shrub).unwrap();
    assert!(matches!(result, ExpandValue::Int(42)));
}

#[test]
fn test_expand_string() {
    let mut expander = Expander::new();
    let tokens = tokenize(r#""hello""#).unwrap();
    let shrub = parse(&tokens).unwrap();
    let result = expander.expand(&shrub).unwrap();
    assert!(matches!(result, ExpandValue::String(_)));
}

#[test]
fn test_end_to_end_literal() {
    let source = "42";
    let result = execute(source);
    assert!(result.is_ok());
}

#[test]
fn test_end_to_end_string() {
    let source = r#""hello world""#;
    let result = execute(source);
    assert!(result.is_ok());
}

#[test]
fn expand_string_keeps_its_text() {
    let mut expander = Expander::new();
    let shrub = parse_source(r#""hello""#).unwrap();
    match expander.expand(&shrub).unwrap() {
        ExpandValue::String(s) => assert_eq!(s, "hello"),
        other => panic!("unexpected {:?}", other),
    }
}

#[test]
fn expand_identifier_is_unbound() {
    let mut expander = Expander::new();
    let shrub = parse_source("x").unwrap();
    match expander.expand(&shrub) {
        Err(MrlError::UnboundIdentifier { name, .. }) => assert_eq!(name, "id:0"),
        other => panic!("unexpected {:?}", other),
    }
}

#[test]
fn expand_quote_gives_code() {
    let mut expander = Expander::new();
    let shrub = parse_source("quote[42]").unwrap();
    let value = expander.expand(&shrub).unwrap();
    assert!(matches!(value, ExpandValue::Code(_, _)));
}

#[test]
fn execute_literal_is_its_debug_text() {
    let content = execute("42").unwrap();
    match content {
        Content::Inline(Inline::Text(t)) => assert_eq!(t, "Int(42)"),
        other => panic!("unexpected {:?}", other),
    }
}

#[test]
fn interpreter_execute_staged_checks_first() {
    let mut interp = Interpreter::new();
    let shrub = parse_source("42").unwrap();
    let content = interp.execute_staged(&shrub).unwrap();
    assert!(matches!(content, Content::Inline(Inline::Text(_))));
}

#[test]
fn expand_splice_of_unbound_name_fails() {
    let mut expander = Expander::new();
    let shrub = parse_source("$x").unwrap();
    assert!(matches!(expander.expand(&shrub), Err(MrlError::UnboundIdentifier { .. })));
}

#[test]
fn expand_with_rules_passes_content_through_without_rules() {
    let mut expander = Expander::new();
    let shrub = Shrubbery::Prose("hello".to_string(), Span::new(0, 5));
    match expander.expand_with_rules(&shrub).unwrap() {
        ExpandValue::Content(Content::Inline(Inline::Text(t))) => assert_eq!(t, "hello"),
        other => panic!("unexpected {:?}", other),
    }
}

#[test]
fn expand_with_rules_keeps_other_values() {
    let mut expander = Expander::new();
    let shrub = parse_source("42").unwrap();
    assert!(matches!(expander.expand_with_rules(&shrub).unwrap(), ExpandValue::Int(42)));
}

#[test]
fn builtin_text_and_emphasis() {
    let t = Builtin::Text.apply(vec![ExpandValue::String("hi".to_string())]).unwrap();
    let e = Builtin::Emphasis.apply(vec![t]).unwrap();
    match e {
        ExpandValue::Content(c) => assert_eq!(c.to_text(), "_hi_"),
        other => panic!("unexpected {:?}", other),
    }
    assert!(matches!(Builtin::Text.apply(vec![ExpandValue::Int(1)]), Err(MrlError::ExpansionError { .. })));
}

#[test]
fn builtin_heading_and_quote() {
    let body = ExpandValue::Content(Content::Inline(Inline::Text("Title".to_string())));
    let h = Builtin::Heading.apply(vec![ExpandValue::Int(2), body]).unwrap();
    let q = Builtin::Quote.apply(vec![h]).unwrap();
    match q {
        ExpandValue::Code(code, kind) => {
            assert_eq!(kind, ContentKind::Block);
            match *code {
                Shrubbery::Prose(t, _) => assert_eq!(t, "## Title\n"),
                other => panic!("unexpected {:?}", other),
            }
        }
        other => panic!("unexpected {:?}", other),
    }
    assert_eq!(Builtin::Heading.arity(), 2);
}

#[test]
fn value_types() {
    assert_eq!(ExpandValue::Int(1).get_type(), MrlType::Int);
    assert_eq!(ExpandValue::Array(vec![]).get_type(), MrlType::Array(Box::new(MrlType::Dyn)));
    assert_eq!(ExpandValue::Array(vec![ExpandValue::Bool(true)]).get_type(), MrlType::Array(Box::new(MrlType::Bool)));
    let c = ExpandValue::Content(Content::Inline(Inline::Text("x".to_string())));
    assert_eq!(c.get_type(), MrlType::Inline);
}

#[test]
fn content_text_forms() {
    let para = Content::Block(Block::Paragraph { body: Box::new(Inline::Strong(Box::new(Inline::Text("b".to_string())))), attrs: Attributes::new() });
    assert_eq!(para.to_text(), "*b*\n\n");
    let a = Content::Inline(Inline::Text("x".to_string()));
    let b = Content::Inline(Inline::Code("y".to_string()));
    let ta = a.to_text();
    let tb = b.to_text();
    let joined = a.concat(b);
    assert!(matches!(joined, Content::Sequence(_)));
    assert_eq!(joined.to_text(), format!("{}{}", ta, tb));
}

#[test]
fn shrubbery_text_forms() {
    use_shrubbery_text();
}

fn use_shrubbery_text() {
    let sp = Span::new(0, 1);
    let seq = Shrubbery::Sequence(
        vec![
            Shrubbery::Identifier(Symbol::new(1), ScopeSet::new(), sp),
            Shrubbery::Literal(Literal::Int(2), sp),
            Shrubbery::Parens(vec![Shrubbery::Operator(Symbol::new(3), sp), Shrubbery::Literal(Literal::String("a".to_string()), sp)], sp),
        ],
        sp,
    );
    assert_eq!(seq.to_text(), "seq[id:1, 2, (op:3 \"a\")]");
    assert_eq!(Shrubbery::Prose("hi \"x\"".to_string(), sp).to_text(), "prose:\"hi \\\"x\\\"\"");
    assert_eq!(Literal::NoneLit.to_text(), "none");
    assert_eq!(Literal::Symbol("s".to_string()).to_text(), "'s");
}

#[test]
fn test_interpreter_literal() {
    let mut interp = Interpreter::new();
    let result = interp.execute_document("42");
    assert!(result.is_ok());
}

#[test]
fn test_interpreter_string() {
    let mut interp = Interpreter::new();
    let result = interp.execute_document(r#""hello""#);
    assert!(result.is_ok());
}

#[test]
fn test_check_literal() {
    let mut checker = TypeChecker::new();
    let tokens = tokenize("42").unwrap();
    let shrub = parse(&tokens).unwrap();
    let ty = checker.check(&shrub).unwrap();
    assert_eq!(ty, MrlType::Int);
}

#[test]
fn test_check_string() {
    let mut checker = TypeChecker::new();
    let tokens = tokenize(r#""hello""#).unwrap();
    let shrub = parse(&tokens).unwrap();
    let ty = checker.check(&shrub).unwrap();
    assert_eq!(ty, MrlType::String);
}
