use monowiki::mrl::lexer::tokenize;
use monowiki::mrl::parser::{parse, Parser, SymbolTable};
use monowiki::mrl::shrubbery::{Literal, Shrubbery, Symbol};
use monowiki::mrl::error::{MrlError, Span};
use monowiki::mrl::types::MrlType;
use monowiki::mrl::{parse_source, typecheck};

#[test]
fn test_parse_int_literal() {
    let tokens = tokenize("42").unwrap();
    let shrub = parse(&tokens).unwrap();
    match shrub {
        Shrubbery::Literal(Literal::Int(i), _) => assert_eq!(i, 42),
        _ => panic!("Expected int literal"),
    }
}

#[test]
fn test_parse_float_literal() {
    let tokens = tokenize("3.14").unwrap();
    let shrub = parse(&tokens).unwrap();
    match shrub {
        Shrubbery::Literal(Literal::Float(f), _) => assert!((f.parse::<f64>().unwrap() - 3.14).abs() < 0.001),
        _ => panic!("Expected float literal"),
    }
}

#[test]
fn parser_tests_test_parse_string_literal() {
    let tokens = tokenize(r#""hello world""#).unwrap();
    let shrub = parse(&tokens).unwrap();
    match shrub {
        Shrubbery::Literal(Literal::String(s), _) => assert_eq!(s, "hello world"),
        _ => panic!("Expected string literal"),
    }
}

#[test]
fn test_parse_symbol_literal() {
    let tokens = tokenize("'foo").unwrap();
    let shrub = parse(&tokens).unwrap();
    match shrub {
        Shrubbery::Literal(Literal::Symbol(s), _) => assert_eq!(s, "foo"),
        _ => panic!("Expected symbol literal"),
    }
}

#[test]
fn test_parse_bool_true() {
    let tokens = tokenize("true").unwrap();
    let shrub = parse(&tokens).unwrap();
    match shrub {
        Shrubbery::Literal(Literal::Bool(b), _) => assert!(b),
        _ => panic!("Expected bool literal"),
    }
}

#[test]
fn test_parse_bool_false() {
    let tokens = tokenize("false").unwrap();
    let shrub = parse(&tokens).unwrap();
    match shrub {
        Shrubbery::Literal(Literal::Bool(b), _) => assert!(!b),
        _ => panic!("Expected bool literal"),
    }
}

#[test]
fn test_parse_none() {
    let tokens = tokenize("none").unwrap();
    let shrub = parse(&tokens).unwrap();
    match shrub {
        Shrubbery::Literal(Literal::NoneLit, _) => {}
        _ => panic!("Expected none literal"),
    }
}

#[test]
fn parser_tests_test_parse_identifier() {
    let tokens = tokenize("foo").unwrap();
    let shrub = parse(&tokens).unwrap();
    assert!(matches!(shrub, Shrubbery::Identifier(_, _, _)));
}

#[test]
fn parser_tests_test_parse_parens() {
    let tokens = tokenize("(foo bar)").unwrap();
    let shrub = parse(&tokens).unwrap();
    match shrub {
        Shrubbery::Parens(items, _) => {
            assert_eq!(items.len(), 2);
            assert!(matches!(items[0], Shrubbery::Identifier(_, _, _)));
            assert!(matches!(items[1], Shrubbery::Identifier(_, _, _)));
        }
        _ => panic!("Expected parens"),
    }
}

#[test]
fn parser_tests_test_parse_brackets() {
    let tokens = tokenize("[1, 2, 3]").unwrap();
    let shrub = parse(&tokens).unwrap();
    match shrub {
        Shrubbery::Brackets(items, _) => {
            assert_eq!(items.len(), 3);
            for item in items {
                assert!(matches!(item, Shrubbery::Literal(Literal::Int(_), _)));
            }
        }
        _ => panic!("Expected brackets"),
    }
}

#[test]
fn test_parse_braces() {
    let tokens = tokenize("{a: 1, b: 2}").unwrap();
    let shrub = parse(&tokens).unwrap();
    match shrub {
        Shrubbery::Braces(items, _) => {
            assert!(items.len() > 0);
        }
        _ => panic!("Expected braces"),
    }
}

#[test]
fn test_parse_nested_parens() {
    let tokens = tokenize("(a (b c))").unwrap();
    let shrub = parse(&tokens).unwrap();
    match shrub {
        Shrubbery::Parens(items, _) => {
            assert_eq!(items.len(), 2);
            assert!(matches!(items[0], Shrubbery::Identifier(_, _, _)));
            assert!(matches!(items[1], Shrubbery::Parens(_, _)));
        }
        _ => panic!("Expected parens"),
    }
}

#[test]
fn test_parse_mixed_delimiters() {
    let tokens = tokenize("foo([1, 2], {a: b})").unwrap();
    let shrub = parse(&tokens).unwrap();
    // Should parse as a sequence
    assert!(matches!(shrub, Shrubbery::Sequence(_, _)));
}

#[test]
fn test_parse_empty_parens() {
    let tokens = tokenize("()").unwrap();
    let shrub = parse(&tokens).unwrap();
    match shrub {
        Shrubbery::Parens(items, _) => assert_eq!(items.len(), 0),
        _ => panic!("Expected empty parens"),
    }
}

#[test]
fn test_parse_empty_brackets() {
    let tokens = tokenize("[]").unwrap();
    let shrub = parse(&tokens).unwrap();
    match shrub {
        Shrubbery::Brackets(items, _) => assert_eq!(items.len(), 0),
        _ => panic!("Expected empty brackets"),
    }
}

#[test]
fn test_parse_sequence() {
    let tokens = tokenize("a b c").unwrap();
    let shrub = parse(&tokens).unwrap();
    match shrub {
        Shrubbery::Sequence(items, _) => {
            assert_eq!(items.len(), 3);
        }
        _ => panic!("Expected sequence"),
    }
}

// ===== Block construct tests =====

#[test]
fn test_parse_def_simple() {
    let source = r#"!def greet(name: String):
  text("Hello")
"#;
    let tokens = tokenize(source).unwrap();
    let shrub = parse(&tokens).unwrap();

    match &shrub {
        Shrubbery::DefBlock { params, body, .. } => {
            assert_eq!(params.len(), 1);
            assert!(!body.is_empty());
        }
        _ => panic!("Expected DefBlock, got {:?}", shrub),
    }
}

#[test]
fn test_parse_def_no_params() {
    let source = r#"!def today:
  text("2024")
"#;
    let tokens = tokenize(source).unwrap();
    let shrub = parse(&tokens).unwrap();

    match &shrub {
        Shrubbery::DefBlock { params, body, .. } => {
            assert_eq!(params.len(), 0);
            assert!(!body.is_empty());
        }
        _ => panic!("Expected DefBlock, got {:?}", shrub),
    }
}

#[test]
fn test_parse_def_single_line() {
    let source = r#"!def today = "2024-01-01""#;
    let tokens = tokenize(source).unwrap();
    let shrub = parse(&tokens).unwrap();

    match &shrub {
        Shrubbery::DefBlock { body, .. } => {
            assert_eq!(body.len(), 1);
        }
        _ => panic!("Expected DefBlock, got {:?}", shrub),
    }
}

#[test]
fn test_parse_staged_bracketed() {
    let source = r#"!staged[for x in items: paragraph(x)]"#;
    let tokens = tokenize(source).unwrap();
    let shrub = parse(&tokens).unwrap();

    match &shrub {
        Shrubbery::StagedBlock { body, .. } => {
            assert!(!body.is_empty());
        }
        _ => panic!("Expected StagedBlock, got {:?}", shrub),
    }
}

#[test]
fn test_parse_show_rule_simple() {
    let source = r#"!show heading: it"#;
    let tokens = tokenize(source).unwrap();
    let shrub = parse(&tokens).unwrap();

    match &shrub {
        Shrubbery::ShowRule { selector, .. } => {
            assert!(matches!(**selector, Shrubbery::Selector { .. }));
        }
        _ => panic!("Expected ShowRule, got {:?}", shrub),
    }
}

#[test]
fn test_parse_show_rule_with_where() {
    let source = r#"!show heading.where(level == 1): it"#;
    let tokens = tokenize(source).unwrap();
    let shrub = parse(&tokens).unwrap();

    match &shrub {
        Shrubbery::ShowRule { selector, .. } => {
            match &**selector {
                Shrubbery::Selector { predicate, .. } => {
                    assert!(predicate.is_some());
                }
                _ => panic!("Expected Selector"),
            }
        }
        _ => panic!("Expected ShowRule, got {:?}", shrub),
    }
}

#[test]
fn test_parse_set_rule() {
    let source = r#"!set heading {
  numbering: "1.",
  font: "Georgia"
}"#;
    let tokens = tokenize(source).unwrap();
    let shrub = parse(&tokens).unwrap();

    match &shrub {
        Shrubbery::SetRule { properties, .. } => {
            assert_eq!(properties.len(), 2);
        }
        _ => panic!("Expected SetRule, got {:?}", shrub),
    }
}

#[test]
fn test_parse_live_simple() {
    let source = r#"!live:
  x = 42
"#;
    let tokens = tokenize(source).unwrap();
    let shrub = parse(&tokens).unwrap();

    match &shrub {
        Shrubbery::LiveBlock { deps, body, .. } => {
            assert!(deps.is_none());
            assert!(!body.is_empty());
        }
        _ => panic!("Expected LiveBlock, got {:?}", shrub),
    }
}

#[test]
fn test_parse_quote_bracketed() {
    let source = r#"quote[text("Hello")]"#;
    let tokens = tokenize(source).unwrap();
    let shrub = parse(&tokens).unwrap();

    match &shrub {
        Shrubbery::Quote { .. } => {}
        _ => panic!("Expected Quote, got {:?}", shrub),
    }
}

#[test]
fn test_parse_splice_dollar() {
    let source = r#"$x"#;
    let tokens = tokenize(source).unwrap();
    let shrub = parse(&tokens).unwrap();

    match &shrub {
        Shrubbery::Splice { expr, .. } => {
            assert!(matches!(**expr, Shrubbery::Identifier(_, _, _)));
        }
        _ => panic!("Expected Splice, got {:?}", shrub),
    }
}

#[test]
fn test_parse_if_simple() {
    let source = r#"if x == 1: text("one")"#;
    let tokens = tokenize(source).unwrap();
    let shrub = parse(&tokens).unwrap();

    match &shrub {
        Shrubbery::If { else_branch, .. } => {
            assert!(else_branch.is_none());
        }
        _ => panic!("Expected If, got {:?}", shrub),
    }
}

#[test]
fn test_parse_for_loop() {
    let source = r#"for item in items: paragraph(item)"#;
    let tokens = tokenize(source).unwrap();
    let shrub = parse(&tokens).unwrap();

    assert!(matches!(shrub, Shrubbery::For { .. }));
}

#[test]
fn parser_test_parse_identifier() {
    let tokens = tokenize("foo").unwrap();
    let shrub = parse(&tokens).unwrap();
    assert!(matches!(shrub, Shrubbery::Identifier(_, _, _)));
}

#[test]
fn test_parse_literal() {
    let tokens = tokenize("42").unwrap();
    let shrub = parse(&tokens).unwrap();
    if let Shrubbery::Literal(Literal::Int(i), _) = shrub {
        assert_eq!(i, 42);
    } else {
        panic!("Expected int literal");
    }
}

#[test]
fn parser_test_parse_string_literal() {
    let tokens = tokenize(r#""hello""#).unwrap();
    let shrub = parse(&tokens).unwrap();
    if let Shrubbery::Literal(Literal::String(s), _) = shrub {
        assert_eq!(s, "hello");
    } else {
        panic!("Expected string literal");
    }
}

#[test]
fn parser_test_parse_parens() {
    let tokens = tokenize("(foo bar)").unwrap();
    let shrub = parse(&tokens).unwrap();
    if let Shrubbery::Parens(items, _) = shrub {
        assert_eq!(items.len(), 2);
    } else {
        panic!("Expected parens");
    }
}

#[test]
fn parser_test_parse_brackets() {
    let tokens = tokenize("[1, 2, 3]").unwrap();
    let shrub = parse(&tokens).unwrap();
    if let Shrubbery::Brackets(items, _) = shrub {
        assert_eq!(items.len(), 3);
    } else {
        panic!("Expected brackets");
    }
}

#[test]
fn test_parse_complex() {
    let tokens = tokenize("foo(bar, [1, 2])").unwrap();
    let shrub = parse(&tokens).unwrap();
    assert!(matches!(shrub, Shrubbery::Sequence(_, _)));
}

#[test]
fn test_parse_and_typecheck() {
    let source = "42";
    let ty = typecheck(source).unwrap();
    assert_eq!(ty, MrlType::Int);
}

#[test]
fn same_names_share_symbols_and_spans_cover_groups() {
    let shrub = parse_source("(a b a)").unwrap();
    match shrub {
        Shrubbery::Parens(items, span) => {
            assert_eq!(span, Span::new(0, 7));
            let syms: Vec<Symbol> = items
                .iter()
                .map(|i| match i {
                    Shrubbery::Identifier(s, _, _) => *s,
                    _ => panic!("expected identifiers"),
                })
                .collect();
            assert_eq!(syms, vec![Symbol::new(0), Symbol::new(1), Symbol::new(0)]);
        }
        other => panic!("expected parens, got {:?}", other),
    }
}

#[test]
fn expressions_with_operators_are_flat_sequences() {
    let shrub = parse_source("if x == 1: f(2) else: g").unwrap();
    match shrub {
        Shrubbery::If { condition, then_branch, else_branch, span } => {
            assert_eq!(span, Span::new(0, 23));
            match *condition {
                Shrubbery::Sequence(items, s) => {
                    assert_eq!(items.len(), 3);
                    assert!(matches!(items[1], Shrubbery::Operator(_, _)));
                    assert_eq!(s, Span::new(3, 9));
                }
                other => panic!("expected a sequence, got {:?}", other),
            }
            assert!(matches!(*then_branch, Shrubbery::Sequence(_, _)));
            assert!(matches!(else_branch.as_deref(), Some(Shrubbery::Identifier(_, _, _))));
        }
        other => panic!("expected if, got {:?}", other),
    }
}

#[test]
fn parse_errors_name_what_was_expected() {
    match parse_source("(a") {
        Err(MrlError::ParserError { span, message }) => {
            assert_eq!(message, "Expected RParen");
            assert_eq!(span, Span::new(2, 2));
        }
        other => panic!("expected a parse error, got {:?}", other),
    }
    match parse_source("!def 5") {
        Err(MrlError::ParserError { message, .. }) => assert_eq!(message, "Expected Identifier(\"\")"),
        other => panic!("expected a parse error, got {:?}", other),
    }
    match parse_source("!def f x") {
        Err(MrlError::ParserError { message, span }) => {
            assert_eq!(message, "Expected ':' or '=' after def signature");
            assert_eq!(span, Span::new(7, 8));
        }
        other => panic!("expected a parse error, got {:?}", other),
    }
    match parse_source("99999999999999999999") {
        Err(MrlError::ParserError { message, .. }) => assert_eq!(message, "Invalid integer literal"),
        other => panic!("expected a parse error, got {:?}", other),
    }
    assert!(matches!(parse_source("a @"), Err(MrlError::LexerError { .. })));
}

#[test]
fn def_with_typed_defaults_and_return_type() {
    let shrub = parse_source("!def f(a: Int = 1, b) : Block = a").unwrap();
    match shrub {
        Shrubbery::DefBlock { params, return_type, body, .. } => {
            assert_eq!(params.len(), 2);
            assert!(params[0].type_annotation.is_some());
            assert!(params[0].default.is_some());
            assert!(params[1].type_annotation.is_none());
            assert!(return_type.is_some());
            assert_eq!(body.len(), 1);
        }
        other => panic!("expected def, got {:?}", other),
    }
}

#[test]
fn live_dependencies_and_unknown_tokens() {
    let shrub = parse_source("!live(deps: [a, b])[x]").unwrap();
    match shrub {
        Shrubbery::LiveBlock { deps, body, .. } => {
            assert_eq!(deps.unwrap().len(), 2);
            assert_eq!(body.len(), 1);
        }
        other => panic!("expected live, got {:?}", other),
    }
    // parsing stops at a token no element starts with
    let shrub = parse_source("a ) b").unwrap();
    assert!(matches!(shrub, Shrubbery::Identifier(_, _, _)));
    let mut parser_tokens = tokenize("x").unwrap();
    parser_tokens.pop();
    let mut parser = Parser::new(&parser_tokens);
    assert!(matches!(parser.parse().unwrap(), Shrubbery::Identifier(_, _, _)));
    assert_eq!(parser.fresh_scope().0, 0);
    assert_eq!(parser.fresh_scope().0, 1);
    let mut table = SymbolTable::new();
    assert_eq!(table.intern("x"), Symbol::new(0));
}

#[test]
fn typecheck_of_a_string_literal() {
    assert_eq!(typecheck(r#""s""#).unwrap(), MrlType::String);
}
