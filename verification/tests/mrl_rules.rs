use monowiki::mrl::checker::{TypeChecker, TypeEnv};
use monowiki::mrl::content::{Attributes, Block, Content, Inline};
use monowiki::mrl::enforest::{
    relative_precedence, Assoc, BinOp, InfixOperator, OperatorEnv, PrecResult, Protocol, Relation,
};
use monowiki::mrl::error::{ErrorContext, MrlError, Span};
use monowiki::mrl::interpreter::DocumentReflection;
use monowiki::mrl::parser::SymbolTable;
use monowiki::mrl::rules::{
    Predicate, PredicateValue, RuleSet, Selector, SelectorBase, SetRule, SetValue,
};
use monowiki::mrl::shrubbery::{Literal, ScopeSet, Shrubbery, Symbol};
use monowiki::mrl::types::{ContentKind, MrlType};
use monowiki::util::strmap::StrMap;

#[test]
fn test_relative_precedence() {
    let plus = InfixOperator::new(Symbol::new(1), Protocol::Automatic, Assoc::Left);
    let times = InfixOperator::new(Symbol::new(2), Protocol::Automatic, Assoc::Left)
        .with_prec(Symbol::new(1), Relation::Stronger);

    let prec = relative_precedence(&plus, &times);
    assert_eq!(prec, PrecResult::Stronger);

    let prec = relative_precedence(&times, &plus);
    assert_eq!(prec, PrecResult::Weaker);
}

#[test]
fn relative_precedence_of_same_level_uses_associativity() {
    let a = InfixOperator::new(Symbol::new(1), Protocol::Automatic, Assoc::Left);
    let b = InfixOperator::new(Symbol::new(2), Protocol::Automatic, Assoc::Left)
        .with_prec(Symbol::new(1), Relation::Same);
    assert_eq!(relative_precedence(&a, &b), PrecResult::SameOnLeft);
    let c = InfixOperator::new(Symbol::new(3), Protocol::Automatic, Assoc::Right);
    let d = InfixOperator::new(Symbol::new(4), Protocol::Automatic, Assoc::Right)
        .with_prec(Symbol::new(3), Relation::Same);
    assert_eq!(relative_precedence(&c, &d), PrecResult::SameOnRight);
    let e = InfixOperator::new(Symbol::new(5), Protocol::Automatic, Assoc::Nonassoc)
        .with_prec(Symbol::new(1), Relation::Same);
    assert_eq!(relative_precedence(&e, &a), PrecResult::Inconsistent);
}

#[test]
fn relative_precedence_without_declarations_is_unknown() {
    let a = InfixOperator::new(Symbol::new(1), Protocol::Automatic, Assoc::Left);
    let b = InfixOperator::new(Symbol::new(2), Protocol::Automatic, Assoc::Left);
    assert_eq!(relative_precedence(&a, &b), PrecResult::Unknown);
    let w = InfixOperator::new(Symbol::new(3), Protocol::Automatic, Assoc::Left)
        .with_default(Relation::Weaker);
    assert_eq!(relative_precedence(&a, &w), PrecResult::Weaker);
}

#[test]
fn test_operator_env_defaults() {
    let mut symbol_table = StrMap::new();
    symbol_table.insert("+".to_string(), Symbol::new(1));
    symbol_table.insert("*".to_string(), Symbol::new(2));
    symbol_table.insert("-".to_string(), Symbol::new(3));

    let env = OperatorEnv::with_defaults(&symbol_table);

    assert!(env.get_infix(Symbol::new(1)).is_some());
    assert!(env.get_infix(Symbol::new(2)).is_some());
    assert!(env.get_prefix(Symbol::new(3)).is_some());
}

#[test]
fn default_operators_declare_times_above_plus() {
    let mut table = StrMap::new();
    table.insert("+".to_string(), Symbol::new(1));
    table.insert("*".to_string(), Symbol::new(2));
    let env = OperatorEnv::with_defaults(&table);
    let plus = env.get_infix(Symbol::new(1)).unwrap();
    let times = env.get_infix(Symbol::new(2)).unwrap();
    assert_eq!(times.get_precedence(Symbol::new(1)), Some(Relation::Stronger));
    assert_eq!(relative_precedence(&plus, &times), PrecResult::Stronger);
    assert_eq!(env.get_symbol_name(Symbol::new(2)), Some("*"));
    assert!(env.get_symbol_name(Symbol::new(9)).is_none());
    assert!(env.get_prefix(Symbol::new(1)).is_none());
}

#[test]
fn binop_spellings() {
    assert_eq!(BinOp::from_str("**"), Some(BinOp::Pow));
    assert_eq!(BinOp::from_str("++"), Some(BinOp::Concat));
    assert_eq!(BinOp::from_str("<>"), None);
}

#[test]
fn test_selector_base_matching() {
    let heading = Content::Block(Block::Heading {
        level: 1,
        body: Box::new(Inline::Text("Test".to_string())),
        attrs: Attributes::default(),
    });

    assert!(SelectorBase::Heading.matches(&heading));
    assert!(SelectorBase::Block.matches(&heading));
    assert!(SelectorBase::Content.matches(&heading));
    assert!(!SelectorBase::Paragraph.matches(&heading));
    assert!(!SelectorBase::Inline.matches(&heading));
}

#[test]
fn test_selector_with_predicate() {
    let h1 = Content::Block(Block::Heading {
        level: 1,
        body: Box::new(Inline::Text("Title".to_string())),
        attrs: Attributes::default(),
    });

    let h2 = Content::Block(Block::Heading {
        level: 2,
        body: Box::new(Inline::Text("Subtitle".to_string())),
        attrs: Attributes::default(),
    });

    let selector = Selector::new(SelectorBase::Heading)
        .with_predicate(Predicate::Equals("level".to_string(), PredicateValue::Int(1)));

    assert!(selector.matches(&h1));
    assert!(!selector.matches(&h2));
}

#[test]
fn selector_names_ignore_case() {
    assert_eq!(SelectorBase::from_name("Heading"), Some(SelectorBase::Heading));
    assert_eq!(SelectorBase::from_name("HR"), Some(SelectorBase::ThematicBreak));
    assert_eq!(SelectorBase::from_name("nothing"), None);
}

#[test]
fn test_set_rule_application() {
    let mut content = Content::Block(Block::Paragraph {
        body: Box::new(Inline::Text("Hello".to_string())),
        attrs: Attributes::default(),
    });

    let mut properties = StrMap::new();
    properties.insert("class".to_string(), SetValue::String("intro".to_string()));

    let rule = SetRule { selector: Selector::new(SelectorBase::Paragraph), properties, span: Span::default() };

    let mut rules = RuleSet::new();
    rules.add_set_rule(rule);
    rules.apply_set_rules(&mut content);

    if let Content::Block(Block::Paragraph { attrs, .. }) = &content {
        assert!(attrs.classes.contains(&"intro".to_string()));
    } else {
        panic!("Expected paragraph");
    }
}

#[test]
fn set_rule_skips_content_that_does_not_match() {
    let mut content = Content::Block(Block::Heading {
        level: 2,
        body: Box::new(Inline::text("x")),
        attrs: Attributes::default(),
    });
    let mut properties = StrMap::new();
    properties.insert("id".to_string(), SetValue::String("top".to_string()));
    properties.insert("data-n".to_string(), SetValue::Int(3));
    let rule = SetRule {
        selector: Selector::new(SelectorBase::Heading)
            .with_predicate(Predicate::Equals("level".to_string(), PredicateValue::Int(1))),
        properties,
        span: Span::default(),
    };
    let mut rules = RuleSet::new();
    rules.add_set_rule(rule);
    rules.apply_set_rules(&mut content);
    if let Content::Block(Block::Heading { attrs, .. }) = &content {
        assert_eq!(attrs.id, None);
        assert!(attrs.other.is_empty());
    } else {
        panic!("Expected heading");
    }
}

#[test]
fn set_rule_sets_id_and_other_attributes() {
    let mut content = Content::Block(Block::Heading {
        level: 1,
        body: Box::new(Inline::text("x")),
        attrs: Attributes::default(),
    });
    let mut properties = StrMap::new();
    properties.insert("id".to_string(), SetValue::String("top".to_string()));
    properties.insert("data-n".to_string(), SetValue::Int(-3));
    properties.insert("hidden".to_string(), SetValue::Bool(true));
    let rule = SetRule { selector: Selector::new(SelectorBase::Heading), properties, span: Span::default() };
    let mut rules = RuleSet::new();
    assert!(rules.is_empty());
    rules.add_set_rule(rule);
    assert!(!rules.is_empty());
    rules.apply_set_rules(&mut content);
    if let Content::Block(Block::Heading { attrs, .. }) = &content {
        assert_eq!(attrs.id, Some("top".to_string()));
        assert_eq!(attrs.other.get("data-n"), Some(&"-3".to_string()));
        assert_eq!(attrs.other.get("hidden"), Some(&"true".to_string()));
    } else {
        panic!("Expected heading");
    }
}

#[test]
fn test_reflection() {
    let reflection = DocumentReflection::new();
    let outline = reflection.outline();
    assert_eq!(outline.len(), 0);
}

#[test]
fn test_error_context_display() {
    let source = "foo bar baz";
    let error = MrlError::ParserError { span: Span::new(4, 7), message: "test error".to_string() };

    let ctx = ErrorContext::new(source, &error);
    let (line, col) = ctx.line_col();
    assert_eq!(line, 1);
    assert_eq!(col, 5);
}

#[test]
fn error_context_on_a_later_line() {
    let source = "first\nsecond line\nthird";
    let error = MrlError::TypeError { span: Span::new(13, 17), message: "bad".to_string() };
    let ctx = ErrorContext::new(source, &error);
    assert_eq!(ctx.line_col(), (2, 8));
    assert_eq!(ctx.source_line(), Some("second line"));
}

#[test]
fn symbol_table_interns_once() {
    let mut table = SymbolTable::new();
    let a = table.intern("alpha");
    let b = table.intern("beta");
    let a2 = table.intern("alpha");
    assert_eq!(a, a2);
    assert_ne!(a, b);
    assert_eq!(table.get("beta"), Some(b));
    assert_eq!(table.get("gamma"), None);
    assert_eq!(table.symbols().len(), 2);
}

#[test]
fn type_env_lookup_and_child() {
    let mut env = TypeEnv::new();
    env.bind("x".to_string(), MrlType::Int);
    env.bind_at_stage("y".to_string(), MrlType::String, 1);
    assert_eq!(env.lookup("x"), Some(&MrlType::Int));
    assert_eq!(env.lookup_at_stage("y", 0), None);
    assert_eq!(env.lookup_at_stage("y", 1), Some(&MrlType::String));
    let child = env.child();
    assert_eq!(child.lookup("x"), Some(&MrlType::Int));
    assert!(child.lookup("z").is_none());
}

#[test]
fn checker_binop_rules() {
    let checker = TypeChecker::new();
    let span = Span::new(0, 1);
    assert_eq!(checker.check_binop(&MrlType::Int, &BinOp::Add, &MrlType::Float, span).unwrap(), MrlType::Float);
    assert_eq!(checker.check_binop(&MrlType::Int, &BinOp::Lt, &MrlType::String, span).unwrap(), MrlType::Bool);
    assert_eq!(
        checker.check_binop(&MrlType::Block, &BinOp::Concat, &MrlType::Inline, span).unwrap(),
        MrlType::Content
    );
    match checker.check_binop(&MrlType::Bool, &BinOp::And, &MrlType::Int, span) {
        Err(MrlError::TypeError { message, .. }) => {
            assert_eq!(message, "Logical operators require Bool, got Bool and Int")
        }
        other => panic!("unexpected {:?}", other),
    }
    match checker.check_binop(&MrlType::String, &BinOp::Mul, &MrlType::Int, span) {
        Err(MrlError::TypeError { message, .. }) => assert_eq!(message, "Cannot apply Mul to String and Int"),
        other => panic!("unexpected {:?}", other),
    }
}

#[test]
fn checker_literal_types_and_builtins() {
    let checker = TypeChecker::new();
    assert_eq!(checker.type_of_literal(&Literal::Int(4)), MrlType::Int);
    assert_eq!(checker.type_of_literal(&Literal::String("s".to_string())), MrlType::String);
    assert_eq!(checker.type_of_literal(&Literal::NoneLit), MrlType::NoneType);
    let span = Span::new(0, 1);
    assert!(checker.unify_types(&MrlType::Block, &MrlType::Content, span).is_ok());
    assert!(checker.unify_types(&MrlType::Int, &MrlType::String, span).is_err());
    let _ = ContentKind::Block;
}

#[test]
fn test_check_prose() {
    let mut checker = TypeChecker::new();
    let shrub = Shrubbery::Prose("Hello world".to_string(), Span::new(0, 11));
    let ty = checker.check(&shrub).unwrap();
    assert_eq!(ty, MrlType::Inline);
}

fn ident(id: u64, start: usize) -> Shrubbery {
    Shrubbery::Identifier(Symbol::new(id), ScopeSet::new(), Span::new(start, start + 1))
}

#[test]
fn check_literals_and_calls() {
    let mut checker = TypeChecker::new();
    assert_eq!(checker.check(&Shrubbery::Literal(Literal::Int(42), Span::new(0, 2))).unwrap(), MrlType::Int);
    assert_eq!(
        checker.check(&Shrubbery::Literal(Literal::String("hello".to_string()), Span::new(0, 7))).unwrap(),
        MrlType::String
    );
    checker.register_symbol(Symbol::new(1), "paragraph");
    checker.register_symbol(Symbol::new(2), "text");
    // paragraph (text "x")
    let inner = Shrubbery::Sequence(
        vec![ident(2, 10), Shrubbery::Literal(Literal::String("x".to_string()), Span::new(12, 15))],
        Span::new(10, 15),
    );
    let call = Shrubbery::Sequence(vec![ident(1, 0), inner], Span::new(0, 16));
    assert_eq!(checker.check(&call).unwrap(), MrlType::Block);
    // text 1: argument type mismatch
    let bad = Shrubbery::Sequence(vec![ident(2, 0), Shrubbery::Literal(Literal::Int(1), Span::new(5, 6))], Span::new(0, 6));
    match checker.check(&bad) {
        Err(MrlError::TypeError { span, message }) => {
            assert_eq!(span, Span::new(0, 6));
            assert_eq!(message, "Argument type mismatch: expected String, got Int");
        }
        other => panic!("unexpected {:?}", other),
    }
    // text with no argument: arity
    let short = Shrubbery::Sequence(vec![ident(2, 0)], Span::new(0, 4));
    assert!(matches!(checker.check(&short), Err(MrlError::ArityMismatch { expected: 1, got: 0, .. })));
}

#[test]
fn check_unbound_and_content_literals() {
    let mut checker = TypeChecker::new();
    match checker.check(&ident(7, 3)) {
        Err(MrlError::UnboundIdentifier { span, name }) => {
            assert_eq!(span, Span::new(3, 4));
            assert_eq!(name, "id:7");
        }
        other => panic!("unexpected {:?}", other),
    }
    checker.bind_symbol(Symbol::new(7), MrlType::Block);
    assert_eq!(checker.check(&ident(7, 3)).unwrap(), MrlType::Block);
    let prose = Shrubbery::Prose("p".to_string(), Span::new(9, 10));
    let mixed = Shrubbery::Brackets(vec![ident(7, 0), prose], Span::new(0, 11));
    match checker.check(&mixed) {
        Err(MrlError::TypeError { span, message }) => {
            assert_eq!(span, Span::new(9, 10));
            assert_eq!(message, "Cannot mix Block and Inline in content literal");
        }
        other => panic!("unexpected {:?}", other),
    }
    let only_prose = Shrubbery::Brackets(vec![Shrubbery::Prose("a".to_string(), Span::new(0, 1))], Span::new(0, 2));
    assert_eq!(checker.check(&only_prose).unwrap(), MrlType::Inline);
    assert_eq!(checker.check(&Shrubbery::Brackets(vec![], Span::new(0, 2))).unwrap(), MrlType::Content);
    assert_eq!(checker.check(&Shrubbery::Sequence(vec![], Span::new(0, 0))).unwrap(), MrlType::NoneType);
    assert_eq!(checker.check(&Shrubbery::Parens(vec![], Span::new(0, 2))).unwrap(), MrlType::Dyn);
}
