use monowiki::mrl::content::{Content, Inline};
use monowiki::mrl::enforest::{
    enforest, enforest_with_env, Assoc, BinOp, Expr, InfixOperator, OperatorEnv, Protocol, Relation, UnOp,
};
use monowiki::mrl::error::{MrlError, Span};
use monowiki::mrl::shrubbery::{Literal, ScopeSet, Shrubbery, Symbol};
use monowiki::util::strmap::StrMap;

#[test]
fn test_enforest_literal() {
    let shrub = Shrubbery::Literal(Literal::Int(42), Span::new(0, 2));
    let expr = enforest(&shrub).unwrap();
    assert!(matches!(expr, Expr::Literal(Literal::Int(42), _)));
}

#[test]
fn test_enforest_identifier() {
    let shrub = Shrubbery::Identifier(Symbol::new(1), ScopeSet::new(), Span::new(0, 3));
    let expr = enforest(&shrub).unwrap();
    if let Expr::Var(sym, _, _) = expr {
        assert_eq!(sym.id(), 1);
    } else {
        panic!("Expected Expr::Var");
    }
}

#[test]
fn test_enforest_if() {
    let condition = Shrubbery::Literal(Literal::Bool(true), Span::new(0, 4));
    let then_branch = Shrubbery::Literal(Literal::Int(1), Span::new(5, 6));
    let shrub = Shrubbery::If {
        condition: Box::new(condition),
        then_branch: Box::new(then_branch),
        else_branch: None,
        span: Span::new(0, 6),
    };

    let expr = enforest(&shrub).unwrap();
    assert!(matches!(expr, Expr::If(_, _, None, _)));
}

#[test]
fn test_enforest_def_block() {
    let name = Symbol::new(10);
    let body = vec![Shrubbery::Literal(Literal::Int(42), Span::new(10, 12))];
    let shrub = Shrubbery::DefBlock { name, params: vec![], return_type: None, body, span: Span::new(0, 12) };

    let expr = enforest(&shrub).unwrap();
    match expr {
        Expr::Def { name: n, params, return_type, body, .. } => {
            assert_eq!(n.id(), 10);
            assert!(params.is_empty());
            assert!(return_type.is_none());
            assert!(matches!(*body, Expr::Literal(Literal::Int(42), _)));
        }
        _ => panic!("Expected Expr::Def"),
    }
}

#[test]
fn test_enforest_staged_block() {
    let body = vec![Shrubbery::Literal(Literal::String("hello".to_string()), Span::new(0, 7))];
    let shrub = Shrubbery::StagedBlock { body, span: Span::new(0, 10) };

    let expr = enforest(&shrub).unwrap();
    assert!(matches!(expr, Expr::Staged(_, _)));
}

#[test]
fn test_enforest_show_rule() {
    let selector = Box::new(Shrubbery::Identifier(Symbol::new(1), ScopeSet::new(), Span::new(5, 12)));
    let transform = Box::new(Shrubbery::Literal(Literal::String("bold".to_string()), Span::new(14, 20)));
    let shrub = Shrubbery::ShowRule { selector, transform, span: Span::new(0, 20) };

    let expr = enforest(&shrub).unwrap();
    match expr {
        Expr::ShowRule { selector, transform, .. } => {
            assert!(matches!(*selector, Expr::Var(_, _, _)));
            assert!(matches!(*transform, Expr::Literal(Literal::String(_), _)));
        }
        _ => panic!("Expected Expr::ShowRule"),
    }
}

#[test]
fn test_enforest_set_rule() {
    let selector = Box::new(Shrubbery::Identifier(Symbol::new(1), ScopeSet::new(), Span::new(4, 11)));
    let properties = vec![(Symbol::new(2), Shrubbery::Literal(Literal::Int(14), Span::new(20, 22)))];
    let shrub = Shrubbery::SetRule { selector, properties, span: Span::new(0, 25) };

    let expr = enforest(&shrub).unwrap();
    match expr {
        Expr::SetRule { selector, properties, .. } => {
            assert!(matches!(*selector, Expr::Var(_, _, _)));
            assert_eq!(properties.len(), 1);
            assert_eq!(properties[0].0.id(), 2);
        }
        _ => panic!("Expected Expr::SetRule"),
    }
}

#[test]
fn test_enforest_live_block() {
    let body = vec![Shrubbery::Literal(Literal::Int(1), Span::new(5, 6))];
    let deps = Some(vec![Symbol::new(100), Symbol::new(101)]);
    let shrub = Shrubbery::LiveBlock { deps, body, span: Span::new(0, 10) };

    let expr = enforest(&shrub).unwrap();
    match expr {
        Expr::Live { deps, body, .. } => {
            assert!(deps.is_some());
            assert_eq!(deps.unwrap().len(), 2);
            assert!(matches!(*body, Expr::Literal(Literal::Int(1), _)));
        }
        _ => panic!("Expected Expr::Live"),
    }
}

#[test]
fn test_enforest_prose() {
    let shrub = Shrubbery::Prose("Hello world".to_string(), Span::new(0, 11));
    let expr = enforest(&shrub).unwrap();
    assert!(matches!(expr, Expr::Content(_, _)));
}

#[test]
fn test_enforest_selector_simple() {
    let shrub = Shrubbery::Selector { base: Symbol::new(5), predicate: None, span: Span::new(0, 8) };

    let expr = enforest(&shrub).unwrap();
    assert!(matches!(expr, Expr::Var(_, _, _)));
}

#[test]
fn test_enforest_selector_with_predicate() {
    let pred = Box::new(Shrubbery::Literal(Literal::Int(1), Span::new(10, 11)));
    let shrub = Shrubbery::Selector { base: Symbol::new(5), predicate: Some(pred), span: Span::new(0, 15) };

    let expr = enforest(&shrub).unwrap();
    assert!(matches!(expr, Expr::Call(_, _, _)));
}

fn int_lit(n: i64, at: usize) -> Shrubbery {
    Shrubbery::Literal(Literal::Int(n), Span::new(at, at + 1))
}

fn op(sym: u64, at: usize) -> Shrubbery {
    Shrubbery::Operator(Symbol::new(sym), Span::new(at, at + 1))
}

fn arith_env() -> OperatorEnv {
    let mut table = StrMap::new();
    table.insert("+".to_string(), Symbol::new(1));
    table.insert("*".to_string(), Symbol::new(2));
    table.insert("-".to_string(), Symbol::new(3));
    OperatorEnv::with_defaults(&table)
}

#[test]
fn times_binds_tighter_than_plus() {
    let env = arith_env();
    // 1 + 2 * 3
    let seq = Shrubbery::Sequence(vec![int_lit(1, 0), op(1, 2), int_lit(2, 4), op(2, 6), int_lit(3, 8)], Span::new(0, 9));
    match enforest_with_env(&seq, &env).unwrap() {
        Expr::BinOp(l, BinOp::Add, r, span) => {
            assert!(matches!(*l, Expr::Literal(Literal::Int(1), _)));
            assert_eq!(span, Span::new(0, 9));
            match *r {
                Expr::BinOp(a, BinOp::Mul, b, s2) => {
                    assert!(matches!(*a, Expr::Literal(Literal::Int(2), _)));
                    assert!(matches!(*b, Expr::Literal(Literal::Int(3), _)));
                    assert_eq!(s2, Span::new(4, 9));
                }
                _ => panic!("expected a product on the right"),
            }
        }
        other => panic!("expected a sum, got {:?}", other),
    }
    // 1 * 2 + 3 groups the product first
    let seq = Shrubbery::Sequence(vec![int_lit(1, 0), op(2, 2), int_lit(2, 4), op(1, 6), int_lit(3, 8)], Span::new(0, 9));
    match enforest_with_env(&seq, &env).unwrap() {
        Expr::BinOp(l, BinOp::Add, _, _) => assert!(matches!(*l, Expr::BinOp(_, BinOp::Mul, _, _))),
        other => panic!("expected a sum, got {:?}", other),
    }
}

#[test]
fn same_operator_groups_to_the_left() {
    let env = arith_env();
    // 1 + 2 + 3 is (1 + 2) + 3
    let seq = Shrubbery::Sequence(vec![int_lit(1, 0), op(1, 2), int_lit(2, 4), op(1, 6), int_lit(3, 8)], Span::new(0, 9));
    match enforest_with_env(&seq, &env).unwrap() {
        Expr::BinOp(l, BinOp::Add, r, _) => {
            assert!(matches!(*l, Expr::BinOp(_, BinOp::Add, _, _)));
            assert!(matches!(*r, Expr::Literal(Literal::Int(3), _)));
        }
        other => panic!("expected a sum, got {:?}", other),
    }
}

#[test]
fn prefix_minus_calls_and_subscripts() {
    let env = arith_env();
    let f = Shrubbery::Identifier(Symbol::new(9), ScopeSet::new(), Span::new(1, 2));
    let args = Shrubbery::Parens(vec![int_lit(7, 3)], Span::new(2, 5));
    let seq = Shrubbery::Sequence(vec![op(3, 0), f, args], Span::new(0, 5));
    match enforest_with_env(&seq, &env).unwrap() {
        Expr::UnOp(UnOp::Neg, inner, span) => {
            assert_eq!(span, Span::new(0, 5));
            match *inner {
                Expr::Call(callee, call_args, s) => {
                    assert!(matches!(*callee, Expr::Var(_, _, _)));
                    assert_eq!(call_args.len(), 1);
                    assert_eq!(s, Span::new(1, 5));
                }
                other => panic!("expected a call, got {:?}", other),
            }
        }
        other => panic!("expected a negation, got {:?}", other),
    }
    let a = Shrubbery::Identifier(Symbol::new(9), ScopeSet::new(), Span::new(0, 1));
    let ix = Shrubbery::Brackets(vec![int_lit(0, 2)], Span::new(1, 4));
    let seq = Shrubbery::Sequence(vec![a, ix], Span::new(0, 4));
    assert!(matches!(enforest_with_env(&seq, &env).unwrap(), Expr::Subscript(_, _, _)));
}

#[test]
fn enforest_errors_carry_span_and_message() {
    let env = arith_env();
    // a trailing operator leaves nothing for its right side
    let seq = Shrubbery::Sequence(vec![int_lit(1, 0), op(1, 2)], Span::new(0, 3));
    match enforest_with_env(&seq, &env) {
        Err(MrlError::ParserError { span, message }) => {
            assert_eq!(span, Span::new(0, 0));
            assert_eq!(message, "Unexpected end of expression");
        }
        other => panic!("expected an error, got {:?}", other),
    }
    // an operator that is not a prefix operator cannot start a form
    match enforest(&op(4, 5)) {
        Err(MrlError::ParserError { span, message }) => {
            assert_eq!(span, Span::new(5, 6));
            assert_eq!(message, "Unexpected operator: Symbol(4)");
        }
        other => panic!("expected an error, got {:?}", other),
    }
    // two operators of the same level that group differently
    let mut env = OperatorEnv::new();
    env.add_infix(InfixOperator::new(Symbol::new(1), Protocol::Automatic, Assoc::Left));
    env.add_infix(
        InfixOperator::new(Symbol::new(2), Protocol::Automatic, Assoc::Right).with_prec(Symbol::new(1), Relation::Same),
    );
    let seq = Shrubbery::Sequence(vec![int_lit(1, 0), op(1, 2), int_lit(2, 4), op(2, 6), int_lit(3, 8)], Span::new(0, 9));
    match enforest_with_env(&seq, &env) {
        Err(MrlError::ParserError { span, message }) => {
            assert_eq!(span, Span::new(6, 7));
            assert_eq!(message, "Inconsistent precedence between Symbol(1) and Symbol(2)");
        }
        other => panic!("expected an error, got {:?}", other),
    }
    // an infix operator without a name is no binary operator
    let mut env = OperatorEnv::new();
    env.add_infix(InfixOperator::new(Symbol::new(1), Protocol::Automatic, Assoc::Left));
    let seq = Shrubbery::Sequence(vec![int_lit(1, 0), op(1, 2), int_lit(2, 4)], Span::new(0, 5));
    match enforest_with_env(&seq, &env) {
        Err(MrlError::ParserError { message, .. }) => assert_eq!(message, "Unknown binary operator: "),
        other => panic!("expected an error, got {:?}", other),
    }
}

#[test]
fn groups_and_prose() {
    let empty = Shrubbery::Brackets(vec![], Span::new(0, 2));
    match enforest(&empty).unwrap() {
        Expr::Content(Content::Sequence(v), _) => assert!(v.is_empty()),
        other => panic!("expected empty content, got {:?}", other),
    }
    let parens = Shrubbery::Parens(vec![int_lit(1, 1), int_lit(2, 3)], Span::new(0, 5));
    match enforest(&parens).unwrap() {
        Expr::Block(es, _) => assert_eq!(es.len(), 2),
        other => panic!("expected a block, got {:?}", other),
    }
    let single = Shrubbery::Parens(vec![int_lit(1, 1)], Span::new(0, 3));
    assert!(matches!(enforest(&single).unwrap(), Expr::Literal(Literal::Int(1), _)));
    let prose = Shrubbery::Prose("Hi".to_string(), Span::new(0, 2));
    match enforest(&prose).unwrap() {
        Expr::Content(Content::Inline(Inline::Text(t)), _) => assert_eq!(t, "Hi"),
        other => panic!("expected text, got {:?}", other),
    }
    // without operators, juxtaposed forms make a block
    let seq = Shrubbery::Sequence(vec![int_lit(1, 0), int_lit(2, 2)], Span::new(0, 3));
    match enforest(&seq).unwrap() {
        Expr::Block(es, span) => {
            assert_eq!(es.len(), 2);
            assert_eq!(span, Span::new(0, 3));
        }
        other => panic!("expected a block, got {:?}", other),
    }
}
