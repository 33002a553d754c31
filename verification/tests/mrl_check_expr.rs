use monowiki::mrl::checker::TypeChecker;
use monowiki::mrl::content::{Attributes, Block, Content, Inline};
use monowiki::mrl::enforest::{BinOp, Expr, UnOp};
use monowiki::mrl::error::{MrlError, Span};
use monowiki::mrl::shrubbery::{Literal, Param, ScopeSet, Shrubbery, Symbol};
use monowiki::mrl::types::{ContentKind, MrlType};

fn lit_int(n: i64, start: usize, end: usize) -> Expr {
    Expr::Literal(Literal::Int(n), Span::new(start, end))
}

fn var(id: u64, start: usize, end: usize) -> Expr {
    Expr::Var(Symbol::new(id), ScopeSet::new(), Span::new(start, end))
}

#[test]
fn test_check_expr_literal() {
    let mut checker = TypeChecker::new();
    let expr = lit_int(42, 0, 2);
    let ty = checker.check_expr(&expr).unwrap();
    assert_eq!(ty, MrlType::Int);
}

#[test]
fn test_check_expr_binop_arithmetic() {
    let mut checker = TypeChecker::new();
    let expr = Expr::BinOp(Box::new(lit_int(1, 0, 1)), BinOp::Add, Box::new(lit_int(2, 4, 5)), Span::new(0, 5));
    let ty = checker.check_expr(&expr).unwrap();
    assert_eq!(ty, MrlType::Int);
}

#[test]
fn test_check_expr_binop_comparison() {
    let mut checker = TypeChecker::new();
    let expr = Expr::BinOp(Box::new(lit_int(1, 0, 1)), BinOp::Lt, Box::new(lit_int(2, 4, 5)), Span::new(0, 5));
    let ty = checker.check_expr(&expr).unwrap();
    assert_eq!(ty, MrlType::Bool);
}

#[test]
fn test_check_expr_unop_neg() {
    let mut checker = TypeChecker::new();
    let expr = Expr::UnOp(UnOp::Neg, Box::new(lit_int(42, 1, 3)), Span::new(0, 3));
    let ty = checker.check_expr(&expr).unwrap();
    assert_eq!(ty, MrlType::Int);
}

#[test]
fn test_check_expr_if() {
    let mut checker = TypeChecker::new();
    let expr = Expr::If(
        Box::new(Expr::Literal(Literal::Bool(true), Span::new(3, 7))),
        Box::new(lit_int(1, 9, 10)),
        Some(Box::new(lit_int(2, 16, 17))),
        Span::new(0, 17),
    );
    let ty = checker.check_expr(&expr).unwrap();
    assert_eq!(ty, MrlType::Int);
}

#[test]
fn test_check_expr_if_type_error() {
    let mut checker = TypeChecker::new();
    let expr = Expr::If(Box::new(lit_int(42, 3, 5)), Box::new(lit_int(1, 11, 12)), None, Span::new(0, 12));
    let result = checker.check_expr(&expr);
    assert!(result.is_err());
}

#[test]
fn if_condition_error_names_the_condition() {
    let mut checker = TypeChecker::new();
    let expr = Expr::If(Box::new(lit_int(42, 3, 5)), Box::new(lit_int(1, 11, 12)), None, Span::new(0, 12));
    match checker.check_expr(&expr) {
        Err(MrlError::TypeError { span, message }) => {
            assert_eq!(span, Span::new(3, 5));
            assert_eq!(message, "If condition must be Bool, got Int");
        }
        other => panic!("unexpected {:?}", other),
    }
}

fn quoted_hello() -> Expr {
    Expr::Quote(Box::new(Expr::Content(Content::text("hello"), Span::new(1, 7))), Span::new(0, 8))
}

#[test]
fn test_check_expr_quote_splice() {
    let mut checker = TypeChecker::new();

    let quote_expr = quoted_hello();
    let ty = checker.check_expr(&quote_expr).unwrap();
    assert_eq!(ty, MrlType::Code(ContentKind::Inline));

    let splice_at_0 = Expr::Splice(Box::new(quoted_hello()), Span::new(0, 10));
    let result = checker.check_expr(&splice_at_0);
    assert!(result.is_err());
}

#[test]
fn test_check_expr_splice_inside_quote() {
    let mut checker = TypeChecker::new();

    let x_sym = Symbol::new(100);
    checker.bind_symbol(x_sym, MrlType::Code(ContentKind::Inline));
    checker.register_symbol(x_sym, "x");

    let expr = Expr::Quote(
        Box::new(Expr::Splice(Box::new(var(100, 8, 9)), Span::new(7, 10))),
        Span::new(0, 12),
    );

    let ty = checker.check_expr(&expr).unwrap();
    assert_eq!(ty, MrlType::Code(ContentKind::Inline));
}

#[test]
fn test_check_expr_csp_violation() {
    let mut checker = TypeChecker::new();

    let x_sym = Symbol::new(100);
    checker.register_symbol(x_sym, "x");
    checker.env_mut().bind_at_stage(format!("id:{}", x_sym.id()), MrlType::Int, 1);

    let var_expr = var(100, 0, 1);
    let result = checker.check_expr(&var_expr);
    assert!(result.is_err(), "CSP violation: cannot use stage-1 binding at stage 0");
}

#[test]
fn csp_violation_message() {
    let mut checker = TypeChecker::new();
    checker.register_symbol(Symbol::new(100), "x");
    checker.env_mut().bind_at_stage("id:100".to_string(), MrlType::Int, 1);
    match checker.check_expr(&var(100, 0, 1)) {
        Err(MrlError::StageLevelError { span, message }) => {
            assert_eq!(span, Span::new(0, 1));
            assert_eq!(
                message,
                "Cannot use 'x' at stage 0 (bound at stage 1). CSP violation: bindings from higher stages cannot be used at lower stages."
            );
        }
        other => panic!("unexpected {:?}", other),
    }
}

#[test]
fn test_check_expr_csp_valid_higher_stage() {
    let mut checker = TypeChecker::new();

    let x_sym = Symbol::new(100);
    checker.bind_symbol(x_sym, MrlType::Int);
    checker.register_symbol(x_sym, "x");

    let expr = Expr::Quote(Box::new(var(100, 7, 8)), Span::new(0, 10));

    let ty = checker.check_expr(&expr).unwrap();
    assert_eq!(ty, MrlType::Code(ContentKind::Content));
}

#[test]
fn test_check_expr_def() {
    let mut checker = TypeChecker::new();
    let name = Symbol::new(100);
    let expr = Expr::Def {
        name,
        params: vec![],
        return_type: None,
        body: Box::new(lit_int(42, 10, 12)),
        span: Span::new(0, 12),
    };

    let ty = checker.check_expr(&expr).unwrap();
    assert_eq!(ty, MrlType::NoneType);

    let func_ty = checker.env().lookup("id:100").unwrap();
    match func_ty {
        MrlType::Function { params, ret } => {
            assert!(params.is_empty());
            assert_eq!(**ret, MrlType::Int);
        }
        _ => panic!("Expected function type"),
    }
}

#[test]
fn test_check_expr_staged() {
    let mut checker = TypeChecker::new();
    let expr = Expr::Staged(Box::new(Expr::Content(Content::text("hello"), Span::new(8, 14))), Span::new(0, 15));
    let ty = checker.check_expr(&expr).unwrap();
    assert_eq!(ty, MrlType::Code(ContentKind::Inline));
}

#[test]
fn test_check_expr_show_rule() {
    let mut checker = TypeChecker::new();

    checker.bind_selector("heading", ContentKind::Block);
    let heading_sym = Symbol::new(50);
    checker.bind_symbol(heading_sym, MrlType::Selector(ContentKind::Block));

    let expr = Expr::ShowRule {
        selector: Box::new(var(50, 5, 12)),
        transform: Box::new(Expr::Content(
            Content::Block(Block::Paragraph { body: Box::new(Inline::Text("test".to_string())), attrs: Attributes::new() }),
            Span::new(14, 20),
        )),
        span: Span::new(0, 20),
    };

    let ty = checker.check_expr(&expr).unwrap();
    assert_eq!(ty, MrlType::NoneType);
}

#[test]
fn test_check_expr_show_rule_with_it() {
    let mut checker = TypeChecker::new();

    let heading_sym = Symbol::new(50);
    checker.bind_symbol(heading_sym, MrlType::Selector(ContentKind::Block));

    let it_sym = Symbol::new(51);
    checker.register_symbol(it_sym, "it");

    let expr = Expr::ShowRule {
        selector: Box::new(var(50, 5, 12)),
        transform: Box::new(var(51, 14, 16)),
        span: Span::new(0, 20),
    };

    let ty = checker.check_expr(&expr).unwrap();
    assert_eq!(ty, MrlType::NoneType);
    // `it` is only bound inside the transform
    assert!(checker.env().lookup("it").is_none());
}

#[test]
fn test_check_expr_show_rule_it_wrong_kind() {
    let mut checker = TypeChecker::new();

    let heading_sym = Symbol::new(50);
    checker.bind_symbol(heading_sym, MrlType::Selector(ContentKind::Block));

    let it_sym = Symbol::new(51);
    checker.register_symbol(it_sym, "it");

    let text_fn_sym = Symbol::new(52);
    checker.bind_symbol(text_fn_sym, MrlType::Function { params: vec![MrlType::Block], ret: Box::new(MrlType::Inline) });
    checker.register_symbol(text_fn_sym, "extract_text");

    let expr = Expr::ShowRule {
        selector: Box::new(var(50, 5, 12)),
        transform: Box::new(Expr::Call(Box::new(var(52, 14, 26)), vec![var(51, 27, 29)], Span::new(14, 30))),
        span: Span::new(0, 30),
    };

    let result = checker.check_expr(&expr);
    assert!(result.is_err());
}

#[test]
fn show_rule_kind_error_message() {
    let mut checker = TypeChecker::new();
    checker.bind_symbol(Symbol::new(50), MrlType::Selector(ContentKind::Block));
    let expr = Expr::ShowRule {
        selector: Box::new(var(50, 5, 12)),
        transform: Box::new(Expr::Content(Content::Inline(Inline::Text("inline".to_string())), Span::new(14, 20))),
        span: Span::new(0, 20),
    };
    match checker.check_expr(&expr) {
        Err(MrlError::TypeError { span, message }) => {
            assert_eq!(span, Span::new(14, 20));
            assert_eq!(message, "Show transform must return Block, got Inline (transforms must preserve kind)");
        }
        other => panic!("unexpected {:?}", other),
    }
}

#[test]
fn test_check_expr_show_rule_kind_mismatch() {
    let mut checker = TypeChecker::new();

    let heading_sym = Symbol::new(50);
    checker.bind_symbol(heading_sym, MrlType::Selector(ContentKind::Block));

    let expr = Expr::ShowRule {
        selector: Box::new(var(50, 5, 12)),
        transform: Box::new(Expr::Content(Content::Inline(Inline::Text("inline".to_string())), Span::new(14, 20))),
        span: Span::new(0, 20),
    };

    let result = checker.check_expr(&expr);
    assert!(result.is_err());
}

#[test]
fn test_check_expr_set_rule() {
    let mut checker = TypeChecker::new();

    let heading_sym = Symbol::new(50);
    checker.bind_symbol(heading_sym, MrlType::Selector(ContentKind::Block));

    let size_sym = Symbol::new(51);
    let expr = Expr::SetRule {
        selector: Box::new(var(50, 4, 11)),
        properties: vec![(size_sym, lit_int(14, 20, 22))],
        span: Span::new(0, 25),
    };

    let ty = checker.check_expr(&expr).unwrap();
    assert_eq!(ty, MrlType::NoneType);
}

#[test]
fn set_rule_selector_must_be_a_selector() {
    let mut checker = TypeChecker::new();
    checker.bind_symbol(Symbol::new(50), MrlType::Int);
    let expr = Expr::SetRule { selector: Box::new(var(50, 4, 11)), properties: vec![], span: Span::new(0, 25) };
    match checker.check_expr(&expr) {
        Err(MrlError::TypeError { span, message }) => {
            assert_eq!(span, Span::new(4, 11));
            assert_eq!(message, "Set rule selector must be Selector<K>, got Int");
        }
        other => panic!("unexpected {:?}", other),
    }
}

#[test]
fn test_check_expr_live() {
    let mut checker = TypeChecker::new();

    let dep_sym = Symbol::new(200);
    checker.bind_symbol(dep_sym, MrlType::Int);

    let expr = Expr::Live { deps: Some(vec![dep_sym]), body: Box::new(lit_int(42, 15, 17)), span: Span::new(0, 20) };

    let ty = checker.check_expr(&expr).unwrap();
    assert_eq!(ty, MrlType::NoneType);
}

#[test]
fn test_check_expr_live_unbound_dep() {
    let mut checker = TypeChecker::new();

    let dep_sym = Symbol::new(999);

    let expr = Expr::Live { deps: Some(vec![dep_sym]), body: Box::new(lit_int(42, 15, 17)), span: Span::new(0, 20) };

    let result = checker.check_expr(&expr);
    assert!(result.is_err());
    match result {
        Err(MrlError::UnboundIdentifier { span, name }) => {
            assert_eq!(span, Span::new(0, 20));
            assert_eq!(name, "id:999");
        }
        other => panic!("unexpected {:?}", other),
    }
}

#[test]
fn test_check_expr_block() {
    let mut checker = TypeChecker::new();

    let expr = Expr::Block(
        vec![lit_int(1, 0, 1), Expr::Literal(Literal::String("hello".to_string()), Span::new(3, 10))],
        Span::new(0, 10),
    );

    let ty = checker.check_expr(&expr).unwrap();
    assert_eq!(ty, MrlType::String);
}

#[test]
fn test_check_expr_for() {
    let mut checker = TypeChecker::new();

    let arr_sym = Symbol::new(10);
    checker.bind_symbol(arr_sym, MrlType::Array(Box::new(MrlType::Int)));

    let loop_var = Symbol::new(11);
    let expr = Expr::For(
        loop_var,
        Box::new(var(10, 8, 11)),
        Box::new(Expr::Literal(Literal::String("x".to_string()), Span::new(15, 18))),
        Span::new(0, 20),
    );

    let ty = checker.check_expr(&expr).unwrap();
    assert_eq!(ty, MrlType::Array(Box::new(MrlType::String)));
    // the loop variable does not outlive the loop
    assert!(checker.env().lookup("id:11").is_none());
}

#[test]
fn for_loop_binds_element_type() {
    let mut checker = TypeChecker::new();
    checker.bind_symbol(Symbol::new(10), MrlType::Array(Box::new(MrlType::Block)));
    let expr = Expr::For(Symbol::new(11), Box::new(var(10, 0, 1)), Box::new(var(11, 2, 3)), Span::new(0, 3));
    assert_eq!(checker.check_expr(&expr).unwrap(), MrlType::Array(Box::new(MrlType::Block)));
}

#[test]
fn test_check_field_access_record() {
    let mut checker = TypeChecker::new();

    let rec_sym = Symbol::new(100);
    let record_ty =
        MrlType::Record(vec![("name".to_string(), MrlType::String), ("age".to_string(), MrlType::Int)]);
    checker.bind_symbol(rec_sym, record_ty);

    let name_sym = Symbol::new(101);
    let age_sym = Symbol::new(102);
    checker.register_symbol(name_sym, "name");
    checker.register_symbol(age_sym, "age");

    let expr = Expr::FieldAccess(Box::new(var(100, 0, 3)), name_sym, Span::new(0, 8));
    let ty = checker.check_expr(&expr).unwrap();
    assert_eq!(ty, MrlType::String);

    let expr2 = Expr::FieldAccess(Box::new(var(100, 0, 3)), age_sym, Span::new(0, 7));
    let ty2 = checker.check_expr(&expr2).unwrap();
    assert_eq!(ty2, MrlType::Int);
}

#[test]
fn test_check_field_access_record_error() {
    let mut checker = TypeChecker::new();

    let rec_sym = Symbol::new(100);
    let record_ty = MrlType::Record(vec![("name".to_string(), MrlType::String)]);
    checker.bind_symbol(rec_sym, record_ty);

    let invalid_sym = Symbol::new(999);
    checker.register_symbol(invalid_sym, "missing_field");

    let expr = Expr::FieldAccess(Box::new(var(100, 0, 3)), invalid_sym, Span::new(0, 17));
    let result = checker.check_expr(&expr);
    assert!(result.is_err());
}

#[test]
fn test_check_field_access_block_attrs() {
    let mut checker = TypeChecker::new();

    let block_sym = Symbol::new(100);
    checker.bind_symbol(block_sym, MrlType::Block);

    let attrs_sym = Symbol::new(101);
    checker.register_symbol(attrs_sym, "attrs");

    let expr = Expr::FieldAccess(Box::new(var(100, 0, 5)), attrs_sym, Span::new(0, 11));
    let ty = checker.check_expr(&expr).unwrap();
    assert!(matches!(ty, MrlType::Record(_)));
}

#[test]
fn test_check_field_access_dyn() {
    let mut checker = TypeChecker::new();

    let dyn_sym = Symbol::new(100);
    checker.bind_symbol(dyn_sym, MrlType::Dyn);

    let any_sym = Symbol::new(101);
    checker.register_symbol(any_sym, "anything");

    let expr = Expr::FieldAccess(Box::new(var(100, 0, 3)), any_sym, Span::new(0, 12));
    let ty = checker.check_expr(&expr).unwrap();
    assert_eq!(ty, MrlType::Dyn);
}

#[test]
fn test_check_def_with_type_annotations() {
    let mut checker = TypeChecker::new();

    let func_name = Symbol::new(100);
    let param_name = Symbol::new(101);
    let string_type_sym = Symbol::new(102);

    checker.register_symbol(func_name, "greet");
    checker.register_symbol(param_name, "name");
    checker.register_symbol(string_type_sym, "String");

    let type_ann = Shrubbery::Identifier(string_type_sym, ScopeSet::new(), Span::new(6, 12));

    let param = Param::new(param_name, Span::new(0, 4)).with_type(type_ann);

    let expr = Expr::Def {
        name: func_name,
        params: vec![param],
        return_type: None,
        body: Box::new(Expr::Literal(Literal::String("Hello".to_string()), Span::new(20, 27))),
        span: Span::new(0, 27),
    };

    let ty = checker.check_expr(&expr).unwrap();
    assert_eq!(ty, MrlType::NoneType);

    let func_ty = checker.env().lookup(&format!("id:{}", func_name.id())).unwrap();
    match func_ty {
        MrlType::Function { params, ret } => {
            assert_eq!(params.len(), 1);
            assert_eq!(params[0], MrlType::String);
            assert_eq!(**ret, MrlType::String);
        }
        _ => panic!("Expected function type"),
    }
}

#[test]
fn def_return_type_mismatch() {
    let mut checker = TypeChecker::new();
    checker.register_symbol(Symbol::new(7), "Int");
    let expr = Expr::Def {
        name: Symbol::new(1),
        params: vec![],
        return_type: Some(Box::new(var(7, 0, 3))),
        body: Box::new(Expr::Literal(Literal::String("s".to_string()), Span::new(5, 8))),
        span: Span::new(0, 8),
    };
    match checker.check_expr(&expr) {
        Err(MrlError::TypeError { span, message }) => {
            assert_eq!(span, Span::new(0, 8));
            assert_eq!(message, "Function body type String doesn't match declared return type Int");
        }
        other => panic!("unexpected {:?}", other),
    }
    // the name is not bound when the body does not match
    assert!(checker.env().lookup("id:1").is_none());
}

#[test]
fn calls_and_subscripts_in_expressions() {
    let mut checker = TypeChecker::new();
    checker.register_symbol(Symbol::new(1), "text");
    let call = Expr::Call(
        Box::new(var(1, 0, 4)),
        vec![Expr::Literal(Literal::String("a".to_string()), Span::new(5, 8))],
        Span::new(0, 9),
    );
    assert_eq!(checker.check_expr(&call).unwrap(), MrlType::Inline);
    checker.bind_symbol(Symbol::new(2), MrlType::Dyn);
    let dyn_call = Expr::Call(Box::new(var(2, 0, 1)), vec![lit_int(1, 2, 3)], Span::new(0, 4));
    assert_eq!(checker.check_expr(&dyn_call).unwrap(), MrlType::Dyn);
    checker.bind_symbol(Symbol::new(3), MrlType::Array(Box::new(MrlType::Bool)));
    let sub = Expr::Subscript(Box::new(var(3, 0, 1)), Box::new(lit_int(0, 2, 3)), Span::new(0, 4));
    assert_eq!(checker.check_expr(&sub).unwrap(), MrlType::Bool);
    assert_eq!(checker.check_expr(&Expr::Sequence(vec![], Span::new(0, 0))).unwrap(), MrlType::Shrubbery);
}
