use monowiki::mrl::error::Span;
use monowiki::mrl::hygiene::{Binding, HygieneChecker, HygieneEnv, MacroContext, Space, SpaceRegistry};
use monowiki::mrl::shrubbery::{Scope, ScopeSet, Shrubbery, Symbol};

fn scope_set(ids: Vec<u64>) -> ScopeSet {
    ScopeSet::from_scopes(ids.into_iter().map(Scope::new).collect())
}

fn make_binding(id: u64, scopes: Vec<u64>, span: Span) -> Binding {
    Binding::new(Symbol::new(id), scope_set(scopes), span)
}

fn make_binding_at_start(id: u64, scopes: Vec<u64>) -> Binding {
    make_binding(id, scopes, Span::new(0, 3))
}

fn scopes_of(shrub: &Shrubbery) -> &ScopeSet {
    match shrub {
        Shrubbery::Identifier(_, scopes, _) => scopes,
        _ => panic!("Expected identifier"),
    }
}

#[test]
fn test_binding_resolution() {
    let mut env = HygieneEnv::new();

    let binding1 = make_binding(0, vec![1, 2], Span::new(0, 3));
    env.add_binding(binding1.clone());

    let binding2 = make_binding(0, vec![1], Span::new(4, 7));
    env.add_binding(binding2.clone());

    let use_scopes = scope_set(vec![1, 2, 3]);
    let resolved = env.resolve(Symbol::new(0), &use_scopes);

    assert!(resolved.is_some());
    assert_eq!(resolved.unwrap().scopes.len(), 2);
}

#[test]
fn test_binding_not_found() {
    let mut env = HygieneEnv::new();

    let binding = make_binding(0, vec![1, 2], Span::new(0, 3));
    env.add_binding(binding);

    let use_scopes = scope_set(vec![3]);
    let resolved = env.resolve(Symbol::new(0), &use_scopes);

    assert!(resolved.is_none());
}

#[test]
fn test_space_creation() {
    let space1 = Space::new();
    let space2 = Space::new();

    assert_ne!(space1.id(), space2.id());
    assert_ne!(space1.scope(), space2.scope());
}

#[test]
fn test_space_registry() {
    let registry = SpaceRegistry::new();

    assert_ne!(registry.expr.id(), registry.bind.id());
    assert_ne!(registry.bind.id(), registry.ty.id());
    assert_ne!(registry.ty.id(), registry.defn.id());
}

#[test]
fn test_space_registry_named() {
    let mut registry = SpaceRegistry::new();

    let custom = registry.get_or_create("custom");
    let custom2 = registry.get_or_create("custom");
    assert_eq!(custom.id(), custom2.id());

    assert!(registry.get("custom").is_some());
    assert!(registry.get("nonexistent").is_none());
}

#[test]
fn test_binding_in_space() {
    let space = Space::with_id(50);
    let symbol = Symbol::new(0);
    let base_scopes = scope_set(vec![1, 2]);

    let binding = Binding::in_space(symbol, base_scopes, Span::new(0, 3), space);

    assert!(binding.scopes.contains(&space.scope()));
    assert!(binding.space.is_some());
    assert_eq!(binding.space.unwrap().id(), space.id());
}

#[test]
fn test_different_spaces_different_bindings() {
    let mut env = HygieneEnv::new();
    let spaces = SpaceRegistry::new();

    let symbol = Symbol::new(0);
    let base_scopes = scope_set(vec![1]);

    let expr_binding = Binding::in_space(symbol, base_scopes.clone(), Span::new(0, 3), spaces.expr);
    env.add_binding(expr_binding);

    let type_binding = Binding::in_space(symbol, base_scopes.clone(), Span::new(4, 7), spaces.ty);
    env.add_binding(type_binding);

    let mut expr_lookup_scopes = base_scopes.clone();
    expr_lookup_scopes.add(spaces.expr.scope());
    let resolved_expr = env.resolve(symbol, &expr_lookup_scopes);
    assert!(resolved_expr.is_some());
    assert!(resolved_expr.unwrap().scopes.contains(&spaces.expr.scope()));

    let mut type_lookup_scopes = base_scopes.clone();
    type_lookup_scopes.add(spaces.ty.scope());
    let resolved_type = env.resolve(symbol, &type_lookup_scopes);
    assert!(resolved_type.is_some());
    assert!(resolved_type.unwrap().scopes.contains(&spaces.ty.scope()));
}

#[test]
fn hygiene_test_macro_context_hygiene() {
    let macro_scope = Scope::new(1);
    let use_scope = Scope::new(2);
    let env = HygieneEnv::new();
    let ctx = MacroContext::new(macro_scope, use_scope, env);

    let ident = Shrubbery::Identifier(Symbol::new(0), ScopeSet::new(), Span::new(0, 3));
    let input = Shrubbery::Identifier(Symbol::new(0), ScopeSet::new(), Span::new(0, 3));

    let output = ctx.apply_hygiene(ident, &input);
    assert!(!scopes_of(&output).contains(&macro_scope));
}

#[test]
fn test_hygiene_checker() {
    let mut env = HygieneEnv::new();
    env.add_binding(make_binding(0, vec![1], Span::new(0, 3)));

    let checker = HygieneChecker::new(env);

    let bound_ident = Shrubbery::Identifier(Symbol::new(0), scope_set(vec![1]), Span::new(4, 7));
    assert!(checker.check(&bound_ident).is_ok());

    let unbound_ident = Shrubbery::Identifier(Symbol::new(1), scope_set(vec![1]), Span::new(8, 11));
    assert!(checker.check(&unbound_ident).is_err());
}

#[test]
fn test_space_introduce_and_remove() {
    let space = Space::with_id(100);

    let ident = Shrubbery::Identifier(Symbol::new(0), ScopeSet::new(), Span::new(0, 3));

    let introduced = space.introduce(ident);
    assert!(scopes_of(&introduced).contains(&space.scope()));

    let removed = space.remove(introduced);
    assert!(!scopes_of(&removed).contains(&space.scope()));
}

#[test]
fn test_syntax_local_introduce() {
    let macro_scope = Scope::new(10);
    let use_scope = Scope::new(20);
    let env = HygieneEnv::new();
    let ctx = MacroContext::new(macro_scope, use_scope, env);

    let ident = Shrubbery::Identifier(Symbol::new(0), ScopeSet::new(), Span::new(0, 3));

    let flipped = ctx.syntax_local_introduce(ident);
    assert!(scopes_of(&flipped).contains(&macro_scope));

    let double_flipped = ctx.syntax_local_introduce(flipped);
    assert!(!scopes_of(&double_flipped).contains(&macro_scope));
}

#[test]
fn test_hygiene_env_binding() {
    let mut env = HygieneEnv::new();
    let binding = make_binding_at_start(0, vec![1, 2]);

    env.add_binding(binding.clone());

    let use_scopes = scope_set(vec![1, 2, 3]);
    assert!(env.is_bound(Symbol::new(0), &use_scopes));
}

#[test]
fn test_hygiene_env_not_bound() {
    let mut env = HygieneEnv::new();
    env.add_binding(make_binding_at_start(0, vec![1, 2]));

    let use_scopes = scope_set(vec![3]);
    assert!(!env.is_bound(Symbol::new(0), &use_scopes));
}

#[test]
fn test_hygiene_env_most_specific() {
    let mut env = HygieneEnv::new();

    env.add_binding(make_binding_at_start(0, vec![1]));
    env.add_binding(make_binding_at_start(0, vec![1, 2]));

    let use_scopes = scope_set(vec![1, 2, 3]);
    let resolved = env.resolve(Symbol::new(0), &use_scopes);

    assert!(resolved.is_some());
    assert_eq!(resolved.unwrap().scopes.len(), 2);
}

#[test]
fn test_hygiene_env_child() {
    let mut env = HygieneEnv::new();
    env.add_binding(make_binding_at_start(0, vec![1]));

    let child = env.child();
    let use_scopes = scope_set(vec![1, 2]);
    assert!(child.is_bound(Symbol::new(0), &use_scopes));
}

#[test]
fn test_hygiene_env_merge() {
    let mut env1 = HygieneEnv::new();
    let mut env2 = HygieneEnv::new();

    env1.add_binding(make_binding_at_start(0, vec![1]));
    env2.add_binding(make_binding_at_start(1, vec![2]));

    env1.merge(&env2);

    let use_scopes1 = scope_set(vec![1, 2]);
    let use_scopes2 = scope_set(vec![2, 3]);

    assert!(env1.is_bound(Symbol::new(0), &use_scopes1));
    assert!(env1.is_bound(Symbol::new(1), &use_scopes2));
}

#[test]
fn hygiene_tests_test_macro_context_hygiene() {
    let macro_scope = Scope::new(1);
    let use_scope = Scope::new(2);
    let env = HygieneEnv::new();

    let ctx = MacroContext::new(macro_scope, use_scope, env);

    let ident = Shrubbery::Identifier(Symbol::new(0), ScopeSet::new(), Span::new(0, 3));
    let input = Shrubbery::Identifier(Symbol::new(0), ScopeSet::new(), Span::new(0, 3));

    let output = ctx.apply_hygiene(ident, &input);
    assert!(!scopes_of(&output).contains(&macro_scope));
}

#[test]
fn test_macro_context_break_hygiene() {
    let macro_scope = Scope::new(1);
    let use_scope = Scope::new(2);
    let env = HygieneEnv::new();

    let ctx = MacroContext::new(macro_scope, use_scope, env);

    let ident = Shrubbery::Identifier(Symbol::new(0), ScopeSet::with_scope(macro_scope), Span::new(0, 3));

    let broken = ctx.break_hygiene(ident);
    assert!(!scopes_of(&broken).contains(&macro_scope));
}

#[test]
fn test_hygiene_checker_bound() {
    let mut env = HygieneEnv::new();
    env.add_binding(make_binding_at_start(0, vec![1]));

    let checker = HygieneChecker::new(env);

    let ident = Shrubbery::Identifier(Symbol::new(0), scope_set(vec![1, 2]), Span::new(0, 3));

    assert!(checker.check(&ident).is_ok());
}

#[test]
fn test_hygiene_checker_unbound() {
    let env = HygieneEnv::new();
    let checker = HygieneChecker::new(env);

    let ident = Shrubbery::Identifier(Symbol::new(0), scope_set(vec![1]), Span::new(0, 3));

    assert!(checker.check(&ident).is_err());
}

#[test]
fn test_hygiene_checker_nested() {
    let mut env = HygieneEnv::new();
    env.add_binding(make_binding_at_start(0, vec![1]));
    env.add_binding(make_binding_at_start(1, vec![1]));

    let checker = HygieneChecker::new(env);

    let scopes = scope_set(vec![1, 2]);
    let ident1 = Shrubbery::Identifier(Symbol::new(0), scopes.clone(), Span::new(0, 3));
    let ident2 = Shrubbery::Identifier(Symbol::new(1), scopes, Span::new(4, 7));

    let parens = Shrubbery::Parens(vec![ident1, ident2], Span::new(0, 8));

    assert!(checker.check(&parens).is_ok());
}

#[test]
fn test_hygiene_checker_collect_bindings() {
    let mut checker = HygieneChecker::new(HygieneEnv::new());
    let scope = Scope::new(1);

    let ident = Shrubbery::Identifier(Symbol::new(0), ScopeSet::new(), Span::new(0, 3));

    checker.collect_bindings(&ident, scope);

    let use_scopes = scope_set(vec![1, 2]);
    assert!(checker.check(&Shrubbery::Identifier(Symbol::new(0), use_scopes, Span::new(0, 3))).is_ok());
}

#[test]
fn hygiene_checker_reports_first_unbound_in_nested_group() {
    let mut env = HygieneEnv::new();
    env.add_binding(make_binding_at_start(0, vec![1]));
    let checker = HygieneChecker::new(env);

    let bound = Shrubbery::Identifier(Symbol::new(0), scope_set(vec![1]), Span::new(0, 1));
    let unbound = Shrubbery::Identifier(Symbol::new(5), scope_set(vec![1]), Span::new(2, 3));
    let group = Shrubbery::Brackets(vec![bound, Shrubbery::Parens(vec![unbound], Span::new(2, 4))], Span::new(0, 5));
    let err = checker.check(&group).unwrap_err();
    assert_eq!(err.span(), Span::new(2, 3));
}

#[test]
fn add_scope_then_flip_scope_restores_identifier() {
    let scope = Scope::new(9);
    let mut shrub = Shrubbery::Identifier(Symbol::new(3), scope_set(vec![1]), Span::new(0, 1));
    shrub.flip_scope(scope);
    assert!(scopes_of(&shrub).contains(&scope));
    shrub.flip_scope(scope);
    assert!(!scopes_of(&shrub).contains(&scope));
    assert_eq!(scopes_of(&shrub).len(), 1);
}

#[test]
fn test_scope_set() {
    let mut set = ScopeSet::new();
    let scope1 = Scope::new(1);
    let scope2 = Scope::new(2);

    assert!(!set.contains(&scope1));
    set.add(scope1);
    assert!(set.contains(&scope1));
    assert!(!set.contains(&scope2));

    set.add(scope2);
    assert_eq!(set.len(), 2);

    set.remove(scope1);
    assert!(!set.contains(&scope1));
    assert_eq!(set.len(), 1);
}

#[test]
fn test_scope_set_flip() {
    let mut set = ScopeSet::new();
    let scope = Scope::new(1);

    set.flip(scope);
    assert!(set.contains(&scope));

    set.flip(scope);
    assert!(!set.contains(&scope));
}

#[test]
fn test_scope_set_subset() {
    let scope1 = Scope::new(1);
    let scope2 = Scope::new(2);

    let set1 = ScopeSet::from_scopes(vec![scope1]);
    let set2 = ScopeSet::from_scopes(vec![scope1, scope2]);

    assert!(set1.is_subset(&set2));
    assert!(!set2.is_subset(&set1));
}

#[test]
fn scope_set_union_and_intersection() {
    let a = scope_set(vec![1, 2, 3]);
    let b = scope_set(vec![2, 3, 4]);
    let u = a.union(&b);
    let i = a.intersection(&b);
    assert_eq!(u.len(), 4);
    assert_eq!(i.len(), 2);
    assert!(i.contains(&Scope::new(2)) && i.contains(&Scope::new(3)));
    assert!(!i.contains(&Scope::new(1)));
    let dup = scope_set(vec![5, 5, 5]);
    assert_eq!(dup.len(), 1);
}

#[test]
fn test_shrubbery_add_scope() {
    let scope = Scope::new(1);
    let mut shrub = Shrubbery::Identifier(Symbol::new(42), ScopeSet::new(), Span::new(0, 3));

    shrub.add_scope(scope);

    assert!(scopes_of(&shrub).contains(&scope));
}

#[test]
fn test_shrubbery_flip_scope() {
    let scope = Scope::new(1);
    let mut shrub = Shrubbery::Identifier(Symbol::new(42), ScopeSet::with_scope(scope), Span::new(0, 3));

    shrub.flip_scope(scope);

    assert!(!scopes_of(&shrub).contains(&scope));
}

#[test]
fn test_scope_operations() {
    let scope1 = Scope::new(1);
    let scope2 = Scope::new(2);

    let mut set = ScopeSet::new();
    set.add(scope1);
    assert!(set.contains(&scope1));

    set.flip(scope1);
    assert!(!set.contains(&scope1));

    set.flip(scope1);
    assert!(set.contains(&scope1));

    set.add(scope2);
    assert_eq!(set.len(), 2);
}

#[test]
fn test_hygiene_binding_resolution() {
    let mut env = HygieneEnv::new();

    let sym = Symbol::new(0);
    let scopes = scope_set(vec![1, 2]);
    let binding = Binding::new(sym, scopes.clone(), Span::new(0, 3));

    env.add_binding(binding);

    let use_scopes = scope_set(vec![1, 2, 3]);
    assert!(env.is_bound(sym, &use_scopes));
}
