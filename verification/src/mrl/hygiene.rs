//! Hygiene: spaces, bindings with scope sets, resolution of identifiers to
//! their most specific binding, and the scope operations of macro expansion.

use vstd::prelude::*;
use crate::mrl::error::{MrlError, Span};
use crate::mrl::shrubbery::{Scope, ScopeSet, Shrubbery, Symbol, ShrubModel, shrub_models, add_scope_model, flip_scope_model, flip_set, add_scope_all, flip_scope_all};
use std::hash::BuildHasher;
use crate::util::strmap::StrMap;
use crate::util::text::{push_str, u64_to_text, decimal, to_owned_string};

verus! {

/// `RandomState::new`: a hasher builder whose keys std draws at random.
/// Nothing is claimed of the keys.
#[verifier::external_body]
fn new_random_state() -> (r: std::hash::RandomState)
{
    std::hash::RandomState::new()
}

/// `BuildHasher::hash_one` of the byte 0 under `state`'s keys. The value
/// depends on the random keys, so nothing is claimed of it.
#[verifier::external_body]
fn hash_zero(state: &std::hash::RandomState) -> (r: u64)
{
    state.hash_one(0u8)
}

/// A Space represents a namespace context for identifiers ("expr", "bind",
/// "type", "defn", or a named one). Each space has an associated scope that
/// is added to identifiers introduced into it.
#[derive(Debug, Clone, Copy, PartialEq, Eq, Hash, Structural)]
pub struct Space {
    id: u64,
    scope: Scope,
}

impl Space {
    /// The space's identifier.
    pub closed spec fn spec_id(&self) -> u64 {
        self.id
    }

    /// Create a new space with a fresh identifier and scope.
    pub fn new() -> (r: Self)
        ensures
            r.spec_id() == r.spec_scope().0,
    {
        let state = new_random_state();
        let id = hash_zero(&state);
        Space { id, scope: Scope::new(id) }
    }

    /// Create a space with a specific identifier.
    pub fn with_id(id: u64) -> (r: Self)
        ensures
            r.spec_id() == id,
            r.spec_scope().0 == id,
    {
        Space { id, scope: Scope::new(id) }
    }

    /// The space's scope.
    pub closed spec fn spec_scope(&self) -> Scope {
        self.scope
    }

    /// Get the space's unique identifier.
    pub fn id(&self) -> (r: u64)
        ensures
            r == self.spec_id(),
    {
        self.id
    }

    /// Get the space's scope.
    pub fn scope(&self) -> (r: Scope)
        ensures
            r == self.spec_scope(),
    {
        self.scope
    }

    /// Introduce syntax into this space (add the space's scope).
    pub fn introduce(&self, shrub: Shrubbery) -> (r: Shrubbery)
        ensures
            r@ == add_scope_model(shrub@, self.spec_scope().0),
    {
        let mut shrub = shrub;
        shrub.add_scope(self.scope);
        shrub
    }

    /// Remove syntax from this space (flip the space's scope).
    pub fn remove(&self, shrub: Shrubbery) -> (r: Shrubbery)
        ensures
            r@ == flip_scope_model(shrub@, self.spec_scope().0),
    {
        let mut shrub = shrub;
        shrub.flip_scope(self.scope);
        shrub
    }
}

/// Registry of interned spaces for different contexts.
pub struct SpaceRegistry {
    /// Expression space - for identifiers in expression position
    pub expr: Space,
    /// Binding space - for identifiers being bound (def, let, fn params)
    pub bind: Space,
    /// Type space - for type annotations and references
    pub ty: Space,
    /// Definition space - for top-level forms (def, macro, etc.)
    pub defn: Space,
    /// Custom spaces by name
    named: StrMap<Space>,
    /// The identifier the next named space gets.
    next_id: u64,
}

impl SpaceRegistry {
    /// The expression space.
    pub closed spec fn spec_expr(&self) -> Space {
        self.expr
    }

    /// The binding space.
    pub closed spec fn spec_bind(&self) -> Space {
        self.bind
    }

    /// The type space.
    pub closed spec fn spec_ty(&self) -> Space {
        self.ty
    }

    /// The definition space.
    pub closed spec fn spec_defn(&self) -> Space {
        self.defn
    }

    /// The named spaces: a lookup of `name` gives the space created for it.
    pub closed spec fn named_spaces(&self) -> StrMap<Space> {
        self.named
    }

    /// The identifier the next named space gets.
    pub closed spec fn next_id(&self) -> u64 {
        self.next_id
    }

    /// Space identifiers are unique: the built-in spaces have 0 to 3, and
    /// each named space its own identifier from 4 up, below the counter.
    pub closed spec fn wf(&self) -> bool {
        &&& self.expr.id == 0 && self.bind.id == 1 && self.ty.id == 2 && self.defn.id == 3
        &&& 4 <= self.next_id
        &&& forall|k: Seq<char>| #[trigger] self.named.has(k) ==> 4 <= self.named.value_at(k).id < self.next_id
        &&& forall|k1: Seq<char>, k2: Seq<char>| #[trigger] self.named.has(k1) && #[trigger] self.named.has(k2) && k1 != k2
            ==> self.named.value_at(k1).id != self.named.value_at(k2).id
    }

    /// A registry with the four built-in spaces, numbered 0 to 3, and no
    /// named ones.
    pub fn new() -> (r: Self)
        ensures
            r.wf(),
            r.next_id() == 4,
            forall|k: Seq<char>| !r.named_spaces().has(k),
            r.spec_expr().spec_id() == 0,
            r.spec_bind().spec_id() == 1,
            r.spec_ty().spec_id() == 2,
            r.spec_defn().spec_id() == 3,
    {
        SpaceRegistry {
            expr: Space::with_id(0),
            bind: Space::with_id(1),
            ty: Space::with_id(2),
            defn: Space::with_id(3),
            named: StrMap::new(),
            next_id: 4,
        }
    }

    /// Get the space registered under `name`, creating and registering a
    /// fresh one if there is none.
    pub fn get_or_create(&mut self, name: &str) -> (r: Space)
        requires
            old(self).wf(),
            !old(self).named_spaces().has(name@) ==> old(self).next_id() < u64::MAX,
        ensures
            final(self).wf(),
            final(self).next_id() == if old(self).named_spaces().has(name@) { old(self).next_id() } else { (old(self).next_id() + 1) as u64 },
            !old(self).named_spaces().has(name@) ==> {
                &&& r.spec_id() != old(self).spec_expr().spec_id()
                &&& r.spec_id() != old(self).spec_bind().spec_id()
                &&& r.spec_id() != old(self).spec_ty().spec_id()
                &&& r.spec_id() != old(self).spec_defn().spec_id()
                &&& forall|k: Seq<char>| #[trigger] old(self).named_spaces().has(k) ==> r.spec_id() != old(self).named_spaces().value_at(k).spec_id()
            },
            final(self).named_spaces().has(name@),
            final(self).named_spaces().value_at(name@) == r,
            old(self).named_spaces().has(name@) ==> r == old(self).named_spaces().value_at(name@) && final(self).named_spaces() == old(self).named_spaces(),
            forall|k: Seq<char>| k != name@ ==> (final(self).named_spaces().has(k) == old(self).named_spaces().has(k)),
            forall|k: Seq<char>| k != name@ && old(self).named_spaces().has(k) ==> final(self).named_spaces().value_at(k) == old(self).named_spaces().value_at(k),
            final(self).spec_expr() == old(self).spec_expr(),
            final(self).spec_bind() == old(self).spec_bind(),
            final(self).spec_ty() == old(self).spec_ty(),
            final(self).spec_defn() == old(self).spec_defn(),
    {
        match self.named.get(name) {
            Some(space) => *space,
            None => {
                let space = Space::with_id(self.next_id);
                self.next_id = self.next_id + 1;
                self.named.insert(to_owned_string(name), space);
                space
            },
        }
    }

    /// Get a named space if it exists.
    pub fn get(&self, name: &str) -> (r: Option<Space>)
        ensures
            r == self.named_spaces().lookup(name@),
    {
        match self.named.get(name) {
            Some(space) => Some(*space),
            None => None,
        }
    }

    /// Introduce syntax into the expression space.
    pub fn in_expr(&self, shrub: Shrubbery) -> (r: Shrubbery)
        ensures
            r@ == add_scope_model(shrub@, self.spec_expr().spec_scope().0),
    {
        self.expr.introduce(shrub)
    }

    /// Introduce syntax into the binding space.
    pub fn in_bind(&self, shrub: Shrubbery) -> (r: Shrubbery)
        ensures
            r@ == add_scope_model(shrub@, self.spec_bind().spec_scope().0),
    {
        self.bind.introduce(shrub)
    }

    /// Introduce syntax into the type space.
    pub fn in_type(&self, shrub: Shrubbery) -> (r: Shrubbery)
        ensures
            r@ == add_scope_model(shrub@, self.spec_ty().spec_scope().0),
    {
        self.ty.introduce(shrub)
    }

    /// Introduce syntax into the definition space.
    pub fn in_defn(&self, shrub: Shrubbery) -> (r: Shrubbery)
        ensures
            r@ == add_scope_model(shrub@, self.spec_defn().spec_scope().0),
    {
        self.defn.introduce(shrub)
    }
}

/// Binding information.
#[derive(Debug, Clone)]
pub struct Binding {
    pub symbol: Symbol,
    pub scopes: ScopeSet,
    pub span: Span,
    /// The space this binding exists in (if any)
    pub space: Option<Space>,
}

/// The mathematical value of a binding.
pub struct BindingModel {
    pub symbol: Symbol,
    pub scopes: Set<u64>,
    pub span: Span,
    pub space: Option<Space>,
}

impl View for Binding {
    type V = BindingModel;

    open spec fn view(&self) -> BindingModel {
        BindingModel { symbol: self.symbol, scopes: self.scopes@, span: self.span, space: self.space }
    }
}

impl Binding {
    /// A binding outside any space.
    pub fn new(symbol: Symbol, scopes: ScopeSet, span: Span) -> (r: Self)
        ensures
            r@ == (BindingModel { symbol, scopes: scopes@, span, space: None }),
    {
        Binding { symbol, scopes, span, space: None }
    }

    /// Create a binding in a specific space: the space's scope joins the binding's scopes.
    pub fn in_space(symbol: Symbol, scopes: ScopeSet, span: Span, space: Space) -> (r: Self)
        ensures
            r@ == (BindingModel { symbol, scopes: scopes@.insert(space.spec_scope().0), span, space: Some(space) }),
    {
        let mut scopes_with_space = scopes;
        scopes_with_space.add(space.scope());
        Binding { symbol, scopes: scopes_with_space, span, space: Some(space) }
    }

    /// A copy of this binding.
    pub fn duplicate(&self) -> (r: Self)
        ensures
            r@ == self@,
    {
        Binding { symbol: self.symbol, scopes: self.scopes.duplicate(), span: self.span, space: self.space }
    }
}

/// Binding `b` is a candidate for an identifier `sym` used with scopes `use_scopes`:
/// same symbol, and a scope set that is a subset of the use's scopes.
pub open spec fn candidate(b: BindingModel, sym: Symbol, use_scopes: Set<u64>) -> bool {
    &&& b.symbol == sym
    &&& b.scopes.subset_of(use_scopes)
}

/// Resolution picks index `i` of `bs`: the first candidate whose scope set is
/// largest among all candidates (the most specific binding).
pub open spec fn resolves_to(bs: Seq<BindingModel>, sym: Symbol, use_scopes: Set<u64>, i: int) -> bool {
    &&& 0 <= i < bs.len()
    &&& candidate(bs[i], sym, use_scopes)
    &&& forall|j: int| 0 <= j < bs.len() && candidate(#[trigger] bs[j], sym, use_scopes) ==> bs[j].scopes.len() <= bs[i].scopes.len()
    &&& forall|j: int| 0 <= j < i && candidate(#[trigger] bs[j], sym, use_scopes) ==> bs[j].scopes.len() < bs[i].scopes.len()
}

/// Some binding of `bs` is a candidate.
pub open spec fn has_candidate(bs: Seq<BindingModel>, sym: Symbol, use_scopes: Set<u64>) -> bool {
    exists|j: int| 0 <= j < bs.len() && candidate(#[trigger] bs[j], sym, use_scopes)
}

/// Environment for hygiene resolution: all bindings, in the order they were added.
#[derive(Debug)]
pub struct HygieneEnv {
    bindings: Vec<Binding>,
}

impl View for HygieneEnv {
    type V = Seq<BindingModel>;

    closed spec fn view(&self) -> Seq<BindingModel> {
        Seq::new(self.bindings@.len(), |i: int| self.bindings@[i]@)
    }
}

impl HygieneEnv {
    /// An environment without bindings.
    pub fn new() -> (r: Self)
        ensures
            r@ == Seq::<BindingModel>::empty(),
    {
        let r = HygieneEnv { bindings: Vec::new() };
        assert(r@ =~= Seq::<BindingModel>::empty());
        r
    }

    /// The bindings, in the order they were added.
    pub fn bindings(&self) -> (r: &Vec<Binding>)
        ensures
            r@.len() == self@.len(),
            forall|i: int| 0 <= i < r@.len() ==> #[trigger] r@[i]@ == self@[i],
    {
        &self.bindings
    }

    /// Add a binding to the environment.
    pub fn add_binding(&mut self, binding: Binding)
        ensures
            final(self)@ == old(self)@.push(binding@),
    {
        let ghost b = binding@;
        self.bindings.push(binding);
        assert(self@ =~= old(self)@.push(b));
    }

    /// Resolve an identifier to its binding: among the bindings of `symbol`
    /// whose scope set is a subset of `use_scopes`, the first one
    /// with the largest scope set.
    pub fn resolve(&self, symbol: Symbol, use_scopes: &ScopeSet) -> (r: Option<&Binding>)
        ensures
            match r {
                Some(b) => exists|i: int| resolves_to(self@, symbol, use_scopes@, i) && b@ == #[trigger] self@[i],
                None => !has_candidate(self@, symbol, use_scopes@),
            },
    {
        let mut best: Option<usize> = None;
        let mut best_size: usize = 0;
        let mut i: usize = 0;
        while i < self.bindings.len()
            invariant
                0 <= i <= self.bindings@.len(),
                self@.len() == self.bindings@.len(),
                forall|k: int| 0 <= k < self.bindings@.len() ==> self@[k] == #[trigger] self.bindings@[k]@,
                match best {
                    Some(b) => {
                        &&& b < i
                        &&& candidate(self@[b as int], symbol, use_scopes@)
                        &&& best_size == self@[b as int].scopes.len()
                        &&& forall|j: int| 0 <= j < i && candidate(#[trigger] self@[j], symbol, use_scopes@) ==> self@[j].scopes.len() <= best_size
                        &&& forall|j: int| 0 <= j < b && candidate(#[trigger] self@[j], symbol, use_scopes@) ==> self@[j].scopes.len() < best_size
                    },
                    None => forall|j: int| 0 <= j < i ==> !candidate(#[trigger] self@[j], symbol, use_scopes@),
                },
            decreases self.bindings@.len() - i,
        {
            let binding = &self.bindings[i];
            if binding.symbol == symbol && binding.scopes.is_subset(use_scopes) {
                let size = binding.scopes.len();
                if best.is_none() || size > best_size {
                    best = Some(i);
                    best_size = size;
                }
            }
            i = i + 1;
        }
        match best {
            Some(b) => {
                assert(resolves_to(self@, symbol, use_scopes@, b as int));
                Some(&self.bindings[b])
            },
            None => None,
        }
    }

    /// Check if an identifier is bound.
    pub fn is_bound(&self, symbol: Symbol, use_scopes: &ScopeSet) -> (r: bool)
        ensures
            r == has_candidate(self@, symbol, use_scopes@),
    {
        self.resolve(symbol, use_scopes).is_some()
    }

    /// Create a child environment (for nested scopes) holding the same bindings.
    pub fn child(&self) -> (r: Self)
        ensures
            r@ == self@,
    {
        let mut out: Vec<Binding> = Vec::new();
        let mut i: usize = 0;
        while i < self.bindings.len()
            invariant
                0 <= i <= self.bindings@.len(),
                out@.len() == i,
                forall|k: int| 0 <= k < i ==> out@[k]@ == self.bindings@[k]@,
            decreases self.bindings@.len() - i,
        {
            out.push(self.bindings[i].duplicate());
            i = i + 1;
        }
        let r = HygieneEnv { bindings: out };
        assert(r@ =~= self@);
        r
    }

    /// Merge another environment into this one: its bindings follow ours.
    pub fn merge(&mut self, other: &HygieneEnv)
        ensures
            final(self)@ == old(self)@ + other@,
    {
        let mut i: usize = 0;
        while i < other.bindings.len()
            invariant
                0 <= i <= other.bindings@.len(),
                self@ == old(self)@ + other@.subrange(0, i as int),
            decreases other.bindings@.len() - i,
        {
            let b = other.bindings[i].duplicate();
            let ghost prev = self@;
            let ghost bm = b@;
            self.bindings.push(b);
            assert(self@ =~= prev.push(bm));
            assert(other@[i as int] == bm);
            assert(self@ =~= old(self)@ + other@.subrange(0, i + 1));
            i = i + 1;
        }
        assert(other@.subrange(0, other@.len() as int) =~= other@);
    }
}

/// Context for macro expansion.
pub struct MacroContext {
    /// The macro's introduction scope
    pub macro_scope: Scope,
    /// The use-site scope
    pub use_scope: Scope,
    /// The hygiene environment
    pub env: HygieneEnv,
    /// Space registry for namespace-aware hygiene
    pub spaces: SpaceRegistry,
}

impl MacroContext {
    /// A context with a fresh space registry.
    pub fn new(macro_scope: Scope, use_scope: Scope, env: HygieneEnv) -> (r: Self)
        ensures
            r.macro_scope == macro_scope,
            r.use_scope == use_scope,
            r.env@ == env@,
    {
        MacroContext { macro_scope, use_scope, env, spaces: SpaceRegistry::new() }
    }

    /// A context with a given space registry.
    pub fn with_spaces(macro_scope: Scope, use_scope: Scope, env: HygieneEnv, spaces: SpaceRegistry) -> (r: Self)
        ensures
            r.macro_scope == macro_scope,
            r.use_scope == use_scope,
            r.env@ == env@,
            r.spaces == spaces,
    {
        MacroContext { macro_scope, use_scope, env, spaces }
    }

    /// Apply hygiene to macro output: add the macro scope to every
    /// identifier, then flip it.
    pub fn apply_hygiene(&self, output: Shrubbery, _input: &Shrubbery) -> (r: Shrubbery)
        ensures
            r@ == flip_scope_model(add_scope_model(output@, self.macro_scope.0), self.macro_scope.0),
    {
        let mut output = output;
        output.add_scope(self.macro_scope);
        output.flip_scope(self.macro_scope);
        output
    }

    /// Mark an identifier as hygiene-broken: flip the macro scope so it can
    /// capture a use-site binding.
    pub fn break_hygiene(&self, ident: Shrubbery) -> (r: Shrubbery)
        ensures
            r@ == flip_scope_model(ident@, self.macro_scope.0),
    {
        let mut ident = ident;
        ident.flip_scope(self.macro_scope);
        ident
    }

    /// Syntax-local-introduce: flip the macro introduction scope.
    pub fn syntax_local_introduce(&self, syntax: Shrubbery) -> (r: Shrubbery)
        ensures
            r@ == flip_scope_model(syntax@, self.macro_scope.0),
    {
        let mut syntax = syntax;
        syntax.flip_scope(self.macro_scope);
        syntax
    }

    /// Introduce syntax into the expression space.
    pub fn in_expr(&self, shrub: Shrubbery) -> (r: Shrubbery)
        ensures
            r@ == add_scope_model(shrub@, self.spaces.spec_expr().spec_scope().0),
    {
        self.spaces.in_expr(shrub)
    }

    /// Introduce syntax into the binding space.
    pub fn in_bind(&self, shrub: Shrubbery) -> (r: Shrubbery)
        ensures
            r@ == add_scope_model(shrub@, self.spaces.spec_bind().spec_scope().0),
    {
        self.spaces.in_bind(shrub)
    }

    /// Introduce syntax into the type space.
    pub fn in_type(&self, shrub: Shrubbery) -> (r: Shrubbery)
        ensures
            r@ == add_scope_model(shrub@, self.spaces.spec_ty().spec_scope().0),
    {
        self.spaces.in_type(shrub)
    }

    /// Introduce syntax into the definition space.
    pub fn in_defn(&self, shrub: Shrubbery) -> (r: Shrubbery)
        ensures
            r@ == add_scope_model(shrub@, self.spaces.spec_defn().spec_scope().0),
    {
        self.spaces.in_defn(shrub)
    }
}

/// The message reported for an unbound identifier: `Unbound identifier: Symbol(<id>)`.
pub open spec fn unbound_message(sym: Symbol) -> Seq<char> {
    "Unbound identifier: Symbol("@ + decimal(sym.0 as nat) + ")"@
}

/// The first identifier of `m`, in source order, that no binding of `env`
/// resolves, with its span.
pub open spec fn first_unbound(env: Seq<BindingModel>, m: ShrubModel) -> Option<(Symbol, Span)>
    decreases m,
{
    match m {
        ShrubModel::Identifier(sym, scopes, span) => if has_candidate(env, sym, scopes) { None } else { Some((sym, span)) },
        ShrubModel::Parens(items, _) => first_unbound_seq(env, items),
        ShrubModel::Brackets(items, _) => first_unbound_seq(env, items),
        ShrubModel::Braces(items, _) => first_unbound_seq(env, items),
        ShrubModel::ContentBlock(items, _) => first_unbound_seq(env, items),
        ShrubModel::Sequence(items, _) => first_unbound_seq(env, items),
        _ => None,
    }
}

/// The first unbound identifier among `items`, taken in order.
pub open spec fn first_unbound_seq(env: Seq<BindingModel>, items: Seq<ShrubModel>) -> Option<(Symbol, Span)>
    decreases items,
{
    if items.len() == 0 {
        None
    } else {
        match first_unbound_seq(env, items.drop_last()) {
            Some(x) => Some(x),
            None => first_unbound(env, items.last()),
        }
    }
}

/// The bindings introduced by `m` under scope `s`: one per identifier, in
/// source order, with `s` added to the identifier's scopes.
pub open spec fn collected(m: ShrubModel, s: u64) -> Seq<BindingModel>
    decreases m,
{
    match m {
        ShrubModel::Identifier(sym, scopes, span) => seq![BindingModel { symbol: sym, scopes: scopes.insert(s), span, space: None }],
        ShrubModel::Parens(items, _) => collected_seq(items, s),
        ShrubModel::Brackets(items, _) => collected_seq(items, s),
        ShrubModel::Braces(items, _) => collected_seq(items, s),
        ShrubModel::ContentBlock(items, _) => collected_seq(items, s),
        ShrubModel::Sequence(items, _) => collected_seq(items, s),
        _ => Seq::empty(),
    }
}

/// The bindings introduced by each of `items`, one after another.
pub open spec fn collected_seq(items: Seq<ShrubModel>, s: u64) -> Seq<BindingModel>
    decreases items,
{
    if items.len() == 0 {
        Seq::empty()
    } else {
        collected_seq(items.drop_last(), s) + collected(items.last(), s)
    }
}

/// Hygiene checker.
pub struct HygieneChecker {
    env: HygieneEnv,
}

impl View for HygieneChecker {
    type V = Seq<BindingModel>;

    closed spec fn view(&self) -> Seq<BindingModel> {
        self.env@
    }
}

fn unbound_error(symbol: Symbol, span: Span) -> (r: MrlError)
    ensures
        r matches MrlError::HygieneError { span: sp, message } && sp == span && message@ == unbound_message(symbol),
{
    let mut message = String::new();
    push_str(&mut message, "Unbound identifier: Symbol(");
    let digits = u64_to_text(symbol.0);
    push_str(&mut message, digits.as_str());
    push_str(&mut message, ")");
    MrlError::HygieneError { span, message }
}

impl HygieneChecker {
    /// A checker over the bindings of `env`.
    pub fn new(env: HygieneEnv) -> (r: Self)
        ensures
            r@ == env@,
    {
        HygieneChecker { env }
    }

    fn check_items(&self, items: &Vec<Shrubbery>) -> (r: Result<(), MrlError>)
        ensures
            match first_unbound_seq(self@, shrub_models(items)) {
                None => r is Ok,
                Some((sym, sp)) => r matches Err(MrlError::HygieneError { span, message }) && span == sp && message@ == unbound_message(sym),
            },
        decreases items,
    {
        let ghost ms = shrub_models(items);
        let mut i: usize = 0;
        while i < items.len()
            invariant
                0 <= i <= items@.len(),
                ms == shrub_models(items),
                first_unbound_seq(self@, ms.take(i as int)) is None,
            decreases items@.len() - i,
        {
            proof {
                assert(ms.take(i + 1).drop_last() =~= ms.take(i as int));
                assert(ms.take(i + 1).last() == items@[i as int]@);
            }
            match self.check(&items[i]) {
                Ok(()) => {},
                Err(e) => {
                    proof {
                        let mut k: int = i + 1;
                        assert(first_unbound_seq(self@, ms.take(k)) == first_unbound(self@, items@[i as int]@));
                        lemma_first_unbound_seq_extend(self@, ms, k);
                    }
                    return Err(e);
                },
            }
            i = i + 1;
        }
        assert(ms.take(items@.len() as int) =~= ms);
        Ok(())
    }

    /// Check that all identifiers in the shrubbery are bound; otherwise
    /// report the first unbound one, in source order.
    pub fn check(&self, shrub: &Shrubbery) -> (r: Result<(), MrlError>)
        ensures
            match first_unbound(self@, shrub@) {
                None => r is Ok,
                Some((sym, sp)) => r matches Err(MrlError::HygieneError { span, message }) && span == sp && message@ == unbound_message(sym),
            },
        decreases shrub,
    {
        match shrub {
            Shrubbery::Identifier(symbol, scopes, span) => {
                if !self.env.is_bound(*symbol, scopes) {
                    return Err(unbound_error(*symbol, *span));
                }
                Ok(())
            },
            Shrubbery::Parens(items, _) => self.check_items(items),
            Shrubbery::Brackets(items, _) => self.check_items(items),
            Shrubbery::Braces(items, _) => self.check_items(items),
            Shrubbery::ContentBlock(items, _) => self.check_items(items),
            Shrubbery::Sequence(items, _) => self.check_items(items),
            _ => Ok(()),
        }
    }

    fn collect_items(&mut self, items: &Vec<Shrubbery>, scope: Scope)
        ensures
            final(self)@ == old(self)@ + collected_seq(shrub_models(items), scope.0),
        decreases items,
    {
        let ghost ms = shrub_models(items);
        let mut i: usize = 0;
        while i < items.len()
            invariant
                0 <= i <= items@.len(),
                ms == shrub_models(items),
                self@ == old(self)@ + collected_seq(ms.take(i as int), scope.0),
            decreases items@.len() - i,
        {
            proof {
                assert(ms.take(i + 1).drop_last() =~= ms.take(i as int));
                assert(ms.take(i + 1).last() == items@[i as int]@);
            }
            self.collect_bindings(&items[i], scope);
            assert(self@ =~= old(self)@ + collected_seq(ms.take(i + 1), scope.0));
            i = i + 1;
        }
        assert(ms.take(items@.len() as int) =~= ms);
    }

    /// Collect all bindings introduced in a shrubbery (e.g., in a `def`
    /// form): each identifier, in source order, becomes a binding whose
    /// scopes are the identifier's scopes with `scope` added.
    pub fn collect_bindings(&mut self, shrub: &Shrubbery, scope: Scope)
        ensures
            final(self)@ == old(self)@ + collected(shrub@, scope.0),
        decreases shrub,
    {
        match shrub {
            Shrubbery::Identifier(symbol, scopes, span) => {
                let mut binding_scopes = scopes.duplicate();
                binding_scopes.add(scope);
                let b = Binding::new(*symbol, binding_scopes, *span);
                self.env.add_binding(b);
                assert(self@ =~= old(self)@ + collected(shrub@, scope.0));
            },
            Shrubbery::Parens(items, _) => self.collect_items(items, scope),
            Shrubbery::Brackets(items, _) => self.collect_items(items, scope),
            Shrubbery::Braces(items, _) => self.collect_items(items, scope),
            Shrubbery::ContentBlock(items, _) => self.collect_items(items, scope),
            Shrubbery::Sequence(items, _) => self.collect_items(items, scope),
            _ => {
                assert(self@ =~= old(self)@ + collected(shrub@, scope.0));
            },
        }
    }
}

proof fn lemma_first_unbound_seq_extend(env: Seq<BindingModel>, ms: Seq<ShrubModel>, k: int)
    requires
        0 <= k <= ms.len(),
        first_unbound_seq(env, ms.take(k)) is Some,
    ensures
        first_unbound_seq(env, ms) == first_unbound_seq(env, ms.take(k)),
    decreases ms.len() - k,
{
    if k < ms.len() {
        assert(ms.take(k + 1).drop_last() =~= ms.take(k));
        lemma_first_unbound_seq_extend(env, ms, k + 1);
    } else {
        assert(ms.take(k) =~= ms);
    }
}

/// `m` with scope `s` removed from the scope set of every identifier in it.
pub open spec fn remove_scope_model(m: ShrubModel, s: u64) -> ShrubModel
    decreases m,
{
    match m {
        ShrubModel::Identifier(sym, scopes, span) => ShrubModel::Identifier(sym, scopes.remove(s), span),
        ShrubModel::Parens(items, span) => ShrubModel::Parens(remove_scope_all(items, s), span),
        ShrubModel::Brackets(items, span) => ShrubModel::Brackets(remove_scope_all(items, s), span),
        ShrubModel::Braces(items, span) => ShrubModel::Braces(remove_scope_all(items, s), span),
        ShrubModel::ContentBlock(items, span) => ShrubModel::ContentBlock(remove_scope_all(items, s), span),
        ShrubModel::Sequence(items, span) => ShrubModel::Sequence(remove_scope_all(items, s), span),
        other => other,
    }
}

/// `remove_scope_model` applied to each element.
pub open spec fn remove_scope_all(items: Seq<ShrubModel>, s: u64) -> Seq<ShrubModel>
    decreases items,
{
    Seq::new(items.len(), |i: int| if 0 <= i < items.len() { remove_scope_model(items[i], s) } else { items[0] })
}

/// Adding a scope and then flipping it removes the scope from every
/// identifier: after `apply_hygiene` no identifier of the output carries
/// the macro scope.
pub proof fn lemma_add_then_flip_removes(m: ShrubModel, s: u64)
    ensures
        flip_scope_model(add_scope_model(m, s), s) == remove_scope_model(m, s),
    decreases m,
{
    match m {
        ShrubModel::Identifier(sym, scopes, span) => {
            assert(flip_set(scopes.insert(s), s) =~= scopes.remove(s));
        },
        ShrubModel::Parens(items, span) => { lemma_add_then_flip_all(items, s); },
        ShrubModel::Brackets(items, span) => { lemma_add_then_flip_all(items, s); },
        ShrubModel::Braces(items, span) => { lemma_add_then_flip_all(items, s); },
        ShrubModel::ContentBlock(items, span) => { lemma_add_then_flip_all(items, s); },
        ShrubModel::Sequence(items, span) => { lemma_add_then_flip_all(items, s); },
        _ => {},
    }
}

proof fn lemma_add_then_flip_all(items: Seq<ShrubModel>, s: u64)
    ensures
        flip_scope_all(add_scope_all(items, s), s) == remove_scope_all(items, s),
    decreases items,
{
    assert forall|i: int| 0 <= i < items.len() implies flip_scope_all(add_scope_all(items, s), s)[i] == remove_scope_all(items, s)[i] by {
        lemma_add_then_flip_removes(items[i], s);
    }
    assert(flip_scope_all(add_scope_all(items, s), s) =~= remove_scope_all(items, s));
}

} // verus!
