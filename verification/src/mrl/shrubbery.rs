//! Scopes, scope sets, symbols, and shrubbery: the token tree of MRL with
//! a scope set on every identifier.

use vstd::prelude::*;
use crate::mrl::error::Span;
use std::collections::BTreeSet;
use vstd::std_specs::iter::IteratorSpec;

verus! {

/// A unique identifier for a scope.
#[derive(Debug, Clone, Copy, PartialEq, Eq, PartialOrd, Ord, Hash, Structural)]
pub struct Scope(pub u64);

impl Scope {
    /// The scope with identifier `id`.
    pub fn new(id: u64) -> (r: Self)
        ensures
            r.0 == id,
    {
        Scope(id)
    }
}

/// A set of scopes for hygiene tracking.
#[derive(Debug, Clone, Default)]
pub struct ScopeSet {
    scopes: BTreeSet<u64>,
}

impl View for ScopeSet {
    type V = Set<u64>;

    /// The identifiers of the scopes in the set.
    closed spec fn view(&self) -> Set<u64> {
        self.scopes@
    }
}

impl ScopeSet {
    /// An empty set.
    pub fn new() -> (r: Self)
        ensures
            r@ == Set::<u64>::empty(),
    {
        ScopeSet { scopes: BTreeSet::new() }
    }

    /// The set holding just `scope`.
    pub fn with_scope(scope: Scope) -> (r: Self)
        ensures
            r@ == Set::<u64>::empty().insert(scope.0),
    {
        let mut set = Self::new();
        set.add(scope);
        set
    }

    /// Adds a scope.
    pub fn add(&mut self, scope: Scope)
        ensures
            final(self)@ == old(self)@.insert(scope.0),
    {
        self.scopes.insert(scope.0);
    }

    /// Removes a scope.
    pub fn remove(&mut self, scope: Scope)
        ensures
            final(self)@ == old(self)@.remove(scope.0),
    {
        self.scopes.remove(&scope.0);
    }

    /// Whether the set holds `scope`.
    pub fn contains(&self, scope: &Scope) -> (r: bool)
        ensures
            r == self@.contains(scope.0),
    {
        self.scopes.contains(&scope.0)
    }

    /// The scopes of the set, each once.
    pub fn iter(&self) -> (r: Vec<Scope>)
        ensures
            self@.finite(),
            r@.len() == self@.len(),
            forall|i: int| 0 <= i < r@.len() ==> self@.contains(#[trigger] r@[i].0),
            forall|x: u64| self@.contains(x) ==> exists|i: int| 0 <= i < r@.len() && r@[i].0 == x,
    {
        let mut out: Vec<Scope> = Vec::new();
        let ghost set = self.scopes@;
        let ghost s = vstd::std_specs::btree::spec_btree_keys_iter(&self.scopes).remaining();
        proof {
            vstd::std_specs::btree::axiom_spec_btree_keys_iter(&self.scopes);
        }
        for x in it: self.scopes.iter()
            invariant
                it.seq() == s,
                out@.len() == it.index(),
                forall|i: int| 0 <= i < out@.len() ==> out@[i].0 == *s[i],
        {
            out.push(Scope(*x));
        }
        proof {
            assert(s.unref().to_set() == set);
            vstd::seq_lib::seq_to_set_is_finite(s.unref());
            assert(s.len() == set.len());
            assert(out@.len() == s.len());
            assert forall|i: int| 0 <= i < out@.len() implies set.contains(#[trigger] out@[i].0) by {
                assert(s.unref()[i] == *s[i]);
                assert(s.unref().contains(*s[i]));
            }
            assert forall|x: u64| set.contains(x) implies exists|i: int| 0 <= i < out@.len() && out@[i].0 == x by {
                assert(s.unref().to_set().contains(x));
                let i = choose|i: int| 0 <= i < s.unref().len() && s.unref()[i] == x;
                assert(out@[i].0 == x);
            }
        }
        out
    }

    /// Whether every scope of this set is in `other`.
    pub fn is_subset(&self, other: &ScopeSet) -> (r: bool)
        ensures
            r == self@.subset_of(other@),
    {
        let items = self.iter();
        let mut i: usize = 0;
        while i < items.len()
            invariant
                0 <= i <= items@.len(),
                forall|j: int| 0 <= j < items@.len() ==> self@.contains(#[trigger] items@[j].0),
                forall|j: int| 0 <= j < i ==> other@.contains(#[trigger] items@[j].0),
            decreases items@.len() - i,
        {
            if !other.contains(&items[i]) {
                assert(self@.contains(items@[i as int].0));
                return false;
            }
            i = i + 1;
        }
        assert forall|x: u64| self@.contains(x) implies other@.contains(x) by {
            let j = choose|j: int| 0 <= j < items@.len() && items@[j].0 == x;
        }
        true
    }

    /// The scopes in either set.
    pub fn union(&self, other: &ScopeSet) -> (r: Self)
        ensures
            r@ == self@.union(other@),
    {
        let mut out = ScopeSet::new();
        let mine = self.iter();
        let theirs = other.iter();
        let mut i: usize = 0;
        while i < mine.len()
            invariant
                0 <= i <= mine@.len(),
                out@ == Set::new(|x: u64| exists|j: int| 0 <= j < i && mine@[j].0 == x),
            decreases mine@.len() - i,
        {
            out.add(mine[i]);
            assert(out@ =~= Set::new(|x: u64| exists|j: int| 0 <= j < i + 1 && mine@[j].0 == x));
            i = i + 1;
        }
        let mut k: usize = 0;
        while k < theirs.len()
            invariant
                0 <= k <= theirs@.len(),
                i == mine@.len(),
                out@ == Set::new(|x: u64| (exists|j: int| 0 <= j < i && mine@[j].0 == x) || (exists|j: int| 0 <= j < k && theirs@[j].0 == x)),
            decreases theirs@.len() - k,
        {
            out.add(theirs[k]);
            assert(out@ =~= Set::new(|x: u64| (exists|j: int| 0 <= j < i && mine@[j].0 == x) || (exists|j: int| 0 <= j < k + 1 && theirs@[j].0 == x)));
            k = k + 1;
        }
        assert(out@ =~= self@.union(other@));
        out
    }

    /// The scopes in both sets.
    pub fn intersection(&self, other: &ScopeSet) -> (r: Self)
        ensures
            r@ == self@.intersect(other@),
    {
        let mut out = ScopeSet::new();
        let mine = self.iter();
        let mut i: usize = 0;
        while i < mine.len()
            invariant
                0 <= i <= mine@.len(),
                out@ == Set::new(|x: u64| other@.contains(x) && exists|j: int| 0 <= j < i && mine@[j].0 == x),
            decreases mine@.len() - i,
        {
            if other.contains(&mine[i]) {
                out.add(mine[i]);
            }
            assert(out@ =~= Set::new(|x: u64| other@.contains(x) && exists|j: int| 0 <= j < i + 1 && mine@[j].0 == x));
            i = i + 1;
        }
        assert(out@ =~= self@.intersect(other@));
        out
    }

    /// Flip a scope: remove if present, add if absent.
    pub fn flip(&mut self, scope: Scope)
        ensures
            final(self)@ == flip_set(old(self)@, scope.0),
            old(self)@.finite() ==> final(self)@.finite(),
    {
        if self.contains(&scope) {
            self.remove(scope);
        } else {
            self.add(scope);
        }
    }

    /// The number of scopes; the set is finite.
    pub fn len(&self) -> (r: usize)
        ensures
            r == self@.len(),
            self@.finite(),
    {
        self.iter().len()
    }

    /// Whether the set is empty.
    pub fn is_empty(&self) -> (r: bool)
        ensures
            r == (self@ == Set::<u64>::empty()),
    {
        let r = self.scopes.is_empty();
        proof {
            if !r {
                assert(!self.scopes@.is_empty());
                let x = self.scopes@.choose();
                assert(self@.contains(x));
            }
        }
        r
    }

    /// A copy holding the same scopes.
    pub fn duplicate(&self) -> (r: Self)
        ensures
            r@ == self@,
    {
        ScopeSet { scopes: self.scopes.clone() }
    }

    /// The set holding the given scopes.
    pub fn from_scopes(scopes: Vec<Scope>) -> (r: Self)
        ensures
            r@ == Set::new(|x: u64| exists|i: int| 0 <= i < scopes@.len() && scopes@[i].0 == x),
    {
        let mut out = ScopeSet::new();
        let mut i: usize = 0;
        while i < scopes.len()
            invariant
                0 <= i <= scopes@.len(),
                out@ == Set::new(|x: u64| exists|j: int| 0 <= j < i && scopes@[j].0 == x),
            decreases scopes@.len() - i,
        {
            out.add(scopes[i]);
            assert(out@ =~= Set::new(|x: u64| exists|j: int| 0 <= j < i + 1 && scopes@[j].0 == x));
            i = i + 1;
        }
        out
    }
}

/// `s` with `x` removed if present and added if absent.
pub open spec fn flip_set(s: Set<u64>, x: u64) -> Set<u64> {
    if s.contains(x) { s.remove(x) } else { s.insert(x) }
}

/// Flipping a scope of a finite set toggles just that scope, changes the
/// size by one, keeps the set finite, and a second flip gives the set back.
pub proof fn lemma_flip_set(s: Set<u64>, x: u64)
    requires
        s.finite(),
    ensures
        flip_set(s, x).contains(x) == !s.contains(x),
        forall|y: u64| y != x ==> flip_set(s, x).contains(y) == s.contains(y),
        flip_set(s, x).finite(),
        flip_set(s, x).len() == if s.contains(x) { s.len() - 1 } else { s.len() + 1int },
        flip_set(flip_set(s, x), x) == s,
{
    assert(flip_set(flip_set(s, x), x) =~= s);
}

/// Symbol interning for identifiers.
#[derive(Debug, Clone, Copy, PartialEq, Eq, PartialOrd, Ord, Hash, Structural)]
pub struct Symbol(pub u64);

impl Symbol {
    /// The symbol with identifier `id`.
    pub fn new(id: u64) -> (r: Self)
        ensures
            r.0 == id,
    {
        Symbol(id)
    }

    /// The symbol's identifier.
    pub fn id(&self) -> (r: u64)
        ensures
            r == self.0,
    {
        self.0
    }
}

/// Literal values. A float literal is held as its decimal text, as written
/// in the source (`-?[0-9]+.[0-9]+`); reading it as a double is left to
/// where it is used as a number.
#[derive(Debug, Clone, PartialEq)]
pub enum Literal {
    NoneLit,
    Bool(bool),
    Int(i64),
    Float(String),
    String(String),
    Symbol(String),
}

/// A literal as a value: texts become character sequences.
pub enum LiteralModel {
    NoneLit,
    Bool(bool),
    Int(i64),
    Float(Seq<char>),
    String(Seq<char>),
    Symbol(Seq<char>),
}

impl View for Literal {
    type V = LiteralModel;

    open spec fn view(&self) -> LiteralModel {
        match self {
            Literal::NoneLit => LiteralModel::NoneLit,
            Literal::Bool(b) => LiteralModel::Bool(*b),
            Literal::Int(i) => LiteralModel::Int(*i),
            Literal::Float(t) => LiteralModel::Float(t@),
            Literal::String(t) => LiteralModel::String(t@),
            Literal::Symbol(t) => LiteralModel::Symbol(t@),
        }
    }
}

/// Shrubbery: token tree representation with deferred precedence.
#[derive(Debug)]
pub enum Shrubbery {
    /// Identifier with scope set for hygiene
    Identifier(Symbol, ScopeSet, Span),
    /// Literal value
    Literal(Literal, Span),
    /// Operator (e.g., +, -, *, precedence resolved later)
    Operator(Symbol, Span),
    /// Parenthesized group: (...)
    Parens(Vec<Shrubbery>, Span),
    /// Bracketed group: [...]
    Brackets(Vec<Shrubbery>, Span),
    /// Braced group: {...}
    Braces(Vec<Shrubbery>, Span),
    /// Prose text (from markdown)
    Prose(String, Span),
    /// Content block: mixed prose and code
    ContentBlock(Vec<Shrubbery>, Span),
    /// Sequence of elements (comma or newline separated)
    Sequence(Vec<Shrubbery>, Span),
    /// `!def name(params): body`
    DefBlock { name: Symbol, params: Vec<Param>, return_type: Option<Box<Shrubbery>>, body: Vec<Shrubbery>, span: Span },
    /// `!staged[...]` or an indented staged block
    StagedBlock { body: Vec<Shrubbery>, span: Span },
    /// `!show selector: transform`
    ShowRule { selector: Box<Shrubbery>, transform: Box<Shrubbery>, span: Span },
    /// `!set selector { key: value, ... }`
    SetRule { selector: Box<Shrubbery>, properties: Vec<(Symbol, Shrubbery)>, span: Span },
    /// `!live(deps: [...])[...]` or an indented live block
    LiveBlock { deps: Option<Vec<Symbol>>, body: Vec<Shrubbery>, span: Span },
    /// A selector of show and set rules: `base` or `base.where(predicate)`
    Selector { base: Symbol, predicate: Option<Box<Shrubbery>>, span: Span },
    /// `quote[...]`, `quote: body` or `quote expr`
    Quote { body: Box<Shrubbery>, span: Span },
    /// `splice(expr)` or `$name`
    Splice { expr: Box<Shrubbery>, span: Span },
    /// `if cond: then else: otherwise`
    If { condition: Box<Shrubbery>, then_branch: Box<Shrubbery>, else_branch: Option<Box<Shrubbery>>, span: Span },
    /// `for pattern in iterable: body`
    For { pattern: Symbol, iterable: Box<Shrubbery>, body: Box<Shrubbery>, span: Span },
}

/// The mathematical value of a shrubbery: children become sequences and
/// scope sets become sets of scope identifiers.
pub enum ShrubModel {
    Identifier(Symbol, Set<u64>, Span),
    Literal(LiteralModel, Span),
    Operator(Symbol, Span),
    Parens(Seq<ShrubModel>, Span),
    Brackets(Seq<ShrubModel>, Span),
    Braces(Seq<ShrubModel>, Span),
    Prose(Seq<char>, Span),
    ContentBlock(Seq<ShrubModel>, Span),
    Sequence(Seq<ShrubModel>, Span),
    /// Parameters are (name, type annotation, default, span).
    DefBlock { name: Symbol, params: Seq<(Symbol, Option<ShrubModel>, Option<ShrubModel>, Span)>, return_type: Option<Box<ShrubModel>>, body: Seq<ShrubModel>, span: Span },
    StagedBlock { body: Seq<ShrubModel>, span: Span },
    ShowRule { selector: Box<ShrubModel>, transform: Box<ShrubModel>, span: Span },
    SetRule { selector: Box<ShrubModel>, properties: Seq<(Symbol, ShrubModel)>, span: Span },
    LiveBlock { deps: Option<Seq<Symbol>>, body: Seq<ShrubModel>, span: Span },
    Selector { base: Symbol, predicate: Option<Box<ShrubModel>>, span: Span },
    Quote { body: Box<ShrubModel>, span: Span },
    Splice { expr: Box<ShrubModel>, span: Span },
    If { condition: Box<ShrubModel>, then_branch: Box<ShrubModel>, else_branch: Option<Box<ShrubModel>>, span: Span },
    For { pattern: Symbol, iterable: Box<ShrubModel>, body: Box<ShrubModel>, span: Span },
}

/// The model of an optional shrubbery.
pub open spec fn opt_model(o: &Option<Shrubbery>) -> Option<ShrubModel>
    decreases o,
{
    match o {
        Some(x) => Some(x.model()),
        None => None,
    }
}

/// The model of an optional boxed shrubbery.
pub open spec fn opt_box_model(o: &Option<Box<Shrubbery>>) -> Option<Box<ShrubModel>>
    decreases o,
{
    match o {
        Some(x) => Some(Box::new(x.model())),
        None => None,
    }
}

/// The model of a parameter: its name, annotation, default and span.
pub open spec fn param_model(p: &Param) -> (Symbol, Option<ShrubModel>, Option<ShrubModel>, Span)
    decreases p,
{
    (p.name, opt_model(&p.type_annotation), opt_model(&p.default), p.span)
}

/// The models of a vector of parameters.
pub open spec fn param_seq_model(v: &Vec<Param>) -> Seq<(Symbol, Option<ShrubModel>, Option<ShrubModel>, Span)>
    decreases v,
{
    Seq::new(v@.len(), |i: int| if 0 <= i < v@.len() { param_model(&v@[i]) } else { (Symbol(0), None, None, Span { start: 0, end: 0 }) })
}

/// The models of set-rule properties.
pub open spec fn property_seq_model(v: &Vec<(Symbol, Shrubbery)>) -> Seq<(Symbol, ShrubModel)>
    decreases v,
{
    Seq::new(v@.len(), |i: int| if 0 <= i < v@.len() { (v@[i].0, v@[i].1.model()) } else { (Symbol(0), ShrubModel::Sequence(Seq::empty(), Span { start: 0, end: 0 })) })
}

/// The models of a vector of shrubberies.
pub open spec fn shrub_models(items: &Vec<Shrubbery>) -> Seq<ShrubModel>
    decreases items,
{
    Seq::new(items@.len(), |i: int| if 0 <= i < items@.len() { items@[i].model() } else { ShrubModel::Sequence(Seq::empty(), Span { start: 0, end: 0 }) })
}

impl Shrubbery {
    /// The mathematical value of this shrubbery.
    pub open spec fn model(&self) -> ShrubModel
        decreases self,
    {
        match self {
            Shrubbery::Identifier(sym, scopes, span) => ShrubModel::Identifier(*sym, scopes@, *span),
            Shrubbery::Literal(lit, span) => ShrubModel::Literal(lit@, *span),
            Shrubbery::Operator(sym, span) => ShrubModel::Operator(*sym, *span),
            Shrubbery::Parens(items, span) => ShrubModel::Parens(shrub_models(items), *span),
            Shrubbery::Brackets(items, span) => ShrubModel::Brackets(shrub_models(items), *span),
            Shrubbery::Braces(items, span) => ShrubModel::Braces(shrub_models(items), *span),
            Shrubbery::Prose(text, span) => ShrubModel::Prose(text@, *span),
            Shrubbery::ContentBlock(items, span) => ShrubModel::ContentBlock(shrub_models(items), *span),
            Shrubbery::Sequence(items, span) => ShrubModel::Sequence(shrub_models(items), *span),
            Shrubbery::DefBlock { name, params, return_type, body, span } => ShrubModel::DefBlock {
                name: *name,
                params: param_seq_model(params),
                return_type: opt_box_model(return_type),
                body: shrub_models(body),
                span: *span,
            },
            Shrubbery::StagedBlock { body, span } => ShrubModel::StagedBlock { body: shrub_models(body), span: *span },
            Shrubbery::ShowRule { selector, transform, span } => ShrubModel::ShowRule {
                selector: Box::new(selector.model()),
                transform: Box::new(transform.model()),
                span: *span,
            },
            Shrubbery::SetRule { selector, properties, span } => ShrubModel::SetRule {
                selector: Box::new(selector.model()),
                properties: property_seq_model(properties),
                span: *span,
            },
            Shrubbery::LiveBlock { deps, body, span } => ShrubModel::LiveBlock {
                deps: match deps {
                    Some(d) => Some(d@),
                    None => None,
                },
                body: shrub_models(body),
                span: *span,
            },
            Shrubbery::Selector { base, predicate, span } => ShrubModel::Selector {
                base: *base,
                predicate: opt_box_model(predicate),
                span: *span,
            },
            Shrubbery::Quote { body, span } => ShrubModel::Quote { body: Box::new(body.model()), span: *span },
            Shrubbery::Splice { expr, span } => ShrubModel::Splice { expr: Box::new(expr.model()), span: *span },
            Shrubbery::If { condition, then_branch, else_branch, span } => ShrubModel::If {
                condition: Box::new(condition.model()),
                then_branch: Box::new(then_branch.model()),
                else_branch: opt_box_model(else_branch),
                span: *span,
            },
            Shrubbery::For { pattern, iterable, body, span } => ShrubModel::For {
                pattern: *pattern,
                iterable: Box::new(iterable.model()),
                body: Box::new(body.model()),
                span: *span,
            },
        }
    }
}

impl View for Shrubbery {
    type V = ShrubModel;

    open spec fn view(&self) -> ShrubModel {
        self.model()
    }
}

/// The span a shrubbery carries.
pub open spec fn shrub_span(m: ShrubModel) -> Span {
    match m {
        ShrubModel::Identifier(_, _, span) => span,
        ShrubModel::Literal(_, span) => span,
        ShrubModel::Operator(_, span) => span,
        ShrubModel::Parens(_, span) => span,
        ShrubModel::Brackets(_, span) => span,
        ShrubModel::Braces(_, span) => span,
        ShrubModel::Prose(_, span) => span,
        ShrubModel::ContentBlock(_, span) => span,
        ShrubModel::Sequence(_, span) => span,
        ShrubModel::DefBlock { span, .. } => span,
        ShrubModel::StagedBlock { span, .. } => span,
        ShrubModel::ShowRule { span, .. } => span,
        ShrubModel::SetRule { span, .. } => span,
        ShrubModel::LiveBlock { span, .. } => span,
        ShrubModel::Selector { span, .. } => span,
        ShrubModel::Quote { span, .. } => span,
        ShrubModel::Splice { span, .. } => span,
        ShrubModel::If { span, .. } => span,
        ShrubModel::For { span, .. } => span,
    }
}

/// `m` with scope `s` added to the scope set of every identifier in it.
pub open spec fn add_scope_model(m: ShrubModel, s: u64) -> ShrubModel
    decreases m,
{
    match m {
        ShrubModel::Identifier(sym, scopes, span) => ShrubModel::Identifier(sym, scopes.insert(s), span),
        ShrubModel::Parens(items, span) => ShrubModel::Parens(add_scope_all(items, s), span),
        ShrubModel::Brackets(items, span) => ShrubModel::Brackets(add_scope_all(items, s), span),
        ShrubModel::Braces(items, span) => ShrubModel::Braces(add_scope_all(items, s), span),
        ShrubModel::ContentBlock(items, span) => ShrubModel::ContentBlock(add_scope_all(items, s), span),
        ShrubModel::Sequence(items, span) => ShrubModel::Sequence(add_scope_all(items, s), span),
        other => other,
    }
}

/// `add_scope_model` applied to each element.
pub open spec fn add_scope_all(items: Seq<ShrubModel>, s: u64) -> Seq<ShrubModel>
    decreases items,
{
    Seq::new(items.len(), |i: int| if 0 <= i < items.len() { add_scope_model(items[i], s) } else { items[0] })
}

/// `m` with scope `s` flipped in the scope set of every identifier in it.
pub open spec fn flip_scope_model(m: ShrubModel, s: u64) -> ShrubModel
    decreases m,
{
    match m {
        ShrubModel::Identifier(sym, scopes, span) => ShrubModel::Identifier(sym, flip_set(scopes, s), span),
        ShrubModel::Parens(items, span) => ShrubModel::Parens(flip_scope_all(items, s), span),
        ShrubModel::Brackets(items, span) => ShrubModel::Brackets(flip_scope_all(items, s), span),
        ShrubModel::Braces(items, span) => ShrubModel::Braces(flip_scope_all(items, s), span),
        ShrubModel::ContentBlock(items, span) => ShrubModel::ContentBlock(flip_scope_all(items, s), span),
        ShrubModel::Sequence(items, span) => ShrubModel::Sequence(flip_scope_all(items, s), span),
        other => other,
    }
}

/// `flip_scope_model` applied to each element.
pub open spec fn flip_scope_all(items: Seq<ShrubModel>, s: u64) -> Seq<ShrubModel>
    decreases items,
{
    Seq::new(items.len(), |i: int| if 0 <= i < items.len() { flip_scope_model(items[i], s) } else { items[0] })
}

fn add_scope_items(items: &mut Vec<Shrubbery>, scope: Scope)
    ensures
        shrub_models(final(items)) == add_scope_all(shrub_models(old(items)), scope.0),
    decreases *old(items),
{
    let ghost before = shrub_models(old(items));
    let mut i: usize = 0;
    while i < items.len()
        invariant
            0 <= i <= items@.len(),
            items@.len() == old(items)@.len(),
            before == shrub_models(old(items)),
            forall|j: int| i <= j < items@.len() ==> items@[j] == old(items)@[j],
            forall|j: int| 0 <= j < i ==> items@[j].model() == add_scope_model(before[j], scope.0),
        decreases items@.len() - i,
    {
        proof {
            assert(decreases_to!(*old(items) => old(items)@[i as int]));
        }
        items[i].add_scope(scope);
        i = i + 1;
    }
    assert(shrub_models(items) =~= add_scope_all(before, scope.0));
}

fn flip_scope_items(items: &mut Vec<Shrubbery>, scope: Scope)
    ensures
        shrub_models(final(items)) == flip_scope_all(shrub_models(old(items)), scope.0),
    decreases *old(items),
{
    let ghost before = shrub_models(old(items));
    let mut i: usize = 0;
    while i < items.len()
        invariant
            0 <= i <= items@.len(),
            items@.len() == old(items)@.len(),
            before == shrub_models(old(items)),
            forall|j: int| i <= j < items@.len() ==> items@[j] == old(items)@[j],
            forall|j: int| 0 <= j < i ==> items@[j].model() == flip_scope_model(before[j], scope.0),
        decreases items@.len() - i,
    {
        proof {
            assert(decreases_to!(*old(items) => old(items)@[i as int]));
        }
        items[i].flip_scope(scope);
        i = i + 1;
    }
    assert(shrub_models(items) =~= flip_scope_all(before, scope.0));
}

impl Shrubbery {
    /// The span this shrubbery carries.
    pub fn span(&self) -> (r: Span)
        ensures
            r == shrub_span(self@),
    {
        match self {
            Shrubbery::Identifier(_, _, span) => *span,
            Shrubbery::Literal(_, span) => *span,
            Shrubbery::Operator(_, span) => *span,
            Shrubbery::Parens(_, span) => *span,
            Shrubbery::Brackets(_, span) => *span,
            Shrubbery::Braces(_, span) => *span,
            Shrubbery::Prose(_, span) => *span,
            Shrubbery::ContentBlock(_, span) => *span,
            Shrubbery::Sequence(_, span) => *span,
            Shrubbery::DefBlock { span, .. } => *span,
            Shrubbery::StagedBlock { span, .. } => *span,
            Shrubbery::ShowRule { span, .. } => *span,
            Shrubbery::SetRule { span, .. } => *span,
            Shrubbery::LiveBlock { span, .. } => *span,
            Shrubbery::Selector { span, .. } => *span,
            Shrubbery::Quote { span, .. } => *span,
            Shrubbery::Splice { span, .. } => *span,
            Shrubbery::If { span, .. } => *span,
            Shrubbery::For { span, .. } => *span,
        }
    }

    /// Add a scope to all identifiers in this shrubbery.
    pub fn add_scope(&mut self, scope: Scope)
        ensures
            final(self)@ == add_scope_model(old(self)@, scope.0),
        decreases *old(self),
    {
        match self {
            Shrubbery::Identifier(_, scopes, _) => {
                scopes.add(scope);
            },
            Shrubbery::Parens(items, _) => add_scope_items(items, scope),
            Shrubbery::Brackets(items, _) => add_scope_items(items, scope),
            Shrubbery::Braces(items, _) => add_scope_items(items, scope),
            Shrubbery::ContentBlock(items, _) => add_scope_items(items, scope),
            Shrubbery::Sequence(items, _) => add_scope_items(items, scope),
            _ => {},
        }
    }

    /// Flip a scope on all identifiers in this shrubbery.
    pub fn flip_scope(&mut self, scope: Scope)
        ensures
            final(self)@ == flip_scope_model(old(self)@, scope.0),
        decreases *old(self),
    {
        match self {
            Shrubbery::Identifier(_, scopes, _) => {
                scopes.flip(scope);
            },
            Shrubbery::Parens(items, _) => flip_scope_items(items, scope),
            Shrubbery::Brackets(items, _) => flip_scope_items(items, scope),
            Shrubbery::Braces(items, _) => flip_scope_items(items, scope),
            Shrubbery::ContentBlock(items, _) => flip_scope_items(items, scope),
            Shrubbery::Sequence(items, _) => flip_scope_items(items, scope),
            _ => {},
        }
    }

    /// Get the identifier name and scopes if this is an identifier.
    pub fn as_identifier(&self) -> (r: Option<(Symbol, &ScopeSet)>)
        ensures
            match self@ {
                ShrubModel::Identifier(sym, scopes, _) => r matches Some(p) && p.0 == sym && p.1@ == scopes,
                _ => r is None,
            },
    {
        match self {
            Shrubbery::Identifier(sym, scopes, _) => Some((*sym, scopes)),
            _ => None,
        }
    }

    /// Get the literal if this is a literal.
    pub fn as_literal(&self) -> (r: Option<&Literal>)
        ensures
            match self@ {
                ShrubModel::Literal(lit, _) => r matches Some(l) && l@ == lit,
                _ => r is None,
            },
    {
        match self {
            Shrubbery::Literal(lit, _) => Some(lit),
            _ => None,
        }
    }
}

/// Flipping a scope twice leaves a shrubbery as it was.
pub proof fn lemma_flip_scope_involution(m: ShrubModel, s: u64)
    ensures
        flip_scope_model(flip_scope_model(m, s), s) == m,
    decreases m,
{
    match m {
        ShrubModel::Identifier(sym, scopes, span) => {
            assert(flip_set(flip_set(scopes, s), s) =~= scopes);
        },
        ShrubModel::Parens(items, span) => { lemma_flip_all_involution(items, s); },
        ShrubModel::Brackets(items, span) => { lemma_flip_all_involution(items, s); },
        ShrubModel::Braces(items, span) => { lemma_flip_all_involution(items, s); },
        ShrubModel::ContentBlock(items, span) => { lemma_flip_all_involution(items, s); },
        ShrubModel::Sequence(items, span) => { lemma_flip_all_involution(items, s); },
        _ => {},
    }
}

proof fn lemma_flip_all_involution(items: Seq<ShrubModel>, s: u64)
    ensures
        flip_scope_all(flip_scope_all(items, s), s) == items,
    decreases items,
{
    assert forall|i: int| 0 <= i < items.len() implies flip_scope_all(flip_scope_all(items, s), s)[i] == items[i] by {
        lemma_flip_scope_involution(items[i], s);
    }
    assert(flip_scope_all(flip_scope_all(items, s), s) =~= items);
}


/// A parameter of a definition: its name, an optional type annotation and
/// an optional default value, with the span of the name.
#[derive(Debug)]
pub struct Param {
    pub name: Symbol,
    pub type_annotation: Option<Shrubbery>,
    pub default: Option<Shrubbery>,
    pub span: Span,
}

impl Literal {
    /// A copy of this literal.
    pub fn duplicate(&self) -> (r: Self)
        ensures
            r == *self,
    {
        match self {
            Literal::NoneLit => Literal::NoneLit,
            Literal::Bool(b) => Literal::Bool(*b),
            Literal::Int(i) => Literal::Int(*i),
            Literal::Float(t) => Literal::Float(t.clone()),
            Literal::String(t) => Literal::String(t.clone()),
            Literal::Symbol(t) => Literal::Symbol(t.clone()),
        }
    }
}

pub(crate) fn duplicate_items(items: &Vec<Shrubbery>) -> (r: Vec<Shrubbery>)
    ensures
        shrub_models(&r) == shrub_models(items),
    decreases items, 0nat,
{
    let mut out: Vec<Shrubbery> = Vec::new();
    let mut i: usize = 0;
    while i < items.len()
        invariant
            0 <= i <= items@.len(),
            out@.len() == i,
            forall|j: int| 0 <= j < i ==> out@[j]@ == items@[j]@,
        decreases items@.len() - i,
    {
        proof {
            assert(decreases_to!(items => items@[i as int]));
        }
        out.push(items[i].duplicate());
        i = i + 1;
    }
    assert(shrub_models(&out) =~= shrub_models(items));
    out
}

fn duplicate_opt(o: &Option<Shrubbery>) -> (r: Option<Shrubbery>)
    ensures
        opt_model(&r) == opt_model(o),
    decreases o, 0nat,
{
    match o {
        Some(x) => Some(x.duplicate()),
        None => None,
    }
}

fn duplicate_opt_box(o: &Option<Box<Shrubbery>>) -> (r: Option<Box<Shrubbery>>)
    ensures
        opt_box_model(&r) == opt_box_model(o),
    decreases o, 0nat,
{
    match o {
        Some(x) => Some(Box::new(x.duplicate())),
        None => None,
    }
}

pub(crate) fn duplicate_params(ps: &Vec<Param>) -> (r: Vec<Param>)
    ensures
        param_seq_model(&r) == param_seq_model(ps),
    decreases ps, 0nat,
{
    let mut out: Vec<Param> = Vec::new();
    let mut i: usize = 0;
    while i < ps.len()
        invariant
            0 <= i <= ps@.len(),
            out@.len() == i,
            forall|j: int| 0 <= j < i ==> param_model(&out@[j]) == param_model(&ps@[j]),
        decreases ps@.len() - i,
    {
        proof {
            assert(decreases_to!(ps => ps@[i as int]));
        }
        let p = &ps[i];
        let ty = duplicate_opt(&p.type_annotation);
        let dv = duplicate_opt(&p.default);
        out.push(Param { name: p.name, type_annotation: ty, default: dv, span: p.span });
        i = i + 1;
    }
    assert(param_seq_model(&out) =~= param_seq_model(ps));
    out
}

fn duplicate_properties(ps: &Vec<(Symbol, Shrubbery)>) -> (r: Vec<(Symbol, Shrubbery)>)
    ensures
        property_seq_model(&r) == property_seq_model(ps),
    decreases ps, 0nat,
{
    let mut out: Vec<(Symbol, Shrubbery)> = Vec::new();
    let mut i: usize = 0;
    while i < ps.len()
        invariant
            0 <= i <= ps@.len(),
            out@.len() == i,
            forall|j: int| 0 <= j < i ==> out@[j].0 == ps@[j].0 && out@[j].1@ == ps@[j].1@,
        decreases ps@.len() - i,
    {
        proof {
            assert(decreases_to!(ps => ps@[i as int]));
        }
        out.push((ps[i].0, ps[i].1.duplicate()));
        i = i + 1;
    }
    assert(property_seq_model(&out) =~= property_seq_model(ps));
    out
}

fn copy_symbols(v: &Vec<Symbol>) -> (r: Vec<Symbol>)
    ensures
        r@ == v@,
{
    let mut out: Vec<Symbol> = Vec::new();
    let mut i: usize = 0;
    while i < v.len()
        invariant
            0 <= i <= v@.len(),
            out@ == v@.take(i as int),
        decreases v@.len() - i,
    {
        out.push(v[i]);
        assert(out@ =~= v@.take(i + 1));
        i = i + 1;
    }
    assert(v@.take(v@.len() as int) =~= v@);
    out
}

impl Shrubbery {
    /// A deep copy of this shrubbery.
    pub fn duplicate(&self) -> (r: Self)
        ensures
            r@ == self@,
        decreases self, 1nat,
    {
        match self {
            Shrubbery::Identifier(sym, scopes, span) => Shrubbery::Identifier(*sym, scopes.duplicate(), *span),
            Shrubbery::Literal(lit, span) => Shrubbery::Literal(lit.duplicate(), *span),
            Shrubbery::Operator(sym, span) => Shrubbery::Operator(*sym, *span),
            Shrubbery::Parens(items, span) => Shrubbery::Parens(duplicate_items(items), *span),
            Shrubbery::Brackets(items, span) => Shrubbery::Brackets(duplicate_items(items), *span),
            Shrubbery::Braces(items, span) => Shrubbery::Braces(duplicate_items(items), *span),
            Shrubbery::Prose(text, span) => Shrubbery::Prose(text.clone(), *span),
            Shrubbery::ContentBlock(items, span) => Shrubbery::ContentBlock(duplicate_items(items), *span),
            Shrubbery::Sequence(items, span) => Shrubbery::Sequence(duplicate_items(items), *span),
            Shrubbery::DefBlock { name, params, return_type, body, span } => Shrubbery::DefBlock {
                name: *name,
                params: duplicate_params(params),
                return_type: duplicate_opt_box(return_type),
                body: duplicate_items(body),
                span: *span,
            },
            Shrubbery::StagedBlock { body, span } => Shrubbery::StagedBlock { body: duplicate_items(body), span: *span },
            Shrubbery::ShowRule { selector, transform, span } => Shrubbery::ShowRule {
                selector: Box::new(selector.duplicate()),
                transform: Box::new(transform.duplicate()),
                span: *span,
            },
            Shrubbery::SetRule { selector, properties, span } => Shrubbery::SetRule {
                selector: Box::new(selector.duplicate()),
                properties: duplicate_properties(properties),
                span: *span,
            },
            Shrubbery::LiveBlock { deps, body, span } => Shrubbery::LiveBlock {
                deps: match deps {
                    Some(d) => Some(copy_symbols(d)),
                    None => None,
                },
                body: duplicate_items(body),
                span: *span,
            },
            Shrubbery::Selector { base, predicate, span } => Shrubbery::Selector {
                base: *base,
                predicate: duplicate_opt_box(predicate),
                span: *span,
            },
            Shrubbery::Quote { body, span } => Shrubbery::Quote { body: Box::new(body.duplicate()), span: *span },
            Shrubbery::Splice { expr, span } => Shrubbery::Splice { expr: Box::new(expr.duplicate()), span: *span },
            Shrubbery::If { condition, then_branch, else_branch, span } => Shrubbery::If {
                condition: Box::new(condition.duplicate()),
                then_branch: Box::new(then_branch.duplicate()),
                else_branch: duplicate_opt_box(else_branch),
                span: *span,
            },
            Shrubbery::For { pattern, iterable, body, span } => Shrubbery::For {
                pattern: *pattern,
                iterable: Box::new(iterable.duplicate()),
                body: Box::new(body.duplicate()),
                span: *span,
            },
        }
    }
}

impl Param {
    /// A parameter with neither annotation nor default.
    pub fn new(name: Symbol, span: Span) -> (r: Self)
        ensures
            r.name == name,
            r.type_annotation is None,
            r.default is None,
            r.span == span,
    {
        Param { name, type_annotation: None, default: None, span }
    }

    /// This parameter with the type annotation `ty`.
    pub fn with_type(self, ty: Shrubbery) -> (r: Self)
        ensures
            r.name == self.name,
            r.type_annotation == Some(ty),
            r.default == self.default,
            r.span == self.span,
    {
        Param { type_annotation: Some(ty), ..self }
    }

    /// This parameter with the default value `value`.
    pub fn with_default(self, value: Shrubbery) -> (r: Self)
        ensures
            r.name == self.name,
            r.type_annotation == self.type_annotation,
            r.default == Some(value),
            r.span == self.span,
    {
        Param { default: Some(value), ..self }
    }
}

// ===== Text form =====

/// The debug form of a string (quoted, with escapes), as `str`'s `Debug`
/// writes it: a fixed function of the text.
pub uninterp spec fn quoted_debug(s: Seq<char>) -> Seq<char>;

/// Formats a string with `<str as Debug>::fmt`.
/// Claimed: the text is `quoted_debug` of the string, the same for the same string.
#[verifier::external_body]
pub(crate) fn debug_quoted(s: &str) -> (r: String)
    ensures
        r@ == quoted_debug(s@),
{
    format!("{:?}", s)
}

/// The text form of a literal.
pub open spec fn literal_text(l: LiteralModel) -> Seq<char> {
    match l {
        LiteralModel::NoneLit => "none"@,
        LiteralModel::Bool(b) => crate::util::text::bool_text(b),
        LiteralModel::Int(i) => crate::util::text::signed_decimal(i as int),
        LiteralModel::Float(f) => f,
        LiteralModel::String(t) => "\""@ + t + "\""@,
        LiteralModel::Symbol(t) => "'"@ + t,
    }
}

/// The text forms of items with `sep` between them.
pub open spec fn joined(items: Seq<ShrubModel>, sep: Seq<char>) -> Seq<char>
    decreases items, 1nat,
{
    if items.len() == 0 {
        Seq::empty()
    } else if items.len() == 1 {
        shrub_text(items[0])
    } else {
        joined(items.drop_last(), sep) + sep + shrub_text(items.last())
    }
}

/// The text form of a shrubbery: identifiers and operators by symbol
/// number, literals as written, groups with their items between their
/// delimiters; the block forms by their keyword.
pub open spec fn shrub_text(m: ShrubModel) -> Seq<char>
    decreases m, 0nat,
{
    match m {
        ShrubModel::Identifier(sym, _, _) => "id:"@ + crate::util::text::decimal(sym.0 as nat),
        ShrubModel::Literal(l, _) => literal_text(l),
        ShrubModel::Operator(sym, _) => "op:"@ + crate::util::text::decimal(sym.0 as nat),
        ShrubModel::Parens(items, _) => "("@ + joined(items, " "@) + ")"@,
        ShrubModel::Brackets(items, _) => "["@ + joined(items, " "@) + "]"@,
        ShrubModel::Braces(items, _) => "{"@ + joined(items, " "@) + "}"@,
        ShrubModel::Prose(t, _) => "prose:"@ + quoted_debug(t),
        ShrubModel::ContentBlock(items, _) => "content["@ + joined(items, " "@) + "]"@,
        ShrubModel::Sequence(items, _) => "seq["@ + joined(items, ", "@) + "]"@,
        ShrubModel::DefBlock { .. } => "def"@,
        ShrubModel::StagedBlock { .. } => "staged"@,
        ShrubModel::ShowRule { .. } => "show"@,
        ShrubModel::SetRule { .. } => "set"@,
        ShrubModel::LiveBlock { .. } => "live"@,
        ShrubModel::Selector { .. } => "selector"@,
        ShrubModel::Quote { .. } => "quote"@,
        ShrubModel::Splice { .. } => "splice"@,
        ShrubModel::If { .. } => "if"@,
        ShrubModel::For { .. } => "for"@,
    }
}

impl Literal {
    /// The text form of this literal.
    pub fn to_text(&self) -> (r: String)
        ensures
            r@ == literal_text(self@),
    {
        match self {
            Literal::NoneLit => crate::util::text::to_owned_string("none"),
            Literal::Bool(b) => crate::util::text::bool_to_text(*b),
            Literal::Int(i) => crate::util::text::i64_to_text(*i),
            Literal::Float(f) => f.clone(),
            Literal::String(t) => {
                let mut out = crate::util::text::to_owned_string("\"");
                crate::util::text::push_str(&mut out, t.as_str());
                crate::util::text::push_str(&mut out, "\"");
                out
            },
            Literal::Symbol(t) => {
                let mut out = crate::util::text::to_owned_string("'");
                crate::util::text::push_str(&mut out, t.as_str());
                out
            },
        }
    }
}

impl Shrubbery {
    /// The text form of this shrubbery.
    pub fn to_text(&self) -> (r: String)
        ensures
            r@ == shrub_text(self@),
        decreases self, 0nat,
    {
        match self {
            Shrubbery::Identifier(sym, _, _) => {
                let mut out = crate::util::text::to_owned_string("id:");
                let d = crate::util::text::u64_to_text(sym.0);
                crate::util::text::push_str(&mut out, d.as_str());
                out
            },
            Shrubbery::Literal(lit, _) => lit.to_text(),
            Shrubbery::Operator(sym, _) => {
                let mut out = crate::util::text::to_owned_string("op:");
                let d = crate::util::text::u64_to_text(sym.0);
                crate::util::text::push_str(&mut out, d.as_str());
                out
            },
            Shrubbery::Parens(items, _) => wrapped("(", items, " ", ")"),
            Shrubbery::Brackets(items, _) => wrapped("[", items, " ", "]"),
            Shrubbery::Braces(items, _) => wrapped("{", items, " ", "}"),
            Shrubbery::Prose(t, _) => {
                let mut out = crate::util::text::to_owned_string("prose:");
                let q = debug_quoted(t.as_str());
                crate::util::text::push_str(&mut out, q.as_str());
                out
            },
            Shrubbery::ContentBlock(items, _) => wrapped("content[", items, " ", "]"),
            Shrubbery::Sequence(items, _) => wrapped("seq[", items, ", ", "]"),
            Shrubbery::DefBlock { .. } => crate::util::text::to_owned_string("def"),
            Shrubbery::StagedBlock { .. } => crate::util::text::to_owned_string("staged"),
            Shrubbery::ShowRule { .. } => crate::util::text::to_owned_string("show"),
            Shrubbery::SetRule { .. } => crate::util::text::to_owned_string("set"),
            Shrubbery::LiveBlock { .. } => crate::util::text::to_owned_string("live"),
            Shrubbery::Selector { .. } => crate::util::text::to_owned_string("selector"),
            Shrubbery::Quote { .. } => crate::util::text::to_owned_string("quote"),
            Shrubbery::Splice { .. } => crate::util::text::to_owned_string("splice"),
            Shrubbery::If { .. } => crate::util::text::to_owned_string("if"),
            Shrubbery::For { .. } => crate::util::text::to_owned_string("for"),
        }
    }
}

/// `open`, the text forms of `items` with `sep` between them, and `close`.
fn wrapped(open: &str, items: &Vec<Shrubbery>, sep: &str, close: &str) -> (r: String)
    ensures
        r@ == open@ + joined(shrub_models(items), sep@) + close@,
    decreases items, 1nat,
{
    let ghost ms = shrub_models(items);
    let mut out = crate::util::text::to_owned_string(open);
    let mut i: usize = 0;
    while i < items.len()
        invariant
            0 <= i <= items@.len(),
            ms == shrub_models(items),
            out@ == open@ + joined(ms.take(i as int), sep@),
        decreases items@.len() - i,
    {
        proof {
            assert(decreases_to!(items => items@[i as int]));
        }
        let ghost before = out@;
        if i > 0 {
            crate::util::text::push_str(&mut out, sep);
        }
        let t = items[i].to_text();
        crate::util::text::push_str(&mut out, t.as_str());
        proof {
            let tk = ms.take(i + 1);
            assert(tk.drop_last() =~= ms.take(i as int));
            assert(tk.last() == items@[i as int]@);
            if i == 0 {
                assert(ms.take(0) =~= Seq::<ShrubModel>::empty());
                assert(joined(ms.take(0), sep@) == Seq::<char>::empty());
                assert(out@ =~= open@ + joined(tk, sep@));
            } else {
                assert(out@ =~= open@ + joined(tk, sep@));
            }
        }
        i = i + 1;
    }
    assert(ms.take(items@.len() as int) =~= ms);
    crate::util::text::push_str(&mut out, close);
    out
}

} // verus!
