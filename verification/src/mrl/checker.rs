//! Type checking: the type environment with stage levels, the built-in
//! bindings, and the typing rules for operators, calls, subscripts, field
//! access and type annotations.

use vstd::prelude::*;
use crate::mrl::content::{Content, Inline};
use crate::mrl::enforest::{BinOp, Expr, ExprModel, UnOp, expr_models, expr_span};
use crate::mrl::error::{MrlError, Span};
use crate::mrl::expander::{ExpandValue, value_type};
use crate::mrl::shrubbery::{Literal, LiteralModel, Shrubbery, ShrubModel, Symbol, shrub_models, shrub_span};
use crate::mrl::types::{ContentKind, MrlType, TypeModel, subtype, type_text, models, field_models};
use crate::util::strmap::StrMap;
use crate::util::text::{str_eq, push_str, to_owned_string, u64_to_text, decimal};
use std::collections::HashMap;

verus! {

/// A binding with its type and stage level.
#[derive(Debug)]
pub struct TypeBinding {
    pub ty: MrlType,
    /// Stage level at which this binding was introduced:
    /// 0 = expand-time, 1+ = within quote.
    pub stage: usize,
}

/// Type environment for type checking.
#[derive(Debug)]
pub struct TypeEnv {
    bindings: StrMap<TypeBinding>,
}

impl View for TypeEnv {
    type V = Map<Seq<char>, (TypeModel, usize)>;

    /// Each bound name to its type and stage.
    closed spec fn view(&self) -> Map<Seq<char>, (TypeModel, usize)> {
        Map::new(
            |k: Seq<char>| self.bindings.has(k),
            |k: Seq<char>| (self.bindings.value_at(k).ty@, self.bindings.value_at(k).stage),
        )
    }
}

impl TypeEnv {
    /// An environment without bindings.
    pub fn new() -> (r: Self)
        ensures
            r@ == Map::<Seq<char>, (TypeModel, usize)>::empty(),
    {
        let r = TypeEnv { bindings: StrMap::new() };
        assert(r@ =~= Map::<Seq<char>, (TypeModel, usize)>::empty());
        r
    }

    /// Bind a name with type and stage level, replacing any binding of it.
    pub fn bind_at_stage(&mut self, name: String, ty: MrlType, stage: usize)
        ensures
            final(self)@ == old(self)@.insert(name@, (ty@, stage)),
    {
        let ghost before = self@;
        let ghost k = name@;
        let ghost v = (ty@, stage);
        self.bindings.insert(name, TypeBinding { ty, stage });
        assert(self@ =~= before.insert(k, v));
    }

    /// Bind a name at stage 0.
    pub fn bind(&mut self, name: String, ty: MrlType)
        ensures
            final(self)@ == old(self)@.insert(name@, (ty@, 0usize)),
    {
        self.bind_at_stage(name, ty, 0);
    }

    /// Look up a binding's type, whatever its stage.
    pub fn lookup(&self, name: &str) -> (r: Option<&MrlType>)
        ensures
            match r {
                Some(t) => self@.contains_key(name@) && t@ == self@[name@].0,
                None => !self@.contains_key(name@),
            },
    {
        match self.bindings.get(name) {
            Some(b) => Some(&b.ty),
            None => None,
        }
    }

    /// Look up a binding with its stage.
    pub fn lookup_binding(&self, name: &str) -> (r: Option<&TypeBinding>)
        ensures
            match r {
                Some(b) => self@.contains_key(name@) && (b.ty@, b.stage) == self@[name@],
                None => !self@.contains_key(name@),
            },
    {
        self.bindings.get(name)
    }

    /// Look up a binding usable at `current_stage`: a binding introduced at
    /// stage n can be used at stage m iff n <= m (cross-stage persistence).
    pub fn lookup_at_stage(&self, name: &str, current_stage: usize) -> (r: Option<&MrlType>)
        ensures
            match r {
                Some(t) => self@.contains_key(name@) && self@[name@].1 <= current_stage && t@ == self@[name@].0,
                None => !self@.contains_key(name@) || self@[name@].1 > current_stage,
            },
    {
        match self.bindings.get(name) {
            Some(b) => if b.stage <= current_stage { Some(&b.ty) } else { None },
            None => None,
        }
    }

    /// A copy of this environment, to extend without changing this one.
    pub fn child(&self) -> (r: Self)
        ensures
            r@ == self@,
    {
        let entries = self.bindings.entries();
        let mut out: StrMap<TypeBinding> = StrMap::new();
        let mut i: usize = 0;
        while i < entries.len()
            invariant
                0 <= i <= entries@.len(),
                forall|j: int| #![trigger entries@[j]] 0 <= j < entries@.len() ==> self.bindings.has(entries@[j].0@) && self.bindings.value_at(entries@[j].0@) == entries@[j].1,
                forall|a: int, b: int| 0 <= a < b < entries@.len() ==> #[trigger] entries@[a].0@ != #[trigger] entries@[b].0@,
                forall|j: int| #![trigger entries@[j]] 0 <= j < i ==> out.has(entries@[j].0@)
                    && out.value_at(entries@[j].0@).ty@ == entries@[j].1.ty@
                    && out.value_at(entries@[j].0@).stage == entries@[j].1.stage,
                forall|k: Seq<char>| #[trigger] out.has(k) ==> exists|j: int| 0 <= j < i && #[trigger] entries@[j].0@ == k,
            decreases entries@.len() - i,
        {
            let b = &entries[i].1;
            let ghost ki = entries@[i as int].0@;
            out.insert(entries[i].0.clone(), TypeBinding { ty: b.ty.duplicate(), stage: b.stage });
            assert forall|k: Seq<char>| #[trigger] out.has(k) implies exists|j: int| 0 <= j < i + 1 && #[trigger] entries@[j].0@ == k by {
                if k != ki {
                    let j = choose|j: int| 0 <= j < i && #[trigger] entries@[j].0@ == k;
                    assert(entries@[j].0@ == k);
                } else {
                    assert(entries@[i as int].0@ == k);
                }
            }
            i = i + 1;
        }
        let r = TypeEnv { bindings: out };
        assert forall|k: Seq<char>| #[trigger] r@.contains_key(k) == self@.contains_key(k) by {
            if self.bindings.has(k) {
                let j = choose|j: int| 0 <= j < entries@.len() && #[trigger] entries@[j].0@ == k;
                assert(entries@[j].0@ == k);
            }
            if r.bindings.has(k) {
                let j = choose|j: int| 0 <= j < entries@.len() && #[trigger] entries@[j].0@ == k;
                assert(entries@[j].0@ == k);
            }
        }
        assert forall|k: Seq<char>| #[trigger] r@.contains_key(k) implies r@[k] == self@[k] by {
            let j = choose|j: int| 0 <= j < entries@.len() && #[trigger] entries@[j].0@ == k;
            assert(entries@[j].0@ == k);
        }
        assert(r@ =~= self@);
        r
    }
}

impl Default for TypeEnv {
    fn default() -> (r: Self)
        ensures
            r@ == Map::<Seq<char>, (TypeModel, usize)>::empty(),
    {
        TypeEnv::new()
    }
}

/// The type of a function from `params` to `ret`.
pub open spec fn fn_type(params: Seq<TypeModel>, ret: TypeModel) -> TypeModel {
    TypeModel::Function { params, ret: Box::new(ret) }
}

/// The built-in bindings: the content constructors and the staging
/// operations, all at stage 0.
pub open spec fn builtin_env() -> Map<Seq<char>, (TypeModel, usize)> {
    Map::<Seq<char>, (TypeModel, usize)>::empty()
        .insert("text"@, (fn_type(seq![TypeModel::Str], TypeModel::Inline), 0usize))
        .insert("paragraph"@, (fn_type(seq![TypeModel::Inline], TypeModel::Block), 0usize))
        .insert("heading"@, (fn_type(seq![TypeModel::Int, TypeModel::Inline], TypeModel::Block), 0usize))
        .insert("emphasis"@, (fn_type(seq![TypeModel::Inline], TypeModel::Inline), 0usize))
        .insert("strong"@, (fn_type(seq![TypeModel::Inline], TypeModel::Inline), 0usize))
        .insert("code"@, (fn_type(seq![TypeModel::Str], TypeModel::Inline), 0usize))
        .insert("codeblock"@, (fn_type(seq![TypeModel::Str, TypeModel::Str], TypeModel::Block), 0usize))
        .insert("blockquote"@, (fn_type(seq![TypeModel::Content], TypeModel::Block), 0usize))
        .insert("directive"@, (fn_type(seq![TypeModel::Str, TypeModel::Content], TypeModel::Block), 0usize))
        .insert("quote"@, (fn_type(seq![TypeModel::Content], TypeModel::Code(ContentKind::Content)), 0usize))
        .insert("splice"@, (fn_type(seq![TypeModel::Code(ContentKind::Content)], TypeModel::Content), 0usize))
}

/// The name under which `bind_symbol` binds a symbol: `id:` and its number.
pub open spec fn symbol_key(sym: Symbol) -> Seq<char> {
    "id:"@ + decimal(sym.0 as nat)
}

/// `m` with the entries `es` (name, symbol) added in order, each symbol
/// to its name.
pub open spec fn names_added(m: Map<u64, Seq<char>>, es: Seq<(Seq<char>, Symbol)>) -> Map<u64, Seq<char>>
    decreases es.len(),
{
    if es.len() == 0 {
        m
    } else {
        names_added(m, es.drop_last()).insert(es.last().1.0, es.last().0)
    }
}

/// `e` is a type error at `span` with message `msg`.
pub open spec fn is_type_error(e: MrlError, span: Span, msg: Seq<char>) -> bool {
    e matches MrlError::TypeError { span: s, message: m } && s == span && m@ == msg
}

/// The models of a slice of types.
pub open spec fn type_models(ts: Seq<MrlType>) -> Seq<TypeModel> {
    ts.map_values(|t: MrlType| t@)
}

/// Type checker for staged fragments.
#[derive(Debug)]
pub struct TypeChecker {
    env: TypeEnv,
    /// Current stage level (0 = expand-time, 1+ = quoted)
    stage_level: usize,
    /// Reverse mapping from Symbol to name for Var lookup fallback
    symbol_names: HashMap<u64, String>,
}

impl TypeChecker {
    /// The bindings in scope.
    pub closed spec fn env_map(&self) -> Map<Seq<char>, (TypeModel, usize)> {
        self.env@
    }

    /// The current stage level.
    pub closed spec fn stage(&self) -> usize {
        self.stage_level
    }

    /// The registered names of symbols.
    pub closed spec fn names(&self) -> Map<u64, Seq<char>> {
        Map::new(|k: u64| self.symbol_names@.contains_key(k), |k: u64| self.symbol_names@[k]@)
    }

    /// A checker at stage 0 with the built-in bindings and no symbol names.
    pub fn new() -> (r: Self)
        ensures
            r.env_map() == builtin_env(),
            r.stage() == 0,
            r.names() == Map::<u64, Seq<char>>::empty(),
    {
        let mut checker = TypeChecker { env: TypeEnv::new(), stage_level: 0, symbol_names: HashMap::new() };
        checker.register_builtins();
        assert(checker.names() =~= Map::<u64, Seq<char>>::empty());
        checker
    }

    /// Register a symbol's name for reverse lookup.
    pub fn register_symbol(&mut self, sym: Symbol, name: &str)
        ensures
            final(self).names() == old(self).names().insert(sym.0, name@),
            final(self).env_map() == old(self).env_map(),
            final(self).stage() == old(self).stage(),
    {
        let ghost before = self.names();
        self.symbol_names.insert(sym.0, to_owned_string(name));
        assert(self.names() =~= before.insert(sym.0, name@));
    }

    /// Register the symbols of a symbol table, in its order.
    pub fn register_symbols(&mut self, symbols: &StrMap<Symbol>)
        ensures
            final(self).names() == names_added(old(self).names(), symbols.entry_seq()),
            final(self).env_map() == old(self).env_map(),
            final(self).stage() == old(self).stage(),
    {
        let ghost start = self.names();
        let ghost es = symbols.entry_seq();
        let entries = symbols.entries();
        let mut i: usize = 0;
        while i < entries.len()
            invariant
                0 <= i <= entries@.len(),
                entries@.len() == es.len(),
                es == symbols.entry_seq(),
                forall|j: int| #![trigger entries@[j]] 0 <= j < entries@.len() ==> entries@[j].0@ == es[j].0 && entries@[j].1 == es[j].1,
                self.names() == names_added(start, es.take(i as int)),
                self.env_map() == old(self).env_map(),
                self.stage() == old(self).stage(),
            decreases entries@.len() - i,
        {
            let ghost before = self.names();
            let sym = entries[i].1;
            let name = entries[i].0.clone();
            self.symbol_names.insert(sym.0, name);
            assert(self.names() =~= before.insert(sym.0, es[i as int].0));
            assert(es.take(i + 1).drop_last() =~= es.take(i as int));
            i = i + 1;
        }
        assert(es.take(entries@.len() as int) =~= es);
    }

    fn bind_builtin(&mut self, name: &str, params: Vec<MrlType>, ret: MrlType)
        ensures
            final(self).env_map() == old(self).env_map().insert(name@, (fn_type(type_models(params@), ret@), 0usize)),
            final(self).names() == old(self).names(),
            final(self).stage() == old(self).stage(),
    {
        let ghost pm = type_models(params@);
        let ty = MrlType::Function { params, ret: Box::new(ret) };
        assert(models(&params) =~= pm);
        self.env.bind(to_owned_string(name), ty);
    }

    fn register_builtins(&mut self)
        ensures
            final(self).env_map() == old(self).env_map()
                .insert("text"@, (fn_type(seq![TypeModel::Str], TypeModel::Inline), 0usize))
                .insert("paragraph"@, (fn_type(seq![TypeModel::Inline], TypeModel::Block), 0usize))
                .insert("heading"@, (fn_type(seq![TypeModel::Int, TypeModel::Inline], TypeModel::Block), 0usize))
                .insert("emphasis"@, (fn_type(seq![TypeModel::Inline], TypeModel::Inline), 0usize))
                .insert("strong"@, (fn_type(seq![TypeModel::Inline], TypeModel::Inline), 0usize))
                .insert("code"@, (fn_type(seq![TypeModel::Str], TypeModel::Inline), 0usize))
                .insert("codeblock"@, (fn_type(seq![TypeModel::Str, TypeModel::Str], TypeModel::Block), 0usize))
                .insert("blockquote"@, (fn_type(seq![TypeModel::Content], TypeModel::Block), 0usize))
                .insert("directive"@, (fn_type(seq![TypeModel::Str, TypeModel::Content], TypeModel::Block), 0usize))
                .insert("quote"@, (fn_type(seq![TypeModel::Content], TypeModel::Code(ContentKind::Content)), 0usize))
                .insert("splice"@, (fn_type(seq![TypeModel::Code(ContentKind::Content)], TypeModel::Content), 0usize)),
            final(self).names() == old(self).names(),
            final(self).stage() == old(self).stage(),
    {
        // Content constructors
        let p = vec![MrlType::String];
        assert(type_models(p@) =~= seq![TypeModel::Str]);
        self.bind_builtin("text", p, MrlType::Inline);
        let p = vec![MrlType::Inline];
        assert(type_models(p@) =~= seq![TypeModel::Inline]);
        self.bind_builtin("paragraph", p, MrlType::Block);
        let p = vec![MrlType::Int, MrlType::Inline];
        assert(type_models(p@) =~= seq![TypeModel::Int, TypeModel::Inline]);
        self.bind_builtin("heading", p, MrlType::Block);
        let p = vec![MrlType::Inline];
        assert(type_models(p@) =~= seq![TypeModel::Inline]);
        self.bind_builtin("emphasis", p, MrlType::Inline);
        let p = vec![MrlType::Inline];
        assert(type_models(p@) =~= seq![TypeModel::Inline]);
        self.bind_builtin("strong", p, MrlType::Inline);
        let p = vec![MrlType::String];
        assert(type_models(p@) =~= seq![TypeModel::Str]);
        self.bind_builtin("code", p, MrlType::Inline);
        // Block constructors
        let p = vec![MrlType::String, MrlType::String];
        assert(type_models(p@) =~= seq![TypeModel::Str, TypeModel::Str]);
        self.bind_builtin("codeblock", p, MrlType::Block);
        let p = vec![MrlType::Content];
        assert(type_models(p@) =~= seq![TypeModel::Content]);
        self.bind_builtin("blockquote", p, MrlType::Block);
        let p = vec![MrlType::String, MrlType::Content];
        assert(type_models(p@) =~= seq![TypeModel::Str, TypeModel::Content]);
        self.bind_builtin("directive", p, MrlType::Block);
        // Staging operations
        let p = vec![MrlType::Content];
        assert(type_models(p@) =~= seq![TypeModel::Content]);
        self.bind_builtin("quote", p, MrlType::Code(ContentKind::Content));
        let p = vec![MrlType::Code(ContentKind::Content)];
        assert(type_models(p@) =~= seq![TypeModel::Code(ContentKind::Content)]);
        self.bind_builtin("splice", p, MrlType::Content);
    }

    /// Check that inline content doesn't contain blocks. Inline content
    /// cannot hold a block in this representation, so every content passes.
    #[verifier::loop_isolation(false)]
    pub fn check_content_nesting(&self, content: &Content, span: Span) -> (r: Result<(), MrlError>)
        ensures
            r is Ok,
        decreases content,
    {
        match content {
            Content::Inline(inline) => self.check_inline_nesting(inline, span),
            Content::Block(_) => Ok(()),
            Content::Sequence(items) => {
                let mut i: usize = 0;
                while i < items.len()
                    invariant
                        0 <= i <= items@.len(),
                    decreases items@.len() - i,
                {
                    assert(decreases_to!(content => items@[i as int]));
                    let r = self.check_content_nesting(&items[i], span);
                    if r.is_err() {
                        return r;
                    }
                    i = i + 1;
                }
                Ok(())
            },
        }
    }

    #[verifier::loop_isolation(false)]
    fn check_inline_nesting(&self, inline: &Inline, span: Span) -> (r: Result<(), MrlError>)
        ensures
            r is Ok,
        decreases inline,
    {
        match inline {
            Inline::Text(_) | Inline::Code(_) | Inline::Image { .. } | Inline::Reference(_) | Inline::Math(_) => Ok(()),
            Inline::Emphasis(body) | Inline::Strong(body) | Inline::Span { body, .. } => self.check_inline_nesting(body, span),
            Inline::Link { body, .. } => self.check_inline_nesting(body, span),
            Inline::Sequence(items) => {
                let mut i: usize = 0;
                while i < items.len()
                    invariant
                        0 <= i <= items@.len(),
                    decreases items@.len() - i,
                {
                    assert(decreases_to!(inline => items@[i as int]));
                    let r = self.check_inline_nesting(&items[i], span);
                    if r.is_err() {
                        return r;
                    }
                    i = i + 1;
                }
                Ok(())
            },
        }
    }

    /// Bind a selector type for a given name.
    pub fn bind_selector(&mut self, name: &str, kind: ContentKind)
        ensures
            final(self).env_map() == old(self).env_map().insert(name@, (TypeModel::Selector(kind), 0usize)),
            final(self).names() == old(self).names(),
            final(self).stage() == old(self).stage(),
    {
        self.env.bind(to_owned_string(name), MrlType::Selector(kind));
    }

    /// Bind a symbol to a type, under the name `id:` and its number.
    pub fn bind_symbol(&mut self, sym: Symbol, ty: MrlType)
        ensures
            final(self).env_map() == old(self).env_map().insert(symbol_key(sym), (ty@, 0usize)),
            final(self).names() == old(self).names(),
            final(self).stage() == old(self).stage(),
    {
        let mut key = to_owned_string("id:");
        let digits = u64_to_text(sym.id());
        push_str(&mut key, digits.as_str());
        self.env.bind(key, ty);
    }
}

impl Default for TypeChecker {
    fn default() -> (r: Self)
        ensures
            r.env_map() == builtin_env(),
            r.stage() == 0,
            r.names() == Map::<u64, Seq<char>>::empty(),
    {
        TypeChecker::new()
    }
}

/// The result type of arithmetic on `l` and `r`: integers stay integers,
/// anything with a float becomes a float, other operands are refused.
pub open spec fn arith_result(l: TypeModel, r: TypeModel) -> Option<TypeModel> {
    match (l, r) {
        (TypeModel::Int, TypeModel::Int) => Some(TypeModel::Int),
        (TypeModel::Float, TypeModel::Float) => Some(TypeModel::Float),
        (TypeModel::Int, TypeModel::Float) => Some(TypeModel::Float),
        (TypeModel::Float, TypeModel::Int) => Some(TypeModel::Float),
        _ => None,
    }
}

/// Block, Inline or Content.
pub open spec fn is_content_type(t: TypeModel) -> bool {
    t is Block || t is Inline || t is Content
}

/// The type of `l op r`, or `None` where the operands do not fit.
pub open spec fn binop_type(l: TypeModel, op: BinOp, r: TypeModel) -> Option<TypeModel> {
    match op {
        BinOp::Add | BinOp::Sub | BinOp::Mul | BinOp::Div | BinOp::Mod | BinOp::Pow => arith_result(l, r),
        BinOp::Eq | BinOp::Ne | BinOp::Lt | BinOp::Le | BinOp::Gt | BinOp::Ge => Some(TypeModel::Bool),
        BinOp::And | BinOp::Or => if l == TypeModel::Bool && r == TypeModel::Bool { Some(TypeModel::Bool) } else { None },
        BinOp::Concat => match (l, r) {
            (TypeModel::Str, TypeModel::Str) => Some(TypeModel::Str),
            (TypeModel::Array(a), TypeModel::Array(b)) => if a == b { Some(TypeModel::Array(a)) } else { None },
            _ => if is_content_type(l) && is_content_type(r) {
                if l == r { Some(l) } else { Some(TypeModel::Content) }
            } else {
                None
            },
        },
        BinOp::Assign => Some(r),
    }
}

/// An arithmetic operator: `+ - * / %` and power.
pub open spec fn is_arith_op(op: BinOp) -> bool {
    op is Add || op is Sub || op is Mul || op is Div || op is Mod || op is Pow
}

/// Arithmetic is typed on numbers alone: it accepts exactly two operands
/// that are each `Int` or `Float`; `Int` with `Int` gives `Int`, and as
/// soon as one side is `Float` the result is `Float`, in either order. The
/// type does not depend on the order of the operands.
pub proof fn lemma_arith_typing(l: TypeModel, op: BinOp, r: TypeModel)
    requires
        is_arith_op(op),
    ensures
        binop_type(l, op, r) == binop_type(r, op, l),
        (binop_type(l, op, r) is Some) <==> ((l is Int || l is Float) && (r is Int || r is Float)),
        l is Int && r is Int ==> binop_type(l, op, r) == Some(TypeModel::Int),
        (l is Float && (r is Int || r is Float)) ==> binop_type(l, op, r) == Some(TypeModel::Float),
        (r is Float && (l is Int || l is Float)) ==> binop_type(l, op, r) == Some(TypeModel::Float),
        binop_type(TypeModel::Float, op, TypeModel::Int) == Some(TypeModel::Float),
        binop_type(TypeModel::Int, op, TypeModel::Float) == Some(TypeModel::Float),
{
}

/// `and` and `or` accept exactly two `Bool` operands and give `Bool`;
/// concatenation joins two strings into a string, two arrays of one element
/// type into such an array, and two pieces of content into content, kept
/// as their kind when both have the same kind.
pub proof fn lemma_logic_and_concat_typing(l: TypeModel, r: TypeModel)
    ensures
        binop_type(l, BinOp::And, r) == (if l is Bool && r is Bool { Some(TypeModel::Bool) } else { None::<TypeModel> }),
        binop_type(l, BinOp::Or, r) == (if l is Bool && r is Bool { Some(TypeModel::Bool) } else { None::<TypeModel> }),
        binop_type(TypeModel::Str, BinOp::Concat, TypeModel::Str) == Some(TypeModel::Str),
        binop_type(TypeModel::Array(Box::new(l)), BinOp::Concat, TypeModel::Array(Box::new(l))) == Some(TypeModel::Array(Box::new(l))),
        (is_content_type(l) && is_content_type(r)) ==> binop_type(l, BinOp::Concat, r) == Some(if l == r { l } else { TypeModel::Content }),
        (l is Int || l is Float || l is Bool) ==> binop_type(l, BinOp::Concat, r) is None,
{
}

/// Comparisons accept operands of any types and always give `Bool`.
pub proof fn lemma_comparison_typing(l: TypeModel, op: BinOp, r: TypeModel)
    requires
        op is Eq || op is Ne || op is Lt || op is Le || op is Gt || op is Ge,
    ensures
        binop_type(l, op, r) == Some(TypeModel::Bool),
{
}

/// The name of a binary operator as `Debug` prints it.
pub open spec fn binop_name(op: BinOp) -> Seq<char> {
    match op {
        BinOp::Add => "Add"@,
        BinOp::Sub => "Sub"@,
        BinOp::Mul => "Mul"@,
        BinOp::Div => "Div"@,
        BinOp::Mod => "Mod"@,
        BinOp::Pow => "Pow"@,
        BinOp::Eq => "Eq"@,
        BinOp::Ne => "Ne"@,
        BinOp::Lt => "Lt"@,
        BinOp::Le => "Le"@,
        BinOp::Gt => "Gt"@,
        BinOp::Ge => "Ge"@,
        BinOp::And => "And"@,
        BinOp::Or => "Or"@,
        BinOp::Concat => "Concat"@,
        BinOp::Assign => "Assign"@,
    }
}

/// The message of the type error for `l op r`.
pub open spec fn binop_error(l: TypeModel, op: BinOp, r: TypeModel) -> Seq<char> {
    match op {
        BinOp::And | BinOp::Or => "Logical operators require Bool, got "@ + type_text(l) + " and "@ + type_text(r),
        BinOp::Concat => "Cannot concatenate "@ + type_text(l) + " and "@ + type_text(r),
        _ => "Cannot apply "@ + binop_name(op) + " to "@ + type_text(l) + " and "@ + type_text(r),
    }
}

/// The type of `op t`, or `None` where the operand does not fit.
pub open spec fn unop_type(op: UnOp, t: TypeModel) -> Option<TypeModel> {
    match op {
        UnOp::Neg => match t {
            TypeModel::Int => Some(TypeModel::Int),
            TypeModel::Float => Some(TypeModel::Float),
            _ => None,
        },
        UnOp::Not => if t == TypeModel::Bool { Some(TypeModel::Bool) } else { None },
    }
}

/// The message of the type error for `op t`.
pub open spec fn unop_error(op: UnOp, t: TypeModel) -> Seq<char> {
    match op {
        UnOp::Neg => "Cannot negate "@ + type_text(t),
        UnOp::Not => "Cannot apply 'not' to "@ + type_text(t),
    }
}

/// The first position where an argument is not a subtype of its parameter.
pub open spec fn first_mismatch(args: Seq<TypeModel>, params: Seq<TypeModel>) -> Option<int>
    decreases args.len(),
{
    if args.len() == 0 {
        None
    } else if !subtype(args[0], params[0]) {
        Some(0)
    } else {
        match first_mismatch(args.drop_first(), params.drop_first()) {
            Some(k) => Some(k + 1),
            None => None,
        }
    }
}

/// The name a field symbol is looked up by: its registered name, else
/// `field_` and its number.
pub open spec fn field_label(names: Map<u64, Seq<char>>, sym: Symbol) -> Seq<char> {
    if names.contains_key(sym.0) { names[sym.0] } else { "field_"@ + decimal(sym.0 as nat) }
}

/// The type of the first field named `n`.
pub open spec fn field_type(fields: Seq<(Seq<char>, TypeModel)>, n: Seq<char>) -> Option<TypeModel>
    decreases fields.len(),
{
    if fields.len() == 0 {
        None
    } else if fields[0].0 == n {
        Some(fields[0].1)
    } else {
        field_type(fields.drop_first(), n)
    }
}

/// The type of the `attrs` field of content: `{id: String, classes: Array<String>}`.
pub open spec fn attrs_record() -> TypeModel {
    TypeModel::Record(seq![("id"@, TypeModel::Str), ("classes"@, TypeModel::Array(Box::new(TypeModel::Str)))])
}

/// The type a type name stands for; unknown names stand for Dyn.
pub open spec fn type_named(n: Seq<char>) -> TypeModel {
    if n == "None"@ || n == "none"@ { TypeModel::NoneType }
    else if n == "Bool"@ || n == "bool"@ { TypeModel::Bool }
    else if n == "Int"@ || n == "int"@ { TypeModel::Int }
    else if n == "Float"@ || n == "float"@ { TypeModel::Float }
    else if n == "String"@ || n == "string"@ || n == "str"@ { TypeModel::Str }
    else if n == "Symbol"@ || n == "symbol"@ { TypeModel::Symbol }
    else if n == "Content"@ || n == "content"@ { TypeModel::Content }
    else if n == "Block"@ || n == "block"@ { TypeModel::Block }
    else if n == "Inline"@ || n == "inline"@ { TypeModel::Inline }
    else { TypeModel::Dyn }
}

/// The content kind a kind name stands for; other names stand for Content.
pub open spec fn kind_named(n: Seq<char>) -> ContentKind {
    if n == "Block"@ || n == "block"@ { ContentKind::Block }
    else if n == "Inline"@ || n == "inline"@ { ContentKind::Inline }
    else { ContentKind::Content }
}

/// The registered name of `sym`, or the empty text.
pub open spec fn name_or_empty(names: Map<u64, Seq<char>>, sym: Symbol) -> Seq<char> {
    if names.contains_key(sym.0) { names[sym.0] } else { Seq::empty() }
}

/// The content kind a kind annotation stands for.
pub open spec fn kind_of_annotation(m: ShrubModel, names: Map<u64, Seq<char>>) -> ContentKind {
    match m {
        ShrubModel::Identifier(sym, _, _) => kind_named(name_or_empty(names, sym)),
        _ => ContentKind::Content,
    }
}

/// The values of the `Some` entries, in order.
pub open spec fn somes<A>(s: Seq<Option<A>>) -> Seq<A>
    decreases s.len(),
{
    if s.len() == 0 {
        Seq::empty()
    } else {
        match s.last() {
            Some(x) => somes(s.drop_last()).push(x),
            None => somes(s.drop_last()),
        }
    }
}

/// The field that an entry `name: Type` of a record annotation declares;
/// a field without a registered name is called `f` and its number.
pub open spec fn annotated_field(item: ShrubModel, names: Map<u64, Seq<char>>) -> Option<(Seq<char>, TypeModel)>
    decreases item,
{
    match item {
        ShrubModel::Sequence(parts, _) => if parts.len() >= 2 {
            match parts[0] {
                ShrubModel::Identifier(sym, _, _) => Some((
                    if names.contains_key(sym.0) { names[sym.0] } else { "f"@ + decimal(sym.0 as nat) },
                    annotated_type(parts[1], names),
                )),
                _ => None,
            }
        } else {
            None
        },
        _ => None,
    }
}

/// The field declared by each entry of a record annotation, if any.
pub open spec fn annotated_fields(items: Seq<ShrubModel>, names: Map<u64, Seq<char>>) -> Seq<Option<(Seq<char>, TypeModel)>>
    decreases items,
{
    Seq::new(items.len(), |i: int| if 0 <= i < items.len() { annotated_field(items[i], names) } else { None })
}

/// The type a type annotation stands for: a type name; `[T]`; `Array T`,
/// `List T`, `Signal T`, `Code K`, `Selector K`; a record `{name: T, ...}`
/// with at least one field; anything else is Dyn.
pub open spec fn annotated_type(m: ShrubModel, names: Map<u64, Seq<char>>) -> TypeModel
    decreases m,
{
    match m {
        ShrubModel::Identifier(sym, _, _) => if names.contains_key(sym.0) { type_named(names[sym.0]) } else { TypeModel::Dyn },
        ShrubModel::Brackets(items, _) => if items.len() == 1 {
            TypeModel::Array(Box::new(annotated_type(items[0], names)))
        } else {
            TypeModel::Dyn
        },
        ShrubModel::Sequence(items, _) => if items.len() >= 2 {
            match items[0] {
                ShrubModel::Identifier(sym, _, _) => {
                    let n = name_or_empty(names, sym);
                    if n == "Array"@ || n == "List"@ {
                        TypeModel::Array(Box::new(annotated_type(items[1], names)))
                    } else if n == "Code"@ {
                        TypeModel::Code(kind_of_annotation(items[1], names))
                    } else if n == "Signal"@ {
                        TypeModel::Signal(Box::new(annotated_type(items[1], names)))
                    } else if n == "Selector"@ {
                        TypeModel::Selector(kind_of_annotation(items[1], names))
                    } else {
                        TypeModel::Dyn
                    }
                },
                _ => TypeModel::Dyn,
            }
        } else {
            TypeModel::Dyn
        },
        ShrubModel::Braces(items, _) => {
            let fs = somes(annotated_fields(items, names));
            if fs.len() == 0 { TypeModel::Dyn } else { TypeModel::Record(fs) }
        },
        _ => TypeModel::Dyn,
    }
}

fn text_of_type(prefix: &str, t: &MrlType) -> (r: String)
    ensures
        r@ == prefix@ + type_text(t@),
{
    let mut s = to_owned_string(prefix);
    let x = t.to_string();
    push_str(&mut s, x.as_str());
    s
}

fn text_of_types(prefix: &str, t1: &MrlType, middle: &str, t2: &MrlType) -> (r: String)
    ensures
        r@ == prefix@ + type_text(t1@) + middle@ + type_text(t2@),
{
    let mut s = text_of_type(prefix, t1);
    push_str(&mut s, middle);
    let x = t2.to_string();
    push_str(&mut s, x.as_str());
    s
}

fn binop_label(op: &BinOp) -> (r: &'static str)
    ensures
        r@ == binop_name(*op),
{
    match op {
        BinOp::Add => "Add",
        BinOp::Sub => "Sub",
        BinOp::Mul => "Mul",
        BinOp::Div => "Div",
        BinOp::Mod => "Mod",
        BinOp::Pow => "Pow",
        BinOp::Eq => "Eq",
        BinOp::Ne => "Ne",
        BinOp::Lt => "Lt",
        BinOp::Le => "Le",
        BinOp::Gt => "Gt",
        BinOp::Ge => "Ge",
        BinOp::And => "And",
        BinOp::Or => "Or",
        BinOp::Concat => "Concat",
        BinOp::Assign => "Assign",
    }
}

impl TypeChecker {
    /// Type of a literal.
    pub fn type_of_literal(&self, lit: &Literal) -> (r: MrlType)
        ensures
            r@ == literal_type(lit@),
    {
        match lit {
            Literal::NoneLit => MrlType::NoneType,
            Literal::Bool(_) => MrlType::Bool,
            Literal::Int(_) => MrlType::Int,
            Literal::Float(_) => MrlType::Float,
            Literal::String(_) => MrlType::String,
            Literal::Symbol(_) => MrlType::Symbol,
        }
    }

    /// Check a binary operation.
    pub fn check_binop(&self, left: &MrlType, op: &BinOp, right: &MrlType, span: Span) -> (r: Result<MrlType, MrlError>)
        ensures
            match binop_type(left@, *op, right@) {
                Some(t) => r matches Ok(x) && x@ == t,
                None => r matches Err(e) && is_type_error(e, span, binop_error(left@, *op, right@)),
            },
    {
        match op {
            BinOp::Add | BinOp::Sub | BinOp::Mul | BinOp::Div | BinOp::Mod | BinOp::Pow => {
                match (left, right) {
                    (MrlType::Int, MrlType::Int) => Ok(MrlType::Int),
                    (MrlType::Float, MrlType::Float) => Ok(MrlType::Float),
                    (MrlType::Int, MrlType::Float) | (MrlType::Float, MrlType::Int) => Ok(MrlType::Float),
                    _ => {
                        let mut m = to_owned_string("Cannot apply ");
                        push_str(&mut m, binop_label(op));
                        let rest = text_of_types(" to ", left, " and ", right);
                        push_str(&mut m, rest.as_str());
                        assert(m@ =~= binop_error(left@, *op, right@));
                        Err(MrlError::TypeError { span, message: m })
                    },
                }
            },
            BinOp::Eq | BinOp::Ne | BinOp::Lt | BinOp::Le | BinOp::Gt | BinOp::Ge => Ok(MrlType::Bool),
            BinOp::And | BinOp::Or => {
                let both = match (left, right) {
                    (MrlType::Bool, MrlType::Bool) => true,
                    _ => false,
                };
                if !both {
                    return Err(MrlError::TypeError {
                        span,
                        message: text_of_types("Logical operators require Bool, got ", left, " and ", right),
                    });
                }
                Ok(MrlType::Bool)
            },
            BinOp::Concat => {
                match (left, right) {
                    (MrlType::String, MrlType::String) => Ok(MrlType::String),
                    (MrlType::Array(t1), MrlType::Array(t2)) => {
                        if t1.ty_eq(t2) {
                            Ok(MrlType::Array(Box::new(t1.duplicate())))
                        } else {
                            Err(MrlError::TypeError { span, message: text_of_types("Cannot concatenate ", left, " and ", right) })
                        }
                    },
                    _ => {
                        if left.is_content() && right.is_content() {
                            if left.ty_eq(right) {
                                Ok(left.duplicate())
                            } else {
                                Ok(MrlType::Content)
                            }
                        } else {
                            Err(MrlError::TypeError { span, message: text_of_types("Cannot concatenate ", left, " and ", right) })
                        }
                    },
                }
            },
            BinOp::Assign => Ok(right.duplicate()),
        }
    }

    /// Check a unary operation.
    pub fn check_unop(&self, op: &UnOp, operand: &MrlType, span: Span) -> (r: Result<MrlType, MrlError>)
        ensures
            match unop_type(*op, operand@) {
                Some(t) => r matches Ok(x) && x@ == t,
                None => r matches Err(e) && is_type_error(e, span, unop_error(*op, operand@)),
            },
    {
        match op {
            UnOp::Neg => match operand {
                MrlType::Int => Ok(MrlType::Int),
                MrlType::Float => Ok(MrlType::Float),
                _ => Err(MrlError::TypeError { span, message: text_of_type("Cannot negate ", operand) }),
            },
            UnOp::Not => match operand {
                MrlType::Bool => Ok(MrlType::Bool),
                _ => Err(MrlError::TypeError { span, message: text_of_type("Cannot apply 'not' to ", operand) }),
            },
        }
    }

    /// Check a call of a value of type `func_ty` on arguments of types `arg_tys`.
    #[verifier::loop_isolation(false)]
    #[verifier::spinoff_prover]
    #[verifier::rlimit(40)]
    pub fn check_call_expr(&self, func_ty: &MrlType, arg_tys: &[MrlType], span: Span) -> (r: Result<MrlType, MrlError>)
        ensures
            match func_ty@ {
                TypeModel::Function { params, ret } => {
                    let args = type_models(arg_tys@);
                    if args.len() != params.len() {
                        r matches Err(MrlError::ArityMismatch { span: s, expected, got })
                            && s == span && expected == params.len() && got == args.len()
                    } else {
                        match first_mismatch(args, params) {
                            None => r matches Ok(t) && t@ == *ret,
                            Some(i) => r matches Err(e) && is_type_error(e, span,
                                "Argument type mismatch: expected "@ + type_text(params[i]) + ", got "@ + type_text(args[i])),
                        }
                    }
                },
                TypeModel::Dyn => r matches Ok(t) && t@ == TypeModel::Dyn,
                _ => r matches Err(e) && is_type_error(e, span, "Cannot call non-function type: "@ + type_text(func_ty@)),
            },
    {
        match func_ty {
            MrlType::Function { params, ret } => {
                let ghost args = type_models(arg_tys@);
                let ghost pm = models(params);
                assert(func_ty@ == TypeModel::Function { params: pm, ret: Box::new(ret@) });
                if arg_tys.len() != params.len() {
                    return Err(MrlError::ArityMismatch { span, expected: params.len(), got: arg_tys.len() });
                }
                let mut i: usize = 0;
                assert(args.skip(0) =~= args);
                assert(pm.skip(0) =~= pm);
                while i < arg_tys.len()
                    invariant
                        0 <= i <= arg_tys@.len(),
                        arg_tys@.len() == params@.len(),
                        args == type_models(arg_tys@),
                        pm == models(params),
                        first_mismatch(args, pm) == match first_mismatch(args.skip(i as int), pm.skip(i as int)) {
                            Some(k) => Some(k + i),
                            None => None::<int>,
                        },
                    decreases arg_tys@.len() - i,
                {
                    assert(args.skip(i as int).drop_first() =~= args.skip(i + 1));
                    assert(pm.skip(i as int).drop_first() =~= pm.skip(i + 1));
                    assert(args[i as int] == arg_tys@[i as int]@);
                    assert(pm[i as int] == params@[i as int]@);
                    assert(args.skip(i as int)[0] == args[i as int]);
                    assert(pm.skip(i as int)[0] == pm[i as int]);
                    if !arg_tys[i].is_subtype_of(&params[i]) {
                        assert(first_mismatch(args.skip(i as int), pm.skip(i as int)) == Some(0int));
                        assert(first_mismatch(args, pm) == Some(i as int));
                        return Err(MrlError::TypeError {
                            span,
                            message: text_of_types("Argument type mismatch: expected ", &params[i], ", got ", &arg_tys[i]),
                        });
                    }
                    i = i + 1;
                }
                Ok(ret.duplicate())
            },
            MrlType::Dyn => Ok(MrlType::Dyn),
            _ => Err(MrlError::TypeError { span, message: text_of_type("Cannot call non-function type: ", func_ty) }),
        }
    }

    /// Check a subscript `base[index]`.
    pub fn check_subscript(&self, base: &MrlType, index: &MrlType, span: Span) -> (r: Result<MrlType, MrlError>)
        ensures
            match base@ {
                TypeModel::Array(elem) => if index@ == TypeModel::Int {
                    r matches Ok(t) && t@ == *elem
                } else {
                    r matches Err(e) && is_type_error(e, span, "Array index must be Int, got "@ + type_text(index@))
                },
                TypeModel::Mapping(k, v) => if subtype(index@, *k) {
                    r matches Ok(t) && t@ == *v
                } else {
                    r matches Err(e) && is_type_error(e, span, "Map key type mismatch: expected "@ + type_text(*k) + ", got "@ + type_text(index@))
                },
                TypeModel::Str => if index@ == TypeModel::Int {
                    r matches Ok(t) && t@ == TypeModel::Str
                } else {
                    r matches Err(e) && is_type_error(e, span, "String index must be Int, got "@ + type_text(index@))
                },
                TypeModel::Dyn => r matches Ok(t) && t@ == TypeModel::Dyn,
                _ => r matches Err(e) && is_type_error(e, span, "Cannot subscript type: "@ + type_text(base@)),
            },
    {
        match base {
            MrlType::Array(elem) => match index {
                MrlType::Int => Ok(elem.duplicate()),
                _ => Err(MrlError::TypeError { span, message: text_of_type("Array index must be Int, got ", index) }),
            },
            MrlType::Mapping(key, value) => {
                if !index.is_subtype_of(key) {
                    return Err(MrlError::TypeError {
                        span,
                        message: text_of_types("Map key type mismatch: expected ", key, ", got ", index),
                    });
                }
                Ok(value.duplicate())
            },
            MrlType::String => match index {
                MrlType::Int => Ok(MrlType::String),
                _ => Err(MrlError::TypeError { span, message: text_of_type("String index must be Int, got ", index) }),
            },
            MrlType::Dyn => Ok(MrlType::Dyn),
            _ => Err(MrlError::TypeError { span, message: text_of_type("Cannot subscript type: ", base) }),
        }
    }

    fn symbol_label(&self, sym: Symbol, prefix: &str) -> (r: String)
        ensures
            r@ == if self.names().contains_key(sym.0) { self.names()[sym.0] } else { prefix@ + decimal(sym.0 as nat) },
    {
        match self.symbol_names.get(&sym.0) {
            Some(n) => n.clone(),
            None => {
                let mut s = to_owned_string(prefix);
                let d = u64_to_text(sym.id());
                push_str(&mut s, d.as_str());
                s
            },
        }
    }

    fn symbol_name_or_empty(&self, sym: Symbol) -> (r: String)
        ensures
            r@ == name_or_empty(self.names(), sym),
    {
        match self.symbol_names.get(&sym.0) {
            Some(n) => n.clone(),
            None => String::new(),
        }
    }

    fn attrs_type() -> (r: MrlType)
        ensures
            r@ == attrs_record(),
    {
        let mut fields: Vec<(String, MrlType)> = Vec::new();
        fields.push((to_owned_string("id"), MrlType::String));
        fields.push((to_owned_string("classes"), MrlType::Array(Box::new(MrlType::String))));
        assert(MrlType::String.model() == TypeModel::Str);
        assert(fields@[1].1@ == TypeModel::Array(Box::new(TypeModel::Str)));
        assert(field_models(&fields) =~= seq![("id"@, TypeModel::Str), ("classes"@, TypeModel::Array(Box::new(TypeModel::Str)))]);
        MrlType::Record(fields)
    }

    /// Check a field access `base.field`.
    #[verifier::loop_isolation(false)]
    pub fn check_field_access(&self, base: &MrlType, field: Symbol, span: Span) -> (r: Result<MrlType, MrlError>)
        ensures
            ({
                let n = field_label(self.names(), field);
                match base@ {
                    TypeModel::Record(fields) => match field_type(fields, n) {
                        Some(t) => r matches Ok(x) && x@ == t,
                        None => r matches Err(e) && is_type_error(e, span, "Record has no field '"@ + n + "'"@),
                    },
                    TypeModel::Block | TypeModel::Content | TypeModel::Inline =>
                        r matches Ok(x) && x@ == if n == "attrs"@ { attrs_record() } else { TypeModel::Dyn },
                    TypeModel::Dyn => r matches Ok(x) && x@ == TypeModel::Dyn,
                    _ => r matches Err(e) && is_type_error(e, span, "Type "@ + type_text(base@) + " does not support field access"@),
                }
            }),
    {
        let field_name = self.symbol_label(field, "field_");
        match base {
            MrlType::Record(fields) => {
                let ghost fm = field_models(fields);
                let mut i: usize = 0;
                assert(fm.skip(0) =~= fm);
                while i < fields.len()
                    invariant
                        0 <= i <= fields@.len(),
                        fm == field_models(fields),
                        field_type(fm, field_name@) == field_type(fm.skip(i as int), field_name@),
                    decreases fields@.len() - i,
                {
                    assert(fm.skip(i as int).drop_first() =~= fm.skip(i + 1));
                    assert(fm[i as int] == (fields@[i as int].0@, fields@[i as int].1@));
                    assert(fm.skip(i as int)[0] == fm[i as int]);
                    if str_eq(fields[i].0.as_str(), field_name.as_str()) {
                        assert(field_type(fm.skip(i as int), field_name@) == Some(fm[i as int].1));
                        assert(field_name@ == field_label(self.names(), field));
                        return Ok(fields[i].1.duplicate());
                    }
                    i = i + 1;
                }
                let mut m = to_owned_string("Record has no field '");
                push_str(&mut m, field_name.as_str());
                push_str(&mut m, "'");
                Err(MrlError::TypeError { span, message: m })
            },
            MrlType::Block | MrlType::Content | MrlType::Inline => {
                if str_eq(field_name.as_str(), "attrs") {
                    Ok(Self::attrs_type())
                } else {
                    Ok(MrlType::Dyn)
                }
            },
            MrlType::Dyn => Ok(MrlType::Dyn),
            _ => {
                let mut m = text_of_type("Type ", base);
                push_str(&mut m, " does not support field access");
                Err(MrlError::TypeError { span, message: m })
            },
        }
    }

    fn type_for_name(n: &str) -> (r: MrlType)
        ensures
            r@ == type_named(n@),
    {
        if str_eq(n, "None") || str_eq(n, "none") { MrlType::NoneType }
        else if str_eq(n, "Bool") || str_eq(n, "bool") { MrlType::Bool }
        else if str_eq(n, "Int") || str_eq(n, "int") { MrlType::Int }
        else if str_eq(n, "Float") || str_eq(n, "float") { MrlType::Float }
        else if str_eq(n, "String") || str_eq(n, "string") || str_eq(n, "str") { MrlType::String }
        else if str_eq(n, "Symbol") || str_eq(n, "symbol") { MrlType::Symbol }
        else if str_eq(n, "Content") || str_eq(n, "content") { MrlType::Content }
        else if str_eq(n, "Block") || str_eq(n, "block") { MrlType::Block }
        else if str_eq(n, "Inline") || str_eq(n, "inline") { MrlType::Inline }
        else { MrlType::Dyn }
    }

    /// Interpret a content-kind annotation.
    pub fn interpret_content_kind(&self, shrub: &Shrubbery) -> (r: ContentKind)
        ensures
            r == kind_of_annotation(shrub@, self.names()),
    {
        if let Some((sym, _)) = shrub.as_identifier() {
            let name = self.symbol_name_or_empty(sym);
            if str_eq(name.as_str(), "Block") || str_eq(name.as_str(), "block") {
                ContentKind::Block
            } else if str_eq(name.as_str(), "Inline") || str_eq(name.as_str(), "inline") {
                ContentKind::Inline
            } else {
                ContentKind::Content
            }
        } else {
            ContentKind::Content
        }
    }

    /// Interpret a type annotation written as shrubbery.
    #[verifier::loop_isolation(false)]
    pub fn interpret_type(&self, shrub: &Shrubbery) -> (r: MrlType)
        ensures
            r@ == annotated_type(shrub@, self.names()),
        decreases shrub,
    {
        match shrub {
            Shrubbery::Identifier(sym, _, _) => {
                match self.symbol_names.get(&sym.0) {
                    Some(n) => {
                        assert(self.names().contains_key(sym.0));
                        assert(self.names()[sym.0] == n@);
                        let r = Self::type_for_name(n.as_str());
                        assert(shrub@ == ShrubModel::Identifier(*sym, shrub@->Identifier_1, shrub@->Identifier_2));
                        assert(r@ == type_named(n@));
                        assert(annotated_type(shrub@, self.names()) == type_named(n@));
                        r
                    },
                    None => {
                        assert(!self.names().contains_key(sym.0));
                        assert(annotated_type(shrub@, self.names()) == TypeModel::Dyn);
                        MrlType::Dyn
                    },
                }
            },
            Shrubbery::Brackets(items, sp) => {
                assert(shrub@ == ShrubModel::Brackets(crate::mrl::shrubbery::shrub_models(items), *sp));
                if items.len() == 1 {
                    assert(decreases_to!(shrub => items@[0]));
                    let elem = self.interpret_type(&items[0]);
                    assert(crate::mrl::shrubbery::shrub_models(items)[0] == items@[0]@);
                    let r = MrlType::Array(Box::new(elem));
                    assert(r@ == annotated_type(shrub@, self.names()));
                    r
                } else {
                    MrlType::Dyn
                }
            },
            Shrubbery::Sequence(items, sp) => {
                assert(shrub@ == ShrubModel::Sequence(crate::mrl::shrubbery::shrub_models(items), *sp));
                if items.len() >= 2 {
                    assert(crate::mrl::shrubbery::shrub_models(items)[0] == items@[0]@);
                    assert(crate::mrl::shrubbery::shrub_models(items)[1] == items@[1]@);
                    if let Some((sym, _)) = items[0].as_identifier() {
                        let name = self.symbol_name_or_empty(sym);
                        assert(decreases_to!(shrub => items@[1]));
                        if str_eq(name.as_str(), "Array") || str_eq(name.as_str(), "List") {
                            let elem = self.interpret_type(&items[1]);
                            return MrlType::Array(Box::new(elem));
                        } else if str_eq(name.as_str(), "Code") {
                            return MrlType::Code(self.interpret_content_kind(&items[1]));
                        } else if str_eq(name.as_str(), "Signal") {
                            let inner = self.interpret_type(&items[1]);
                            return MrlType::Signal(Box::new(inner));
                        } else if str_eq(name.as_str(), "Selector") {
                            return MrlType::Selector(self.interpret_content_kind(&items[1]));
                        }
                    }
                    assert(TypeModel::Dyn == annotated_type(shrub@, self.names()));
                    MrlType::Dyn
                } else {
                    MrlType::Dyn
                }
            },
            Shrubbery::Braces(items, sp) => {
                let ghost ms = crate::mrl::shrubbery::shrub_models(items);
                assert(shrub@ == ShrubModel::Braces(ms, *sp));
                let ghost names = self.names();
                let mut fields: Vec<(String, MrlType)> = Vec::new();
                let mut i: usize = 0;
                while i < items.len()
                    invariant
                        0 <= i <= items@.len(),
                        ms == crate::mrl::shrubbery::shrub_models(items),
                        field_models(&fields) == somes(annotated_fields(ms, names).take(i as int)),
                    decreases items@.len() - i,
                {
                    let ghost all = annotated_fields(ms, names);
                    assert(all.take(i + 1).drop_last() =~= all.take(i as int));
                    assert(all.take(i + 1).last() == annotated_field(ms[i as int], names));
                    assert(ms[i as int] == items@[i as int]@);
                    let item = &items[i];
                    if let Shrubbery::Sequence(parts, _) = item {
                        if parts.len() >= 2 {
                            assert(crate::mrl::shrubbery::shrub_models(parts)[0] == parts@[0]@);
                            assert(crate::mrl::shrubbery::shrub_models(parts)[1] == parts@[1]@);
                            if let Some((sym, _)) = parts[0].as_identifier() {
                                let field_name = self.symbol_label(sym, "f");
                                assert(decreases_to!(shrub => items@[i as int]));
                                assert(decreases_to!(items@[i as int] => parts@[1]));
                                let field_ty = self.interpret_type(&parts[1]);
                                let ghost before = field_models(&fields);
                                fields.push((field_name, field_ty));
                                assert(field_models(&fields) =~= before.push((field_name@, field_ty@)));
                            }
                        }
                    }
                    i = i + 1;
                }
                assert(annotated_fields(ms, names).take(items@.len() as int) =~= annotated_fields(ms, names));
                let r = if fields.len() == 0 {
                    MrlType::Dyn
                } else {
                    MrlType::Record(fields)
                };
                assert(r@ == annotated_type(shrub@, self.names()));
                r
            },
            _ => {
                assert(annotated_type(shrub@, self.names()) == TypeModel::Dyn);
                MrlType::Dyn
            },
        }
    }

    /// Unify two types, returning their common type: the larger of the two
    /// when one is a subtype of the other.
    pub fn unify_types(&self, t1: &MrlType, t2: &MrlType, span: Span) -> (r: Result<MrlType, MrlError>)
        ensures
            if subtype(t1@, t2@) {
                r matches Ok(t) && t@ == t2@
            } else if subtype(t2@, t1@) {
                r matches Ok(t) && t@ == t1@
            } else {
                r matches Err(e) && is_type_error(e, span, "Cannot unify types "@ + type_text(t1@) + " and "@ + type_text(t2@))
            },
            match unified(t1@, t2@) {
                Some(t) => r matches Ok(x) && x@ == t,
                None => r is Err,
            },
    {
        if t1.is_subtype_of(t2) {
            Ok(t2.duplicate())
        } else if t2.is_subtype_of(t1) {
            Ok(t1.duplicate())
        } else {
            Err(MrlError::TypeError { span, message: text_of_types("Cannot unify types ", t1, " and ", t2) })
        }
    }
}


/// The common type of two types: the larger one when one is a subtype of
/// the other.
pub open spec fn unified(t1: TypeModel, t2: TypeModel) -> Option<TypeModel> {
    if subtype(t1, t2) {
        Some(t2)
    } else if subtype(t2, t1) {
        Some(t1)
    } else {
        None
    }
}

/// Unifying is symmetric, and a common type is one of the two and lies
/// above both.
pub proof fn lemma_unify_symmetric(t1: TypeModel, t2: TypeModel)
    ensures
        unified(t1, t2) == unified(t2, t1),
        unified(t1, t2) matches Some(r) ==> (r == t1 || r == t2) && subtype(t1, r) && subtype(t2, r),
        unified(t1, t2) is None <==> !subtype(t1, t2) && !subtype(t2, t1),
{
    if subtype(t1, t2) && subtype(t2, t1) {
        crate::mrl::types::lemma_subtype_antisymmetric(t1, t2);
    }
    crate::mrl::types::lemma_subtype_reflexive_dyn_top(t1);
    crate::mrl::types::lemma_subtype_reflexive_dyn_top(t2);
}

/// Why checking fails: an unbound name, a type error with its message, a
/// call with the wrong number of arguments (expected, got), or a binding
/// or splice used at the wrong stage, with its message.
pub enum CheckFailure {
    Unbound(Span, Seq<char>),
    Mistyped(Span, Seq<char>),
    Arity(Span, nat, nat),
    Staging(Span, Seq<char>),
}

/// `e` is the error that `f` describes.
pub open spec fn fails_with(e: MrlError, f: CheckFailure) -> bool {
    match f {
        CheckFailure::Unbound(sp, n) => e matches MrlError::UnboundIdentifier { span, name } && span == sp && name@ == n,
        CheckFailure::Mistyped(sp, m) => is_type_error(e, sp, m),
        CheckFailure::Arity(sp, ex, got) => e matches MrlError::ArityMismatch { span, expected, got: g }
            && span == sp && expected == ex && g == got,
        CheckFailure::Staging(sp, m) => e matches MrlError::StageLevelError { span, message } && span == sp && message@ == m,
    }
}

/// The type of a literal.
pub open spec fn literal_type(lit: LiteralModel) -> TypeModel {
    match lit {
        LiteralModel::NoneLit => TypeModel::NoneType,
        LiteralModel::Bool(_) => TypeModel::Bool,
        LiteralModel::Int(_) => TypeModel::Int,
        LiteralModel::Float(_) => TypeModel::Float,
        LiteralModel::String(_) => TypeModel::Str,
        LiteralModel::Symbol(_) => TypeModel::Symbol,
    }
}

/// The type of an identifier: looked up under its registered name if it
/// has one, else under `id:` and its number.
pub open spec fn identifier_type(
    env: Map<Seq<char>, (TypeModel, usize)>,
    names: Map<u64, Seq<char>>,
    sym: Symbol,
    span: Span,
) -> Result<TypeModel, CheckFailure> {
    let n = if names.contains_key(sym.0) { names[sym.0] } else { symbol_key(sym) };
    if env.contains_key(n) { Ok(env[n].0) } else { Err(CheckFailure::Unbound(span, n)) }
}

/// The type of a call of a value of type `f` on arguments of types `args`.
pub open spec fn call_result(f: TypeModel, args: Seq<TypeModel>, span: Span) -> Result<TypeModel, CheckFailure> {
    match f {
        TypeModel::Function { params, ret } => if args.len() != params.len() {
            Err(CheckFailure::Arity(span, params.len(), args.len()))
        } else {
            match first_mismatch(args, params) {
                None => Ok(*ret),
                Some(i) => Err(CheckFailure::Mistyped(span,
                    "Argument type mismatch: expected "@ + type_text(params[i]) + ", got "@ + type_text(args[i]))),
            }
        },
        _ => Err(CheckFailure::Mistyped(span, "Cannot call non-function type: "@ + type_text(f))),
    }
}

/// The content kind of a type, if it is a content type.
pub open spec fn kind_of_type(t: TypeModel) -> Option<ContentKind> {
    match t {
        TypeModel::Block => Some(ContentKind::Block),
        TypeModel::Inline => Some(ContentKind::Inline),
        TypeModel::Content => Some(ContentKind::Content),
        _ => None,
    }
}

/// The kind of a content literal after an item of type `t` at `span`:
/// `Content` gives way to the item's kind, an item of kind `Content`
/// changes nothing, and Block and Inline cannot be mixed.
pub open spec fn merge_kind(k: ContentKind, t: TypeModel, span: Span) -> Result<ContentKind, CheckFailure> {
    match kind_of_type(t) {
        None => Ok(k),
        Some(kk) => if k == ContentKind::Content {
            Ok(kk)
        } else if kk == ContentKind::Content {
            Ok(k)
        } else if k == ContentKind::Block && kk == ContentKind::Inline {
            Err(CheckFailure::Mistyped(span, "Cannot mix Block and Inline in content literal"@))
        } else if k == ContentKind::Inline && kk == ContentKind::Block {
            Err(CheckFailure::Mistyped(span, "Cannot mix Inline and Block in content literal"@))
        } else {
            Ok(k)
        },
    }
}

/// The type of a content kind.
pub open spec fn kind_type(k: ContentKind) -> TypeModel {
    match k {
        ContentKind::Block => TypeModel::Block,
        ContentKind::Inline => TypeModel::Inline,
        ContentKind::Content => TypeModel::Content,
    }
}

/// The result of checking a shrubbery: literals have their type,
/// identifiers the type they are bound to, a sequence headed by an
/// identifier is a call, another sequence has the type of its last item,
/// a content literal has the kind of its items, prose is inline, and any
/// other form is dynamic. The first error met, in source order, is the
/// result.
pub open spec fn checked(env: Map<Seq<char>, (TypeModel, usize)>, names: Map<u64, Seq<char>>, m: ShrubModel) -> Result<TypeModel, CheckFailure>
    decreases m,
{
    match m {
        ShrubModel::Literal(lit, _) => Ok(literal_type(lit)),
        ShrubModel::Identifier(sym, _, span) => identifier_type(env, names, sym, span),
        ShrubModel::Sequence(items, span) => if items.len() == 0 {
            Ok(TypeModel::NoneType)
        } else if items[0] is Identifier {
            checked_call(env, names, items, span)
        } else {
            checked_last(env, names, items)
        },
        ShrubModel::Brackets(items, _) => match checked_kind(env, names, items) {
            Ok(k) => Ok(kind_type(k)),
            Err(e) => Err(e),
        },
        ShrubModel::Prose(_, _) => Ok(TypeModel::Inline),
        _ => Ok(TypeModel::Dyn),
    }
}

/// The result of a call written as a sequence: the first item gives the
/// function, the others the arguments.
pub open spec fn checked_call(env: Map<Seq<char>, (TypeModel, usize)>, names: Map<u64, Seq<char>>, items: Seq<ShrubModel>, span: Span) -> Result<TypeModel, CheckFailure>
    decreases items,
{
    if items.len() == 0 {
        Ok(TypeModel::NoneType)
    } else {
        match checked(env, names, items[0]) {
            Err(e) => Err(e),
            Ok(f) => match checked_args(env, names, items.drop_first()) {
                Err(e) => Err(e),
                Ok(args) => call_result(f, args, span),
            },
        }
    }
}

/// The type of the last of `items`, each checked in turn.
pub open spec fn checked_last(env: Map<Seq<char>, (TypeModel, usize)>, names: Map<u64, Seq<char>>, items: Seq<ShrubModel>) -> Result<TypeModel, CheckFailure>
    decreases items,
{
    if items.len() == 0 {
        Ok(TypeModel::NoneType)
    } else {
        match checked_last(env, names, items.drop_last()) {
            Err(e) => Err(e),
            Ok(_) => checked(env, names, items.last()),
        }
    }
}

/// The types of `items`, each checked in turn.
pub open spec fn checked_args(env: Map<Seq<char>, (TypeModel, usize)>, names: Map<u64, Seq<char>>, items: Seq<ShrubModel>) -> Result<Seq<TypeModel>, CheckFailure>
    decreases items,
{
    if items.len() == 0 {
        Ok(Seq::empty())
    } else {
        match checked_args(env, names, items.drop_last()) {
            Err(e) => Err(e),
            Ok(ts) => match checked(env, names, items.last()) {
                Err(e) => Err(e),
                Ok(t) => Ok(ts.push(t)),
            },
        }
    }
}

/// The kind of a content literal with `items`, each checked in turn.
pub open spec fn checked_kind(env: Map<Seq<char>, (TypeModel, usize)>, names: Map<u64, Seq<char>>, items: Seq<ShrubModel>) -> Result<ContentKind, CheckFailure>
    decreases items,
{
    if items.len() == 0 {
        Ok(ContentKind::Content)
    } else {
        match checked_kind(env, names, items.drop_last()) {
            Err(e) => Err(e),
            Ok(k) => match checked(env, names, items.last()) {
                Err(e) => Err(e),
                Ok(t) => merge_kind(k, t, shrub_span(items.last())),
            },
        }
    }
}

proof fn lemma_checked_last_err(env: Map<Seq<char>, (TypeModel, usize)>, names: Map<u64, Seq<char>>, ms: Seq<ShrubModel>, k: int)
    requires
        0 <= k <= ms.len(),
        checked_last(env, names, ms.take(k)) is Err,
    ensures
        checked_last(env, names, ms) == checked_last(env, names, ms.take(k)),
    decreases ms.len() - k,
{
    if k < ms.len() {
        assert(ms.take(k + 1).drop_last() =~= ms.take(k));
        lemma_checked_last_err(env, names, ms, k + 1);
    } else {
        assert(ms.take(k) =~= ms);
    }
}

proof fn lemma_checked_args_err(env: Map<Seq<char>, (TypeModel, usize)>, names: Map<u64, Seq<char>>, ms: Seq<ShrubModel>, k: int)
    requires
        0 <= k <= ms.len(),
        checked_args(env, names, ms.take(k)) is Err,
    ensures
        checked_args(env, names, ms) == checked_args(env, names, ms.take(k)),
    decreases ms.len() - k,
{
    if k < ms.len() {
        assert(ms.take(k + 1).drop_last() =~= ms.take(k));
        lemma_checked_args_err(env, names, ms, k + 1);
    } else {
        assert(ms.take(k) =~= ms);
    }
}

proof fn lemma_checked_kind_err(env: Map<Seq<char>, (TypeModel, usize)>, names: Map<u64, Seq<char>>, ms: Seq<ShrubModel>, k: int)
    requires
        0 <= k <= ms.len(),
        checked_kind(env, names, ms.take(k)) is Err,
    ensures
        checked_kind(env, names, ms) == checked_kind(env, names, ms.take(k)),
    decreases ms.len() - k,
{
    if k < ms.len() {
        assert(ms.take(k + 1).drop_last() =~= ms.take(k));
        lemma_checked_kind_err(env, names, ms, k + 1);
    } else {
        assert(ms.take(k) =~= ms);
    }
}

fn unbound_identifier(span: Span, name: String) -> (r: MrlError)
    ensures
        fails_with(r, CheckFailure::Unbound(span, name@)),
{
    MrlError::UnboundIdentifier { span, name }
}

impl TypeChecker {
    /// The type of an identifier.
    fn check_identifier(&self, sym: Symbol, span: Span) -> (r: Result<MrlType, MrlError>)
        ensures
            match identifier_type(self.env_map(), self.names(), sym, span) {
                Ok(t) => r matches Ok(x) && x@ == t,
                Err(f) => r matches Err(e) && fails_with(e, f),
            },
    {
        match self.symbol_names.get(&sym.0) {
            Some(name) => {
                match self.env.lookup(name.as_str()) {
                    Some(ty) => Ok(ty.duplicate()),
                    None => Err(unbound_identifier(span, name.clone())),
                }
            },
            None => {
                let mut id_name = to_owned_string("id:");
                let digits = u64_to_text(sym.id());
                push_str(&mut id_name, digits.as_str());
                match self.env.lookup(id_name.as_str()) {
                    Some(ty) => Ok(ty.duplicate()),
                    None => Err(unbound_identifier(span, id_name)),
                }
            },
        }
    }

    /// Each item checked in turn; the type of the last.
    fn check_last(&self, items: &Vec<Shrubbery>) -> (r: Result<MrlType, MrlError>)
        ensures
            match checked_last(self.env_map(), self.names(), shrub_models(items)) {
                Ok(t) => r matches Ok(x) && x@ == t,
                Err(f) => r matches Err(e) && fails_with(e, f),
            },
        decreases items,
    {
        let ghost ms = shrub_models(items);
        let ghost env = self.env_map();
        let ghost names = self.names();
        let mut result_ty = MrlType::NoneType;
        let mut i: usize = 0;
        while i < items.len()
            invariant
                0 <= i <= items@.len(),
                ms == shrub_models(items),
                env == self.env_map(),
                names == self.names(),
                checked_last(env, names, ms.take(i as int)) matches Ok(t) && t == result_ty@,
            decreases items@.len() - i,
        {
            proof {
                assert(ms.take(i + 1).drop_last() =~= ms.take(i as int));
                assert(ms.take(i + 1).last() == items@[i as int]@);
            }
            match self.check_shrub(&items[i]) {
                Ok(t) => {
                    result_ty = t;
                },
                Err(e) => {
                    proof {
                        lemma_checked_last_err(env, names, ms, i + 1);
                    }
                    return Err(e);
                },
            }
            i = i + 1;
        }
        assert(ms.take(items@.len() as int) =~= ms);
        Ok(result_ty)
    }

    /// The kind of a content literal, each item checked in turn.
    fn check_brackets(&self, items: &Vec<Shrubbery>) -> (r: Result<ContentKind, MrlError>)
        ensures
            match checked_kind(self.env_map(), self.names(), shrub_models(items)) {
                Ok(k) => r matches Ok(x) && x == k,
                Err(f) => r matches Err(e) && fails_with(e, f),
            },
        decreases items,
    {
        let ghost ms = shrub_models(items);
        let ghost env = self.env_map();
        let ghost names = self.names();
        let mut content_kind = ContentKind::Content;
        let mut i: usize = 0;
        while i < items.len()
            invariant
                0 <= i <= items@.len(),
                ms == shrub_models(items),
                env == self.env_map(),
                names == self.names(),
                checked_kind(env, names, ms.take(i as int)) == Ok::<ContentKind, CheckFailure>(content_kind),
            decreases items@.len() - i,
        {
            proof {
                assert(ms.take(i + 1).drop_last() =~= ms.take(i as int));
                assert(ms.take(i + 1).last() == items@[i as int]@);
            }
            let item = &items[i];
            let ty = match self.check_shrub(item) {
                Ok(t) => t,
                Err(e) => {
                    proof {
                        lemma_checked_kind_err(env, names, ms, i + 1);
                    }
                    return Err(e);
                },
            };
            if let Some(kind) = ty.as_content_kind() {
                match (content_kind, kind) {
                    (ContentKind::Content, k) => content_kind = k,
                    (k, ContentKind::Content) => content_kind = k,
                    (ContentKind::Block, ContentKind::Inline) => {
                        proof {
                            lemma_checked_kind_err(env, names, ms, i + 1);
                        }
                        return Err(MrlError::TypeError {
                            span: item.span(),
                            message: to_owned_string("Cannot mix Block and Inline in content literal"),
                        });
                    },
                    (ContentKind::Inline, ContentKind::Block) => {
                        proof {
                            lemma_checked_kind_err(env, names, ms, i + 1);
                        }
                        return Err(MrlError::TypeError {
                            span: item.span(),
                            message: to_owned_string("Cannot mix Inline and Block in content literal"),
                        });
                    },
                    _ => {},
                }
            }
            i = i + 1;
        }
        assert(ms.take(items@.len() as int) =~= ms);
        Ok(content_kind)
    }

    /// A call: the first item gives the function, the others the arguments,
    /// each checked in turn.
    fn check_call(&self, items: &Vec<Shrubbery>, span: Span) -> (r: Result<MrlType, MrlError>)
        requires
            items@.len() > 0,
        ensures
            match checked_call(self.env_map(), self.names(), shrub_models(items), span) {
                Ok(t) => r matches Ok(x) && x@ == t,
                Err(f) => r matches Err(e) && fails_with(e, f),
            },
        decreases items,
    {
        let ghost all = shrub_models(items);
        assert(all[0] == items@[0]@);
        let func_ty = match self.check_shrub(&items[0]) {
            Ok(t) => t,
            Err(e) => return Err(e),
        };
        let ghost ms = all.drop_first();
        let ghost env = self.env_map();
        let ghost names = self.names();
        let mut args: Vec<MrlType> = Vec::new();
        let mut i: usize = 1;
        assert(ms.take(0) =~= Seq::<ShrubModel>::empty());
        assert(type_models(args@) =~= Seq::<TypeModel>::empty());
        while i < items.len()
            invariant
                1 <= i <= items@.len(),
                ms == shrub_models(items).drop_first(),
                all == shrub_models(items),
                checked(env, names, all[0]) == Ok::<TypeModel, CheckFailure>(func_ty@),
                env == self.env_map(),
                names == self.names(),
                checked_args(env, names, ms.take(i - 1)) matches Ok(ts) && ts == type_models(args@),
            decreases items@.len() - i,
        {
            proof {
                assert(ms.take(i as int).drop_last() =~= ms.take(i - 1));
                assert(ms.take(i as int).last() == items@[i as int]@);
            }
            match self.check_shrub(&items[i]) {
                Ok(t) => {
                    let ghost before = args@;
                    args.push(t);
                    assert(type_models(args@) =~= type_models(before).push(args@.last()@));
                },
                Err(e) => {
                    proof {
                        lemma_checked_args_err(env, names, ms, i as int);
                    }
                    return Err(e);
                },
            }
            i = i + 1;
        }
        assert(ms.take(items@.len() - 1) =~= ms);
        match func_ty {
            MrlType::Function { .. } => self.check_call_expr(&func_ty, args.as_slice(), span),
            _ => Err(MrlError::TypeError { span, message: text_of_type("Cannot call non-function type: ", &func_ty) }),
        }
    }

    /// The type of a shrubbery, or the first error met.
    fn check_shrub(&self, shrub: &Shrubbery) -> (r: Result<MrlType, MrlError>)
        ensures
            match checked(self.env_map(), self.names(), shrub@) {
                Ok(t) => r matches Ok(x) && x@ == t,
                Err(f) => r matches Err(e) && fails_with(e, f),
            },
        decreases shrub,
    {
        match shrub {
            Shrubbery::Literal(lit, _) => Ok(self.type_of_literal(lit)),
            Shrubbery::Identifier(sym, _, span) => self.check_identifier(*sym, *span),
            Shrubbery::Sequence(items, span) => {
                assert(shrub@ == ShrubModel::Sequence(shrub_models(items), *span));
                if items.len() == 0 {
                    return Ok(MrlType::NoneType);
                }
                let ghost ms = shrub_models(items);
                assert(ms[0] == items@[0]@);
                if let Shrubbery::Identifier(_, _, _) = &items[0] {
                    self.check_call(items, *span)
                } else {
                    self.check_last(items)
                }
            },
            Shrubbery::Brackets(items, _) => {
                match self.check_brackets(items) {
                    Ok(k) => Ok(match k {
                        ContentKind::Block => MrlType::Block,
                        ContentKind::Inline => MrlType::Inline,
                        ContentKind::Content => MrlType::Content,
                    }),
                    Err(e) => Err(e),
                }
            },
            Shrubbery::Prose(_, _) => Ok(MrlType::Inline),
            _ => Ok(MrlType::Dyn),
        }
    }

    /// Check that a value has the expected type: its type must be a
    /// subtype of `expected`, else a type error at `span` names both types.
    pub fn check_value(&self, value: &ExpandValue, expected: &MrlType, span: Span) -> (r: Result<(), MrlError>)
        ensures
            match r {
                Ok(()) => subtype(value_type(value@), expected@),
                Err(e) => !subtype(value_type(value@), expected@)
                    && is_type_error(e, span, "Type mismatch: expected "@ + type_text(expected@) + ", got "@ + type_text(value_type(value@))),
            },
    {
        let actual = value.get_type();
        if !actual.is_subtype_of(expected) {
            Err(MrlError::TypeError { span, message: text_of_types("Type mismatch: expected ", expected, ", got ", &actual) })
        } else {
            Ok(())
        }
    }

    /// Type check a shrubbery: its type, or the first error met in source
    /// order (see `checked`).
    pub fn check(&mut self, shrub: &Shrubbery) -> (r: Result<MrlType, MrlError>)
        ensures
            final(self).env_map() == old(self).env_map(),
            final(self).names() == old(self).names(),
            final(self).stage() == old(self).stage(),
            match checked(old(self).env_map(), old(self).names(), shrub@) {
                Ok(t) => r matches Ok(x) && x@ == t,
                Err(f) => r matches Err(e) && fails_with(e, f),
            },
    {
        self.check_shrub(shrub)
    }
}


// ===== Checking expressions =====

/// What checking an expression reads and changes: the bindings in scope
/// and the stage level.
pub struct CheckState {
    pub env: Map<Seq<char>, (TypeModel, usize)>,
    pub stage: usize,
}

/// The type of a binary operation, or its error.
pub open spec fn binop_result(l: TypeModel, op: BinOp, r: TypeModel, span: Span) -> Result<TypeModel, CheckFailure> {
    match binop_type(l, op, r) {
        Some(t) => Ok(t),
        None => Err(CheckFailure::Mistyped(span, binop_error(l, op, r))),
    }
}

/// The type of a unary operation, or its error.
pub open spec fn unop_result(op: UnOp, t: TypeModel, span: Span) -> Result<TypeModel, CheckFailure> {
    match unop_type(op, t) {
        Some(x) => Ok(x),
        None => Err(CheckFailure::Mistyped(span, unop_error(op, t))),
    }
}

/// The type of a call in an expression: as for a call written as a
/// sequence, except that calling a `Dyn` value gives `Dyn`.
pub open spec fn call_expr_result(f: TypeModel, args: Seq<TypeModel>, span: Span) -> Result<TypeModel, CheckFailure> {
    match f {
        TypeModel::Dyn => Ok(TypeModel::Dyn),
        _ => call_result(f, args, span),
    }
}

/// The type of a field access, or its error.
pub open spec fn field_result(names: Map<u64, Seq<char>>, base: TypeModel, field: Symbol, span: Span) -> Result<TypeModel, CheckFailure> {
    let n = field_label(names, field);
    match base {
        TypeModel::Record(fields) => match field_type(fields, n) {
            Some(t) => Ok(t),
            None => Err(CheckFailure::Mistyped(span, "Record has no field '"@ + n + "'"@)),
        },
        TypeModel::Block | TypeModel::Content | TypeModel::Inline => Ok(if n == "attrs"@ { attrs_record() } else { TypeModel::Dyn }),
        TypeModel::Dyn => Ok(TypeModel::Dyn),
        _ => Err(CheckFailure::Mistyped(span, "Type "@ + type_text(base) + " does not support field access"@)),
    }
}

/// The type of a subscript, or its error.
pub open spec fn subscript_result(base: TypeModel, index: TypeModel, span: Span) -> Result<TypeModel, CheckFailure> {
    match base {
        TypeModel::Array(elem) => if index == TypeModel::Int {
            Ok(*elem)
        } else {
            Err(CheckFailure::Mistyped(span, "Array index must be Int, got "@ + type_text(index)))
        },
        TypeModel::Mapping(k, v) => if subtype(index, *k) {
            Ok(*v)
        } else {
            Err(CheckFailure::Mistyped(span, "Map key type mismatch: expected "@ + type_text(*k) + ", got "@ + type_text(index)))
        },
        TypeModel::Str => if index == TypeModel::Int {
            Ok(TypeModel::Str)
        } else {
            Err(CheckFailure::Mistyped(span, "String index must be Int, got "@ + type_text(index)))
        },
        TypeModel::Dyn => Ok(TypeModel::Dyn),
        _ => Err(CheckFailure::Mistyped(span, "Cannot subscript type: "@ + type_text(base))),
    }
}

/// The common type of two types, or the error of unifying them.
pub open spec fn unify_result(t1: TypeModel, t2: TypeModel, span: Span) -> Result<TypeModel, CheckFailure> {
    if subtype(t1, t2) {
        Ok(t2)
    } else if subtype(t2, t1) {
        Ok(t1)
    } else {
        Err(CheckFailure::Mistyped(span, "Cannot unify types "@ + type_text(t1) + " and "@ + type_text(t2)))
    }
}

/// The message for a binding used below the stage it was bound at.
pub open spec fn stage_message(name: Seq<char>, stage: usize, bound: usize) -> Seq<char> {
    "Cannot use '"@ + name + "' at stage "@ + decimal(stage as nat) + " (bound at stage "@ + decimal(bound as nat)
        + "). CSP violation: bindings from higher stages cannot be used at lower stages."@
}

/// A binding usable at `stage` gives its type; one bound at a higher stage
/// is a staging error.
pub open spec fn binding_at_stage(b: (TypeModel, usize), name: Seq<char>, stage: usize, span: Span) -> Result<TypeModel, CheckFailure> {
    if b.1 <= stage {
        Ok(b.0)
    } else {
        Err(CheckFailure::Staging(span, stage_message(name, stage, b.1)))
    }
}

/// The type of a variable: its binding under `id:` and its number, else
/// under its registered name; the name in messages is the registered name
/// if there is one, else the `id:` key.
pub open spec fn var_result(names: Map<u64, Seq<char>>, st: CheckState, sym: Symbol, span: Span) -> Result<TypeModel, CheckFailure> {
    let key = symbol_key(sym);
    let name = if names.contains_key(sym.0) { names[sym.0] } else { key };
    if st.env.contains_key(key) {
        binding_at_stage(st.env[key], name, st.stage, span)
    } else if st.env.contains_key(name) {
        binding_at_stage(st.env[name], name, st.stage, span)
    } else {
        Err(CheckFailure::Unbound(span, name))
    }
}

/// The type a declared return type stands for: the registered name of a
/// variable among the primitive and content type names, else Dyn.
pub open spec fn return_type_named(n: Seq<char>) -> TypeModel {
    if n == "None"@ || n == "none"@ { TypeModel::NoneType }
    else if n == "Bool"@ || n == "bool"@ { TypeModel::Bool }
    else if n == "Int"@ || n == "int"@ { TypeModel::Int }
    else if n == "Float"@ || n == "float"@ { TypeModel::Float }
    else if n == "String"@ || n == "string"@ || n == "str"@ { TypeModel::Str }
    else if n == "Content"@ || n == "content"@ { TypeModel::Content }
    else if n == "Block"@ || n == "block"@ { TypeModel::Block }
    else if n == "Inline"@ || n == "inline"@ { TypeModel::Inline }
    else { TypeModel::Dyn }
}

/// The declared return type of a definition.
pub open spec fn declared_return(names: Map<u64, Seq<char>>, rt: Option<Box<ExprModel>>) -> TypeModel {
    match rt {
        Some(e) => match *e {
            ExprModel::Var(sym, _, _) => return_type_named(name_or_empty(names, sym)),
            _ => TypeModel::Dyn,
        },
        None => TypeModel::Dyn,
    }
}

/// The type of a parameter: its annotation's, else Dyn.
pub open spec fn param_type(names: Map<u64, Seq<char>>, p: (Symbol, Option<ShrubModel>, Option<ShrubModel>, Span)) -> TypeModel {
    match p.1 {
        Some(a) => annotated_type(a, names),
        None => TypeModel::Dyn,
    }
}

/// The types of parameters.
pub open spec fn param_types(names: Map<u64, Seq<char>>, ps: Seq<(Symbol, Option<ShrubModel>, Option<ShrubModel>, Span)>) -> Seq<TypeModel> {
    Seq::new(ps.len(), |i: int| param_type(names, ps[i]))
}

/// `env` with each parameter bound, in order, to its type at `stage`.
pub open spec fn bind_params(env: Map<Seq<char>, (TypeModel, usize)>, ps: Seq<(Symbol, Option<ShrubModel>, Option<ShrubModel>, Span)>, tys: Seq<TypeModel>, stage: usize) -> Map<Seq<char>, (TypeModel, usize)>
    decreases ps.len(),
{
    if ps.len() == 0 {
        env
    } else {
        bind_params(env, ps.drop_last(), tys.drop_last(), stage).insert(symbol_key(ps.last().0), (tys.last(), stage))
    }
}

/// The content kind a rule selector of type `t` selects; any other type
/// is an error whose message is `prefix` and the type.
pub open spec fn selector_kind(t: TypeModel, prefix: Seq<char>, span: Span) -> Result<ContentKind, CheckFailure> {
    match t {
        TypeModel::Selector(k) => Ok(k),
        TypeModel::Dyn => Ok(ContentKind::Content),
        _ => Err(CheckFailure::Mistyped(span, prefix + type_text(t))),
    }
}

/// The first dependency of a live block that is not bound under its `id:` key.
pub open spec fn first_unbound_dep(env: Map<Seq<char>, (TypeModel, usize)>, deps: Seq<Symbol>) -> Option<Symbol>
    decreases deps.len(),
{
    if deps.len() == 0 {
        None
    } else if !env.contains_key(symbol_key(deps[0])) {
        Some(deps[0])
    } else {
        first_unbound_dep(env, deps.drop_first())
    }
}

/// The most quotes and staged blocks nested along one path of an expression.
pub open spec fn stage_depth(e: ExprModel) -> nat
    decreases e,
{
    match e {
        ExprModel::BinOp(l, _, r, _) => {
            let a = stage_depth(*l);
            let b = stage_depth(*r);
            if a >= b { a } else { b }
        },
        ExprModel::UnOp(_, x, _) => stage_depth(*x),
        ExprModel::Call(f, args, _) => {
            let a = stage_depth(*f);
            let b = stage_depths(args);
            if a >= b { a } else { b }
        },
        ExprModel::FieldAccess(b, _, _) => stage_depth(*b),
        ExprModel::Subscript(b, i, _) => {
            let a = stage_depth(*b);
            let c = stage_depth(*i);
            if a >= c { a } else { c }
        },
        ExprModel::If(c, t, e, _) => {
            let a = stage_depth(*c);
            let b = stage_depth(*t);
            let d = match e {
                Some(x) => stage_depth(*x),
                None => 0,
            };
            if a >= b && a >= d { a } else if b >= d { b } else { d }
        },
        ExprModel::For(_, it, body, _) => {
            let a = stage_depth(*it);
            let b = stage_depth(*body);
            if a >= b { a } else { b }
        },
        ExprModel::Quote(x, _) => stage_depth(*x) + 1,
        ExprModel::Splice(x, _) => stage_depth(*x),
        ExprModel::Block(es, _) => stage_depths(es),
        ExprModel::Def { body, .. } => stage_depth(*body),
        ExprModel::Staged(x, _) => stage_depth(*x) + 1,
        ExprModel::ShowRule { selector, transform, .. } => {
            let a = stage_depth(*selector);
            let b = stage_depth(*transform);
            if a >= b { a } else { b }
        },
        ExprModel::SetRule { selector, values, .. } => {
            let a = stage_depth(*selector);
            let b = stage_depths(values);
            if a >= b { a } else { b }
        },
        ExprModel::Live { body, .. } => stage_depth(*body),
        _ => 0,
    }
}

/// The largest stage depth among expressions.
pub open spec fn stage_depths(es: Seq<ExprModel>) -> nat
    decreases es,
{
    if es.len() == 0 {
        0
    } else {
        let a = stage_depths(es.drop_last());
        let b = stage_depth(es.last());
        if a >= b { a } else { b }
    }
}

/// The result of checking an expression from state `st`, and the state it
/// leaves. Sub-expressions are checked left to right and the first error
/// ends the check; a scope or stage entered for a sub-expression is left
/// again only when that sub-expression checks, so an error leaves the
/// state where it arose.
pub open spec fn expr_checked(names: Map<u64, Seq<char>>, st: CheckState, e: ExprModel) -> (Result<TypeModel, CheckFailure>, CheckState)
    decreases e,
{
    match e {
        ExprModel::Literal(lit, _) => (Ok(literal_type(lit)), st),
        ExprModel::Var(sym, _, span) => (var_result(names, st, sym, span), st),
        ExprModel::BinOp(l, op, r, span) => {
            let (rl, s1) = expr_checked(names, st, *l);
            match rl {
                Err(f) => (Err(f), s1),
                Ok(lt) => {
                    let (rr, s2) = expr_checked(names, s1, *r);
                    match rr {
                        Err(f) => (Err(f), s2),
                        Ok(rt) => (binop_result(lt, op, rt, span), s2),
                    }
                },
            }
        },
        ExprModel::UnOp(op, x, span) => {
            let (rx, s1) = expr_checked(names, st, *x);
            match rx {
                Err(f) => (Err(f), s1),
                Ok(t) => (unop_result(op, t, span), s1),
            }
        },
        ExprModel::Call(f, args, span) => {
            let (rf, s1) = expr_checked(names, st, *f);
            match rf {
                Err(x) => (Err(x), s1),
                Ok(ft) => {
                    let (ra, s2) = exprs_checked(names, s1, args);
                    match ra {
                        Err(x) => (Err(x), s2),
                        Ok(ts) => (call_expr_result(ft, ts, span), s2),
                    }
                },
            }
        },
        ExprModel::FieldAccess(b, field, span) => {
            let (rb, s1) = expr_checked(names, st, *b);
            match rb {
                Err(f) => (Err(f), s1),
                Ok(bt) => (field_result(names, bt, field, span), s1),
            }
        },
        ExprModel::Subscript(b, i, span) => {
            let (rb, s1) = expr_checked(names, st, *b);
            match rb {
                Err(f) => (Err(f), s1),
                Ok(bt) => {
                    let (ri, s2) = expr_checked(names, s1, *i);
                    match ri {
                        Err(f) => (Err(f), s2),
                        Ok(it) => (subscript_result(bt, it, span), s2),
                    }
                },
            }
        },
        ExprModel::If(c, t, els, span) => {
            let (rc, s1) = expr_checked(names, st, *c);
            match rc {
                Err(f) => (Err(f), s1),
                Ok(ct) => if ct != TypeModel::Bool {
                    (Err(CheckFailure::Mistyped(expr_span(*c), "If condition must be Bool, got "@ + type_text(ct))), s1)
                } else {
                    let (rt, s2) = expr_checked(names, s1, *t);
                    match rt {
                        Err(f) => (Err(f), s2),
                        Ok(tt) => match els {
                            Some(eb) => {
                                let (re, s3) = expr_checked(names, s2, *eb);
                                match re {
                                    Err(f) => (Err(f), s3),
                                    Ok(et) => (unify_result(tt, et, span), s3),
                                }
                            },
                            None => (Ok(tt), s2),
                        },
                    }
                },
            }
        },
        ExprModel::For(var, it, body, _) => {
            let (ri, s1) = expr_checked(names, st, *it);
            match ri {
                Err(f) => (Err(f), s1),
                Ok(itt) => {
                    let elem = match itt {
                        TypeModel::Array(x) => *x,
                        _ => TypeModel::Dyn,
                    };
                    let inner = CheckState { env: s1.env.insert(symbol_key(var), (elem, s1.stage)), stage: s1.stage };
                    let (rb, s2) = expr_checked(names, inner, *body);
                    match rb {
                        Err(f) => (Err(f), s2),
                        Ok(bt) => (Ok(TypeModel::Array(Box::new(bt))), CheckState { env: s1.env, stage: s2.stage }),
                    }
                },
            }
        },
        ExprModel::Quote(x, _) => {
            let (rx, s1) = expr_checked(names, CheckState { stage: (st.stage + 1) as usize, ..st }, *x);
            match rx {
                Err(f) => (Err(f), s1),
                Ok(t) => (
                    Ok(TypeModel::Code(match kind_of_type(t) { Some(k) => k, None => ContentKind::Content })),
                    CheckState { stage: (s1.stage - 1) as usize, ..s1 },
                ),
            }
        },
        ExprModel::Splice(x, span) => if st.stage == 0 {
            (Err(CheckFailure::Staging(span,
                "Cannot splice at stage 0 (expand-time). Splices can only appear inside quotes."@)), st)
        } else {
            let (rx, s1) = expr_checked(names, CheckState { stage: (st.stage - 1) as usize, ..st }, *x);
            match rx {
                Err(f) => (Err(f), s1),
                Ok(t) => {
                    let s2 = CheckState { stage: (s1.stage + 1) as usize, ..s1 };
                    match t {
                        TypeModel::Code(k) => (Ok(kind_type(k)), s2),
                        _ => (Err(CheckFailure::Mistyped(span, "Splice requires Code<K>, got "@ + type_text(t))), s2),
                    }
                },
            }
        },
        ExprModel::Content(c, _) => (Ok(kind_type(crate::mrl::enforest::shape_kind(c))), st),
        ExprModel::Block(es, _) => if es.len() == 0 {
            (Ok(TypeModel::NoneType), st)
        } else {
            let (r, s1) = exprs_checked(names, st, es);
            match r {
                Err(f) => (Err(f), s1),
                Ok(ts) => (Ok(ts.last()), s1),
            }
        },
        ExprModel::Sequence(_, _) => (Ok(TypeModel::Shrubbery), st),
        ExprModel::Def { name, params, return_type, body, span } => {
            let tys = param_types(names, params);
            let expected = declared_return(names, return_type);
            let inner = CheckState { env: bind_params(st.env, params, tys, st.stage), stage: st.stage };
            let (rb, s1) = expr_checked(names, inner, *body);
            match rb {
                Err(f) => (Err(f), s1),
                Ok(bt) => if expected != TypeModel::Dyn && !subtype(bt, expected) {
                    (Err(CheckFailure::Mistyped(span, "Function body type "@ + type_text(bt)
                        + " doesn't match declared return type "@ + type_text(expected))), CheckState { env: st.env, stage: s1.stage })
                } else {
                    (Ok(TypeModel::NoneType), CheckState {
                        env: st.env.insert(symbol_key(name), (TypeModel::Function { params: tys, ret: Box::new(bt) }, s1.stage)),
                        stage: s1.stage,
                    })
                },
            }
        },
        ExprModel::Staged(x, _) => {
            let (rx, s1) = expr_checked(names, CheckState { stage: (st.stage + 1) as usize, ..st }, *x);
            match rx {
                Err(f) => (Err(f), s1),
                Ok(t) => (
                    Ok(match kind_of_type(t) { Some(k) => TypeModel::Code(k), None => t }),
                    CheckState { stage: (s1.stage - 1) as usize, ..s1 },
                ),
            }
        },
        ExprModel::ShowRule { selector, transform, .. } => {
            let (rs, s1) = expr_checked(names, st, *selector);
            match rs {
                Err(f) => (Err(f), s1),
                Ok(selt) => match selector_kind(selt, "Show rule selector must be Selector<K>, got "@, expr_span(*selector)) {
                    Err(f) => (Err(f), s1),
                    Ok(k) => {
                        let it = kind_type(k);
                        let inner = CheckState { env: s1.env.insert("it"@, (it, s1.stage)), stage: s1.stage };
                        let (rt, s2) = expr_checked(names, inner, *transform);
                        match rt {
                            Err(f) => (Err(f), s2),
                            Ok(tt) => {
                                let s3 = CheckState { env: s1.env, stage: s2.stage };
                                if !subtype(tt, it) {
                                    (Err(CheckFailure::Mistyped(expr_span(*transform), "Show transform must return "@ + type_text(it)
                                        + ", got "@ + type_text(tt) + " (transforms must preserve kind)"@)), s3)
                                } else {
                                    (Ok(TypeModel::NoneType), s3)
                                }
                            },
                        }
                    },
                },
            }
        },
        ExprModel::SetRule { selector, values, .. } => {
            let (rs, s1) = expr_checked(names, st, *selector);
            match rs {
                Err(f) => (Err(f), s1),
                Ok(selt) => match selector_kind(selt, "Set rule selector must be Selector<K>, got "@, expr_span(*selector)) {
                    Err(f) => (Err(f), s1),
                    Ok(_) => {
                        let (rv, s2) = exprs_checked(names, s1, values);
                        match rv {
                            Err(f) => (Err(f), s2),
                            Ok(_) => (Ok(TypeModel::NoneType), s2),
                        }
                    },
                },
            }
        },
        ExprModel::Live { deps, body, span } => {
            let missing = match deps {
                Some(d) => first_unbound_dep(st.env, d),
                None => None,
            };
            match missing {
                Some(d) => (Err(CheckFailure::Unbound(span, symbol_key(d))), st),
                None => {
                    let (rb, s1) = expr_checked(names, st, *body);
                    match rb {
                        Err(f) => (Err(f), s1),
                        Ok(_) => (Ok(TypeModel::NoneType), s1),
                    }
                },
            }
        },
    }
}

/// The types of expressions checked left to right, threading the state;
/// the first error ends the check.
pub open spec fn exprs_checked(names: Map<u64, Seq<char>>, st: CheckState, es: Seq<ExprModel>) -> (Result<Seq<TypeModel>, CheckFailure>, CheckState)
    decreases es,
{
    if es.len() == 0 {
        (Ok(Seq::empty()), st)
    } else {
        let (r0, s0) = exprs_checked(names, st, es.drop_last());
        match r0 {
            Err(f) => (Err(f), s0),
            Ok(ts) => {
                let (r1, s1) = expr_checked(names, s0, es.last());
                match r1 {
                    Err(f) => (Err(f), s1),
                    Ok(t) => (Ok(ts.push(t)), s1),
                }
            },
        }
    }
}


/// The result and final state of a check agree with `expr_checked`, and a
/// check that succeeds leaves the stage where it was.
pub open spec fn checked_outcome(names: Map<u64, Seq<char>>, before: CheckState, e: ExprModel, r: Result<MrlType, MrlError>, after: CheckState) -> bool {
    &&& expr_checked(names, before, e).1 == after
    &&& match expr_checked(names, before, e).0 {
        Ok(t) => r matches Ok(x) && x@ == t,
        Err(f) => r matches Err(x) && fails_with(x, f),
    }
    &&& (r is Ok ==> after.stage == before.stage)
}

/// The result and final state of checking a vector of expressions agree
/// with `exprs_checked`, and success leaves the stage where it was.
pub open spec fn checked_all_outcome(names: Map<u64, Seq<char>>, before: CheckState, es: Seq<ExprModel>, r: Result<Vec<MrlType>, MrlError>, after: CheckState) -> bool {
    &&& exprs_checked(names, before, es).1 == after
    &&& match exprs_checked(names, before, es).0 {
        Ok(ts) => r matches Ok(v) && type_models(v@) == ts,
        Err(f) => r matches Err(x) && fails_with(x, f),
    }
    &&& (r is Ok ==> after.stage == before.stage)
}

proof fn lemma_exprs_checked_err(names: Map<u64, Seq<char>>, st: CheckState, ms: Seq<ExprModel>, k: int)
    requires
        0 <= k <= ms.len(),
        exprs_checked(names, st, ms.take(k)).0 is Err,
    ensures
        exprs_checked(names, st, ms) == exprs_checked(names, st, ms.take(k)),
    decreases ms.len() - k,
{
    if k < ms.len() {
        assert(ms.take(k + 1).drop_last() =~= ms.take(k));
        lemma_exprs_checked_err(names, st, ms, k + 1);
    } else {
        assert(ms.take(k) =~= ms);
    }
}

proof fn lemma_stage_depths_bound(ms: Seq<ExprModel>, i: int)
    requires
        0 <= i < ms.len(),
    ensures
        stage_depth(ms[i]) <= stage_depths(ms),
    decreases ms.len(),
{
    if i < ms.len() - 1 {
        lemma_stage_depths_bound(ms.drop_last(), i);
    }
}

fn stage_error_message(name: &str, stage: usize, bound: usize) -> (r: String)
    ensures
        r@ == stage_message(name@, stage, bound),
{
    let mut m = to_owned_string("Cannot use '");
    push_str(&mut m, name);
    push_str(&mut m, "' at stage ");
    let d1 = u64_to_text(stage as u64);
    push_str(&mut m, d1.as_str());
    push_str(&mut m, " (bound at stage ");
    let d2 = u64_to_text(bound as u64);
    push_str(&mut m, d2.as_str());
    push_str(&mut m, "). CSP violation: bindings from higher stages cannot be used at lower stages.");
    m
}

fn return_type_for_name(n: &str) -> (r: MrlType)
    ensures
        r@ == return_type_named(n@),
{
    if str_eq(n, "None") || str_eq(n, "none") { MrlType::NoneType }
    else if str_eq(n, "Bool") || str_eq(n, "bool") { MrlType::Bool }
    else if str_eq(n, "Int") || str_eq(n, "int") { MrlType::Int }
    else if str_eq(n, "Float") || str_eq(n, "float") { MrlType::Float }
    else if str_eq(n, "String") || str_eq(n, "string") || str_eq(n, "str") { MrlType::String }
    else if str_eq(n, "Content") || str_eq(n, "content") { MrlType::Content }
    else if str_eq(n, "Block") || str_eq(n, "block") { MrlType::Block }
    else if str_eq(n, "Inline") || str_eq(n, "inline") { MrlType::Inline }
    else { MrlType::Dyn }
}

fn kind_type_of(k: ContentKind) -> (r: MrlType)
    ensures
        r@ == kind_type(k),
{
    match k {
        ContentKind::Block => MrlType::Block,
        ContentKind::Inline => MrlType::Inline,
        ContentKind::Content => MrlType::Content,
    }
}

impl TypeChecker {
    /// The bindings in scope and the stage level.
    pub open spec fn state(&self) -> CheckState {
        CheckState { env: self.env_map(), stage: self.stage() }
    }

    /// The type of a binding used at the current stage.
    fn binding_type(&self, b: &TypeBinding, name: &String, span: Span) -> (r: Result<MrlType, MrlError>)
        ensures
            match binding_at_stage((b.ty@, b.stage), name@, self.stage_level, span) {
                Ok(t) => r matches Ok(x) && x@ == t,
                Err(f) => r matches Err(e) && fails_with(e, f),
            },
    {
        if b.stage <= self.stage_level {
            Ok(b.ty.duplicate())
        } else {
            Err(MrlError::StageLevelError { span, message: stage_error_message(name.as_str(), self.stage_level, b.stage) })
        }
    }

    /// The type of a variable.
    fn check_var(&self, sym: Symbol, span: Span) -> (r: Result<MrlType, MrlError>)
        ensures
            match var_result(self.names(), self.state(), sym, span) {
                Ok(t) => r matches Ok(x) && x@ == t,
                Err(f) => r matches Err(e) && fails_with(e, f),
            },
    {
        let mut key = to_owned_string("id:");
        let digits = u64_to_text(sym.id());
        push_str(&mut key, digits.as_str());
        let name = match self.symbol_names.get(&sym.0) {
            Some(n) => n.clone(),
            None => key.clone(),
        };
        if let Some(b) = self.env.lookup_binding(key.as_str()) {
            return self.binding_type(b, &name, span);
        }
        if let Some(b) = self.env.lookup_binding(name.as_str()) {
            return self.binding_type(b, &name, span);
        }
        Err(MrlError::UnboundIdentifier { span, name })
    }

    /// Check expressions left to right; their types.
    fn check_exprs(&mut self, es: &Vec<Expr>) -> (r: Result<Vec<MrlType>, MrlError>)
        requires
            old(self).stage() + stage_depths(expr_models(es)) <= usize::MAX,
        ensures
            final(self).names() == old(self).names(),
            checked_all_outcome(old(self).names(), old(self).state(), expr_models(es), r, final(self).state()),
        decreases es, 0int,
    {
        let ghost ms = expr_models(es);
        let ghost names = self.names();
        let ghost st0 = self.state();
        let mut out: Vec<MrlType> = Vec::new();
        let mut i: usize = 0;
        assert(ms.take(0) =~= Seq::<ExprModel>::empty());
        assert(type_models(out@) =~= Seq::<TypeModel>::empty());
        while i < es.len()
            invariant
                0 <= i <= es@.len(),
                ms == expr_models(es),
                names == self.names(),
                names == old(self).names(),
                st0 == old(self).state(),
                self.stage() == st0.stage,
                st0.stage + stage_depths(ms) <= usize::MAX,
                exprs_checked(names, st0, ms.take(i as int)) == (Ok::<Seq<TypeModel>, CheckFailure>(type_models(out@)), self.state()),
            decreases es@.len() - i,
        {
            proof {
                assert(ms.take(i + 1).drop_last() =~= ms.take(i as int));
                assert(ms.take(i + 1).last() == es@[i as int]@);
                lemma_stage_depths_bound(ms, i as int);
            }
            match self.check_expr(&es[i]) {
                Ok(t) => {
                    let ghost before = out@;
                    out.push(t);
                    assert(type_models(out@) =~= type_models(before).push(out@.last()@));
                },
                Err(e) => {
                    proof {
                        lemma_exprs_checked_err(names, st0, ms, i + 1);
                    }
                    return Err(e);
                },
            }
            i = i + 1;
        }
        assert(ms.take(es@.len() as int) =~= ms);
        Ok(out)
    }

    /// Check the values of set-rule properties left to right.
    fn check_properties(&mut self, props: &Vec<(Symbol, Expr)>) -> (r: Result<Vec<MrlType>, MrlError>)
        requires
            old(self).stage() + stage_depths(crate::mrl::enforest::property_models(props)) <= usize::MAX,
        ensures
            final(self).names() == old(self).names(),
            checked_all_outcome(old(self).names(), old(self).state(), crate::mrl::enforest::property_models(props), r, final(self).state()),
        decreases props, 0int,
    {
        let ghost ms = crate::mrl::enforest::property_models(props);
        let ghost names = self.names();
        let ghost st0 = self.state();
        let mut out: Vec<MrlType> = Vec::new();
        let mut i: usize = 0;
        assert(ms.take(0) =~= Seq::<ExprModel>::empty());
        assert(type_models(out@) =~= Seq::<TypeModel>::empty());
        while i < props.len()
            invariant
                0 <= i <= props@.len(),
                ms == crate::mrl::enforest::property_models(props),
                names == self.names(),
                names == old(self).names(),
                st0 == old(self).state(),
                self.stage() == st0.stage,
                st0.stage + stage_depths(ms) <= usize::MAX,
                exprs_checked(names, st0, ms.take(i as int)) == (Ok::<Seq<TypeModel>, CheckFailure>(type_models(out@)), self.state()),
            decreases props@.len() - i,
        {
            proof {
                assert(ms.take(i + 1).drop_last() =~= ms.take(i as int));
                assert(ms.take(i + 1).last() == props@[i as int].1@);
                lemma_stage_depths_bound(ms, i as int);
                assert(decreases_to!(props => props@[i as int].1));
            }
            match self.check_expr(&props[i].1) {
                Ok(t) => {
                    let ghost before = out@;
                    out.push(t);
                    assert(type_models(out@) =~= type_models(before).push(out@.last()@));
                },
                Err(e) => {
                    proof {
                        lemma_exprs_checked_err(names, st0, ms, i + 1);
                    }
                    return Err(e);
                },
            }
            i = i + 1;
        }
        assert(ms.take(props@.len() as int) =~= ms);
        Ok(out)
    }

    /// Type check an expression: its type, or the first error met, with
    /// the state changes that `expr_checked` describes.
    pub fn check_expr(&mut self, expr: &Expr) -> (r: Result<MrlType, MrlError>)
        requires
            old(self).stage() + stage_depth(expr@) <= usize::MAX,
        ensures
            final(self).names() == old(self).names(),
            checked_outcome(old(self).names(), old(self).state(), expr@, r, final(self).state()),
        decreases expr, 1int,
    {
        match expr {
            Expr::Literal(lit, _) => Ok(self.type_of_literal(lit)),
            Expr::Var(sym, _, span) => self.check_var(*sym, *span),
            Expr::BinOp(..) => self.check_binop_expr(expr),
            Expr::UnOp(..) => self.check_unop_expr(expr),
            Expr::Call(..) => self.check_call_form(expr),
            Expr::FieldAccess(..) => self.check_field_expr(expr),
            Expr::Subscript(..) => self.check_subscript_expr(expr),
            Expr::If(..) => self.check_if(expr),
            Expr::For(..) => self.check_for(expr),
            Expr::Quote(..) => self.check_quote(expr),
            Expr::Splice(..) => self.check_splice(expr),
            Expr::Content(content, _) => Ok(match content {
                Content::Block(_) => MrlType::Block,
                Content::Inline(_) => MrlType::Inline,
                Content::Sequence(_) => MrlType::Content,
            }),
            Expr::Block(..) => self.check_block(expr),
            Expr::Sequence(_, _) => Ok(MrlType::Shrubbery),
            Expr::Def { .. } => self.check_def(expr),
            Expr::Staged(..) => self.check_staged(expr),
            Expr::ShowRule { .. } => self.check_show_rule(expr),
            Expr::SetRule { .. } => self.check_set_rule(expr),
            Expr::Live { .. } => self.check_live(expr),
        }
    }
}


impl TypeChecker {
    /// Check a conditional.
    fn check_if(&mut self, expr: &Expr) -> (r: Result<MrlType, MrlError>)
        requires
            expr@ is If,
            old(self).stage() + stage_depth(expr@) <= usize::MAX,
        ensures
            final(self).names() == old(self).names(),
            checked_outcome(old(self).names(), old(self).state(), expr@, r, final(self).state()),
        decreases expr, 0int,
    {
        match expr {
            Expr::If(cond, then_branch, else_branch, span) => {
                let ct = match self.check_expr(cond) {
                    Ok(t) => t,
                    Err(e) => return Err(e),
                };
                match ct {
                    MrlType::Bool => {},
                    _ => {
                        return Err(MrlError::TypeError {
                            span: cond.span(),
                            message: text_of_type("If condition must be Bool, got ", &ct),
                        });
                    },
                }
                let tt = match self.check_expr(then_branch) {
                    Ok(t) => t,
                    Err(e) => return Err(e),
                };
                match else_branch {
                    Some(eb) => {
                        let et = match self.check_expr(eb) {
                            Ok(t) => t,
                            Err(e) => return Err(e),
                        };
                        self.unify_types(&tt, &et, *span)
                    },
                    None => Ok(tt),
                }
            },
            _ => Ok(MrlType::Dyn),
        }
    }

    /// Check a loop: the body in a scope where the loop variable is bound
    /// to the element type.
    fn check_for(&mut self, expr: &Expr) -> (r: Result<MrlType, MrlError>)
        requires
            expr@ is For,
            old(self).stage() + stage_depth(expr@) <= usize::MAX,
        ensures
            final(self).names() == old(self).names(),
            checked_outcome(old(self).names(), old(self).state(), expr@, r, final(self).state()),
        decreases expr, 0int,
    {
        match expr {
            Expr::For(var, iterable, body, _) => {
                let it = match self.check_expr(iterable) {
                    Ok(t) => t,
                    Err(e) => return Err(e),
                };
                let elem_ty = match it {
                    MrlType::Array(elem) => *elem,
                    _ => MrlType::Dyn,
                };
                let mut key = to_owned_string("id:");
                let digits = u64_to_text(var.id());
                push_str(&mut key, digits.as_str());
                let mut scope_env = self.env.child();
                scope_env.bind_at_stage(key, elem_ty, self.stage_level);
                std::mem::swap(&mut self.env, &mut scope_env);
                let bt = match self.check_expr(body) {
                    Ok(t) => t,
                    Err(e) => return Err(e),
                };
                self.env = scope_env;
                Ok(MrlType::Array(Box::new(bt)))
            },
            _ => Ok(MrlType::Dyn),
        }
    }

    /// Check a live block: its dependencies must be bound, then its body.
    #[verifier::loop_isolation(false)]
    fn check_live(&mut self, expr: &Expr) -> (r: Result<MrlType, MrlError>)
        requires
            expr@ is Live,
            old(self).stage() + stage_depth(expr@) <= usize::MAX,
        ensures
            final(self).names() == old(self).names(),
            checked_outcome(old(self).names(), old(self).state(), expr@, r, final(self).state()),
        decreases expr, 0int,
    {
        match expr {
            Expr::Live { deps, body, span } => {
                if let Some(dep_list) = deps {
                    let ghost env = self.env_map();
                    let mut i: usize = 0;
                    assert(dep_list@.skip(0) =~= dep_list@);
                    while i < dep_list.len()
                        invariant
                            0 <= i <= dep_list@.len(),
                            env == self.env_map(),
                            first_unbound_dep(env, dep_list@) == first_unbound_dep(env, dep_list@.skip(i as int)),
                        decreases dep_list@.len() - i,
                    {
                        assert(dep_list@.skip(i as int).drop_first() =~= dep_list@.skip(i + 1));
                        assert(dep_list@.skip(i as int)[0] == dep_list@[i as int]);
                        let mut key = to_owned_string("id:");
                        let digits = u64_to_text(dep_list[i].id());
                        push_str(&mut key, digits.as_str());
                        if self.env.lookup(key.as_str()).is_none() {
                            return Err(MrlError::UnboundIdentifier { span: *span, name: key });
                        }
                        i = i + 1;
                    }
                    assert(dep_list@.skip(dep_list@.len() as int) =~= Seq::<Symbol>::empty());
                }
                match self.check_expr(body) {
                    Ok(_) => Ok(MrlType::NoneType),
                    Err(e) => Err(e),
                }
            },
            _ => Ok(MrlType::Dyn),
        }
    }

    /// Check a show rule: the selector, then the transform with `it` bound
    /// to the selected kind; the transform must give that kind back.
    fn check_show_rule(&mut self, expr: &Expr) -> (r: Result<MrlType, MrlError>)
        requires
            expr@ is ShowRule,
            old(self).stage() + stage_depth(expr@) <= usize::MAX,
        ensures
            final(self).names() == old(self).names(),
            checked_outcome(old(self).names(), old(self).state(), expr@, r, final(self).state()),
        decreases expr, 0int,
    {
        match expr {
            Expr::ShowRule { selector, transform, .. } => {
                let st = match self.check_expr(selector) {
                    Ok(t) => t,
                    Err(e) => return Err(e),
                };
                let kind = match st {
                    MrlType::Selector(k) => k,
                    MrlType::Dyn => ContentKind::Content,
                    _ => {
                        return Err(MrlError::TypeError {
                            span: selector.span(),
                            message: text_of_type("Show rule selector must be Selector<K>, got ", &st),
                        });
                    },
                };
                let it_ty = kind_type_of(kind);
                let mut scope_env = self.env.child();
                scope_env.bind_at_stage(to_owned_string("it"), it_ty.duplicate(), self.stage_level);
                std::mem::swap(&mut self.env, &mut scope_env);
                let tt = match self.check_expr(transform) {
                    Ok(t) => t,
                    Err(e) => return Err(e),
                };
                self.env = scope_env;
                if !tt.is_subtype_of(&it_ty) {
                    let mut m = text_of_type("Show transform must return ", &it_ty);
                    let rest = text_of_type(", got ", &tt);
                    push_str(&mut m, rest.as_str());
                    push_str(&mut m, " (transforms must preserve kind)");
                    assert(m@ =~= "Show transform must return "@ + type_text(it_ty@) + ", got "@ + type_text(tt@) + " (transforms must preserve kind)"@);
                    return Err(MrlError::TypeError { span: transform.span(), message: m });
                }
                Ok(MrlType::NoneType)
            },
            _ => Ok(MrlType::Dyn),
        }
    }

    /// Check a set rule: the selector, then each property value.
    fn check_set_rule(&mut self, expr: &Expr) -> (r: Result<MrlType, MrlError>)
        requires
            expr@ is SetRule,
            old(self).stage() + stage_depth(expr@) <= usize::MAX,
        ensures
            final(self).names() == old(self).names(),
            checked_outcome(old(self).names(), old(self).state(), expr@, r, final(self).state()),
        decreases expr, 0int,
    {
        match expr {
            Expr::SetRule { selector, properties, .. } => {
                let st = match self.check_expr(selector) {
                    Ok(t) => t,
                    Err(e) => return Err(e),
                };
                match st {
                    MrlType::Selector(_) | MrlType::Dyn => {},
                    _ => {
                        return Err(MrlError::TypeError {
                            span: selector.span(),
                            message: text_of_type("Set rule selector must be Selector<K>, got ", &st),
                        });
                    },
                }
                match self.check_properties(properties) {
                    Ok(_) => Ok(MrlType::NoneType),
                    Err(e) => Err(e),
                }
            },
            _ => Ok(MrlType::Dyn),
        }
    }

    /// Check a definition: the body in a scope where the parameters are
    /// bound to their annotated types; then bind the function's name.
    #[verifier::loop_isolation(false)]
    fn check_def(&mut self, expr: &Expr) -> (r: Result<MrlType, MrlError>)
        requires
            expr@ is Def,
            old(self).stage() + stage_depth(expr@) <= usize::MAX,
        ensures
            final(self).names() == old(self).names(),
            checked_outcome(old(self).names(), old(self).state(), expr@, r, final(self).state()),
        decreases expr, 0int,
    {
        match expr {
            Expr::Def { name, params, return_type, body, span } => {
                let ghost names = self.names();
                let ghost pm = crate::mrl::enforest::param_models(params);
                let ghost all_tys = param_types(names, pm);
                let mut param_tys: Vec<MrlType> = Vec::new();
                let mut i: usize = 0;
                while i < params.len()
                    invariant
                        0 <= i <= params@.len(),
                        names == self.names(),
                        pm == crate::mrl::enforest::param_models(params),
                        all_tys == param_types(names, pm),
                        models(&param_tys) == all_tys.take(i as int),
                    decreases params@.len() - i,
                {
                    let ty = match &params[i].type_annotation {
                        Some(ann) => self.interpret_type(ann),
                        None => MrlType::Dyn,
                    };
                    let ghost before = models(&param_tys);
                    assert(pm[i as int].1 == match params@[i as int].type_annotation {
                        Some(t) => Some(t@),
                        None => None::<ShrubModel>,
                    });
                    assert(all_tys[i as int] == ty@);
                    param_tys.push(ty);
                    assert(models(&param_tys) =~= all_tys.take(i + 1));
                    i = i + 1;
                }
                assert(all_tys.take(params@.len() as int) =~= all_tys);
                let ghost rt_model = match return_type {
                    Some(x) => Some(Box::new(x@)),
                    None => None::<Box<ExprModel>>,
                };
                assert(expr@ == (ExprModel::Def { name: *name, params: pm, return_type: rt_model, body: Box::new(body@), span: *span }));
                let expected = match return_type {
                    Some(rt) => match &**rt {
                        Expr::Var(sym, _, _) => {
                            let n = self.symbol_name_or_empty(*sym);
                            return_type_for_name(n.as_str())
                        },
                        _ => MrlType::Dyn,
                    },
                    None => MrlType::Dyn,
                };
                assert(expected@ == declared_return(names, rt_model));
                let mut scope_env = self.env.child();
                let ghost env0 = self.env_map();
                let mut j: usize = 0;
                while j < params.len()
                    invariant
                        0 <= j <= params@.len(),
                        params@.len() == param_tys@.len(),
                        pm == crate::mrl::enforest::param_models(params),
                        models(&param_tys) == all_tys,
                        all_tys.len() == pm.len(),
                        scope_env@ == bind_params(env0, pm.take(j as int), all_tys.take(j as int), self.stage_level),
                    decreases params@.len() - j,
                {
                    let mut key = to_owned_string("id:");
                    let digits = u64_to_text(params[j].name.id());
                    push_str(&mut key, digits.as_str());
                    scope_env.bind_at_stage(key, param_tys[j].duplicate(), self.stage_level);
                    assert(pm.take(j + 1).drop_last() =~= pm.take(j as int));
                    assert(all_tys.take(j + 1).drop_last() =~= all_tys.take(j as int));
                    assert(all_tys[j as int] == param_tys@[j as int]@);
                    j = j + 1;
                }
                assert(pm.take(params@.len() as int) =~= pm);
                assert(all_tys.take(params@.len() as int) =~= all_tys);
                std::mem::swap(&mut self.env, &mut scope_env);
                let bt = match self.check_expr(body) {
                    Ok(t) => t,
                    Err(e) => return Err(e),
                };
                self.env = scope_env;
                let declared = match expected {
                    MrlType::Dyn => false,
                    _ => true,
                };
                assert(declared == (expected@ != TypeModel::Dyn));
                if declared && !bt.is_subtype_of(&expected) {
                    let mut m = text_of_type("Function body type ", &bt);
                    let rest = text_of_type(" doesn't match declared return type ", &expected);
                    push_str(&mut m, rest.as_str());
                    assert(m@ =~= "Function body type "@ + type_text(bt@) + " doesn't match declared return type "@ + type_text(expected@));
                    return Err(MrlError::TypeError { span: *span, message: m });
                }
                let func_ty = MrlType::Function { params: param_tys, ret: Box::new(bt) };
                let mut key = to_owned_string("id:");
                let digits = u64_to_text(name.id());
                push_str(&mut key, digits.as_str());
                self.env.bind_at_stage(key, func_ty, self.stage_level);
                Ok(MrlType::NoneType)
            },
            _ => Ok(MrlType::Dyn),
        }
    }
}

impl TypeChecker {
    /// Check a binary operation: left operand, right operand, then the operator.
    fn check_binop_expr(&mut self, expr: &Expr) -> (r: Result<MrlType, MrlError>)
        requires
            expr@ is BinOp,
            old(self).stage() + stage_depth(expr@) <= usize::MAX,
        ensures
            final(self).names() == old(self).names(),
            checked_outcome(old(self).names(), old(self).state(), expr@, r, final(self).state()),
        decreases expr, 0int,
    {
        match expr {
            Expr::BinOp(left, op, right, span) => {
                let lt = match self.check_expr(left) {
                    Ok(t) => t,
                    Err(e) => return Err(e),
                };
                let rt = match self.check_expr(right) {
                    Ok(t) => t,
                    Err(e) => return Err(e),
                };
                self.check_binop(&lt, op, &rt, *span)
            },
            _ => Ok(MrlType::Dyn),
        }
    }

    /// Check a unary operation.
    fn check_unop_expr(&mut self, expr: &Expr) -> (r: Result<MrlType, MrlError>)
        requires
            expr@ is UnOp,
            old(self).stage() + stage_depth(expr@) <= usize::MAX,
        ensures
            final(self).names() == old(self).names(),
            checked_outcome(old(self).names(), old(self).state(), expr@, r, final(self).state()),
        decreases expr, 0int,
    {
        match expr {
            Expr::UnOp(op, operand, span) => {
                let t = match self.check_expr(operand) {
                    Ok(t) => t,
                    Err(e) => return Err(e),
                };
                self.check_unop(op, &t, *span)
            },
            _ => Ok(MrlType::Dyn),
        }
    }

    /// Check a call: the function, then the arguments left to right.
    fn check_call_form(&mut self, expr: &Expr) -> (r: Result<MrlType, MrlError>)
        requires
            expr@ is Call,
            old(self).stage() + stage_depth(expr@) <= usize::MAX,
        ensures
            final(self).names() == old(self).names(),
            checked_outcome(old(self).names(), old(self).state(), expr@, r, final(self).state()),
        decreases expr, 0int,
    {
        match expr {
            Expr::Call(func, args, span) => {
                let ft = match self.check_expr(func) {
                    Ok(t) => t,
                    Err(e) => return Err(e),
                };
                let ts = match self.check_exprs(args) {
                    Ok(v) => v,
                    Err(e) => return Err(e),
                };
                self.check_call_expr(&ft, ts.as_slice(), *span)
            },
            _ => Ok(MrlType::Dyn),
        }
    }

    /// Check a field access.
    fn check_field_expr(&mut self, expr: &Expr) -> (r: Result<MrlType, MrlError>)
        requires
            expr@ is FieldAccess,
            old(self).stage() + stage_depth(expr@) <= usize::MAX,
        ensures
            final(self).names() == old(self).names(),
            checked_outcome(old(self).names(), old(self).state(), expr@, r, final(self).state()),
        decreases expr, 0int,
    {
        match expr {
            Expr::FieldAccess(base, field, span) => {
                let bt = match self.check_expr(base) {
                    Ok(t) => t,
                    Err(e) => return Err(e),
                };
                self.check_field_access(&bt, *field, *span)
            },
            _ => Ok(MrlType::Dyn),
        }
    }

    /// Check a subscript: the base, then the index.
    fn check_subscript_expr(&mut self, expr: &Expr) -> (r: Result<MrlType, MrlError>)
        requires
            expr@ is Subscript,
            old(self).stage() + stage_depth(expr@) <= usize::MAX,
        ensures
            final(self).names() == old(self).names(),
            checked_outcome(old(self).names(), old(self).state(), expr@, r, final(self).state()),
        decreases expr, 0int,
    {
        match expr {
            Expr::Subscript(base, index, span) => {
                let bt = match self.check_expr(base) {
                    Ok(t) => t,
                    Err(e) => return Err(e),
                };
                let it = match self.check_expr(index) {
                    Ok(t) => t,
                    Err(e) => return Err(e),
                };
                self.check_subscript(&bt, &it, *span)
            },
            _ => Ok(MrlType::Dyn),
        }
    }

    /// Check a quote one stage up; it gives code of the kind of what it quotes.
    fn check_quote(&mut self, expr: &Expr) -> (r: Result<MrlType, MrlError>)
        requires
            expr@ is Quote,
            old(self).stage() + stage_depth(expr@) <= usize::MAX,
        ensures
            final(self).names() == old(self).names(),
            checked_outcome(old(self).names(), old(self).state(), expr@, r, final(self).state()),
        decreases expr, 0int,
    {
        match expr {
            Expr::Quote(inner, _) => {
                self.stage_level = self.stage_level + 1;
                let t = match self.check_expr(inner) {
                    Ok(t) => t,
                    Err(e) => return Err(e),
                };
                self.stage_level = self.stage_level - 1;
                let kind = match t.as_content_kind() {
                    Some(k) => k,
                    None => ContentKind::Content,
                };
                Ok(MrlType::Code(kind))
            },
            _ => Ok(MrlType::Dyn),
        }
    }

    /// Check a splice one stage down; it unwraps code.
    fn check_splice(&mut self, expr: &Expr) -> (r: Result<MrlType, MrlError>)
        requires
            expr@ is Splice,
            old(self).stage() + stage_depth(expr@) <= usize::MAX,
        ensures
            final(self).names() == old(self).names(),
            checked_outcome(old(self).names(), old(self).state(), expr@, r, final(self).state()),
        decreases expr, 0int,
    {
        match expr {
            Expr::Splice(inner, span) => {
                if self.stage_level == 0 {
                    return Err(MrlError::StageLevelError {
                        span: *span,
                        message: to_owned_string("Cannot splice at stage 0 (expand-time). Splices can only appear inside quotes."),
                    });
                }
                self.stage_level = self.stage_level - 1;
                let t = match self.check_expr(inner) {
                    Ok(t) => t,
                    Err(e) => return Err(e),
                };
                self.stage_level = self.stage_level + 1;
                match t {
                    MrlType::Code(kind) => Ok(kind_type_of(kind)),
                    _ => Err(MrlError::TypeError { span: *span, message: text_of_type("Splice requires Code<K>, got ", &t) }),
                }
            },
            _ => Ok(MrlType::Dyn),
        }
    }

    /// Check a block: each expression in turn; the type of the last.
    fn check_block(&mut self, expr: &Expr) -> (r: Result<MrlType, MrlError>)
        requires
            expr@ is Block,
            old(self).stage() + stage_depth(expr@) <= usize::MAX,
        ensures
            final(self).names() == old(self).names(),
            checked_outcome(old(self).names(), old(self).state(), expr@, r, final(self).state()),
        decreases expr, 0int,
    {
        match expr {
            Expr::Block(exprs, _) => {
                if exprs.len() == 0 {
                    assert(expr_models(exprs).len() == 0);
                    return Ok(MrlType::NoneType);
                }
                let mut ts = match self.check_exprs(exprs) {
                    Ok(v) => v,
                    Err(e) => return Err(e),
                };
                let ghost tm = type_models(ts@);
                match ts.pop() {
                    Some(t) => {
                        assert(t@ == tm.last());
                        Ok(t)
                    },
                    None => Ok(MrlType::NoneType),
                }
            },
            _ => Ok(MrlType::Dyn),
        }
    }

    /// Check a staged block one stage up.
    fn check_staged(&mut self, expr: &Expr) -> (r: Result<MrlType, MrlError>)
        requires
            expr@ is Staged,
            old(self).stage() + stage_depth(expr@) <= usize::MAX,
        ensures
            final(self).names() == old(self).names(),
            checked_outcome(old(self).names(), old(self).state(), expr@, r, final(self).state()),
        decreases expr, 0int,
    {
        match expr {
            Expr::Staged(inner, _) => {
                self.stage_level = self.stage_level + 1;
                let t = match self.check_expr(inner) {
                    Ok(t) => t,
                    Err(e) => return Err(e),
                };
                self.stage_level = self.stage_level - 1;
                match t.as_content_kind() {
                    Some(k) => Ok(MrlType::Code(k)),
                    None => Ok(t),
                }
            },
            _ => Ok(MrlType::Dyn),
        }
    }
}


impl TypeChecker {
    /// The type environment.
    pub fn env(&self) -> (r: &TypeEnv)
        ensures
            r@ == self.env_map(),
    {
        &self.env
    }

    /// The type environment, to change it.
    pub fn env_mut(&mut self) -> (r: &mut TypeEnv)
        ensures
            r@ == old(self).env_map(),
            final(self).env_map() == final(r)@,
            final(self).names() == old(self).names(),
            final(self).stage() == old(self).stage(),
    {
        &mut self.env
    }
}

} // verus!
