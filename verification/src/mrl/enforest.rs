//! Operator infrastructure for enforestation: relative (not numeric)
//! precedence between operators, associativity, protocols, and the
//! environment of operators that the precedence climber consults.

use vstd::prelude::*;
use crate::mrl::content::{Content, Inline};
use crate::mrl::error::Span;
use crate::mrl::shrubbery::{duplicate_params, opt_box_model, Literal, LiteralModel, Param, ScopeSet, Shrubbery, ShrubModel, Symbol, param_seq_model, shrub_models, shrub_span};
use crate::mrl::types::ContentKind;
use crate::util::strmap::StrMap;
use crate::util::text::{decimal, push_str, str_eq, to_owned_string, u64_to_text};
use crate::mrl::error::MrlError;
use std::collections::HashMap;

verus! {

/// Relative precedence relationship between operators.
#[derive(Debug, Clone, Copy, PartialEq, Eq, Structural)]
pub enum Relation {
    Weaker,
    Stronger,
    Same,
}

/// Operator associativity.
#[derive(Debug, Clone, Copy, PartialEq, Eq, Structural)]
pub enum Assoc {
    Left,
    Right,
    /// Not associative: chaining it with an operator of the same
    /// precedence is an error.
    Nonassoc,
}

/// Operator protocol determines how an operator is invoked.
#[derive(Debug, Clone, Copy, PartialEq, Eq, Structural)]
pub enum Protocol {
    /// Automatic: operator function receives parsed forms.
    /// The enforestation algorithm handles precedence automatically.
    Automatic,
    /// Macro: operator transformer consumes the tail directly.
    /// Used for complex syntax like `if`, `for`, etc.
    Macro,
}

/// Result of comparing relative precedence.
#[derive(Debug, Clone, Copy, PartialEq, Eq, Structural)]
pub enum PrecResult {
    Stronger,
    Weaker,
    Same,
    SameOnLeft,
    SameOnRight,
    Inconsistent,
    Unknown,
}

/// A prefix operator (appears before its operand).
#[derive(Debug, Clone)]
pub struct PrefixOperator {
    pub name: Symbol,
    pub protocol: Protocol,
    /// Relative precedences: (other_op, relation);
    /// e.g. [("-", Weaker)] means "I am weaker than -".
    pub precedences: Vec<(Symbol, Relation)>,
    /// Default precedence for operators not in the list.
    pub default_prec: Option<Relation>,
}

/// An infix operator (appears between operands).
#[derive(Debug, Clone)]
pub struct InfixOperator {
    pub name: Symbol,
    pub protocol: Protocol,
    pub assoc: Assoc,
    /// Relative precedences: (other_op, relation).
    pub precedences: Vec<(Symbol, Relation)>,
    /// Default precedence for operators not in the list.
    pub default_prec: Option<Relation>,
}

/// An operator as a value: its name, protocol, associativity (left for
/// prefix operators), declared precedences in order, and default.
pub struct OpView {
    pub name: Symbol,
    pub protocol: Protocol,
    pub assoc: Assoc,
    pub precedences: Seq<(Symbol, Relation)>,
    pub default_prec: Option<Relation>,
}

impl View for PrefixOperator {
    type V = OpView;

    open spec fn view(&self) -> OpView {
        OpView {
            name: self.name,
            protocol: self.protocol,
            assoc: Assoc::Left,
            precedences: self.precedences@,
            default_prec: self.default_prec,
        }
    }
}

impl View for InfixOperator {
    type V = OpView;

    open spec fn view(&self) -> OpView {
        OpView {
            name: self.name,
            protocol: self.protocol,
            assoc: self.assoc,
            precedences: self.precedences@,
            default_prec: self.default_prec,
        }
    }
}

/// The relation declared for `other` in `precs`: the first entry for it,
/// else `default`.
pub open spec fn declared_prec(precs: Seq<(Symbol, Relation)>, other: Symbol, default: Option<Relation>) -> Option<Relation>
    decreases precs.len(),
{
    if precs.len() == 0 {
        default
    } else if precs[0].0 == other {
        Some(precs[0].1)
    } else {
        declared_prec(precs.drop_first(), other, default)
    }
}

impl PrefixOperator {
    /// A prefix operator with no declared precedences and no default.
    pub fn new(name: Symbol, protocol: Protocol) -> (r: Self)
        ensures
            r@ == (OpView { name, protocol, assoc: Assoc::Left, precedences: Seq::empty(), default_prec: None }),
    {
        PrefixOperator { name, protocol, precedences: Vec::new(), default_prec: None }
    }

    /// This operator with `rel` declared relative to `other`, after the
    /// precedences declared so far.
    pub fn with_prec(self, other: Symbol, rel: Relation) -> (r: Self)
        ensures
            r@ == (OpView { precedences: self@.precedences.push((other, rel)), ..self@ }),
    {
        let mut s = self;
        s.precedences.push((other, rel));
        s
    }

    /// This operator with default precedence `rel`.
    pub fn with_default(self, rel: Relation) -> (r: Self)
        ensures
            r@ == (OpView { default_prec: Some(rel), ..self@ }),
    {
        let mut s = self;
        s.default_prec = Some(rel);
        s
    }
}

impl InfixOperator {
    /// An infix operator with no declared precedences and no default.
    pub fn new(name: Symbol, protocol: Protocol, assoc: Assoc) -> (r: Self)
        ensures
            r@ == (OpView { name, protocol, assoc, precedences: Seq::empty(), default_prec: None }),
    {
        InfixOperator { name, protocol, assoc, precedences: Vec::new(), default_prec: None }
    }

    /// This operator with `rel` declared relative to `other`, after the
    /// precedences declared so far.
    pub fn with_prec(self, other: Symbol, rel: Relation) -> (r: Self)
        ensures
            r@ == (OpView { precedences: self@.precedences.push((other, rel)), ..self@ }),
    {
        let mut s = self;
        s.precedences.push((other, rel));
        s
    }

    /// This operator with default precedence `rel`.
    pub fn with_default(self, rel: Relation) -> (r: Self)
        ensures
            r@ == (OpView { default_prec: Some(rel), ..self@ }),
    {
        let mut s = self;
        s.default_prec = Some(rel);
        s
    }

    /// Get precedence of self relative to another operator: the first
    /// relation declared for it, else the default.
    pub fn get_precedence(&self, other: Symbol) -> (r: Option<Relation>)
        ensures
            r == declared_prec(self@.precedences, other, self.default_prec),
    {
        let mut i: usize = 0;
        assert(self.precedences@.skip(0) =~= self.precedences@);
        while i < self.precedences.len()
            invariant
                0 <= i <= self.precedences@.len(),
                declared_prec(self.precedences@, other, self.default_prec)
                    == declared_prec(self.precedences@.skip(i as int), other, self.default_prec),
            decreases self.precedences@.len() - i,
        {
            assert(self.precedences@.skip(i as int).drop_first() =~= self.precedences@.skip(i + 1));
            if self.precedences[i].0 == other {
                return Some(self.precedences[i].1);
            }
            i = i + 1;
        }
        self.default_prec
    }
}

/// The result of comparing two operators that relate with `Same`: equal
/// associativity to the left or right says which side groups first;
/// anything else is inconsistent.
pub open spec fn same_result(left: Assoc, right: Assoc) -> PrecResult {
    match (left, right) {
        (Assoc::Left, Assoc::Left) => PrecResult::SameOnLeft,
        (Assoc::Right, Assoc::Right) => PrecResult::SameOnRight,
        _ => PrecResult::Inconsistent,
    }
}

/// How the right operator binds relative to the left one: by the right
/// operator's declaration about the left one if it has one, else by the
/// left operator's declaration about the right one read backwards, else
/// unknown.
pub open spec fn prec_between(left: OpView, right: OpView) -> PrecResult {
    match declared_prec(right.precedences, left.name, right.default_prec) {
        Some(Relation::Weaker) => PrecResult::Weaker,
        Some(Relation::Stronger) => PrecResult::Stronger,
        Some(Relation::Same) => same_result(left.assoc, right.assoc),
        None => match declared_prec(left.precedences, right.name, left.default_prec) {
            Some(Relation::Weaker) => PrecResult::Stronger,
            Some(Relation::Stronger) => PrecResult::Weaker,
            Some(Relation::Same) => same_result(left.assoc, right.assoc),
            None => PrecResult::Unknown,
        },
    }
}

fn assoc_result(left: Assoc, right: Assoc) -> (r: PrecResult)
    ensures
        r == same_result(left, right),
{
    match (left, right) {
        (Assoc::Left, Assoc::Left) => PrecResult::SameOnLeft,
        (Assoc::Right, Assoc::Right) => PrecResult::SameOnRight,
        _ => PrecResult::Inconsistent,
    }
}

/// Compare relative precedence between left operator and current operator.
pub fn relative_precedence(left_op: &InfixOperator, right_op: &InfixOperator) -> (r: PrecResult)
    ensures
        r == prec_between(left_op@, right_op@),
{
    if let Some(rel) = right_op.get_precedence(left_op.name) {
        return match rel {
            Relation::Weaker => PrecResult::Weaker,
            Relation::Stronger => PrecResult::Stronger,
            Relation::Same => assoc_result(left_op.assoc, right_op.assoc),
        };
    }
    if let Some(rel) = left_op.get_precedence(right_op.name) {
        return match rel {
            Relation::Weaker => PrecResult::Stronger,
            Relation::Stronger => PrecResult::Weaker,
            Relation::Same => assoc_result(left_op.assoc, right_op.assoc),
        };
    }
    PrecResult::Unknown
}

/// Implicit operators handle cases where no explicit operator is present.
#[derive(Debug, Clone, Copy, PartialEq, Eq, Structural)]
pub enum ImplicitOp {
    /// #%call - function call: identifier followed by parens
    Call,
    /// #%juxtapose - two forms adjacent without operator
    Juxtapose,
    /// #%parens - bare parentheses (grouping)
    Parens,
    /// #%brackets - bare brackets (content/array)
    Brackets,
    /// #%braces - bare braces (block/object)
    Braces,
    /// #%literal - literal values
    Literal,
    /// #%identifier - bare identifier
    Identifier,
}

/// Binary operator for the AST.
#[derive(Debug, Clone, Copy, PartialEq, Eq, Structural)]
pub enum BinOp {
    Add,
    Sub,
    Mul,
    Div,
    Mod,
    Pow,
    Eq,
    Ne,
    Lt,
    Le,
    Gt,
    Ge,
    And,
    Or,
    Concat,
    Assign,
}

/// The binary operator spelled `s`.
pub open spec fn binop_spelled(s: Seq<char>) -> Option<BinOp> {
    if s == "+"@ { Some(BinOp::Add) }
    else if s == "-"@ { Some(BinOp::Sub) }
    else if s == "*"@ { Some(BinOp::Mul) }
    else if s == "/"@ { Some(BinOp::Div) }
    else if s == "%"@ { Some(BinOp::Mod) }
    else if s == "**"@ { Some(BinOp::Pow) }
    else if s == "=="@ { Some(BinOp::Eq) }
    else if s == "!="@ { Some(BinOp::Ne) }
    else if s == "<"@ { Some(BinOp::Lt) }
    else if s == "<="@ { Some(BinOp::Le) }
    else if s == ">"@ { Some(BinOp::Gt) }
    else if s == ">="@ { Some(BinOp::Ge) }
    else if s == "&&"@ { Some(BinOp::And) }
    else if s == "||"@ { Some(BinOp::Or) }
    else if s == "++"@ { Some(BinOp::Concat) }
    else if s == "="@ { Some(BinOp::Assign) }
    else { None }
}

impl BinOp {
    /// The binary operator spelled `s`, if any.
    pub fn from_str(s: &str) -> (r: Option<Self>)
        ensures
            r == binop_spelled(s@),
    {
        if str_eq(s, "+") { Some(BinOp::Add) }
        else if str_eq(s, "-") { Some(BinOp::Sub) }
        else if str_eq(s, "*") { Some(BinOp::Mul) }
        else if str_eq(s, "/") { Some(BinOp::Div) }
        else if str_eq(s, "%") { Some(BinOp::Mod) }
        else if str_eq(s, "**") { Some(BinOp::Pow) }
        else if str_eq(s, "==") { Some(BinOp::Eq) }
        else if str_eq(s, "!=") { Some(BinOp::Ne) }
        else if str_eq(s, "<") { Some(BinOp::Lt) }
        else if str_eq(s, "<=") { Some(BinOp::Le) }
        else if str_eq(s, ">") { Some(BinOp::Gt) }
        else if str_eq(s, ">=") { Some(BinOp::Ge) }
        else if str_eq(s, "&&") { Some(BinOp::And) }
        else if str_eq(s, "||") { Some(BinOp::Or) }
        else if str_eq(s, "++") { Some(BinOp::Concat) }
        else if str_eq(s, "=") { Some(BinOp::Assign) }
        else { None }
    }
}

/// Unary operator.
#[derive(Debug, Clone, Copy, PartialEq, Eq, Structural)]
pub enum UnOp {
    Neg,
    Not,
}

/// The precedence declared by `rel` toward the operator the table names
/// `n`, if it names one.
pub open spec fn prec_if(t: StrMap<Symbol>, n: Seq<char>, rel: Relation) -> Seq<(Symbol, Relation)> {
    match t.lookup(n) {
        Some(s) => seq![(s, rel)],
        None => Seq::empty(),
    }
}

/// `prec_if` for an optional name.
pub open spec fn prec_opt(t: StrMap<Symbol>, n: Option<&str>, rel: Relation) -> Seq<(Symbol, Relation)> {
    match n {
        Some(x) => prec_if(t, x@, rel),
        None => Seq::empty(),
    }
}

/// `m` with the automatic infix operator that the table names `n` added
/// (under its symbol), if the table names one.
pub open spec fn with_infix(
    m: Map<u64, OpView>,
    t: StrMap<Symbol>,
    n: Seq<char>,
    assoc: Assoc,
    precs: Seq<(Symbol, Relation)>,
    default: Option<Relation>,
) -> Map<u64, OpView> {
    match t.lookup(n) {
        Some(s) => m.insert(s.0, OpView { name: s, protocol: Protocol::Automatic, assoc, precedences: precs, default_prec: default }),
        None => m,
    }
}

/// `m` with the automatic prefix operator that the table names `n` added,
/// if the table names one.
pub open spec fn with_prefix(m: Map<u64, OpView>, t: StrMap<Symbol>, n: Seq<char>) -> Map<u64, OpView> {
    match t.lookup(n) {
        Some(s) => m.insert(s.0, OpView { name: s, protocol: Protocol::Automatic, assoc: Assoc::Left, precedences: Seq::empty(), default_prec: None }),
        None => m,
    }
}

/// The standard infix operators, by the symbols the table gives their
/// names, with the hierarchy
/// `= < || < && < == != < < <= > >= < + - ++ < * / % < **`
/// stated relatively; each is added in turn, so a symbol named twice
/// keeps the later operator.
pub open spec fn default_infix_ops(t: StrMap<Symbol>) -> Map<u64, OpView> {
    let w = Some(Relation::Weaker);
    let st = Relation::Stronger;
    let m0 = Map::<u64, OpView>::empty();
    let m1 = if t.has("||"@) && t.has("&&"@) {
        with_infix(with_infix(m0, t, "||"@, Assoc::Left, Seq::empty(), w), t, "&&"@, Assoc::Left, prec_if(t, "||"@, st), w)
    } else {
        m0
    };
    let m2 = with_infix(m1, t, "=="@, Assoc::Left, prec_if(t, "&&"@, st) + prec_if(t, "||"@, st), w);
    let m3 = with_infix(m2, t, "!="@, Assoc::Left, prec_if(t, "=="@, Relation::Same), w);
    let rel_precs = prec_if(t, "=="@, st);
    let m4 = with_infix(m3, t, "<"@, Assoc::Left, rel_precs, w);
    let m5 = with_infix(m4, t, "<="@, Assoc::Left, rel_precs, w);
    let m6 = with_infix(m5, t, ">"@, Assoc::Left, rel_precs, w);
    let m7 = with_infix(m6, t, ">="@, Assoc::Left, rel_precs, w);
    let add_precs = prec_if(t, "<"@, st) + prec_if(t, "=="@, st);
    let m8 = with_infix(m7, t, "+"@, Assoc::Left, add_precs, w);
    let m9 = with_infix(m8, t, "-"@, Assoc::Left, add_precs, w);
    let m10 = with_infix(m9, t, "++"@, Assoc::Left, add_precs, w);
    let mul_precs = prec_if(t, "+"@, st) + prec_if(t, "-"@, st);
    let m11 = with_infix(m10, t, "*"@, Assoc::Left, mul_precs, w);
    let m12 = with_infix(m11, t, "/"@, Assoc::Left, mul_precs, w);
    let m13 = with_infix(m12, t, "%"@, Assoc::Left, mul_precs, w);
    let m14 = with_infix(m13, t, "**"@, Assoc::Right, prec_if(t, "*"@, st), None);
    with_infix(m14, t, "="@, Assoc::Right, Seq::empty(), w)
}

/// The standard prefix operators: `-` and `!`.
pub open spec fn default_prefix_ops(t: StrMap<Symbol>) -> Map<u64, OpView> {
    with_prefix(with_prefix(Map::empty(), t, "-"@), t, "!"@)
}

/// The reverse lookup of a symbol table's entries: each symbol to its name,
/// a later entry winning over an earlier one.
pub open spec fn names_of(es: Seq<(Seq<char>, Symbol)>) -> Map<u64, Seq<char>>
    decreases es.len(),
{
    if es.len() == 0 {
        Map::empty()
    } else {
        names_of(es.drop_last()).insert(es.last().1.0, es.last().0)
    }
}

/// Environment holding operator definitions.
#[derive(Debug)]
pub struct OperatorEnv {
    /// Prefix operators indexed by symbol
    prefix_ops: HashMap<u64, PrefixOperator>,
    /// Infix operators indexed by symbol
    infix_ops: HashMap<u64, InfixOperator>,
    /// Symbol table for looking up operator names
    symbol_names: HashMap<u64, String>,
}

impl OperatorEnv {
    /// The prefix operators, by symbol.
    pub closed spec fn prefix_table(&self) -> Map<u64, OpView> {
        Map::new(|k: u64| self.prefix_ops@.contains_key(k), |k: u64| self.prefix_ops@[k]@)
    }

    /// The infix operators, by symbol.
    pub closed spec fn infix_table(&self) -> Map<u64, OpView> {
        Map::new(|k: u64| self.infix_ops@.contains_key(k), |k: u64| self.infix_ops@[k]@)
    }

    /// The names of symbols.
    pub closed spec fn name_table(&self) -> Map<u64, Seq<char>> {
        Map::new(|k: u64| self.symbol_names@.contains_key(k), |k: u64| self.symbol_names@[k]@)
    }

    /// An environment without operators or names.
    pub fn new() -> (r: Self)
        ensures
            r.prefix_table() == Map::<u64, OpView>::empty(),
            r.infix_table() == Map::<u64, OpView>::empty(),
            r.name_table() == Map::<u64, Seq<char>>::empty(),
    {
        let r = OperatorEnv { prefix_ops: HashMap::new(), infix_ops: HashMap::new(), symbol_names: HashMap::new() };
        assert(r.prefix_table() =~= Map::<u64, OpView>::empty());
        assert(r.infix_table() =~= Map::<u64, OpView>::empty());
        assert(r.name_table() =~= Map::<u64, Seq<char>>::empty());
        r
    }

    /// Adds a prefix operator under its name, replacing any there.
    pub fn add_prefix(&mut self, op: PrefixOperator)
        ensures
            final(self).prefix_table() == old(self).prefix_table().insert(op.name.0, op@),
            final(self).infix_table() == old(self).infix_table(),
            final(self).name_table() == old(self).name_table(),
    {
        let ghost before = self.prefix_table();
        let ghost v = op@;
        let k = op.name.0;
        self.prefix_ops.insert(k, op);
        assert(self.prefix_table() =~= before.insert(k, v));
    }

    /// Adds an infix operator under its name, replacing any there.
    pub fn add_infix(&mut self, op: InfixOperator)
        ensures
            final(self).infix_table() == old(self).infix_table().insert(op.name.0, op@),
            final(self).prefix_table() == old(self).prefix_table(),
            final(self).name_table() == old(self).name_table(),
    {
        let ghost before = self.infix_table();
        let ghost v = op@;
        let k = op.name.0;
        self.infix_ops.insert(k, op);
        assert(self.infix_table() =~= before.insert(k, v));
    }

    fn add_name(&mut self, sym: Symbol, name: String)
        ensures
            final(self).name_table() == old(self).name_table().insert(sym.0, name@),
            final(self).infix_table() == old(self).infix_table(),
            final(self).prefix_table() == old(self).prefix_table(),
    {
        let ghost before = self.name_table();
        let ghost v = name@;
        self.symbol_names.insert(sym.0, name);
        assert(self.name_table() =~= before.insert(sym.0, v));
    }

    /// The prefix operator for `sym`, if any.
    pub fn get_prefix(&self, sym: Symbol) -> (r: Option<&PrefixOperator>)
        ensures
            match r {
                Some(op) => self.prefix_table().contains_key(sym.0) && op@ == self.prefix_table()[sym.0],
                None => !self.prefix_table().contains_key(sym.0),
            },
    {
        self.prefix_ops.get(&sym.0)
    }

    /// The infix operator for `sym`, if any.
    pub fn get_infix(&self, sym: Symbol) -> (r: Option<&InfixOperator>)
        ensures
            match r {
                Some(op) => self.infix_table().contains_key(sym.0) && op@ == self.infix_table()[sym.0],
                None => !self.infix_table().contains_key(sym.0),
            },
    {
        self.infix_ops.get(&sym.0)
    }

    /// The name of `sym`, if known.
    pub fn get_symbol_name(&self, sym: Symbol) -> (r: Option<&str>)
        ensures
            match r {
                Some(n) => self.name_table().contains_key(sym.0) && n@ == self.name_table()[sym.0],
                None => !self.name_table().contains_key(sym.0),
            },
    {
        match self.symbol_names.get(&sym.0) {
            Some(n) => Some(n.as_str()),
            None => None,
        }
    }

    /// Adds the automatic infix operator named `name`, if the table names
    /// it, declared `rel` toward the operators named `a` and `b` (those the
    /// table names, in that order), with default `default`.
    fn add_named_infix(
        &mut self,
        t: &StrMap<Symbol>,
        name: &str,
        assoc: Assoc,
        a: Option<&str>,
        b: Option<&str>,
        rel: Relation,
        default: Option<Relation>,
    )
        ensures
            final(self).infix_table() == with_infix(old(self).infix_table(), *t, name@, assoc, prec_opt(*t, a, rel) + prec_opt(*t, b, rel), default),
            final(self).prefix_table() == old(self).prefix_table(),
            final(self).name_table() == old(self).name_table(),
    {
        if let Some(sym) = t.get(name) {
            let mut op = InfixOperator::new(*sym, Protocol::Automatic, assoc);
            if let Some(x) = a {
                if let Some(other) = t.get(x) {
                    op = op.with_prec(*other, rel);
                }
            }
            if let Some(x) = b {
                if let Some(other) = t.get(x) {
                    op = op.with_prec(*other, rel);
                }
            }
            op.default_prec = default;
            assert(op@.precedences =~= prec_opt(*t, a, rel) + prec_opt(*t, b, rel));
            self.add_infix(op);
        }
    }

    /// Adds the automatic prefix operator named `name`, if the table names it.
    fn add_named_prefix(&mut self, t: &StrMap<Symbol>, name: &str)
        ensures
            final(self).prefix_table() == with_prefix(old(self).prefix_table(), *t, name@),
            final(self).infix_table() == old(self).infix_table(),
            final(self).name_table() == old(self).name_table(),
    {
        if let Some(sym) = t.get(name) {
            self.add_prefix(PrefixOperator::new(*sym, Protocol::Automatic));
        }
    }

    /// The default operator environment with the standard operators, for
    /// the symbols that `symbol_table` gives their names.
    pub fn with_defaults(symbol_table: &StrMap<Symbol>) -> (r: Self)
        ensures
            r.infix_table() == default_infix_ops(*symbol_table),
            r.prefix_table() == default_prefix_ops(*symbol_table),
            r.name_table() == names_of(symbol_table.entry_seq()),
    {
        let t = symbol_table;
        let mut env = OperatorEnv::new();
        let ghost es = t.entry_seq();
        let entries = t.entries();
        let mut i: usize = 0;
        while i < entries.len()
            invariant
                0 <= i <= entries@.len(),
                entries@.len() == es.len(),
                es == t.entry_seq(),
                forall|j: int| 0 <= j < entries@.len() ==> entries@[j].0@ == es[j].0 && entries@[j].1 == es[j].1,
                env.name_table() == names_of(es.take(i as int)),
                env.infix_table() == Map::<u64, OpView>::empty(),
                env.prefix_table() == Map::<u64, OpView>::empty(),
            decreases entries@.len() - i,
        {
            env.add_name(entries[i].1, entries[i].0.clone());
            assert(es.take(i + 1).drop_last() =~= es.take(i as int));
            i = i + 1;
        }
        assert(es.take(entries@.len() as int) =~= es);

        let st = Relation::Stronger;
        let w = Some(Relation::Weaker);
        if t.contains_key("||") && t.contains_key("&&") {
            env.add_named_infix(t, "||", Assoc::Left, None, None, st, w);
            env.add_named_infix(t, "&&", Assoc::Left, Some("||"), None, st, w);
        }
        env.add_named_infix(t, "==", Assoc::Left, Some("&&"), Some("||"), st, w);
        env.add_named_infix(t, "!=", Assoc::Left, Some("=="), None, Relation::Same, w);
        env.add_named_infix(t, "<", Assoc::Left, Some("=="), None, st, w);
        env.add_named_infix(t, "<=", Assoc::Left, Some("=="), None, st, w);
        env.add_named_infix(t, ">", Assoc::Left, Some("=="), None, st, w);
        env.add_named_infix(t, ">=", Assoc::Left, Some("=="), None, st, w);
        env.add_named_infix(t, "+", Assoc::Left, Some("<"), Some("=="), st, w);
        env.add_named_infix(t, "-", Assoc::Left, Some("<"), Some("=="), st, w);
        env.add_named_infix(t, "++", Assoc::Left, Some("<"), Some("=="), st, w);
        env.add_named_infix(t, "*", Assoc::Left, Some("+"), Some("-"), st, w);
        env.add_named_infix(t, "/", Assoc::Left, Some("+"), Some("-"), st, w);
        env.add_named_infix(t, "%", Assoc::Left, Some("+"), Some("-"), st, w);
        env.add_named_infix(t, "**", Assoc::Right, Some("*"), None, st, None);
        env.add_named_infix(t, "=", Assoc::Right, None, None, st, w);
        env.add_named_prefix(t, "-");
        env.add_named_prefix(t, "!");
        proof {
            assert(Seq::<(Symbol, Relation)>::empty() + Seq::<(Symbol, Relation)>::empty() =~= Seq::<(Symbol, Relation)>::empty());
            assert(prec_if(*t, "||"@, st) + Seq::<(Symbol, Relation)>::empty() =~= prec_if(*t, "||"@, st));
            assert(prec_if(*t, "=="@, Relation::Same) + Seq::<(Symbol, Relation)>::empty() =~= prec_if(*t, "=="@, Relation::Same));
            assert(prec_if(*t, "=="@, st) + Seq::<(Symbol, Relation)>::empty() =~= prec_if(*t, "=="@, st));
            assert(prec_if(*t, "*"@, st) + Seq::<(Symbol, Relation)>::empty() =~= prec_if(*t, "*"@, st));
        }
        env
    }
}

impl Default for OperatorEnv {
    fn default() -> (r: Self)
        ensures
            r.prefix_table() == Map::<u64, OpView>::empty(),
            r.infix_table() == Map::<u64, OpView>::empty(),
            r.name_table() == Map::<u64, Seq<char>>::empty(),
    {
        OperatorEnv::new()
    }
}

/// The enforestation engine: resolves operator precedence against an
/// operator environment.
pub struct Enforester<'a> {
    env: &'a OperatorEnv,
}

impl<'a> Enforester<'a> {
    /// The operator environment used.
    pub closed spec fn env(&self) -> &'a OperatorEnv {
        self.env
    }

    /// An enforester over `env`.
    pub fn new(env: &'a OperatorEnv) -> (r: Self)
        ensures
            r.env() == env,
    {
        Enforester { env }
    }
}


/// Enforestation result: typed expression AST.
#[derive(Debug)]
pub enum Expr {
    Literal(Literal, Span),
    Var(Symbol, ScopeSet, Span),
    BinOp(Box<Expr>, BinOp, Box<Expr>, Span),
    UnOp(UnOp, Box<Expr>, Span),
    Call(Box<Expr>, Vec<Expr>, Span),
    FieldAccess(Box<Expr>, Symbol, Span),
    Subscript(Box<Expr>, Box<Expr>, Span),
    If(Box<Expr>, Box<Expr>, Option<Box<Expr>>, Span),
    For(Symbol, Box<Expr>, Box<Expr>, Span),
    Quote(Box<Expr>, Span),
    Splice(Box<Expr>, Span),
    Content(Content, Span),
    Block(Vec<Expr>, Span),
    /// A sequence of unevaluated shrubbery (for macro arguments, etc.)
    Sequence(Vec<Shrubbery>, Span),
    /// Function/macro definition: def name(params): body
    Def {
        name: Symbol,
        params: Vec<Param>,
        return_type: Option<Box<Expr>>,
        body: Box<Expr>,
        span: Span,
    },
    /// Staged code block: staged[body]
    Staged(Box<Expr>, Span),
    /// Show rule: show selector: transform
    ShowRule { selector: Box<Expr>, transform: Box<Expr>, span: Span },
    /// Set rule: set selector { props }
    SetRule { selector: Box<Expr>, properties: Vec<(Symbol, Expr)>, span: Span },
    /// Live reactive block
    Live { deps: Option<Vec<Symbol>>, body: Box<Expr>, span: Span },
}

/// The mathematical value of an expression: children become sequences,
/// and scope sets sets of scope identifiers.
pub enum ExprModel {
    Literal(LiteralModel, Span),
    Var(Symbol, Set<u64>, Span),
    BinOp(Box<ExprModel>, BinOp, Box<ExprModel>, Span),
    UnOp(UnOp, Box<ExprModel>, Span),
    Call(Box<ExprModel>, Seq<ExprModel>, Span),
    FieldAccess(Box<ExprModel>, Symbol, Span),
    Subscript(Box<ExprModel>, Box<ExprModel>, Span),
    If(Box<ExprModel>, Box<ExprModel>, Option<Box<ExprModel>>, Span),
    For(Symbol, Box<ExprModel>, Box<ExprModel>, Span),
    Quote(Box<ExprModel>, Span),
    Splice(Box<ExprModel>, Span),
    Content(ContentShape, Span),
    Block(Seq<ExprModel>, Span),
    Sequence(Seq<ShrubModel>, Span),
    Def {
        name: Symbol,
        params: Seq<(Symbol, Option<ShrubModel>, Option<ShrubModel>, Span)>,
        return_type: Option<Box<ExprModel>>,
        body: Box<ExprModel>,
        span: Span,
    },
    Staged(Box<ExprModel>, Span),
    ShowRule { selector: Box<ExprModel>, transform: Box<ExprModel>, span: Span },
    SetRule { selector: Box<ExprModel>, keys: Seq<Symbol>, values: Seq<ExprModel>, span: Span },
    Live { deps: Option<Seq<Symbol>>, body: Box<ExprModel>, span: Span },
}

/// Embedded content as an expression sees it: a text, the empty sequence,
/// or other content of a kind.
pub enum ContentShape {
    Text(Seq<char>),
    Empty,
    Other(ContentKind),
}

/// The shape of content `c`.
pub open spec fn content_shape(c: Content) -> ContentShape {
    match c {
        Content::Inline(Inline::Text(s)) => ContentShape::Text(s@),
        Content::Sequence(v) => if v@.len() == 0 { ContentShape::Empty } else { ContentShape::Other(ContentKind::Content) },
        _ => ContentShape::Other(content_kind_of(c)),
    }
}

/// The kind of content of a shape.
pub open spec fn shape_kind(s: ContentShape) -> ContentKind {
    match s {
        ContentShape::Text(_) => ContentKind::Inline,
        ContentShape::Empty => ContentKind::Content,
        ContentShape::Other(k) => k,
    }
}

/// The kind of embedded content: a block, an inline, or a sequence.
pub open spec fn content_kind_of(c: Content) -> ContentKind {
    match c {
        Content::Block(_) => ContentKind::Block,
        Content::Inline(_) => ContentKind::Inline,
        Content::Sequence(_) => ContentKind::Content,
    }
}

/// The models of a vector of expressions.
pub open spec fn expr_models(items: &Vec<Expr>) -> Seq<ExprModel>
    decreases items,
{
    Seq::new(items@.len(), |i: int| if 0 <= i < items@.len() { items@[i].model() } else { ExprModel::Sequence(Seq::empty(), Span { start: 0, end: 0 }) })
}

/// The models of the values of set-rule properties.
pub open spec fn property_models(props: &Vec<(Symbol, Expr)>) -> Seq<ExprModel>
    decreases props,
{
    Seq::new(props@.len(), |i: int| if 0 <= i < props@.len() { props@[i].1.model() } else { ExprModel::Sequence(Seq::empty(), Span { start: 0, end: 0 }) })
}

/// The models of parameters: name, type annotation, default and span.
pub open spec fn param_models(params: &Vec<Param>) -> Seq<(Symbol, Option<ShrubModel>, Option<ShrubModel>, Span)> {
    param_seq_model(params)
}

impl Expr {
    /// The mathematical value of this expression.
    pub open spec fn model(&self) -> ExprModel
        decreases self,
    {
        match self {
            Expr::Literal(lit, sp) => ExprModel::Literal(lit@, *sp),
            Expr::Var(sym, scopes, sp) => ExprModel::Var(*sym, scopes@, *sp),
            Expr::BinOp(l, op, r, sp) => ExprModel::BinOp(Box::new(l.model()), *op, Box::new(r.model()), *sp),
            Expr::UnOp(op, e, sp) => ExprModel::UnOp(*op, Box::new(e.model()), *sp),
            Expr::Call(f, args, sp) => ExprModel::Call(Box::new(f.model()), expr_models(args), *sp),
            Expr::FieldAccess(b, field, sp) => ExprModel::FieldAccess(Box::new(b.model()), *field, *sp),
            Expr::Subscript(b, i, sp) => ExprModel::Subscript(Box::new(b.model()), Box::new(i.model()), *sp),
            Expr::If(c, t, e, sp) => ExprModel::If(Box::new(c.model()), Box::new(t.model()), match e {
                Some(x) => Some(Box::new(x.model())),
                None => None,
            }, *sp),
            Expr::For(v, it, body, sp) => ExprModel::For(*v, Box::new(it.model()), Box::new(body.model()), *sp),
            Expr::Quote(e, sp) => ExprModel::Quote(Box::new(e.model()), *sp),
            Expr::Splice(e, sp) => ExprModel::Splice(Box::new(e.model()), *sp),
            Expr::Content(c, sp) => ExprModel::Content(content_shape(*c), *sp),
            Expr::Block(es, sp) => ExprModel::Block(expr_models(es), *sp),
            Expr::Sequence(items, sp) => ExprModel::Sequence(shrub_models(items), *sp),
            Expr::Def { name, params, return_type, body, span } => ExprModel::Def {
                name: *name,
                params: param_models(params),
                return_type: match return_type {
                    Some(x) => Some(Box::new(x.model())),
                    None => None,
                },
                body: Box::new(body.model()),
                span: *span,
            },
            Expr::Staged(e, sp) => ExprModel::Staged(Box::new(e.model()), *sp),
            Expr::ShowRule { selector, transform, span } => ExprModel::ShowRule {
                selector: Box::new(selector.model()),
                transform: Box::new(transform.model()),
                span: *span,
            },
            Expr::SetRule { selector, properties, span } => ExprModel::SetRule {
                selector: Box::new(selector.model()),
                keys: Seq::new(properties@.len(), |i: int| properties@[i].0),
                values: property_models(properties),
                span: *span,
            },
            Expr::Live { deps, body, span } => ExprModel::Live {
                deps: match deps {
                    Some(d) => Some(d@),
                    None => None,
                },
                body: Box::new(body.model()),
                span: *span,
            },
        }
    }
}

impl View for Expr {
    type V = ExprModel;

    open spec fn view(&self) -> ExprModel {
        self.model()
    }
}

/// The span an expression carries.
pub open spec fn expr_span(e: ExprModel) -> Span {
    match e {
        ExprModel::Literal(_, s) => s,
        ExprModel::Var(_, _, s) => s,
        ExprModel::BinOp(_, _, _, s) => s,
        ExprModel::UnOp(_, _, s) => s,
        ExprModel::Call(_, _, s) => s,
        ExprModel::FieldAccess(_, _, s) => s,
        ExprModel::Subscript(_, _, s) => s,
        ExprModel::If(_, _, _, s) => s,
        ExprModel::For(_, _, _, s) => s,
        ExprModel::Quote(_, s) => s,
        ExprModel::Splice(_, s) => s,
        ExprModel::Content(_, s) => s,
        ExprModel::Block(_, s) => s,
        ExprModel::Sequence(_, s) => s,
        ExprModel::Def { span, .. } => span,
        ExprModel::Staged(_, s) => s,
        ExprModel::ShowRule { span, .. } => span,
        ExprModel::SetRule { span, .. } => span,
        ExprModel::Live { span, .. } => span,
    }
}

impl Expr {
    /// The span this expression carries.
    pub fn span(&self) -> (r: Span)
        ensures
            r == expr_span(self@),
    {
        match self {
            Expr::Literal(_, s) => *s,
            Expr::Var(_, _, s) => *s,
            Expr::BinOp(_, _, _, s) => *s,
            Expr::UnOp(_, _, s) => *s,
            Expr::Call(_, _, s) => *s,
            Expr::FieldAccess(_, _, s) => *s,
            Expr::Subscript(_, _, s) => *s,
            Expr::If(_, _, _, s) => *s,
            Expr::For(_, _, _, s) => *s,
            Expr::Quote(_, s) => *s,
            Expr::Splice(_, s) => *s,
            Expr::Content(_, s) => *s,
            Expr::Block(_, s) => *s,
            Expr::Sequence(_, s) => *s,
            Expr::Def { span, .. } => *span,
            Expr::Staged(_, s) => *s,
            Expr::ShowRule { span, .. } => *span,
            Expr::SetRule { span, .. } => *span,
            Expr::Live { span, .. } => *span,
        }
    }
}


// ===== Enforestation =====

/// The operator tables an enforester reads: prefix and infix operators by
/// symbol, and the names of symbols.
pub struct OpTables {
    pub prefix: Map<u64, OpView>,
    pub infix: Map<u64, OpView>,
    pub names: Map<u64, Seq<char>>,
}

impl OperatorEnv {
    /// The tables of this environment.
    pub open spec fn tables(&self) -> OpTables {
        OpTables { prefix: self.prefix_table(), infix: self.infix_table(), names: self.name_table() }
    }
}

/// The debug text of a symbol, as in error messages: `Symbol(<id>)`.
pub open spec fn symbol_debug(s: Symbol) -> Seq<char> {
    "Symbol("@ + decimal(s.0 as nat) + ")"@
}

/// The span of an error that has no place in the source.
pub open spec fn no_span() -> Span {
    Span { start: 0, end: 0 }
}

/// The failure when a form is needed and none is left.
pub open spec fn end_failure() -> (Span, Seq<char>) {
    (no_span(), "Unexpected end of expression"@)
}

/// The name of `sym` in `t`, if any.
pub open spec fn name_of(t: OpTables, sym: Symbol) -> Option<Seq<char>> {
    if t.names.contains_key(sym.0) { Some(t.names[sym.0]) } else { None }
}

/// The unary operator a prefix operator's name stands for.
pub open spec fn unop_named(n: Option<Seq<char>>) -> Option<UnOp> {
    match n {
        Some(x) => if x == "-"@ { Some(UnOp::Neg) } else if x == "!"@ { Some(UnOp::Not) } else { None },
        None => None,
    }
}

/// `e` is the parser error with the span and message of `f`.
pub open spec fn parse_failure(e: MrlError, f: (Span, Seq<char>)) -> bool {
    e matches MrlError::ParserError { span, message } && span == f.0 && message@ == f.1
}

/// The body of a block construct: its single expression, or a block of
/// all of them at `span`.
pub open spec fn body_of(es: Seq<ExprModel>, span: Span) -> ExprModel {
    if es.len() == 1 { es[0] } else { ExprModel::Block(es, span) }
}

/// Enforestation of a shrubbery into an expression against the operator
/// tables `t`, or the first error met.
pub open spec fn enforested(t: OpTables, m: ShrubModel) -> Result<ExprModel, (Span, Seq<char>)>
    decreases m, 0nat, 0nat,
{
    match m {
        ShrubModel::Literal(lit, sp) => Ok(ExprModel::Literal(lit, sp)),
        ShrubModel::Identifier(sym, scopes, sp) => Ok(ExprModel::Var(sym, scopes, sp)),
        ShrubModel::Sequence(items, sp) => if items.len() == 0 {
            Ok(ExprModel::Block(Seq::empty(), sp))
        } else {
            enforested_sequence(t, items, sp)
        },
        ShrubModel::Parens(items, sp) => if items.len() == 0 {
            Ok(ExprModel::Block(Seq::empty(), sp))
        } else if items.len() == 1 {
            enforested(t, items[0])
        } else {
            match enforested_all(t, items) {
                Ok(es) => Ok(ExprModel::Block(es, sp)),
                Err(f) => Err(f),
            }
        },
        ShrubModel::Brackets(items, sp) => if items.len() == 0 {
            Ok(ExprModel::Content(ContentShape::Empty, sp))
        } else {
            match enforested_all(t, items) {
                Ok(es) => Ok(ExprModel::Block(es, sp)),
                Err(f) => Err(f),
            }
        },
        ShrubModel::Braces(items, sp) => match enforested_all(t, items) {
            Ok(es) => Ok(ExprModel::Block(es, sp)),
            Err(f) => Err(f),
        },
        ShrubModel::Quote { body, span } => match enforested(t, *body) {
            Ok(e) => Ok(ExprModel::Quote(Box::new(e), span)),
            Err(f) => Err(f),
        },
        ShrubModel::Splice { expr, span } => match enforested(t, *expr) {
            Ok(e) => Ok(ExprModel::Splice(Box::new(e), span)),
            Err(f) => Err(f),
        },
        ShrubModel::If { condition, then_branch, else_branch, span } => match enforested(t, *condition) {
            Err(f) => Err(f),
            Ok(c) => match enforested(t, *then_branch) {
                Err(f) => Err(f),
                Ok(th) => match else_branch {
                    Some(eb) => match enforested(t, *eb) {
                        Err(f) => Err(f),
                        Ok(el) => Ok(ExprModel::If(Box::new(c), Box::new(th), Some(Box::new(el)), span)),
                    },
                    None => Ok(ExprModel::If(Box::new(c), Box::new(th), None, span)),
                },
            },
        },
        ShrubModel::For { pattern, iterable, body, span } => match enforested(t, *iterable) {
            Err(f) => Err(f),
            Ok(it) => match enforested(t, *body) {
                Err(f) => Err(f),
                Ok(b) => Ok(ExprModel::For(pattern, Box::new(it), Box::new(b), span)),
            },
        },
        ShrubModel::Operator(sym, sp) => Err((sp, "Unexpected operator: "@ + symbol_debug(sym))),
        ShrubModel::DefBlock { name, params, return_type, body, span } => match enforested_all(t, body) {
            Err(f) => Err(f),
            Ok(es) => match return_type {
                Some(rt) => match enforested(t, *rt) {
                    Err(f) => Err(f),
                    Ok(r) => Ok(ExprModel::Def { name, params, return_type: Some(Box::new(r)), body: Box::new(body_of(es, span)), span }),
                },
                None => Ok(ExprModel::Def { name, params, return_type: None, body: Box::new(body_of(es, span)), span }),
            },
        },
        ShrubModel::StagedBlock { body, span } => match enforested_all(t, body) {
            Err(f) => Err(f),
            Ok(es) => Ok(ExprModel::Staged(Box::new(body_of(es, span)), span)),
        },
        ShrubModel::ShowRule { selector, transform, span } => match enforested(t, *selector) {
            Err(f) => Err(f),
            Ok(s) => match enforested(t, *transform) {
                Err(f) => Err(f),
                Ok(tr) => Ok(ExprModel::ShowRule { selector: Box::new(s), transform: Box::new(tr), span }),
            },
        },
        ShrubModel::SetRule { selector, properties, span } => match enforested(t, *selector) {
            Err(f) => Err(f),
            Ok(s) => match enforested_props(t, properties) {
                Err(f) => Err(f),
                Ok(vs) => Ok(ExprModel::SetRule {
                    selector: Box::new(s),
                    keys: Seq::new(properties.len(), |i: int| properties[i].0),
                    values: vs,
                    span,
                }),
            },
        },
        ShrubModel::LiveBlock { deps, body, span } => match enforested_all(t, body) {
            Err(f) => Err(f),
            Ok(es) => Ok(ExprModel::Live { deps, body: Box::new(body_of(es, span)), span }),
        },
        ShrubModel::Selector { base, predicate, span } => match predicate {
            Some(p) => match enforested(t, *p) {
                Err(f) => Err(f),
                Ok(pe) => Ok(ExprModel::Call(Box::new(ExprModel::Var(base, Set::empty(), span)), seq![pe], span)),
            },
            None => Ok(ExprModel::Var(base, Set::empty(), span)),
        },
        ShrubModel::Prose(text, span) => Ok(ExprModel::Content(ContentShape::Text(text), span)),
        ShrubModel::ContentBlock(items, span) => match enforested_all(t, items) {
            Err(f) => Err(f),
            Ok(es) => Ok(ExprModel::Block(es, span)),
        },
    }
}

/// Each item enforested, in order, or the first error met.
pub open spec fn enforested_all(t: OpTables, items: Seq<ShrubModel>) -> Result<Seq<ExprModel>, (Span, Seq<char>)>
    decreases items, 0nat, 0nat,
{
    if items.len() == 0 {
        Ok(Seq::empty())
    } else {
        match enforested_all(t, items.drop_last()) {
            Err(f) => Err(f),
            Ok(es) => match enforested(t, items.last()) {
                Err(f) => Err(f),
                Ok(e) => Ok(es.push(e)),
            },
        }
    }
}

/// The values of set-rule properties enforested, in order, or the first
/// error met.
pub open spec fn enforested_props(t: OpTables, props: Seq<(Symbol, ShrubModel)>) -> Result<Seq<ExprModel>, (Span, Seq<char>)>
    decreases props, 0nat, 0nat,
{
    if props.len() == 0 {
        Ok(Seq::empty())
    } else {
        match enforested_props(t, props.drop_last()) {
            Err(f) => Err(f),
            Ok(es) => match enforested(t, props.last().1) {
                Err(f) => Err(f),
                Ok(e) => Ok(es.push(e)),
            },
        }
    }
}

/// A sequence: its forms parsed one after another with precedence; a
/// single form stands alone, several make a block.
pub open spec fn enforested_sequence(t: OpTables, items: Seq<ShrubModel>, span: Span) -> Result<ExprModel, (Span, Seq<char>)>
    decreases items, items.len() + 1, 0nat,
{
    match enforest_form(t, items, 0, None) {
        Err(f) => Err(f),
        Ok((e, p)) => if p >= items.len() {
            Ok(e)
        } else {
            match enforest_rest(t, items, p) {
                Err(f) => Err(f),
                Ok(es) => Ok(ExprModel::Block(seq![e] + es, span)),
            }
        },
    }
}

/// The forms from position `pos` on, each parsed with precedence.
pub open spec fn enforest_rest(t: OpTables, items: Seq<ShrubModel>, pos: nat) -> Result<Seq<ExprModel>, (Span, Seq<char>)>
    decreases items, items.len() - pos, 2nat,
{
    if pos >= items.len() {
        Ok(Seq::empty())
    } else {
        match enforest_form(t, items, pos, None) {
            Err(f) => Err(f),
            Ok((e, q)) => if pos < q <= items.len() {
                match enforest_rest(t, items, q) {
                    Err(f) => Err(f),
                    Ok(es) => Ok(seq![e] + es),
                }
            } else {
                Err(end_failure())
            },
        }
    }
}

/// One form starting at position `pos`, with the infix operators that
/// follow it and bind tighter than `cur`: the form and the position after it.
pub open spec fn enforest_form(t: OpTables, items: Seq<ShrubModel>, pos: nat, cur: Option<OpView>) -> Result<(ExprModel, nat), (Span, Seq<char>)>
    decreases items, items.len() - pos, 1nat,
{
    if pos >= items.len() {
        Err(end_failure())
    } else {
        let head = items[pos as int];
        let start = shrub_span(head);
        let form: Result<(ExprModel, nat), (Span, Seq<char>)> = match head {
            ShrubModel::Identifier(sym, scopes, sp) => if t.prefix.contains_key(sym.0) {
                enforest_prefix(t, items, pos, sym, sp)
            } else {
                Ok((ExprModel::Var(sym, scopes, sp), pos + 1))
            },
            ShrubModel::Operator(sym, sp) => if t.prefix.contains_key(sym.0) {
                enforest_prefix(t, items, pos, sym, sp)
            } else {
                Err((sp, "Unexpected operator: "@ + symbol_debug(sym)))
            },
            ShrubModel::Brackets(its, sp) => match enforested_all(t, its) {
                Ok(es) => Ok((ExprModel::Block(es, sp), pos + 1)),
                Err(f) => Err(f),
            },
            _ => match enforested(t, head) {
                Ok(e) => Ok((e, pos + 1)),
                Err(f) => Err(f),
            },
        };
        match form {
            Err(f) => Err(f),
            Ok((e, p)) => if pos < p <= items.len() {
                enforest_infix(t, e, items, p, cur, start)
            } else {
                Err(end_failure())
            },
        }
    }
}

/// A prefix operator at `pos` applied to the form after it.
pub open spec fn enforest_prefix(t: OpTables, items: Seq<ShrubModel>, pos: nat, sym: Symbol, sp: Span) -> Result<(ExprModel, nat), (Span, Seq<char>)>
    decreases items, items.len() - pos, 0nat,
{
    if pos >= items.len() {
        Err(end_failure())
    } else {
        match enforest_form(t, items, pos + 1, None) {
            Err(f) => Err(f),
            Ok((operand, tail)) => match unop_named(name_of(t, sym)) {
                None => Err((sp, "Unknown prefix operator: "@ + symbol_debug(sym))),
                Some(op) => Ok((ExprModel::UnOp(op, Box::new(operand), Span { start: sp.start, end: expr_span(operand).end }), tail)),
            },
        }
    }
}

/// The infix operator `op` met while `cur` is open: stop before it when it
/// binds weaker (or equally, grouping left); fail when the two are
/// inconsistent; else go on.
pub open spec fn infix_blocked(cur: Option<OpView>, op: OpView) -> Option<bool> {
    match cur {
        None => Some(false),
        Some(c) => match prec_between(c, op) {
            PrecResult::Weaker => Some(true),
            PrecResult::SameOnLeft => Some(true),
            PrecResult::Inconsistent => None,
            _ => Some(false),
        },
    }
}

/// After `left`, which began at `start`, the calls, subscripts and infix
/// operators from position `pos` on: the expression and the position of
/// what is left.
pub open spec fn enforest_infix(t: OpTables, left: ExprModel, items: Seq<ShrubModel>, pos: nat, cur: Option<OpView>, start: Span) -> Result<(ExprModel, nat), (Span, Seq<char>)>
    decreases items, items.len() - pos, 0nat,
{
    if pos >= items.len() {
        Ok((left, pos))
    } else {
        let next = items[pos as int];
        let op_at: Option<(Symbol, Span)> = match next {
            ShrubModel::Operator(sym, sp) => if t.infix.contains_key(sym.0) { Some((sym, sp)) } else { None },
            ShrubModel::Identifier(sym, _, sp) => if t.infix.contains_key(sym.0) { Some((sym, sp)) } else { None },
            _ => None,
        };
        match op_at {
            Some((sym, sp)) => {
                let op = t.infix[sym.0];
                match infix_blocked(cur, op) {
                    None => Err((sp, "Inconsistent precedence between "@ + symbol_debug(cur->0.name) + " and "@ + symbol_debug(op.name))),
                    Some(true) => Ok((left, pos)),
                    Some(false) => match enforest_form(t, items, pos + 1, Some(op)) {
                        Err(f) => Err(f),
                        Ok((right, tail)) => {
                            let name = match name_of(t, sym) { Some(n) => n, None => ""@ };
                            match binop_spelled(name) {
                                None => Err((sp, "Unknown binary operator: "@ + name)),
                                Some(b) => if pos < tail <= items.len() {
                                    enforest_infix(t, ExprModel::BinOp(Box::new(left), b, Box::new(right),
                                        Span { start: expr_span(left).start, end: expr_span(right).end }), items, tail, cur, start)
                                } else {
                                    Err(end_failure())
                                },
                            }
                        },
                    },
                }
            },
            None => match next {
                ShrubModel::Parens(args, psp) => match enforested_all(t, args) {
                    Err(f) => Err(f),
                    Ok(es) => enforest_infix(t, ExprModel::Call(Box::new(left), es, Span { start: start.start, end: psp.end }),
                        items, pos + 1, cur, start),
                },
                ShrubModel::Brackets(its, bsp) => if its.len() == 1 {
                    match enforested(t, its[0]) {
                        Err(f) => Err(f),
                        Ok(ix) => enforest_infix(t, ExprModel::Subscript(Box::new(left), Box::new(ix), Span { start: start.start, end: bsp.end }),
                            items, pos + 1, cur, start),
                    }
                } else {
                    Ok((left, pos))
                },
                _ => Ok((left, pos)),
            },
        }
    }
}


/// The view of an optional infix operator.
pub open spec fn opt_view(cur: Option<&InfixOperator>) -> Option<OpView> {
    match cur {
        Some(op) => Some(op@),
        None => None,
    }
}

/// `r` is the outcome that `spec` describes.
pub open spec fn enforest_outcome(r: Result<Expr, MrlError>, spec: Result<ExprModel, (Span, Seq<char>)>) -> bool {
    match spec {
        Ok(m) => r matches Ok(e) && e@ == m,
        Err(f) => r matches Err(e) && parse_failure(e, f),
    }
}

/// `r` is the outcome that `spec` describes, for a form and its end.
pub open spec fn form_outcome(r: Result<(Expr, usize), MrlError>, spec: Result<(ExprModel, nat), (Span, Seq<char>)>) -> bool {
    match spec {
        Ok((m, p)) => r matches Ok((e, q)) && e@ == m && q == p,
        Err(f) => r matches Err(e) && parse_failure(e, f),
    }
}

/// `r` is the outcome that `spec` describes, for several expressions.
pub open spec fn all_outcome(r: Result<Vec<Expr>, MrlError>, spec: Result<Seq<ExprModel>, (Span, Seq<char>)>) -> bool {
    match spec {
        Ok(ms) => r matches Ok(v) && expr_models(&v) == ms,
        Err(f) => r matches Err(e) && parse_failure(e, f),
    }
}

proof fn lemma_all_failed_prefix(t: OpTables, items: Seq<ShrubModel>, k: int)
    requires
        0 <= k <= items.len(),
        enforested_all(t, items.take(k)) is Err,
    ensures
        enforested_all(t, items) == enforested_all(t, items.take(k)),
    decreases items.len(),
{
    if k < items.len() {
        assert(items.drop_last().take(k) =~= items.take(k));
        lemma_all_failed_prefix(t, items.drop_last(), k);
    } else {
        assert(items.take(k) =~= items);
    }
}

proof fn lemma_props_failed_prefix(t: OpTables, props: Seq<(Symbol, ShrubModel)>, k: int)
    requires
        0 <= k <= props.len(),
        enforested_props(t, props.take(k)) is Err,
    ensures
        enforested_props(t, props) == enforested_props(t, props.take(k)),
    decreases props.len(),
{
    if k < props.len() {
        assert(props.drop_last().take(k) =~= props.take(k));
        lemma_props_failed_prefix(t, props.drop_last(), k);
    } else {
        assert(props.take(k) =~= props);
    }
}

/// The text of a symbol as error messages show it.
fn symbol_text(s: Symbol) -> (r: String)
    ensures
        r@ == symbol_debug(s),
{
    let mut out = to_owned_string("Symbol(");
    let d = u64_to_text(s.0);
    push_str(&mut out, d.as_str());
    push_str(&mut out, ")");
    proof {
        reveal_strlit("Symbol(");
        reveal_strlit(")");
    }
    out
}

fn parser_error(span: Span, message: String) -> (r: MrlError)
    ensures
        parse_failure(r, (span, message@)),
{
    MrlError::ParserError { span, message }
}

fn symbol_error(span: Span, prefix: &str, sym: Symbol) -> (r: MrlError)
    ensures
        parse_failure(r, (span, prefix@ + symbol_debug(sym))),
{
    let mut m = to_owned_string(prefix);
    let st = symbol_text(sym);
    push_str(&mut m, st.as_str());
    parser_error(span, m)
}

fn end_error() -> (r: MrlError)
    ensures
        parse_failure(r, end_failure()),
{
    proof {
        reveal_strlit("Unexpected end of expression");
    }
    parser_error(Span::new(0, 0), to_owned_string("Unexpected end of expression"))
}

/// A single expression, or a block of them at `span`.
fn body_expr(es: Vec<Expr>, span: Span) -> (r: Expr)
    ensures
        r@ == body_of(expr_models(&es), span),
{
    let mut es = es;
    if es.len() == 1 {
        let ghost m = expr_models(&es);
        let e = es.remove(0);
        assert(e@ == m[0]);
        e
    } else {
        Expr::Block(es, span)
    }
}

impl<'a> Enforester<'a> {
    /// Enforest a shrubbery into an expression: literals and identifiers
    /// stand for themselves, groups and block constructs are enforested
    /// part by part, and sequences are parsed with operator precedence.
    pub fn enforest(&self, shrub: &Shrubbery) -> (r: Result<Expr, MrlError>)
        ensures
            enforest_outcome(r, enforested(self.env().tables(), shrub@)),
        decreases shrub, 0nat, 1nat,
    {
        let ghost t = self.env().tables();
        match shrub {
            Shrubbery::Literal(lit, span) => Ok(Expr::Literal(lit.duplicate(), *span)),
            Shrubbery::Identifier(sym, scopes, span) => Ok(Expr::Var(*sym, scopes.duplicate(), *span)),
            Shrubbery::Sequence(items, span) => {
                assert(shrub@ == ShrubModel::Sequence(shrub_models(items), *span));
                if items.len() == 0 {
                    let v: Vec<Expr> = Vec::new();
                    assert(expr_models(&v) =~= Seq::<ExprModel>::empty());
                    return Ok(Expr::Block(v, *span));
                }
                self.enforest_sequence(items, *span)
            },
            Shrubbery::Parens(items, span) => {
                assert(shrub@ == ShrubModel::Parens(shrub_models(items), *span));
                if items.len() == 0 {
                    let v: Vec<Expr> = Vec::new();
                    assert(expr_models(&v) =~= Seq::<ExprModel>::empty());
                    Ok(Expr::Block(v, *span))
                } else if items.len() == 1 {
                    assert(shrub_models(items)[0] == items@[0]@);
                    self.enforest(&items[0])
                } else {
                    match self.enforest_all(items) {
                        Ok(es) => Ok(Expr::Block(es, *span)),
                        Err(e) => Err(e),
                    }
                }
            },
            Shrubbery::Brackets(items, span) => {
                assert(shrub@ == ShrubModel::Brackets(shrub_models(items), *span));
                if items.len() == 0 {
                    let c = Content::Sequence(Vec::new());
                    Ok(Expr::Content(c, *span))
                } else {
                    match self.enforest_all(items) {
                        Ok(es) => Ok(Expr::Block(es, *span)),
                        Err(e) => Err(e),
                    }
                }
            },
            Shrubbery::Braces(items, span) => {
                assert(shrub@ == ShrubModel::Braces(shrub_models(items), *span));
                match self.enforest_all(items) {
                    Ok(es) => Ok(Expr::Block(es, *span)),
                    Err(e) => Err(e),
                }
            },
            Shrubbery::ContentBlock(items, span) => {
                assert(shrub@ == ShrubModel::ContentBlock(shrub_models(items), *span));
                match self.enforest_all(items) {
                    Ok(es) => Ok(Expr::Block(es, *span)),
                    Err(e) => Err(e),
                }
            },
            Shrubbery::Prose(text, span) => {
                Ok(Expr::Content(Content::Inline(Inline::Text(text.clone())), *span))
            },
            Shrubbery::Operator(sym, span) => Err(symbol_error(*span, "Unexpected operator: ", *sym)),
            _ => self.enforest_construct(shrub),
        }
    }

    /// Enforest the constructs with named parts.
    fn enforest_construct(&self, shrub: &Shrubbery) -> (r: Result<Expr, MrlError>)
        requires
            shrub@ is Quote || shrub@ is Splice || shrub@ is If || shrub@ is For || shrub@ is DefBlock
                || shrub@ is StagedBlock || shrub@ is ShowRule || shrub@ is SetRule || shrub@ is LiveBlock
                || shrub@ is Selector,
        ensures
            enforest_outcome(r, enforested(self.env().tables(), shrub@)),
        decreases shrub, 0nat, 0nat,
    {
        match shrub {
            Shrubbery::Quote { body, span } => match self.enforest(body) {
                Ok(e) => Ok(Expr::Quote(Box::new(e), *span)),
                Err(e) => Err(e),
            },
            Shrubbery::Splice { expr, span } => match self.enforest(expr) {
                Ok(e) => Ok(Expr::Splice(Box::new(e), *span)),
                Err(e) => Err(e),
            },
            Shrubbery::If { condition, then_branch, else_branch, span } => {
                assert(shrub@ == ShrubModel::If { condition: Box::new(condition@), then_branch: Box::new(then_branch@),
                    else_branch: opt_box_model(else_branch), span: *span });
                let c = match self.enforest(condition) { Ok(e) => e, Err(e) => return Err(e) };
                let th = match self.enforest(then_branch) { Ok(e) => e, Err(e) => return Err(e) };
                match else_branch {
                    Some(eb) => {
                        assert(opt_box_model(else_branch) == Some(Box::new(eb@)));
                        match self.enforest(eb) {
                            Ok(el) => Ok(Expr::If(Box::new(c), Box::new(th), Some(Box::new(el)), *span)),
                            Err(e) => Err(e),
                        }
                    },
                    None => Ok(Expr::If(Box::new(c), Box::new(th), None, *span)),
                }
            },
            Shrubbery::For { pattern, iterable, body, span } => {
                assert(shrub@ == ShrubModel::For { pattern: *pattern, iterable: Box::new(iterable@), body: Box::new(body@), span: *span });
                let it = match self.enforest(iterable) { Ok(e) => e, Err(e) => return Err(e) };
                match self.enforest(body) {
                    Ok(b) => Ok(Expr::For(*pattern, Box::new(it), Box::new(b), *span)),
                    Err(e) => Err(e),
                }
            },
            Shrubbery::DefBlock { name, params, return_type, body, span } => {
                assert(shrub@ == ShrubModel::DefBlock { name: *name, params: param_seq_model(params),
                    return_type: opt_box_model(return_type), body: shrub_models(body), span: *span });
                let es = match self.enforest_all(body) { Ok(v) => v, Err(e) => return Err(e) };
                let rt = match return_type {
                    Some(x) => match {
                        assert(opt_box_model(return_type) == Some(Box::new(x@)));
                        self.enforest(x)
                    } {
                        Ok(e) => Some(Box::new(e)),
                        Err(e) => return Err(e),
                    },
                    None => None,
                };
                let b = body_expr(es, *span);
                let ps = duplicate_params(params);
                Ok(Expr::Def { name: *name, params: ps, return_type: rt, body: Box::new(b), span: *span })
            },
            Shrubbery::StagedBlock { body, span } => {
                assert(shrub@ == ShrubModel::StagedBlock { body: shrub_models(body), span: *span });
                match self.enforest_all(body) {
                    Ok(es) => Ok(Expr::Staged(Box::new(body_expr(es, *span)), *span)),
                    Err(e) => Err(e),
                }
            },
            Shrubbery::ShowRule { selector, transform, span } => {
                assert(shrub@ == ShrubModel::ShowRule { selector: Box::new(selector@), transform: Box::new(transform@), span: *span });
                let s = match self.enforest(selector) { Ok(e) => e, Err(e) => return Err(e) };
                match self.enforest(transform) {
                    Ok(tr) => Ok(Expr::ShowRule { selector: Box::new(s), transform: Box::new(tr), span: *span }),
                    Err(e) => Err(e),
                }
            },
            Shrubbery::SetRule { selector, properties, span } => {
                assert(shrub@ == ShrubModel::SetRule { selector: Box::new(selector@),
                    properties: crate::mrl::shrubbery::property_seq_model(properties), span: *span });
                let s = match self.enforest(selector) { Ok(e) => e, Err(e) => return Err(e) };
                match self.enforest_properties(properties) {
                    Ok(props) => {
                        let r = Expr::SetRule { selector: Box::new(s), properties: props, span: *span };
                        proof {
                            let pm = crate::mrl::shrubbery::property_seq_model(properties);
                            assert(Seq::new(props@.len(), |i: int| props@[i].0) =~= Seq::new(pm.len(), |i: int| pm[i].0));
                        }
                        Ok(r)
                    },
                    Err(e) => Err(e),
                }
            },
            Shrubbery::LiveBlock { deps, body, span } => {
                assert(shrub@ == ShrubModel::LiveBlock { deps: match deps { Some(d) => Some(d@), None => None },
                    body: shrub_models(body), span: *span });
                match self.enforest_all(body) {
                    Ok(es) => {
                        let d = match deps {
                            Some(v) => Some(crate::util::copy::copy_vec(v)),
                            None => None,
                        };
                        Ok(Expr::Live { deps: d, body: Box::new(body_expr(es, *span)), span: *span })
                    },
                    Err(e) => Err(e),
                }
            },
            Shrubbery::Selector { base, predicate, span } => {
                assert(shrub@ == ShrubModel::Selector { base: *base, predicate: opt_box_model(predicate), span: *span });
                match predicate {
                    Some(p) => match self.enforest(p) {
                        Ok(pe) => {
                            let ghost m = pe@;
                            let args = vec![pe];
                            assert(expr_models(&args) =~= seq![m]);
                            let v = Expr::Var(*base, ScopeSet::new(), *span);
                            assert(v@ == ExprModel::Var(*base, Set::empty(), *span));
                            let r = Expr::Call(Box::new(v), args, *span);
                            assert(r@ == ExprModel::Call(Box::new(ExprModel::Var(*base, Set::empty(), *span)), seq![m], *span));
                            Ok(r)
                        },
                        Err(e) => Err(e),
                    },
                    None => {
                        let v = Expr::Var(*base, ScopeSet::new(), *span);
                        assert(v@ == ExprModel::Var(*base, Set::empty(), *span));
                        Ok(v)
                    },
                }
            },
            _ => {
                proof {
                    assert(false);
                }
                Err(end_error())
            },
        }
    }

    /// Each item enforested, in order.
    fn enforest_all(&self, items: &Vec<Shrubbery>) -> (r: Result<Vec<Expr>, MrlError>)
        ensures
            all_outcome(r, enforested_all(self.env().tables(), shrub_models(items))),
        decreases items, 0nat, 0nat,
    {
        let ghost t = self.env().tables();
        let ghost ms = shrub_models(items);
        let mut out: Vec<Expr> = Vec::new();
        let mut i: usize = 0;
        assert(ms.take(0) =~= Seq::<ShrubModel>::empty());
        assert(expr_models(&out) =~= Seq::<ExprModel>::empty());
        while i < items.len()
            invariant
                0 <= i <= items@.len(),
                ms == shrub_models(items),
                t == self.env().tables(),
                out@.len() == i,
                enforested_all(t, ms.take(i as int)) == Ok::<Seq<ExprModel>, (Span, Seq<char>)>(expr_models(&out)),
            decreases items@.len() - i,
        {
            proof {
                assert(decreases_to!(items => items@[i as int]));
                assert(ms.take(i + 1).drop_last() =~= ms.take(i as int));
                assert(ms.take(i + 1).last() == items@[i as int]@);
            }
            match self.enforest(&items[i]) {
                Ok(e) => {
                    let ghost before = expr_models(&out);
                    out.push(e);
                    assert(expr_models(&out) =~= before.push(out@[i as int]@));
                },
                Err(e) => {
                    proof {
                        lemma_all_failed_prefix(t, ms, i + 1);
                    }
                    return Err(e);
                },
            }
            i = i + 1;
        }
        assert(ms.take(items@.len() as int) =~= ms);
        Ok(out)
    }

    /// Each property value enforested, in order, with its key.
    fn enforest_properties(&self, props: &Vec<(Symbol, Shrubbery)>) -> (r: Result<Vec<(Symbol, Expr)>, MrlError>)
        ensures
            match enforested_props(self.env().tables(), crate::mrl::shrubbery::property_seq_model(props)) {
                Ok(ms) => r matches Ok(v) && property_models(&v) == ms && v@.len() == props@.len()
                    && forall|i: int| 0 <= i < props@.len() ==> v@[i].0 == props@[i].0,
                Err(f) => r matches Err(e) && parse_failure(e, f),
            },
        decreases props, 0nat, 0nat,
    {
        let ghost t = self.env().tables();
        let ghost ms = crate::mrl::shrubbery::property_seq_model(props);
        let mut out: Vec<(Symbol, Expr)> = Vec::new();
        let mut i: usize = 0;
        assert(ms.take(0) =~= Seq::<(Symbol, ShrubModel)>::empty());
        assert(property_models(&out) =~= Seq::<ExprModel>::empty());
        while i < props.len()
            invariant
                0 <= i <= props@.len(),
                ms == crate::mrl::shrubbery::property_seq_model(props),
                t == self.env().tables(),
                out@.len() == i,
                forall|j: int| 0 <= j < i ==> out@[j].0 == props@[j].0,
                enforested_props(t, ms.take(i as int)) == Ok::<Seq<ExprModel>, (Span, Seq<char>)>(property_models(&out)),
            decreases props@.len() - i,
        {
            proof {
                assert(decreases_to!(props => props@[i as int]));
                assert(decreases_to!(props@[i as int] => props@[i as int].1));
                assert(ms.take(i + 1).drop_last() =~= ms.take(i as int));
                assert(ms.take(i + 1).last() == (props@[i as int].0, props@[i as int].1@));
            }
            match self.enforest(&props[i].1) {
                Ok(e) => {
                    let ghost before = property_models(&out);
                    out.push((props[i].0, e));
                    assert(property_models(&out) =~= before.push(out@[i as int].1@));
                },
                Err(e) => {
                    proof {
                        lemma_props_failed_prefix(t, ms, i + 1);
                    }
                    return Err(e);
                },
            }
            i = i + 1;
        }
        assert(ms.take(props@.len() as int) =~= ms);
        Ok(out)
    }
}


fn inconsistent_error(span: Span, a: Symbol, b: Symbol) -> (r: MrlError)
    ensures
        parse_failure(r, (span, "Inconsistent precedence between "@ + symbol_debug(a) + " and "@ + symbol_debug(b))),
{
    let mut m = to_owned_string("Inconsistent precedence between ");
    let sa = symbol_text(a);
    push_str(&mut m, sa.as_str());
    push_str(&mut m, " and ");
    let sb = symbol_text(b);
    push_str(&mut m, sb.as_str());
    parser_error(span, m)
}

fn unknown_binop_error(span: Span, name: &str) -> (r: MrlError)
    ensures
        parse_failure(r, (span, "Unknown binary operator: "@ + name@)),
{
    let mut m = to_owned_string("Unknown binary operator: ");
    push_str(&mut m, name);
    parser_error(span, m)
}

/// `e` followed by the expressions of `es`.
fn cons_exprs(e: Expr, es: Vec<Expr>) -> (r: Vec<Expr>)
    ensures
        expr_models(&r) == seq![e@] + expr_models(&es),
{
    let ghost m = e@;
    let ghost ms = expr_models(&es);
    let mut v: Vec<Expr> = Vec::new();
    v.push(e);
    let mut rest = es;
    v.append(&mut rest);
    assert(expr_models(&v) =~= seq![m] + ms);
    v
}

impl<'a> Enforester<'a> {
    /// A sequence: its forms parsed one after another with precedence.
    fn enforest_sequence(&self, items: &Vec<Shrubbery>, span: Span) -> (r: Result<Expr, MrlError>)
        ensures
            enforest_outcome(r, enforested_sequence(self.env().tables(), shrub_models(items), span)),
        decreases items, items@.len() + 1, 0nat,
    {
        match self.enforest_form(items, 0, None) {
            Err(e) => Err(e),
            Ok((e, p)) => {
                if p >= items.len() {
                    Ok(e)
                } else {
                    match self.enforest_rest(items, p) {
                        Err(err) => Err(err),
                        Ok(es) => Ok(Expr::Block(cons_exprs(e, es), span)),
                    }
                }
            },
        }
    }

    /// The forms from `pos` on.
    fn enforest_rest(&self, items: &Vec<Shrubbery>, pos: usize) -> (r: Result<Vec<Expr>, MrlError>)
        requires
            pos <= items@.len(),
        ensures
            all_outcome(r, enforest_rest(self.env().tables(), shrub_models(items), pos as nat)),
        decreases items, items@.len() - pos, 2nat,
    {
        if pos >= items.len() {
            let v: Vec<Expr> = Vec::new();
            assert(expr_models(&v) =~= Seq::<ExprModel>::empty());
            return Ok(v);
        }
        match self.enforest_form(items, pos, None) {
            Err(e) => Err(e),
            Ok((e, q)) => match self.enforest_rest(items, q) {
                Err(err) => Err(err),
                Ok(es) => Ok(cons_exprs(e, es)),
            },
        }
    }

    /// One form at `pos`, with what follows it binding tighter than `cur`.
    fn enforest_form(&self, items: &Vec<Shrubbery>, pos: usize, cur: Option<&InfixOperator>) -> (r: Result<(Expr, usize), MrlError>)
        requires
            pos <= items@.len(),
        ensures
            form_outcome(r, enforest_form(self.env().tables(), shrub_models(items), pos as nat, opt_view(cur))),
            r matches Ok((_, q)) ==> pos < q <= items@.len(),
        decreases items, items@.len() - pos, 1nat,
    {
        if pos >= items.len() {
            return Err(end_error());
        }
        let ghost ms = shrub_models(items);
        let head = &items[pos];
        assert(ms[pos as int] == head@);
        let start = head.span();
        proof {
            assert(decreases_to!(items => items@[pos as int]));
        }
        let form: Result<(Expr, usize), MrlError> = match head {
            Shrubbery::Identifier(sym, scopes, sp) => {
                if self.env.get_prefix(*sym).is_some() {
                    self.enforest_prefix(items, pos, *sym, *sp)
                } else {
                    Ok((Expr::Var(*sym, scopes.duplicate(), *sp), pos + 1))
                }
            },
            Shrubbery::Operator(sym, sp) => {
                if self.env.get_prefix(*sym).is_some() {
                    self.enforest_prefix(items, pos, *sym, *sp)
                } else {
                    Err(symbol_error(*sp, "Unexpected operator: ", *sym))
                }
            },
            Shrubbery::Brackets(its, sp) => {
                match self.enforest_all(its) {
                    Ok(es) => Ok((Expr::Block(es, *sp), pos + 1)),
                    Err(e) => Err(e),
                }
            },
            _ => match self.enforest(head) {
                Ok(e) => Ok((e, pos + 1)),
                Err(e) => Err(e),
            },
        };
        match form {
            Err(e) => Err(e),
            Ok((e, p)) => self.enforest_infix(e, items, p, cur, start),
        }
    }

    /// A prefix operator at `pos` applied to the form after it.
    fn enforest_prefix(&self, items: &Vec<Shrubbery>, pos: usize, sym: Symbol, sp: Span) -> (r: Result<(Expr, usize), MrlError>)
        requires
            pos < items@.len(),
        ensures
            form_outcome(r, enforest_prefix(self.env().tables(), shrub_models(items), pos as nat, sym, sp)),
            r matches Ok((_, q)) ==> pos < q <= items@.len(),
        decreases items, items@.len() - pos, 0nat,
    {
        let _n = items.len();
        match self.enforest_form(items, pos + 1, None) {
            Err(e) => Err(e),
            Ok((operand, tail)) => {
                let op = match self.env.get_symbol_name(sym) {
                    Some(n) => {
                        if str_eq(n, "-") {
                            Some(UnOp::Neg)
                        } else if str_eq(n, "!") {
                            Some(UnOp::Not)
                        } else {
                            None
                        }
                    },
                    None => None,
                };
                match op {
                    None => Err(symbol_error(sp, "Unknown prefix operator: ", sym)),
                    Some(o) => {
                        let end = operand.span().end;
                        Ok((Expr::UnOp(o, Box::new(operand), Span::new(sp.start, end)), tail))
                    },
                }
            },
        }
    }

    /// After `left`, which began at `start`: calls, subscripts and infix
    /// operators from `pos` on.
    fn enforest_infix(&self, left: Expr, items: &Vec<Shrubbery>, pos: usize, cur: Option<&InfixOperator>, start: Span) -> (r: Result<(Expr, usize), MrlError>)
        requires
            pos <= items@.len(),
        ensures
            form_outcome(r, enforest_infix(self.env().tables(), left@, shrub_models(items), pos as nat, opt_view(cur), start)),
            r matches Ok((_, q)) ==> pos <= q <= items@.len(),
        decreases items, items@.len() - pos, 0nat,
    {
        if pos >= items.len() {
            return Ok((left, pos));
        }
        let ghost ms = shrub_models(items);
        let next = &items[pos];
        assert(ms[pos as int] == next@);
        proof {
            assert(decreases_to!(items => items@[pos as int]));
        }
        let op_at: Option<(&InfixOperator, Symbol, Span)> = match next {
            Shrubbery::Operator(sym, sp) => match self.env.get_infix(*sym) {
                Some(op) => Some((op, *sym, *sp)),
                None => None,
            },
            Shrubbery::Identifier(sym, _, sp) => match self.env.get_infix(*sym) {
                Some(op) => Some((op, *sym, *sp)),
                None => None,
            },
            _ => None,
        };
        proof {
            match op_at {
                Some((op, sym, sp)) => {
                    assert(next@ is Operator || next@ is Identifier);
                    assert(self.env().tables().infix.contains_key(sym.0));
                    assert(op@ == self.env().tables().infix[sym.0]);
                },
                None => {},
            }
        }
        match op_at {
            Some((op, sym, sp)) => {
                if let Some(c) = cur {
                    match relative_precedence(c, op) {
                        PrecResult::Weaker | PrecResult::SameOnLeft => {
                            return Ok((left, pos));
                        },
                        PrecResult::Inconsistent => {
                            return Err(inconsistent_error(sp, c.name, op.name));
                        },
                        _ => {},
                    }
                }
                match self.enforest_form(items, pos + 1, Some(op)) {
                    Err(e) => Err(e),
                    Ok((right, tail)) => {
                        let name: &str = match self.env.get_symbol_name(sym) {
                            Some(n) => n,
                            None => "",
                        };
                        proof {
                            reveal_strlit("");
                        }
                        match BinOp::from_str(name) {
                            None => Err(unknown_binop_error(sp, name)),
                            Some(b) => {
                                let combined = Span::new(left.span().start, right.span().end);
                                self.enforest_infix(Expr::BinOp(Box::new(left), b, Box::new(right), combined), items, tail, cur, start)
                            },
                        }
                    },
                }
            },
            None => match next {
                Shrubbery::Parens(args, psp) => match {
                    assert(next@ == ShrubModel::Parens(shrub_models(args), *psp));
                    self.enforest_all(args)
                } {
                    Err(e) => Err(e),
                    Ok(es) => self.enforest_infix(Expr::Call(Box::new(left), es, Span::new(start.start, psp.end)), items, pos + 1, cur, start),
                },
                Shrubbery::Brackets(its, bsp) => {
                    assert(next@ == ShrubModel::Brackets(shrub_models(its), *bsp));
                    if its.len() == 1 {
                        assert(shrub_models(its)[0] == its@[0]@);
                        proof {
                            assert(decreases_to!(items@[pos as int] => its));
                            assert(decreases_to!(its => its@[0]));
                        }
                        match self.enforest(&its[0]) {
                            Err(e) => Err(e),
                            Ok(ix) => self.enforest_infix(Expr::Subscript(Box::new(left), Box::new(ix), Span::new(start.start, bsp.end)), items, pos + 1, cur, start),
                        }
                    } else {
                        Ok((left, pos))
                    }
                },
                _ => Ok((left, pos)),
            },
        }
    }
}

/// Enforest a shrubbery with an environment that has no operators.
pub fn enforest(shrub: &Shrubbery) -> (r: Result<Expr, MrlError>)
    ensures
        enforest_outcome(r, enforested(OpTables {
            prefix: Map::<u64, OpView>::empty(),
            infix: Map::<u64, OpView>::empty(),
            names: Map::<u64, Seq<char>>::empty(),
        }, shrub@)),
{
    let env = OperatorEnv::new();
    let enforester = Enforester::new(&env);
    enforester.enforest(shrub)
}

/// Enforest a shrubbery with the operators of `env`.
pub fn enforest_with_env(shrub: &Shrubbery, env: &OperatorEnv) -> (r: Result<Expr, MrlError>)
    ensures
        enforest_outcome(r, enforested(env.tables(), shrub@)),
{
    let enforester = Enforester::new(env);
    enforester.enforest(shrub)
}

} // verus!
