//! The parser of MRL: tokens into shrubbery, by recursive descent. Names
//! are interned as they are met: each distinct name gets the next symbol
//! number, and the same name always gets the same symbol.

use vstd::prelude::*;
use crate::mrl::error::{MrlError, Span};
use crate::mrl::lexer::{SpannedToken, Token, TokenModel, token_models};
use crate::mrl::shrubbery::{Literal, LiteralModel, Param, Scope, ScopeSet, Shrubbery, ShrubModel, Symbol, opt_model, param_seq_model, shrub_models, shrub_span};
use crate::mrl::enforest::parse_failure;
use crate::util::strmap::StrMap;
use crate::util::text::{push_str, str_eq, to_owned_string};

verus! {

/// The table of interned names.
#[derive(Debug)]
pub struct SymbolTable {
    symbols: StrMap<Symbol>,
    next_id: u64,
}

impl SymbolTable {
    /// The interned names with their symbols.
    pub closed spec fn table(&self) -> Map<Seq<char>, Symbol> {
        Map::new(|k: Seq<char>| self.symbols.has(k), |k: Seq<char>| self.symbols.value_at(k))
    }

    /// The interned names with their symbols, in the order they were added.
    pub closed spec fn entries(&self) -> Seq<(Seq<char>, Symbol)> {
        self.symbols.entry_seq()
    }

    /// The number the next interned name will get.
    pub closed spec fn next(&self) -> u64 {
        self.next_id
    }

    /// Every interned symbol is below the next number (so symbols of
    /// different names differ).
    pub closed spec fn well_formed(&self) -> bool {
        &&& forall|k: Seq<char>| #[trigger] self.symbols.has(k) ==> self.symbols.value_at(k).0 < self.next_id
        &&& forall|a: Seq<char>, b: Seq<char>| #[trigger] self.symbols.has(a) && #[trigger] self.symbols.has(b) && a != b
                ==> self.symbols.value_at(a) != self.symbols.value_at(b)
    }

    /// An empty table; the first name will get symbol 0.
    pub fn new() -> (r: Self)
        ensures
            r.table() == Map::<Seq<char>, Symbol>::empty(),
            r.next() == 0,
            r.well_formed(),
    {
        let r = SymbolTable { symbols: StrMap::new(), next_id: 0 };
        assert(r.table() =~= Map::<Seq<char>, Symbol>::empty());
        r
    }

    /// The symbol of `name`: the one it already has, else the next number,
    /// which it keeps from now on.
    pub fn intern(&mut self, name: &str) -> (r: Symbol)
        requires
            old(self).well_formed(),
            old(self).next() < u64::MAX,
        ensures
            final(self).well_formed(),
            old(self).table().contains_key(name@) ==> r == old(self).table()[name@]
                && final(self).table() == old(self).table() && final(self).next() == old(self).next(),
            !old(self).table().contains_key(name@) ==> r == Symbol(old(self).next())
                && final(self).table() == old(self).table().insert(name@, r)
                && final(self).next() == old(self).next() + 1,
    {
        match self.symbols.get(name) {
            Some(sym) => *sym,
            None => {
                let ghost before = self.table();
                let sym = Symbol::new(self.next_id);
                self.next_id = self.next_id + 1;
                self.symbols.insert(to_owned_string(name), sym);
                assert(self.table() =~= before.insert(name@, sym));
                sym
            },
        }
    }

    /// The symbol of `name`, if it was interned.
    pub fn get(&self, name: &str) -> (r: Option<Symbol>)
        ensures
            match r {
                Some(s) => self.table().contains_key(name@) && s == self.table()[name@],
                None => !self.table().contains_key(name@),
            },
    {
        match self.symbols.get(name) {
            Some(sym) => Some(*sym),
            None => None,
        }
    }

    /// The interned names and their symbols, in the order of interning.
    pub fn symbols(&self) -> (r: &StrMap<Symbol>)
        ensures
            r.entry_seq() == self.entries(),
            forall|k: Seq<char>| #[trigger] r.has(k) == self.table().contains_key(k),
            forall|k: Seq<char>| r.has(k) ==> #[trigger] r.value_at(k) == self.table()[k],
    {
        &self.symbols
    }
}

impl Default for SymbolTable {
    fn default() -> (r: Self)
        ensures
            r.table() == Map::<Seq<char>, Symbol>::empty(),
            r.next() == 0,
            r.well_formed(),
    {
        SymbolTable::new()
    }
}

/// Different interned names have different symbols.
pub proof fn lemma_distinct_names(t: SymbolTable, a: Seq<char>, b: Seq<char>)
    requires
        t.well_formed(),
        t.table().contains_key(a),
        t.table().contains_key(b),
        a != b,
    ensures
        t.table()[a] != t.table()[b],
{
    assert(t.symbols.has(a) && t.symbols.has(b));
}


// ===== The parser, as a function of the tokens =====

/// What a parser knows: its position among the tokens and the names it
/// has interned.
pub struct PState {
    pub pos: int,
    pub syms: Map<Seq<char>, Symbol>,
    pub next: int,
}

/// A parse failure: where and why.
pub type PFail = (Span, Seq<char>);

/// A number for each kind of token, payloads aside.
pub open spec fn kind_code(t: TokenModel) -> int {
    match t {
        TokenModel::Def => 0, TokenModel::Staged => 1, TokenModel::Show => 2, TokenModel::SetKw => 3,
        TokenModel::Live => 4, TokenModel::Quote => 5, TokenModel::Splice => 6, TokenModel::If => 7,
        TokenModel::Else => 8, TokenModel::For => 9, TokenModel::In => 10, TokenModel::Where => 11,
        TokenModel::True => 12, TokenModel::False => 13, TokenModel::NoneLit => 14,
        TokenModel::Identifier(_) => 15, TokenModel::IntLiteral(_) => 16, TokenModel::FloatLiteral(_) => 17,
        TokenModel::StringLiteral(_) => 18, TokenModel::SymbolLiteral(_) => 19,
        TokenModel::Plus => 20, TokenModel::Minus => 21, TokenModel::Star => 22, TokenModel::Slash => 23,
        TokenModel::Percent => 24, TokenModel::EqEq => 25, TokenModel::NotEq => 26, TokenModel::Lt => 27,
        TokenModel::Le => 28, TokenModel::Gt => 29, TokenModel::Ge => 30, TokenModel::AndAnd => 31,
        TokenModel::OrOr => 32, TokenModel::Bang => 33, TokenModel::PlusPlus => 34,
        TokenModel::LParen => 35, TokenModel::RParen => 36, TokenModel::LBracket => 37,
        TokenModel::RBracket => 38, TokenModel::LBrace => 39, TokenModel::RBrace => 40,
        TokenModel::Comma => 41, TokenModel::Colon => 42, TokenModel::Eq => 43, TokenModel::Dot => 44,
        TokenModel::Dollar => 45, TokenModel::Newline => 46, TokenModel::Eof => 47,
    }
}

/// How a token prints in a parse error: its name, and for an identifier
/// its text quoted.
pub open spec fn token_debug(t: TokenModel) -> Seq<char> {
    match t {
        TokenModel::Identifier(s) => "Identifier(\""@ + s + "\")"@,
        TokenModel::Def => "Def"@, TokenModel::Staged => "Staged"@, TokenModel::Show => "Show"@,
        TokenModel::SetKw => "Set"@, TokenModel::Live => "Live"@, TokenModel::Quote => "Quote"@,
        TokenModel::Splice => "Splice"@, TokenModel::If => "If"@, TokenModel::For => "For"@,
        TokenModel::In => "In"@, TokenModel::LParen => "LParen"@, TokenModel::RParen => "RParen"@,
        TokenModel::LBracket => "LBracket"@, TokenModel::RBracket => "RBracket"@,
        TokenModel::LBrace => "LBrace"@, TokenModel::RBrace => "RBrace"@, TokenModel::Colon => "Colon"@,
        TokenModel::Newline => "Newline"@, TokenModel::Bang => "Bang"@, TokenModel::Dollar => "Dollar"@,
        _ => "token"@,
    }
}

/// The span meaning "nowhere".
pub open spec fn zero_span() -> Span {
    Span { start: 0, end: 0 }
}

/// The token at `p`, if any.
pub open spec fn tok_at(ts: Seq<(TokenModel, Span)>, p: int) -> Option<TokenModel> {
    if 0 <= p < ts.len() { Some(ts[p].0) } else { None }
}

/// The position `p` holds a token of the kind of `k`.
pub open spec fn at_kind(ts: Seq<(TokenModel, Span)>, p: int, k: TokenModel) -> bool {
    match tok_at(ts, p) {
        Some(t) => kind_code(t) == kind_code(k),
        None => false,
    }
}

/// Nothing but the end is left at `p`.
pub open spec fn at_end(ts: Seq<(TokenModel, Span)>, p: int) -> bool {
    match tok_at(ts, p) {
        Some(t) => t is Eof,
        None => true,
    }
}

/// The span of the token at `p`, or nowhere.
pub open spec fn span_at(ts: Seq<(TokenModel, Span)>, p: int) -> Span {
    if 0 <= p < ts.len() { ts[p].1 } else { zero_span() }
}

/// Where the token at `p` starts, or `dflt`.
pub open spec fn start_at(ts: Seq<(TokenModel, Span)>, p: int, dflt: usize) -> usize {
    if 0 <= p < ts.len() { ts[p].1.start } else { dflt }
}

/// `st` moved past one token.
pub open spec fn moved(st: PState) -> PState {
    PState { pos: st.pos + 1, ..st }
}

/// `st` past the newlines at its position.
pub open spec fn past_newlines(ts: Seq<(TokenModel, Span)>, st: PState) -> PState
    decreases ts.len() - st.pos,
{
    if 0 <= st.pos < ts.len() && ts[st.pos].0 is Newline { past_newlines(ts, moved(st)) } else { st }
}

/// The token of the kind of `k` at the position: its value and span, and
/// the state past it; else the error naming `k`.
pub open spec fn expect_tok(ts: Seq<(TokenModel, Span)>, st: PState, k: TokenModel) -> Result<((TokenModel, Span), PState), PFail> {
    if at_kind(ts, st.pos, k) {
        Ok((ts[st.pos], moved(st)))
    } else {
        Err((span_at(ts, st.pos), "Expected "@ + token_debug(k)))
    }
}

/// The symbol of `name`, interning it when new.
pub open spec fn intern_name(st: PState, name: Seq<char>) -> (Symbol, PState) {
    if st.syms.contains_key(name) {
        (st.syms[name], st)
    } else {
        (Symbol(st.next as u64), PState { syms: st.syms.insert(name, Symbol(st.next as u64)), next: st.next + 1, ..st })
    }
}

/// The literal `none` at nowhere, standing for a missing form.
pub open spec fn none_shrub() -> ShrubModel {
    ShrubModel::Literal(LiteralModel::NoneLit, zero_span())
}

/// The literal `true` at nowhere, standing for a missing condition.
pub open spec fn true_shrub() -> ShrubModel {
    ShrubModel::Literal(LiteralModel::Bool(true), zero_span())
}

/// The operator name of an operator token.
pub open spec fn operator_name(t: TokenModel) -> Option<Seq<char>> {
    match t {
        TokenModel::Plus => Some("+"@), TokenModel::Minus => Some("-"@), TokenModel::Star => Some("*"@),
        TokenModel::Slash => Some("/"@), TokenModel::Percent => Some("%"@), TokenModel::EqEq => Some("=="@),
        TokenModel::NotEq => Some("!="@), TokenModel::Lt => Some("<"@), TokenModel::Le => Some("<="@),
        TokenModel::Gt => Some(">"@), TokenModel::Ge => Some(">="@), TokenModel::AndAnd => Some("&&"@),
        TokenModel::OrOr => Some("||"@), TokenModel::Bang => Some("!"@), TokenModel::PlusPlus => Some("++"@),
        TokenModel::Eq => Some("="@),
        _ => None,
    }
}

/// A token that continues an expression as an operator.
pub open spec fn continues_expression(t: Option<TokenModel>) -> bool {
    match t {
        Some(x) => operator_name(x) is Some && !(x is Bang),
        None => false,
    }
}

/// A value that stands for an unreachable outcome of a parse step.
pub open spec fn stuck<T>() -> Result<T, PFail> {
    Err((zero_span(), "Expected progress"@))
}

/// The text of the identifier token `t`.
pub open spec fn ident_text(t: TokenModel) -> Seq<char> {
    match t {
        TokenModel::Identifier(n) => n,
        _ => Seq::empty(),
    }
}

/// An element: newlines skipped, then one form chosen by its first token;
/// `None` at the end, or when an unexpected token was skipped.
pub open spec fn p_element(ts: Seq<(TokenModel, Span)>, st: PState) -> Result<(Option<ShrubModel>, PState), PFail>
    decreases ts.len() - st.pos, 11nat,
{
    let s0 = past_newlines(ts, st);
    if !(st.pos <= s0.pos <= ts.len()) {
        stuck()
    } else if at_end(ts, s0.pos) {
        Ok((None, s0))
    } else {
        let t = ts[s0.pos].0;
        let form: Result<(ShrubModel, PState), PFail> = match t {
            TokenModel::Bang => {
                let nxt = tok_at(ts, s0.pos + 1);
                if nxt == Some(TokenModel::Def) { p_def(ts, s0) }
                else if nxt == Some(TokenModel::Staged) { p_staged(ts, s0) }
                else if nxt == Some(TokenModel::Show) { p_show(ts, s0) }
                else if nxt == Some(TokenModel::SetKw) { p_set(ts, s0) }
                else if nxt == Some(TokenModel::Live) { p_live(ts, s0) }
                else { p_operator(ts, s0) }
            },
            TokenModel::Quote => p_quote(ts, s0),
            TokenModel::Splice => p_splice_keyword(ts, s0),
            TokenModel::Dollar => p_splice_dollar(ts, s0),
            TokenModel::If => p_if(ts, s0),
            TokenModel::For => p_for(ts, s0),
            TokenModel::Identifier(_) => p_identifier(ts, s0),
            TokenModel::IntLiteral(_) | TokenModel::FloatLiteral(_) | TokenModel::StringLiteral(_)
            | TokenModel::SymbolLiteral(_) | TokenModel::True | TokenModel::False | TokenModel::NoneLit => p_literal(ts, s0),
            TokenModel::LParen => p_group(ts, s0, 0),
            TokenModel::LBracket => p_group(ts, s0, 1),
            TokenModel::LBrace => p_group(ts, s0, 2),
            TokenModel::Plus | TokenModel::Minus | TokenModel::Star | TokenModel::Slash | TokenModel::Percent
            | TokenModel::EqEq | TokenModel::NotEq | TokenModel::Lt | TokenModel::Le | TokenModel::Gt
            | TokenModel::Ge | TokenModel::AndAnd | TokenModel::OrOr | TokenModel::PlusPlus => p_operator(ts, s0),
            _ => Err((zero_span(), Seq::empty())),
        };
        if p_skips(t) {
            Ok((None, moved(s0)))
        } else {
            match form {
                Ok((e, s1)) => Ok((Some(e), s1)),
                Err(f) => Err(f),
            }
        }
    }
}

/// The tokens an element does not start with: they are skipped.
pub open spec fn p_skips(t: TokenModel) -> bool {
    !(t is Bang || t is Quote || t is Splice || t is Dollar || t is If || t is For || t is Identifier
        || t is IntLiteral || t is FloatLiteral || t is StringLiteral || t is SymbolLiteral || t is True
        || t is False || t is NoneLit || t is LParen || t is LBracket || t is LBrace || t is Plus || t is Minus
        || t is Star || t is Slash || t is Percent || t is EqEq || t is NotEq || t is Lt || t is Le || t is Gt
        || t is Ge || t is AndAnd || t is OrOr || t is PlusPlus)
}

/// An identifier, interned.
pub open spec fn p_identifier(ts: Seq<(TokenModel, Span)>, st: PState) -> Result<(ShrubModel, PState), PFail>
    decreases ts.len() - st.pos, 0nat,
{
    match expect_tok(ts, st, TokenModel::Identifier(Seq::empty())) {
        Err(f) => Err(f),
        Ok(((t, sp), s1)) => {
            let (sym, s2) = intern_name(s1, ident_text(t));
            Ok((ShrubModel::Identifier(sym, Set::empty(), sp), s2))
        },
    }
}

/// The literal under the cursor.
pub open spec fn p_literal(ts: Seq<(TokenModel, Span)>, st: PState) -> Result<(ShrubModel, PState), PFail>
    decreases ts.len() - st.pos, 0nat,
{
    if !(0 <= st.pos < ts.len()) {
        stuck()
    } else {
        let (t, sp) = ts[st.pos];
        let s1 = moved(st);
        match t {
            TokenModel::IntLiteral(Some(i)) => Ok((ShrubModel::Literal(LiteralModel::Int(i), sp), s1)),
            TokenModel::IntLiteral(None) => Err((sp, "Invalid integer literal"@)),
            TokenModel::FloatLiteral(x) => Ok((ShrubModel::Literal(LiteralModel::Float(x), sp), s1)),
            TokenModel::StringLiteral(x) => Ok((ShrubModel::Literal(LiteralModel::String(x), sp), s1)),
            TokenModel::SymbolLiteral(x) => Ok((ShrubModel::Literal(LiteralModel::Symbol(x), sp), s1)),
            TokenModel::True => Ok((ShrubModel::Literal(LiteralModel::Bool(true), sp), s1)),
            TokenModel::False => Ok((ShrubModel::Literal(LiteralModel::Bool(false), sp), s1)),
            _ => Ok((ShrubModel::Literal(LiteralModel::NoneLit, sp), s1)),
        }
    }
}

/// The operator under the cursor, its name interned.
pub open spec fn p_operator(ts: Seq<(TokenModel, Span)>, st: PState) -> Result<(ShrubModel, PState), PFail>
    decreases ts.len() - st.pos, 0nat,
{
    if !(0 <= st.pos < ts.len()) {
        stuck()
    } else {
        let (t, sp) = ts[st.pos];
        let name = match operator_name(t) { Some(n) => n, None => Seq::empty() };
        let (sym, s1) = intern_name(moved(st), name);
        Ok((ShrubModel::Operator(sym, sp), s1))
    }
}

/// The open and close tokens of a group: parentheses, brackets or braces.
pub open spec fn group_open(which: int) -> TokenModel {
    if which == 0 { TokenModel::LParen } else if which == 1 { TokenModel::LBracket } else { TokenModel::LBrace }
}

pub open spec fn group_close(which: int) -> TokenModel {
    if which == 0 { TokenModel::RParen } else if which == 1 { TokenModel::RBracket } else { TokenModel::RBrace }
}

/// The shrubbery of a group of items.
pub open spec fn group_shrub(which: int, items: Seq<ShrubModel>, span: Span) -> ShrubModel {
    if which == 0 { ShrubModel::Parens(items, span) }
    else if which == 1 { ShrubModel::Brackets(items, span) }
    else { ShrubModel::Braces(items, span) }
}

/// A group: its open token, elements separated by optional commas, and its
/// close token.
pub open spec fn p_group(ts: Seq<(TokenModel, Span)>, st: PState, which: int) -> Result<(ShrubModel, PState), PFail>
    decreases ts.len() - st.pos, 10nat,
{
    match expect_tok(ts, st, group_open(which)) {
        Err(f) => Err(f),
        Ok(((_, osp), s1)) => if s1.pos > st.pos {
            match p_items(ts, s1, group_close(which), true) {
                Err(f) => Err(f),
                Ok((items, s2)) => match expect_tok(ts, s2, group_close(which)) {
                    Err(f) => Err(f),
                    Ok(((_, csp), s3)) => Ok((group_shrub(which, items, Span { start: osp.start, end: csp.end }), s3)),
                },
            }
        } else {
            stuck()
        },
    }
}

/// Elements up to the token of the kind of `close` (or the end), skipping
/// one comma after each when `commas`.
pub open spec fn p_items(ts: Seq<(TokenModel, Span)>, st: PState, close: TokenModel, commas: bool) -> Result<(Seq<ShrubModel>, PState), PFail>
    decreases ts.len() - st.pos, 12nat,
{
    if at_kind(ts, st.pos, close) || at_end(ts, st.pos) {
        Ok((Seq::empty(), st))
    } else {
        match p_element(ts, st) {
            Err(f) => Err(f),
            Ok((eo, s1)) => {
                let s2 = if commas && at_kind(ts, s1.pos, TokenModel::Comma) { moved(s1) } else { s1 };
                if st.pos < s2.pos <= ts.len() {
                    match p_items(ts, s2, close, commas) {
                        Err(f) => Err(f),
                        Ok((es, s3)) => Ok((match eo { Some(e) => seq![e] + es, None => es }, s3)),
                    }
                } else {
                    stuck()
                }
            },
        }
    }
}

/// An expression: an element, a call's arguments after it, and operators
/// each followed by an operand (and its arguments); one element stands
/// alone, several make a sequence.
pub open spec fn p_expression(ts: Seq<(TokenModel, Span)>, st: PState) -> Result<(Option<ShrubModel>, PState), PFail>
    decreases ts.len() - st.pos, 12nat,
{
    match p_element(ts, st) {
        Err(f) => Err(f),
        Ok((None, s1)) => Ok((None, s1)),
        Ok((Some(first), s1)) => if st.pos < s1.pos <= ts.len() {
            match p_call_args(ts, s1) {
                Err(f) => Err(f),
                Ok((args, s2)) => if s1.pos <= s2.pos <= ts.len() {
                    match p_expr_ops(ts, s2) {
                        Err(f) => Err(f),
                        Ok((rest, s3)) => {
                            let all = seq![first] + args + rest;
                            if all.len() == 1 {
                                Ok((Some(first), s3))
                            } else {
                                Ok((Some(ShrubModel::Sequence(all, Span { start: shrub_span(first).start, end: shrub_span(all.last()).end })), s3))
                            }
                        },
                    }
                } else {
                    stuck()
                },
            }
        } else {
            stuck()
        },
    }
}

/// The parenthesized arguments of a call at the cursor, if any.
pub open spec fn p_call_args(ts: Seq<(TokenModel, Span)>, st: PState) -> Result<(Seq<ShrubModel>, PState), PFail>
    decreases ts.len() - st.pos, 11nat,
{
    if at_kind(ts, st.pos, TokenModel::LParen) {
        match p_group(ts, st, 0) {
            Err(f) => Err(f),
            Ok((g, s1)) => Ok((seq![g], s1)),
        }
    } else {
        Ok((Seq::empty(), st))
    }
}

/// Operators with their operands (and call arguments) while an operator
/// comes next.
pub open spec fn p_expr_ops(ts: Seq<(TokenModel, Span)>, st: PState) -> Result<(Seq<ShrubModel>, PState), PFail>
    decreases ts.len() - st.pos, 12nat,
{
    if !continues_expression(tok_at(ts, st.pos)) {
        Ok((Seq::empty(), st))
    } else {
        match p_operator(ts, st) {
            Err(f) => Err(f),
            Ok((op, s1)) => if st.pos < s1.pos <= ts.len() { p_operand(ts, s1, op) } else { stuck() },
        }
    }
}

/// After the operator `op`: its operand with call arguments, and the
/// operators after it; the operator alone where no operand comes.
pub open spec fn p_operand(ts: Seq<(TokenModel, Span)>, st: PState, op: ShrubModel) -> Result<(Seq<ShrubModel>, PState), PFail>
    decreases ts.len() - st.pos, 12nat,
{
    match p_element(ts, st) {
        Err(f) => Err(f),
        Ok((None, s1)) => Ok((seq![op], s1)),
        Ok((Some(operand), s1)) => if st.pos < s1.pos <= ts.len() {
            match p_call_args(ts, s1) {
                Err(f) => Err(f),
                Ok((args, s2)) => if s1.pos <= s2.pos <= ts.len() {
                    match p_expr_ops(ts, s2) {
                        Err(f) => Err(f),
                        Ok((rest, s3)) => Ok((seq![op, operand] + args + rest, s3)),
                    }
                } else {
                    stuck()
                },
            }
        } else {
            stuck()
        },
    }
}

/// The expressions of an indented block, up to a `!`, the end, or a place
/// where no expression starts.
pub open spec fn p_indented(ts: Seq<(TokenModel, Span)>, st: PState) -> Result<(Seq<ShrubModel>, PState), PFail>
    decreases ts.len() - st.pos, 13nat,
{
    if at_end(ts, st.pos) || at_kind(ts, st.pos, TokenModel::Bang) {
        Ok((Seq::empty(), st))
    } else {
        match p_expression(ts, st) {
            Err(f) => Err(f),
            Ok((None, s1)) => Ok((Seq::empty(), s1)),
            Ok((Some(e), s1)) => if st.pos < s1.pos <= ts.len() {
                match p_indented(ts, s1) {
                    Err(f) => Err(f),
                    Ok((es, s2)) => Ok((seq![e] + es, s2)),
                }
            } else {
                stuck()
            },
        }
    }
}

/// A block body after its keyword: bracketed elements, or an optional
/// colon, a newline and an indented block.
pub open spec fn p_body(ts: Seq<(TokenModel, Span)>, st: PState) -> Result<(Seq<ShrubModel>, PState), PFail>
    decreases ts.len() - st.pos, 11nat,
{
    if at_kind(ts, st.pos, TokenModel::LBracket) {
        let s1 = moved(st);
        match p_items(ts, s1, TokenModel::RBracket, false) {
            Err(f) => Err(f),
            Ok((items, s2)) => match expect_tok(ts, s2, TokenModel::RBracket) {
                Err(f) => Err(f),
                Ok((_, s3)) => Ok((items, s3)),
            },
        }
    } else {
        p_colon_block(ts, st)
    }
}

/// An optional colon, a newline, and an indented block.
pub open spec fn p_colon_block(ts: Seq<(TokenModel, Span)>, st: PState) -> Result<(Seq<ShrubModel>, PState), PFail>
    decreases ts.len() - st.pos, 10nat,
{
    let s1 = if at_kind(ts, st.pos, TokenModel::Colon) { moved(st) } else { st };
    match expect_tok(ts, s1, TokenModel::Newline) {
        Err(f) => Err(f),
        Ok((_, s2)) => if st.pos < s2.pos <= ts.len() { p_indented(ts, s2) } else { stuck() },
    }
}

/// Where a construct that began at `start` ends: at the next token's start.
pub open spec fn end_span(ts: Seq<(TokenModel, Span)>, start: usize, s: PState) -> Span {
    Span { start, end: start_at(ts, s.pos, start) }
}

/// An element, or `dflt` where none comes.
pub open spec fn or_default(r: Result<(Option<ShrubModel>, PState), PFail>, dflt: ShrubModel) -> Result<(ShrubModel, PState), PFail> {
    match r {
        Err(f) => Err(f),
        Ok((Some(e), s)) => Ok((e, s)),
        Ok((None, s)) => Ok((dflt, s)),
    }
}

/// `!def name(params): body`, `!def name(params): Type` then a body, or
/// `!def name(params) = element`.
pub open spec fn p_def(ts: Seq<(TokenModel, Span)>, st: PState) -> Result<(ShrubModel, PState), PFail>
    decreases ts.len() - st.pos, 10nat,
{
    match expect_tok(ts, st, TokenModel::Bang) {
        Err(f) => Err(f),
        Ok(((_, bsp), s1)) => match expect_tok(ts, s1, TokenModel::Def) {
            Err(f) => Err(f),
            Ok((_, s2)) => match expect_tok(ts, s2, TokenModel::Identifier(Seq::empty())) {
                Err(f) => Err(f),
                Ok(((nt, _), s3)) => {
                    let (name, s4) = intern_name(s3, ident_text(nt));
                    if !(st.pos < s4.pos <= ts.len()) {
                        stuck()
                    } else {
                        match p_opt_params(ts, s4) {
                            Err(f) => Err(f),
                            Ok((params, s5)) => if s4.pos <= s5.pos <= ts.len() {
                                match p_return_type(ts, s5) {
                                    Err(f) => Err(f),
                                    Ok((rt, s6)) => if s5.pos <= s6.pos <= ts.len() {
                                        match p_def_body(ts, s6) {
                                            Err(f) => Err(f),
                                            Ok((body, s7)) => Ok((ShrubModel::DefBlock {
                                                name,
                                                params,
                                                return_type: rt,
                                                body,
                                                span: end_span(ts, bsp.start, s7),
                                            }, s7)),
                                        }
                                    } else {
                                        stuck()
                                    },
                                }
                            } else {
                                stuck()
                            },
                        }
                    }
                },
            },
        },
    }
}

/// Parameters in parentheses, if they come.
pub open spec fn p_opt_params(ts: Seq<(TokenModel, Span)>, st: PState) -> Result<(Seq<(Symbol, Option<ShrubModel>, Option<ShrubModel>, Span)>, PState), PFail>
    decreases ts.len() - st.pos, 10nat,
{
    if at_kind(ts, st.pos, TokenModel::LParen) {
        let s1 = moved(st);
        match p_params(ts, s1) {
            Err(f) => Err(f),
            Ok((ps, s2)) => match expect_tok(ts, s2, TokenModel::RParen) {
                Err(f) => Err(f),
                Ok((_, s3)) => Ok((ps, s3)),
            },
        }
    } else {
        Ok((Seq::empty(), st))
    }
}

/// Parameters `name: Type = default`, separated by commas, newlines
/// skipped, up to the closing parenthesis.
pub open spec fn p_params(ts: Seq<(TokenModel, Span)>, st: PState) -> Result<(Seq<(Symbol, Option<ShrubModel>, Option<ShrubModel>, Span)>, PState), PFail>
    decreases ts.len() - st.pos, 9nat,
{
    if at_kind(ts, st.pos, TokenModel::RParen) || at_end(ts, st.pos) {
        Ok((Seq::empty(), st))
    } else {
        let s0 = past_newlines(ts, st);
        if !(st.pos <= s0.pos <= ts.len()) {
            stuck()
        } else if at_kind(ts, s0.pos, TokenModel::RParen) {
            Ok((Seq::empty(), s0))
        } else {
            match expect_tok(ts, s0, TokenModel::Identifier(Seq::empty())) {
                Err(f) => Err(f),
                Ok(((nt, nsp), s1)) => {
                    let (name, s2) = intern_name(s1, ident_text(nt));
                    if !(st.pos < s2.pos <= ts.len()) {
                        stuck()
                    } else {
                        match p_annotation(ts, s2, TokenModel::Colon) {
                            Err(f) => Err(f),
                            Ok((ty, s3)) => if s2.pos <= s3.pos <= ts.len() {
                                match p_annotation(ts, s3, TokenModel::Eq) {
                                    Err(f) => Err(f),
                                    Ok((dv, s4)) => {
                                        let p = (name, ty, dv, nsp);
                                        if at_kind(ts, s4.pos, TokenModel::Comma) {
                                            if st.pos < s4.pos + 1 <= ts.len() {
                                                match p_params(ts, moved(s4)) {
                                                    Err(f) => Err(f),
                                                    Ok((ps, s5)) => Ok((seq![p] + ps, s5)),
                                                }
                                            } else {
                                                stuck()
                                            }
                                        } else if !at_kind(ts, s4.pos, TokenModel::RParen) {
                                            Ok((seq![p], s4))
                                        } else if st.pos < s4.pos <= ts.len() {
                                            match p_params(ts, s4) {
                                                Err(f) => Err(f),
                                                Ok((ps, s5)) => Ok((seq![p] + ps, s5)),
                                            }
                                        } else {
                                            stuck()
                                        }
                                    },
                                }
                            } else {
                                stuck()
                            },
                        }
                    }
                },
            }
        }
    }
}

/// After the token of the kind of `k`, an element; nothing when `k` does
/// not come (or no element follows it).
pub open spec fn p_annotation(ts: Seq<(TokenModel, Span)>, st: PState, k: TokenModel) -> Result<(Option<ShrubModel>, PState), PFail>
    decreases ts.len() - st.pos, 12nat,
{
    if at_kind(ts, st.pos, k) {
        if st.pos < ts.len() { p_element(ts, moved(st)) } else { stuck() }
    } else {
        Ok((None, st))
    }
}

/// The return type after a colon, unless a newline or `=` comes first;
/// `Block` where the colon is followed by nothing.
pub open spec fn p_return_type(ts: Seq<(TokenModel, Span)>, st: PState) -> Result<(Option<Box<ShrubModel>>, PState), PFail>
    decreases ts.len() - st.pos, 12nat,
{
    if !at_kind(ts, st.pos, TokenModel::Colon) {
        Ok((None, st))
    } else if !(st.pos < ts.len()) {
        stuck()
    } else {
        let s1 = moved(st);
        if at_kind(ts, s1.pos, TokenModel::Newline) || at_kind(ts, s1.pos, TokenModel::Eq) {
            Ok((None, s1))
        } else {
            match p_element(ts, s1) {
                Err(f) => Err(f),
                Ok((Some(e), s2)) => Ok((Some(Box::new(e)), s2)),
                Ok((None, s2)) => {
                    let (sym, s3) = intern_name(s2, "Block"@);
                    Ok((Some(Box::new(ShrubModel::Identifier(sym, Set::empty(), zero_span()))), s3))
                },
            }
        }
    }
}

/// The body of a definition: `= element`, or an optional colon, a newline
/// and an indented block.
pub open spec fn p_def_body(ts: Seq<(TokenModel, Span)>, st: PState) -> Result<(Seq<ShrubModel>, PState), PFail>
    decreases ts.len() - st.pos, 12nat,
{
    if at_kind(ts, st.pos, TokenModel::Eq) {
        if st.pos < ts.len() {
            match or_default(p_element(ts, moved(st)), none_shrub()) {
                Err(f) => Err(f),
                Ok((e, s1)) => Ok((seq![e], s1)),
            }
        } else {
            stuck()
        }
    } else if !at_kind(ts, st.pos, TokenModel::Newline) && !at_kind(ts, st.pos, TokenModel::Colon) {
        Err((span_at(ts, st.pos), "Expected ':' or '=' after def signature"@))
    } else {
        p_colon_block(ts, st)
    }
}

/// `!staged[...]` or `!staged:` and an indented block.
pub open spec fn p_staged(ts: Seq<(TokenModel, Span)>, st: PState) -> Result<(ShrubModel, PState), PFail>
    decreases ts.len() - st.pos, 10nat,
{
    match expect_tok(ts, st, TokenModel::Bang) {
        Err(f) => Err(f),
        Ok(((_, bsp), s1)) => match expect_tok(ts, s1, TokenModel::Staged) {
            Err(f) => Err(f),
            Ok((_, s2)) => if st.pos < s2.pos <= ts.len() {
                match p_body(ts, s2) {
                    Err(f) => Err(f),
                    Ok((body, s3)) => Ok((ShrubModel::StagedBlock { body, span: end_span(ts, bsp.start, s3) }, s3)),
                }
            } else {
                stuck()
            },
        },
    }
}

/// `!show selector: transform`, the transform an element or, after a
/// newline, an indented block.
pub open spec fn p_show(ts: Seq<(TokenModel, Span)>, st: PState) -> Result<(ShrubModel, PState), PFail>
    decreases ts.len() - st.pos, 10nat,
{
    match expect_tok(ts, st, TokenModel::Bang) {
        Err(f) => Err(f),
        Ok(((_, bsp), s1)) => match expect_tok(ts, s1, TokenModel::Show) {
            Err(f) => Err(f),
            Ok((_, s2)) => if st.pos < s2.pos <= ts.len() {
                match p_selector(ts, s2) {
                    Err(f) => Err(f),
                    Ok((sel, s3)) => match expect_tok(ts, s3, TokenModel::Colon) {
                        Err(f) => Err(f),
                        Ok((_, s4)) => if st.pos < s4.pos <= ts.len() {
                            match p_branch(ts, s4, false) {
                                Err(f) => Err(f),
                                Ok((tr, s5)) => Ok((ShrubModel::ShowRule {
                                    selector: Box::new(sel),
                                    transform: Box::new(tr),
                                    span: end_span(ts, bsp.start, s5),
                                }, s5)),
                            }
                        } else {
                            stuck()
                        },
                    },
                }
            } else {
                stuck()
            },
        },
    }
}

/// After a colon: a newline and an indented block (as a sequence at
/// nowhere), else an element (or an expression when `expr`), `none` where
/// none comes.
pub open spec fn p_branch(ts: Seq<(TokenModel, Span)>, st: PState, expr: bool) -> Result<(ShrubModel, PState), PFail>
    decreases ts.len() - st.pos, 14nat,
{
    if at_kind(ts, st.pos, TokenModel::Newline) {
        if st.pos < ts.len() {
            match p_indented(ts, moved(st)) {
                Err(f) => Err(f),
                Ok((body, s1)) => Ok((ShrubModel::Sequence(body, zero_span()), s1)),
            }
        } else {
            stuck()
        }
    } else if expr {
        or_default(p_expression(ts, st), none_shrub())
    } else {
        or_default(p_element(ts, st), none_shrub())
    }
}

/// `!set selector { key: value, ... }`.
pub open spec fn p_set(ts: Seq<(TokenModel, Span)>, st: PState) -> Result<(ShrubModel, PState), PFail>
    decreases ts.len() - st.pos, 10nat,
{
    match expect_tok(ts, st, TokenModel::Bang) {
        Err(f) => Err(f),
        Ok(((_, bsp), s1)) => match expect_tok(ts, s1, TokenModel::SetKw) {
            Err(f) => Err(f),
            Ok((_, s2)) => if st.pos < s2.pos <= ts.len() {
                match p_selector(ts, s2) {
                    Err(f) => Err(f),
                    Ok((sel, s3)) => match expect_tok(ts, s3, TokenModel::LBrace) {
                        Err(f) => Err(f),
                        Ok((_, s4)) => if st.pos < s4.pos <= ts.len() {
                            match p_properties(ts, s4) {
                                Err(f) => Err(f),
                                Ok((props, s5)) => match expect_tok(ts, s5, TokenModel::RBrace) {
                                    Err(f) => Err(f),
                                    Ok((_, s6)) => Ok((ShrubModel::SetRule {
                                        selector: Box::new(sel),
                                        properties: props,
                                        span: end_span(ts, bsp.start, s6),
                                    }, s6)),
                                },
                            }
                        } else {
                            stuck()
                        },
                    },
                }
            } else {
                stuck()
            },
        },
    }
}

/// Properties `key: value`, newlines skipped, optional commas, up to the
/// closing brace.
pub open spec fn p_properties(ts: Seq<(TokenModel, Span)>, st: PState) -> Result<(Seq<(Symbol, ShrubModel)>, PState), PFail>
    decreases ts.len() - st.pos, 12nat,
{
    if at_kind(ts, st.pos, TokenModel::RBrace) || at_end(ts, st.pos) {
        Ok((Seq::empty(), st))
    } else {
        let s0 = past_newlines(ts, st);
        if !(st.pos <= s0.pos <= ts.len()) {
            stuck()
        } else if at_kind(ts, s0.pos, TokenModel::RBrace) {
            Ok((Seq::empty(), s0))
        } else {
            match expect_tok(ts, s0, TokenModel::Identifier(Seq::empty())) {
                Err(f) => Err(f),
                Ok(((kt, _), s1)) => {
                    let (key, s2) = intern_name(s1, ident_text(kt));
                    match expect_tok(ts, s2, TokenModel::Colon) {
                        Err(f) => Err(f),
                        Ok((_, s3)) => if st.pos < s3.pos <= ts.len() {
                            match or_default(p_element(ts, s3), none_shrub()) {
                                Err(f) => Err(f),
                                Ok((v, s4)) => {
                                    let s5 = if at_kind(ts, s4.pos, TokenModel::Comma) { moved(s4) } else { s4 };
                                    if st.pos < s5.pos <= ts.len() {
                                        match p_properties(ts, s5) {
                                            Err(f) => Err(f),
                                            Ok((ps, s6)) => Ok((seq![(key, v)] + ps, s6)),
                                        }
                                    } else {
                                        stuck()
                                    }
                                },
                            }
                        } else {
                            stuck()
                        },
                    }
                },
            }
        }
    }
}

/// `!live(deps: [a, b])[...]`, or without dependencies, or with an
/// indented body.
pub open spec fn p_live(ts: Seq<(TokenModel, Span)>, st: PState) -> Result<(ShrubModel, PState), PFail>
    decreases ts.len() - st.pos, 10nat,
{
    match expect_tok(ts, st, TokenModel::Bang) {
        Err(f) => Err(f),
        Ok(((_, bsp), s1)) => match expect_tok(ts, s1, TokenModel::Live) {
            Err(f) => Err(f),
            Ok((_, s2)) => if st.pos < s2.pos <= ts.len() {
                match p_deps(ts, s2) {
                    Err(f) => Err(f),
                    Ok((deps, s3)) => if s2.pos <= s3.pos <= ts.len() {
                        match p_body(ts, s3) {
                            Err(f) => Err(f),
                            Ok((body, s4)) => Ok((ShrubModel::LiveBlock { deps, body, span: end_span(ts, bsp.start, s4) }, s4)),
                        }
                    } else {
                        stuck()
                    },
                }
            } else {
                stuck()
            },
        },
    }
}

/// The dependencies of a live block: after `(`, `deps: [names]` and `)`;
/// none when the parenthesis does not open with `deps`.
pub open spec fn p_deps(ts: Seq<(TokenModel, Span)>, st: PState) -> Result<(Option<Seq<Symbol>>, PState), PFail>
    decreases ts.len() - st.pos, 9nat,
{
    if !at_kind(ts, st.pos, TokenModel::LParen) || !(st.pos < ts.len()) {
        Ok((None, st))
    } else {
        let s1 = moved(st);
        if tok_at(ts, s1.pos) == Some(TokenModel::Identifier("deps"@)) {
            let s2 = moved(s1);
            match expect_tok(ts, s2, TokenModel::Colon) {
                Err(f) => Err(f),
                Ok((_, s3)) => match expect_tok(ts, s3, TokenModel::LBracket) {
                    Err(f) => Err(f),
                    Ok((_, s4)) => if st.pos < s4.pos <= ts.len() {
                        match p_dep_names(ts, s4) {
                            Err(f) => Err(f),
                            Ok((names, s5)) => match expect_tok(ts, s5, TokenModel::RBracket) {
                                Err(f) => Err(f),
                                Ok((_, s6)) => match expect_tok(ts, s6, TokenModel::RParen) {
                                    Err(f) => Err(f),
                                    Ok((_, s7)) => Ok((Some(names), s7)),
                                },
                            },
                        }
                    } else {
                        stuck()
                    },
                },
            }
        } else {
            Ok((None, s1))
        }
    }
}

/// Identifiers, interned, with optional commas, up to `]`.
pub open spec fn p_dep_names(ts: Seq<(TokenModel, Span)>, st: PState) -> Result<(Seq<Symbol>, PState), PFail>
    decreases ts.len() - st.pos, 8nat,
{
    if at_kind(ts, st.pos, TokenModel::RBracket) || at_end(ts, st.pos) {
        Ok((Seq::empty(), st))
    } else {
        match expect_tok(ts, st, TokenModel::Identifier(Seq::empty())) {
            Err(f) => Err(f),
            Ok(((t, _), s1)) => {
                let (sym, s2) = intern_name(s1, ident_text(t));
                let s3 = if at_kind(ts, s2.pos, TokenModel::Comma) { moved(s2) } else { s2 };
                if st.pos < s3.pos <= ts.len() {
                    match p_dep_names(ts, s3) {
                        Err(f) => Err(f),
                        Ok((ns, s4)) => Ok((seq![sym] + ns, s4)),
                    }
                } else {
                    stuck()
                }
            },
        }
    }
}

/// A selector: a name, then optionally `.where(predicate)`.
pub open spec fn p_selector(ts: Seq<(TokenModel, Span)>, st: PState) -> Result<(ShrubModel, PState), PFail>
    decreases ts.len() - st.pos, 9nat,
{
    match expect_tok(ts, st, TokenModel::Identifier(Seq::empty())) {
        Err(f) => Err(f),
        Ok(((t, bsp), s1)) => {
            let (base, s2) = intern_name(s1, ident_text(t));
            if st.pos < s2.pos <= ts.len() { p_selector_rest(ts, s2, base, bsp.start) } else { stuck() }
        },
    }
}

/// After a selector's name `base`, which began at `start`: `.where(pred)`,
/// a dot alone, or nothing.
pub open spec fn p_selector_rest(ts: Seq<(TokenModel, Span)>, st: PState, base: Symbol, start: usize) -> Result<(ShrubModel, PState), PFail>
    decreases ts.len() - st.pos, 9nat,
{
    if !at_kind(ts, st.pos, TokenModel::Dot) || !(st.pos < ts.len()) {
        Ok((ShrubModel::Selector { base, predicate: None, span: end_span(ts, start, st) }, st))
    } else {
        let s3 = moved(st);
        let is_where = at_kind(ts, s3.pos, TokenModel::Where) || tok_at(ts, s3.pos) == Some(TokenModel::Identifier("where"@));
        if !is_where || !(s3.pos < ts.len()) {
            Ok((ShrubModel::Selector { base, predicate: None, span: end_span(ts, start, s3) }, s3))
        } else {
            match expect_tok(ts, moved(s3), TokenModel::LParen) {
                Err(f) => Err(f),
                Ok((_, s4)) => if st.pos < s4.pos <= ts.len() {
                    match or_default(p_expression(ts, s4), true_shrub()) {
                        Err(f) => Err(f),
                        Ok((pred, s5)) => match expect_tok(ts, s5, TokenModel::RParen) {
                            Err(f) => Err(f),
                            Ok((_, s6)) => Ok((ShrubModel::Selector { base, predicate: Some(Box::new(pred)), span: end_span(ts, start, s6) }, s6)),
                        },
                    }
                } else {
                    stuck()
                },
            }
        }
    }
}

/// `quote[...]`, `quote:` and an indented block, or `quote element`.
pub open spec fn p_quote(ts: Seq<(TokenModel, Span)>, st: PState) -> Result<(ShrubModel, PState), PFail>
    decreases ts.len() - st.pos, 10nat,
{
    match expect_tok(ts, st, TokenModel::Quote) {
        Err(f) => Err(f),
        Ok(((_, qsp), s1)) => if st.pos < s1.pos <= ts.len() {
            match p_quote_body(ts, s1) {
                Err(f) => Err(f),
                Ok((b, s2)) => Ok((ShrubModel::Quote { body: Box::new(b), span: end_span(ts, qsp.start, s2) }, s2)),
            }
        } else {
            stuck()
        },
    }
}

/// The body of a quote: bracketed elements or an indented block after a
/// colon (each as a sequence at nowhere), else one element.
pub open spec fn p_quote_body(ts: Seq<(TokenModel, Span)>, st: PState) -> Result<(ShrubModel, PState), PFail>
    decreases ts.len() - st.pos, 12nat,
{
    if at_kind(ts, st.pos, TokenModel::LBracket) {
        match p_body(ts, st) {
            Err(f) => Err(f),
            Ok((items, s1)) => Ok((ShrubModel::Sequence(items, zero_span()), s1)),
        }
    } else if at_kind(ts, st.pos, TokenModel::Colon) {
        match expect_tok(ts, moved(st), TokenModel::Newline) {
            Err(f) => Err(f),
            Ok((_, s1)) => if st.pos < s1.pos <= ts.len() {
                match p_indented(ts, s1) {
                    Err(f) => Err(f),
                    Ok((items, s2)) => Ok((ShrubModel::Sequence(items, zero_span()), s2)),
                }
            } else {
                stuck()
            },
        }
    } else {
        or_default(p_element(ts, st), none_shrub())
    }
}

/// `splice(element)`.
pub open spec fn p_splice_keyword(ts: Seq<(TokenModel, Span)>, st: PState) -> Result<(ShrubModel, PState), PFail>
    decreases ts.len() - st.pos, 10nat,
{
    match expect_tok(ts, st, TokenModel::Splice) {
        Err(f) => Err(f),
        Ok(((_, ssp), s1)) => match expect_tok(ts, s1, TokenModel::LParen) {
            Err(f) => Err(f),
            Ok((_, s2)) => if st.pos < s2.pos <= ts.len() {
                match or_default(p_element(ts, s2), none_shrub()) {
                    Err(f) => Err(f),
                    Ok((e, s3)) => match expect_tok(ts, s3, TokenModel::RParen) {
                        Err(f) => Err(f),
                        Ok((_, s4)) => Ok((ShrubModel::Splice { expr: Box::new(e), span: end_span(ts, ssp.start, s4) }, s4)),
                    },
                }
            } else {
                stuck()
            },
        },
    }
}

/// `$name`.
pub open spec fn p_splice_dollar(ts: Seq<(TokenModel, Span)>, st: PState) -> Result<(ShrubModel, PState), PFail>
    decreases ts.len() - st.pos, 10nat,
{
    match expect_tok(ts, st, TokenModel::Dollar) {
        Err(f) => Err(f),
        Ok(((_, dsp), s1)) => match p_identifier(ts, s1) {
            Err(f) => Err(f),
            Ok((e, s2)) => Ok((ShrubModel::Splice { expr: Box::new(e), span: end_span(ts, dsp.start, s2) }, s2)),
        },
    }
}

/// `if condition: then` and optionally `else: otherwise`.
pub open spec fn p_if(ts: Seq<(TokenModel, Span)>, st: PState) -> Result<(ShrubModel, PState), PFail>
    decreases ts.len() - st.pos, 10nat,
{
    match expect_tok(ts, st, TokenModel::If) {
        Err(f) => Err(f),
        Ok(((_, isp), s1)) => if st.pos < s1.pos <= ts.len() {
            match or_default(p_expression(ts, s1), true_shrub()) {
                Err(f) => Err(f),
                Ok((cond, s2)) => match expect_tok(ts, s2, TokenModel::Colon) {
                    Err(f) => Err(f),
                    Ok((_, s3)) => if st.pos < s3.pos <= ts.len() {
                        match p_branch(ts, s3, true) {
                            Err(f) => Err(f),
                            Ok((th, s4)) => if st.pos < s4.pos <= ts.len() {
                                match p_else(ts, s4) {
                                    Err(f) => Err(f),
                                    Ok((el, s5)) => Ok((ShrubModel::If {
                                        condition: Box::new(cond),
                                        then_branch: Box::new(th),
                                        else_branch: el,
                                        span: end_span(ts, isp.start, s5),
                                    }, s5)),
                                }
                            } else {
                                stuck()
                            },
                        }
                    } else {
                        stuck()
                    },
                },
            }
        } else {
            stuck()
        },
    }
}

/// `else: otherwise`, if it comes.
pub open spec fn p_else(ts: Seq<(TokenModel, Span)>, st: PState) -> Result<(Option<Box<ShrubModel>>, PState), PFail>
    decreases ts.len() - st.pos, 10nat,
{
    if !at_kind(ts, st.pos, TokenModel::Else) || !(st.pos < ts.len()) {
        Ok((None, st))
    } else {
        match expect_tok(ts, moved(st), TokenModel::Colon) {
            Err(f) => Err(f),
            Ok((_, s1)) => if st.pos < s1.pos <= ts.len() {
                match p_branch(ts, s1, true) {
                    Err(f) => Err(f),
                    Ok((e, s2)) => Ok((Some(Box::new(e)), s2)),
                }
            } else {
                stuck()
            },
        }
    }
}

/// `for name in iterable: body`.
pub open spec fn p_for(ts: Seq<(TokenModel, Span)>, st: PState) -> Result<(ShrubModel, PState), PFail>
    decreases ts.len() - st.pos, 10nat,
{
    match expect_tok(ts, st, TokenModel::For) {
        Err(f) => Err(f),
        Ok(((_, fsp), s1)) => match expect_tok(ts, s1, TokenModel::Identifier(Seq::empty())) {
            Err(f) => Err(f),
            Ok(((t, _), s2)) => {
                let (pattern, s3) = intern_name(s2, ident_text(t));
                match expect_tok(ts, s3, TokenModel::In) {
                    Err(f) => Err(f),
                    Ok((_, s4)) => if st.pos < s4.pos <= ts.len() {
                        match or_default(p_element(ts, s4), none_shrub()) {
                            Err(f) => Err(f),
                            Ok((it, s5)) => match expect_tok(ts, s5, TokenModel::Colon) {
                                Err(f) => Err(f),
                                Ok((_, s6)) => if st.pos < s6.pos <= ts.len() {
                                    match p_branch(ts, s6, true) {
                                        Err(f) => Err(f),
                                        Ok((body, s7)) => Ok((ShrubModel::For {
                                            pattern,
                                            iterable: Box::new(it),
                                            body: Box::new(body),
                                            span: end_span(ts, fsp.start, s7),
                                        }, s7)),
                                    }
                                } else {
                                    stuck()
                                },
                            },
                        }
                    } else {
                        stuck()
                    },
                }
            },
        },
    }
}

/// The elements of the whole input, up to the end or to a token no
/// element starts with.
pub open spec fn p_top(ts: Seq<(TokenModel, Span)>, st: PState) -> Result<(Seq<ShrubModel>, PState), PFail>
    decreases ts.len() - st.pos, 12nat,
{
    if at_end(ts, st.pos) {
        Ok((Seq::empty(), st))
    } else {
        match p_element(ts, st) {
            Err(f) => Err(f),
            Ok((None, s1)) => Ok((Seq::empty(), s1)),
            Ok((Some(e), s1)) => if st.pos < s1.pos <= ts.len() {
                match p_top(ts, s1) {
                    Err(f) => Err(f),
                    Ok((es, s2)) => Ok((seq![e] + es, s2)),
                }
            } else {
                stuck()
            },
        }
    }
}

/// The shrubbery of the whole input: its single element, or the sequence
/// of its elements.
pub open spec fn p_parse(ts: Seq<(TokenModel, Span)>, st: PState) -> Result<(ShrubModel, PState), PFail> {
    let start = start_at(ts, st.pos, 0);
    match p_top(ts, st) {
        Err(f) => Err(f),
        Ok((es, s1)) => if es.len() == 1 {
            Ok((es[0], s1))
        } else {
            Ok((ShrubModel::Sequence(es, Span { start, end: start_at(ts, s1.pos, start) }), s1))
        },
    }
}


// ===== The parser =====

/// `r` is what `spec` describes, the parser ending in `fin`.
pub open spec fn shrub_outcome(r: Result<Shrubbery, MrlError>, fin: PState, spec: Result<(ShrubModel, PState), PFail>) -> bool {
    match spec {
        Ok((m, s)) => r matches Ok(x) && x@ == m && fin == s,
        Err(f) => r matches Err(e) && parse_failure(e, f),
    }
}

/// `r` is what `spec` describes, for an optional shrubbery.
pub open spec fn opt_outcome(r: Result<Option<Shrubbery>, MrlError>, fin: PState, spec: Result<(Option<ShrubModel>, PState), PFail>) -> bool {
    match spec {
        Ok((m, s)) => r matches Ok(x) && opt_model(&x) == m && fin == s,
        Err(f) => r matches Err(e) && parse_failure(e, f),
    }
}

/// `r` is what `spec` describes, for several shrubberies.
pub open spec fn items_outcome(r: Result<Vec<Shrubbery>, MrlError>, fin: PState, spec: Result<(Seq<ShrubModel>, PState), PFail>) -> bool {
    match spec {
        Ok((m, s)) => r matches Ok(x) && shrub_models(&x) == m && fin == s,
        Err(f) => r matches Err(e) && parse_failure(e, f),
    }
}

/// The kind number of a token.
fn token_kind(t: &Token) -> (r: u8)
    ensures
        r as int == kind_code(t@),
{
    match t {
        Token::Def => 0, Token::Staged => 1, Token::Show => 2, Token::SetKw => 3,
        Token::Live => 4, Token::Quote => 5, Token::Splice => 6, Token::If => 7,
        Token::Else => 8, Token::For => 9, Token::In => 10, Token::Where => 11,
        Token::True => 12, Token::False => 13, Token::NoneLit => 14,
        Token::Identifier(_) => 15, Token::IntLiteral(_) => 16, Token::FloatLiteral(_) => 17,
        Token::StringLiteral(_) => 18, Token::SymbolLiteral(_) => 19,
        Token::Plus => 20, Token::Minus => 21, Token::Star => 22, Token::Slash => 23,
        Token::Percent => 24, Token::EqEq => 25, Token::NotEq => 26, Token::Lt => 27,
        Token::Le => 28, Token::Gt => 29, Token::Ge => 30, Token::AndAnd => 31,
        Token::OrOr => 32, Token::Bang => 33, Token::PlusPlus => 34,
        Token::LParen => 35, Token::RParen => 36, Token::LBracket => 37,
        Token::RBracket => 38, Token::LBrace => 39, Token::RBrace => 40,
        Token::Comma => 41, Token::Colon => 42, Token::Eq => 43, Token::Dot => 44,
        Token::Dollar => 45, Token::Newline => 46, Token::Eof => 47,
    }
}

/// The text of a token in a parse error.
fn token_debug_text(t: &Token) -> (r: String)
    ensures
        r@ == token_debug(t@),
{
    let s: &str = match t {
        Token::Identifier(n) => {
            let mut out = to_owned_string("Identifier(\"");
            push_str(&mut out, n.as_str());
            push_str(&mut out, "\")");
            proof {
                reveal_strlit("Identifier(\"");
                reveal_strlit("\")");
            }
            return out;
        },
        Token::Def => "Def", Token::Staged => "Staged", Token::Show => "Show", Token::SetKw => "Set",
        Token::Live => "Live", Token::Quote => "Quote", Token::Splice => "Splice", Token::If => "If",
        Token::For => "For", Token::In => "In", Token::LParen => "LParen", Token::RParen => "RParen",
        Token::LBracket => "LBracket", Token::RBracket => "RBracket", Token::LBrace => "LBrace",
        Token::RBrace => "RBrace", Token::Colon => "Colon", Token::Newline => "Newline",
        Token::Bang => "Bang", Token::Dollar => "Dollar",
        _ => "token",
    };
    to_owned_string(s)
}

fn parser_error_at(span: Span, message: String) -> (r: MrlError)
    ensures
        parse_failure(r, (span, message@)),
{
    MrlError::ParserError { span, message }
}

/// The name of an operator token.
fn operator_text(t: &Token) -> (r: &'static str)
    ensures
        r@ == match operator_name(t@) { Some(n) => n, None => Seq::<char>::empty() },
{
    proof {
        reveal_strlit("+"); reveal_strlit("-"); reveal_strlit("*"); reveal_strlit("/");
        reveal_strlit("%"); reveal_strlit("=="); reveal_strlit("!="); reveal_strlit("<");
        reveal_strlit("<="); reveal_strlit(">"); reveal_strlit(">="); reveal_strlit("&&");
        reveal_strlit("||"); reveal_strlit("!"); reveal_strlit("++"); reveal_strlit("=");
        reveal_strlit("");
    }
    match t {
        Token::Plus => "+", Token::Minus => "-", Token::Star => "*", Token::Slash => "/",
        Token::Percent => "%", Token::EqEq => "==", Token::NotEq => "!=", Token::Lt => "<",
        Token::Le => "<=", Token::Gt => ">", Token::Ge => ">=", Token::AndAnd => "&&",
        Token::OrOr => "||", Token::Bang => "!", Token::PlusPlus => "++", Token::Eq => "=",
        _ => "",
    }
}

proof fn lemma_past_newlines(ts: Seq<(TokenModel, Span)>, st: PState)
    requires
        0 <= st.pos <= ts.len(),
    ensures
        st.pos <= past_newlines(ts, st).pos <= ts.len(),
        past_newlines(ts, st).syms == st.syms,
        past_newlines(ts, st).next == st.next,
        past_newlines(ts, st).pos < ts.len() ==> !(ts[past_newlines(ts, st).pos].0 is Newline),
        0 <= st.pos < ts.len() && ts[st.pos].0 is Newline ==> past_newlines(ts, st).pos > st.pos,
    decreases ts.len() - st.pos,
{
    if 0 <= st.pos < ts.len() && ts[st.pos].0 is Newline {
        lemma_past_newlines(ts, moved(st));
    }
}

/// One when `Block` was interned, else zero.
pub open spec fn block_slack(syms: Map<Seq<char>, Symbol>) -> int {
    if syms.contains_key("Block"@) { 1 } else { 0 }
}

/// Parser for MRL source.
pub struct Parser<'a> {
    tokens: &'a [SpannedToken],
    pos: usize,
    symbols: SymbolTable,
    next_scope_id: u64,
    /// Indentation levels for indented blocks.
    indent_stack: Vec<usize>,
}

impl<'a> Parser<'a> {
    /// The tokens, as values with their spans.
    pub closed spec fn toks(&self) -> Seq<(TokenModel, Span)> {
        token_models(self.tokens@)
    }

    /// The position and the interned names.
    pub closed spec fn state(&self) -> PState {
        PState { pos: self.pos as int, syms: self.symbols.table(), next: self.symbols.next() as int }
    }

    /// The number the next fresh scope will get.
    pub closed spec fn scope_counter(&self) -> u64 {
        self.next_scope_id
    }

    /// The position is within the tokens, and the symbol counter stays at
    /// most the position (one more once `Block`, which may be interned
    /// without a token of its own, was interned), so it cannot overflow.
    pub closed spec fn wf(&self) -> bool {
        &&& self.symbols.well_formed()
        &&& self.pos <= self.tokens@.len()
        &&& self.tokens@.len() + 2 < u64::MAX
        &&& self.symbols.next() <= self.pos + block_slack(self.symbols.table())
    }

    /// A parser at the start of `tokens`, with no names interned.
    pub fn new(tokens: &'a [SpannedToken]) -> (r: Self)
        requires
            tokens@.len() + 2 < u64::MAX,
        ensures
            r.wf(),
            r.toks() == token_models(tokens@),
            r.state() == (PState { pos: 0, syms: Map::empty(), next: 0 }),
            r.scope_counter() == 0,
    {
        Parser { tokens, pos: 0, symbols: SymbolTable::new(), next_scope_id: 0, indent_stack: vec![0] }
    }

    /// A fresh scope: the next number.
    pub fn fresh_scope(&mut self) -> (r: Scope)
        requires
            old(self).scope_counter() < u64::MAX,
        ensures
            r.0 == old(self).scope_counter(),
            final(self).scope_counter() == old(self).scope_counter() + 1,
            final(self).state() == old(self).state(),
            final(self).toks() == old(self).toks(),
            old(self).wf() ==> final(self).wf(),
    {
        let scope = Scope::new(self.next_scope_id);
        self.next_scope_id = self.next_scope_id + 1;
        scope
    }

    fn check(&self, expected: &Token) -> (r: bool)
        ensures
            r == at_kind(self.toks(), self.pos as int, expected@),
    {
        if self.pos < self.tokens.len() {
            token_kind(&self.tokens[self.pos].token) == token_kind(expected)
        } else {
            false
        }
    }

    fn is_eof(&self) -> (r: bool)
        ensures
            r == at_end(self.toks(), self.pos as int),
    {
        if self.pos < self.tokens.len() {
            match self.tokens[self.pos].token {
                Token::Eof => true,
                _ => false,
            }
        } else {
            true
        }
    }

    fn advance(&mut self)
        requires
            old(self).wf(),
            old(self).pos < old(self).tokens@.len(),
        ensures
            final(self).wf(),
            final(self).state() == moved(old(self).state()),
            final(self).toks() == old(self).toks(),
            final(self).scope_counter() == old(self).scope_counter(),
    {
        let _n = self.tokens.len();
        self.pos = self.pos + 1;
    }

    /// The start of the token under the cursor, or `dflt`.
    fn next_start(&self, dflt: usize) -> (r: usize)
        ensures
            r == start_at(self.toks(), self.pos as int, dflt),
    {
        if self.pos < self.tokens.len() {
            self.tokens[self.pos].span.start
        } else {
            dflt
        }
    }

    /// The span of the token under the cursor, or nowhere.
    fn current_span(&self) -> (r: Span)
        ensures
            r == span_at(self.toks(), self.pos as int),
    {
        if self.pos < self.tokens.len() {
            self.tokens[self.pos].span
        } else {
            Span::new(0, 0)
        }
    }

    /// A token of the kind of `expected`: its index, the cursor moved past it.
    fn expect(&mut self, expected: &Token) -> (r: Result<usize, MrlError>)
        requires
            old(self).wf(),
        ensures
            final(self).wf(),
            final(self).toks() == old(self).toks(),
            final(self).scope_counter() == old(self).scope_counter(),
            match expect_tok(old(self).toks(), old(self).state(), expected@) {
                Ok((t, s)) => r == Ok::<usize, MrlError>(old(self).pos) && final(self).state() == s
                    && t == old(self).toks()[old(self).pos as int] && old(self).pos < old(self).tokens@.len(),
                Err(f) => r matches Err(e) && parse_failure(e, f) && final(self).state() == old(self).state(),
            },
    {
        if self.check(expected) {
            let i = self.pos;
            self.advance();
            Ok(i)
        } else {
            let span = self.current_span();
            let mut message = to_owned_string("Expected ");
            let d = token_debug_text(expected);
            push_str(&mut message, d.as_str());
            proof {
                reveal_strlit("Expected ");
            }
            Err(parser_error_at(span, message))
        }
    }

    /// Intern `name`.
    fn intern_here(&mut self, name: &str) -> (r: Symbol)
        requires
            old(self).wf(),
            old(self).symbols.next() < old(self).pos + block_slack(old(self).symbols.table())
                || old(self).symbols.table().contains_key(name@) || name@ == "Block"@,
        ensures
            final(self).wf(),
            final(self).toks() == old(self).toks(),
            final(self).scope_counter() == old(self).scope_counter(),
            (r, final(self).state()) == intern_name(old(self).state(), name@),
    {
        self.symbols.intern(name)
    }

    /// Skip newlines.
    fn skip_newlines(&mut self)
        requires
            old(self).wf(),
        ensures
            final(self).wf(),
            final(self).toks() == old(self).toks(),
            final(self).scope_counter() == old(self).scope_counter(),
            final(self).state() == past_newlines(old(self).toks(), old(self).state()),
    {
        let ghost ts = self.toks();
        let ghost st0 = self.state();
        while self.check(&Token::Newline)
            invariant
                self.wf(),
                self.toks() == ts,
                self.scope_counter() == old(self).scope_counter(),
                past_newlines(ts, self.state()) == past_newlines(ts, st0),
            decreases self.tokens@.len() - self.pos,
        {
            proof {
                assert(self.pos < ts.len());
                assert(ts[self.pos as int].0 is Newline) by {
                    assert(kind_code(ts[self.pos as int].0) == 46);
                }
            }
            self.advance();
        }
        proof {
            assert(!(0 <= self.pos < ts.len() && ts[self.pos as int].0 is Newline));
        }
    }
}


impl<'a> Parser<'a> {
    /// An identifier, interned.
    fn parse_identifier(&mut self) -> (r: Result<Shrubbery, MrlError>)
        requires
            old(self).wf(),
        ensures
            final(self).wf(),
            final(self).toks() == old(self).toks(),
            final(self).scope_counter() == old(self).scope_counter(),
            shrub_outcome(r, final(self).state(), p_identifier(old(self).toks(), old(self).state())),
            r is Ok ==> old(self).pos < final(self).pos,
    {
        let toks = self.tokens;
        let i = match self.expect(&Token::Identifier(String::new())) {
            Ok(i) => i,
            Err(e) => return Err(e),
        };
        let span = toks[i].span;
        let sym = match &toks[i].token {
            Token::Identifier(name) => self.intern_here(name.as_str()),
            _ => self.intern_here(""),
        };
        proof {
            reveal_strlit("");
        }
        let r = Shrubbery::Identifier(sym, ScopeSet::new(), span);
        Ok(r)
    }

    /// The literal under the cursor.
    fn parse_literal(&mut self) -> (r: Result<Shrubbery, MrlError>)
        requires
            old(self).wf(),
            old(self).pos < old(self).tokens@.len(),
        ensures
            final(self).wf(),
            final(self).toks() == old(self).toks(),
            final(self).scope_counter() == old(self).scope_counter(),
            shrub_outcome(r, final(self).state(), p_literal(old(self).toks(), old(self).state())),
            r is Ok ==> old(self).pos < final(self).pos,
    {
        let toks = self.tokens;
        let i = self.pos;
        let span = toks[i].span;
        self.advance();
        let lit = match &toks[i].token {
            Token::IntLiteral(Some(v)) => Literal::Int(*v),
            Token::IntLiteral(None) => {
                proof {
                    reveal_strlit("Invalid integer literal");
                }
                return Err(parser_error_at(span, to_owned_string("Invalid integer literal")));
            },
            Token::FloatLiteral(x) => Literal::Float(x.clone()),
            Token::StringLiteral(x) => Literal::String(x.clone()),
            Token::SymbolLiteral(x) => Literal::Symbol(x.clone()),
            Token::True => Literal::Bool(true),
            Token::False => Literal::Bool(false),
            _ => Literal::NoneLit,
        };
        Ok(Shrubbery::Literal(lit, span))
    }

    /// The operator under the cursor, its name interned.
    fn parse_operator(&mut self) -> (r: Result<Shrubbery, MrlError>)
        requires
            old(self).wf(),
            old(self).pos < old(self).tokens@.len(),
        ensures
            final(self).wf(),
            final(self).toks() == old(self).toks(),
            final(self).scope_counter() == old(self).scope_counter(),
            shrub_outcome(r, final(self).state(), p_operator(old(self).toks(), old(self).state())),
            r is Ok ==> old(self).pos < final(self).pos,
    {
        let toks = self.tokens;
        let i = self.pos;
        let span = toks[i].span;
        self.advance();
        let name = operator_text(&toks[i].token);
        let sym = self.intern_here(name);
        Ok(Shrubbery::Operator(sym, span))
    }
}


proof fn lemma_no_box()
    ensures
        crate::mrl::shrubbery::opt_box_model(&None::<Box<Shrubbery>>) == None::<Box<ShrubModel>>,
{
    reveal_with_fuel(crate::mrl::shrubbery::opt_box_model, 1);
}

proof fn lemma_some_box(x: Shrubbery)
    ensures
        crate::mrl::shrubbery::opt_box_model(&Some(Box::new(x))) == Some(Box::new(x@)),
{
    reveal_with_fuel(crate::mrl::shrubbery::opt_box_model, 1);
}

fn cons_shrub(e: Shrubbery, rest: Vec<Shrubbery>) -> (r: Vec<Shrubbery>)
    ensures
        shrub_models(&r) == seq![e@] + shrub_models(&rest),
{
    let ghost m = e@;
    let ghost ms = shrub_models(&rest);
    let mut v: Vec<Shrubbery> = Vec::new();
    v.push(e);
    let mut rest = rest;
    v.append(&mut rest);
    assert(shrub_models(&v) =~= seq![m] + ms);
    v
}

fn empty_shrubs() -> (r: Vec<Shrubbery>)
    ensures
        shrub_models(&r) == Seq::<ShrubModel>::empty(),
{
    let v: Vec<Shrubbery> = Vec::new();
    assert(shrub_models(&v) =~= Seq::<ShrubModel>::empty());
    v
}

fn none_literal() -> (r: Shrubbery)
    ensures
        r@ == none_shrub(),
{
    Shrubbery::Literal(Literal::NoneLit, Span::new(0, 0))
}

fn true_literal() -> (r: Shrubbery)
    ensures
        r@ == true_shrub(),
{
    Shrubbery::Literal(Literal::Bool(true), Span::new(0, 0))
}

/// The token that opens a group.
fn open_token(which: u8) -> (r: Token)
    ensures
        r@ == group_open(which as int),
{
    if which == 0 { Token::LParen } else if which == 1 { Token::LBracket } else { Token::LBrace }
}

/// The token that closes a group.
fn close_token(which: u8) -> (r: Token)
    ensures
        r@ == group_close(which as int),
{
    if which == 0 { Token::RParen } else if which == 1 { Token::RBracket } else { Token::RBrace }
}

impl<'a> Parser<'a> {
    /// A group: its open token, elements separated by optional commas, and
    /// its close token.
    fn parse_group(&mut self, which: u8) -> (r: Result<Shrubbery, MrlError>)
        requires
            old(self).wf(),
        ensures
            final(self).wf(),
            final(self).toks() == old(self).toks(),
            final(self).scope_counter() == old(self).scope_counter(),
            shrub_outcome(r, final(self).state(), p_group(old(self).toks(), old(self).state(), which as int)),
            r is Ok ==> old(self).pos < final(self).pos,
        decreases old(self).tokens@.len() - old(self).pos, 10nat,
    {
        let toks = self.tokens;
        let open = open_token(which);
        let close = close_token(which);
        let i = match self.expect(&open) { Ok(i) => i, Err(e) => return Err(e) };
        let ospan = toks[i].span;
        let items = match self.parse_items(&close, true) { Ok(v) => v, Err(e) => return Err(e) };
        let j = match self.expect(&close) { Ok(j) => j, Err(e) => return Err(e) };
        let cspan = toks[j].span;
        let span = Span::new(ospan.start, cspan.end);
        if which == 0 {
            Ok(Shrubbery::Parens(items, span))
        } else if which == 1 {
            Ok(Shrubbery::Brackets(items, span))
        } else {
            Ok(Shrubbery::Braces(items, span))
        }
    }

    /// Elements up to `close` or the end, skipping one comma after each
    /// when `commas`.
    fn parse_items(&mut self, close: &Token, commas: bool) -> (r: Result<Vec<Shrubbery>, MrlError>)
        requires
            old(self).wf(),
        ensures
            final(self).wf(),
            final(self).toks() == old(self).toks(),
            final(self).scope_counter() == old(self).scope_counter(),
            items_outcome(r, final(self).state(), p_items(old(self).toks(), old(self).state(), close@, commas)),
            r is Ok ==> old(self).pos <= final(self).pos,
        decreases old(self).tokens@.len() - old(self).pos, 12nat,
    {
        if self.check(close) || self.is_eof() {
            return Ok(empty_shrubs());
        }
        let eo = match self.parse_element() { Ok(x) => x, Err(e) => return Err(e) };
        if commas && self.check(&Token::Comma) {
            self.advance();
        }
        let rest = match self.parse_items(close, commas) { Ok(v) => v, Err(e) => return Err(e) };
        match eo {
            Some(e) => Ok(cons_shrub(e, rest)),
            None => Ok(rest),
        }
    }

    /// The parenthesized arguments of a call at the cursor, if any.
    fn parse_call_args(&mut self) -> (r: Result<Vec<Shrubbery>, MrlError>)
        requires
            old(self).wf(),
        ensures
            final(self).wf(),
            final(self).toks() == old(self).toks(),
            final(self).scope_counter() == old(self).scope_counter(),
            items_outcome(r, final(self).state(), p_call_args(old(self).toks(), old(self).state())),
            r is Ok ==> old(self).pos <= final(self).pos,
        decreases old(self).tokens@.len() - old(self).pos, 11nat,
    {
        if self.check(&Token::LParen) {
            match self.parse_group(0) {
                Ok(g) => Ok(cons_shrub(g, empty_shrubs())),
                Err(e) => Err(e),
            }
        } else {
            Ok(empty_shrubs())
        }
    }

    /// An expression: an element, a call's arguments, and operators each
    /// followed by an operand.
    fn parse_expression(&mut self) -> (r: Result<Option<Shrubbery>, MrlError>)
        requires
            old(self).wf(),
        ensures
            final(self).wf(),
            final(self).toks() == old(self).toks(),
            final(self).scope_counter() == old(self).scope_counter(),
            opt_outcome(r, final(self).state(), p_expression(old(self).toks(), old(self).state())),
            r is Ok ==> old(self).pos <= final(self).pos,
            r is Ok && !at_end(old(self).toks(), old(self).pos as int) ==> old(self).pos < final(self).pos,
        decreases old(self).tokens@.len() - old(self).pos, 12nat,
    {
        let first = match self.parse_element() {
            Ok(Some(x)) => x,
            Ok(None) => return Ok(None),
            Err(e) => return Err(e),
        };
        let start = first.span().start;
        let args = match self.parse_call_args() { Ok(v) => v, Err(e) => return Err(e) };
        let rest = match self.parse_expr_ops() { Ok(v) => v, Err(e) => return Err(e) };
        if args.len() == 0 && rest.len() == 0 {
            return Ok(Some(first));
        }
        let ghost fm = first@;
        let mut all = cons_shrub(first, args);
        let ghost am = shrub_models(&all);
        let mut rest = rest;
        let ghost rm = shrub_models(&rest);
        all.append(&mut rest);
        assert(shrub_models(&all) =~= am + rm);
        let last = all.len() - 1;
        let end = all[last].span().end;
        assert(shrub_models(&all)[last as int] == all@[last as int]@);
        Ok(Some(Shrubbery::Sequence(all, Span::new(start, end))))
    }

    /// Operators with their operands while an operator comes next.
    fn parse_expr_ops(&mut self) -> (r: Result<Vec<Shrubbery>, MrlError>)
        requires
            old(self).wf(),
        ensures
            final(self).wf(),
            final(self).toks() == old(self).toks(),
            final(self).scope_counter() == old(self).scope_counter(),
            items_outcome(r, final(self).state(), p_expr_ops(old(self).toks(), old(self).state())),
            r is Ok ==> old(self).pos <= final(self).pos,
        decreases old(self).tokens@.len() - old(self).pos, 12nat,
    {
        if !self.continues() {
            return Ok(empty_shrubs());
        }
        let op = match self.parse_operator() { Ok(x) => x, Err(e) => return Err(e) };
        self.parse_operand(op)
    }

    /// After the operator `op`: its operand, call arguments, and the
    /// operators after it.
    #[verifier::rlimit(100)]
    fn parse_operand(&mut self, op: Shrubbery) -> (r: Result<Vec<Shrubbery>, MrlError>)
        requires
            old(self).wf(),
        ensures
            final(self).wf(),
            final(self).toks() == old(self).toks(),
            final(self).scope_counter() == old(self).scope_counter(),
            items_outcome(r, final(self).state(), p_operand(old(self).toks(), old(self).state(), op@)),
            r is Ok ==> old(self).pos <= final(self).pos,
        decreases old(self).tokens@.len() - old(self).pos, 12nat,
    {
        let operand = match self.parse_element() {
            Ok(Some(x)) => x,
            Ok(None) => return Ok(cons_shrub(op, empty_shrubs())),
            Err(e) => return Err(e),
        };
        let args = match self.parse_call_args() { Ok(v) => v, Err(e) => return Err(e) };
        let rest = match self.parse_expr_ops() { Ok(v) => v, Err(e) => return Err(e) };
        let ghost om = op@;
        let ghost pm = operand@;
        let ghost am = shrub_models(&args);
        let ghost rm = shrub_models(&rest);
        let mut tail = args;
        let mut rest = rest;
        tail.append(&mut rest);
        assert(shrub_models(&tail) =~= am + rm);
        let v = cons_shrub(op, cons_shrub(operand, tail));
        assert(seq![om] + (seq![pm] + (am + rm)) =~= seq![om, pm] + am + rm);
        Ok(v)
    }

    /// Whether an operator that continues an expression is under the cursor.
    fn continues(&self) -> (r: bool)
        ensures
            r == continues_expression(tok_at(self.toks(), self.pos as int)),
    {
        if self.pos < self.tokens.len() {
            match self.tokens[self.pos].token {
                Token::Plus | Token::Minus | Token::Star | Token::Slash | Token::Percent | Token::EqEq
                | Token::NotEq | Token::Lt | Token::Le | Token::Gt | Token::Ge | Token::AndAnd
                | Token::OrOr | Token::PlusPlus | Token::Eq => true,
                _ => false,
            }
        } else {
            false
        }
    }

    /// The expressions of an indented block, up to a `!`, the end, or a
    /// place where no expression starts.
    fn parse_indented_block(&mut self) -> (r: Result<Vec<Shrubbery>, MrlError>)
        requires
            old(self).wf(),
        ensures
            final(self).wf(),
            final(self).toks() == old(self).toks(),
            final(self).scope_counter() == old(self).scope_counter(),
            items_outcome(r, final(self).state(), p_indented(old(self).toks(), old(self).state())),
            r is Ok ==> old(self).pos <= final(self).pos,
        decreases old(self).tokens@.len() - old(self).pos, 13nat,
    {
        if self.is_eof() || self.check(&Token::Bang) {
            return Ok(empty_shrubs());
        }
        match self.parse_expression() {
            Err(e) => Err(e),
            Ok(None) => Ok(empty_shrubs()),
            Ok(Some(e)) => match self.parse_indented_block() {
                Err(err) => Err(err),
                Ok(rest) => Ok(cons_shrub(e, rest)),
            },
        }
    }

    /// A block body: bracketed elements, or an optional colon, a newline
    /// and an indented block.
    fn parse_body(&mut self) -> (r: Result<Vec<Shrubbery>, MrlError>)
        requires
            old(self).wf(),
        ensures
            final(self).wf(),
            final(self).toks() == old(self).toks(),
            final(self).scope_counter() == old(self).scope_counter(),
            items_outcome(r, final(self).state(), p_body(old(self).toks(), old(self).state())),
            r is Ok ==> old(self).pos <= final(self).pos,
        decreases old(self).tokens@.len() - old(self).pos, 11nat,
    {
        if self.check(&Token::LBracket) {
            self.advance();
            let items = match self.parse_items(&Token::RBracket, false) { Ok(v) => v, Err(e) => return Err(e) };
            match self.expect(&Token::RBracket) {
                Ok(_) => Ok(items),
                Err(e) => Err(e),
            }
        } else {
            self.parse_colon_block()
        }
    }

    /// An optional colon, a newline, and an indented block.
    fn parse_colon_block(&mut self) -> (r: Result<Vec<Shrubbery>, MrlError>)
        requires
            old(self).wf(),
        ensures
            final(self).wf(),
            final(self).toks() == old(self).toks(),
            final(self).scope_counter() == old(self).scope_counter(),
            items_outcome(r, final(self).state(), p_colon_block(old(self).toks(), old(self).state())),
            r is Ok ==> old(self).pos <= final(self).pos,
        decreases old(self).tokens@.len() - old(self).pos, 10nat,
    {
        if self.check(&Token::Colon) {
            self.advance();
        }
        match self.expect(&Token::Newline) {
            Ok(_) => self.parse_indented_block(),
            Err(e) => Err(e),
        }
    }
}


impl<'a> Parser<'a> {
    /// After a token of the kind of `k`, an element; nothing when `k` does
    /// not come.
    fn parse_annotation(&mut self, k: &Token) -> (r: Result<Option<Shrubbery>, MrlError>)
        requires
            old(self).wf(),
        ensures
            final(self).wf(),
            final(self).toks() == old(self).toks(),
            final(self).scope_counter() == old(self).scope_counter(),
            opt_outcome(r, final(self).state(), p_annotation(old(self).toks(), old(self).state(), k@)),
            r is Ok ==> old(self).pos <= final(self).pos,
        decreases old(self).tokens@.len() - old(self).pos, 12nat,
    {
        if self.check(k) {
            self.advance();
            self.parse_element()
        } else {
            Ok(None)
        }
    }

    /// Parameters `name: Type = default`, separated by commas, newlines
    /// skipped, up to the closing parenthesis.
    fn parse_params(&mut self) -> (r: Result<Vec<Param>, MrlError>)
        requires
            old(self).wf(),
        ensures
            final(self).wf(),
            final(self).toks() == old(self).toks(),
            final(self).scope_counter() == old(self).scope_counter(),
            match p_params(old(self).toks(), old(self).state()) {
                Ok((ps, s)) => r matches Ok(v) && param_seq_model(&v) == ps && final(self).state() == s,
                Err(f) => r matches Err(e) && parse_failure(e, f),
            },
            r is Ok ==> old(self).pos <= final(self).pos,
        decreases old(self).tokens@.len() - old(self).pos, 9nat,
    {
        let ghost ts = self.toks();
        if self.check(&Token::RParen) || self.is_eof() {
            let v: Vec<Param> = Vec::new();
            assert(param_seq_model(&v) =~= Seq::<(Symbol, Option<ShrubModel>, Option<ShrubModel>, Span)>::empty());
            return Ok(v);
        }
        let ghost st = self.state();
        self.skip_newlines();
        proof {
            lemma_past_newlines(ts, st);
        }
        if self.check(&Token::RParen) {
            let v: Vec<Param> = Vec::new();
            assert(param_seq_model(&v) =~= Seq::<(Symbol, Option<ShrubModel>, Option<ShrubModel>, Span)>::empty());
            return Ok(v);
        }
        let toks = self.tokens;
        let i = match self.expect(&Token::Identifier(String::new())) { Ok(i) => i, Err(e) => return Err(e) };
        let nspan = toks[i].span;
        let name = match &toks[i].token {
            Token::Identifier(n) => self.intern_here(n.as_str()),
            _ => self.intern_here(""),
        };
        proof {
            reveal_strlit("");
        }
        let ty = match self.parse_annotation(&Token::Colon) { Ok(x) => x, Err(e) => return Err(e) };
        let dv = match self.parse_annotation(&Token::Eq) { Ok(x) => x, Err(e) => return Err(e) };
        let p = Param { name, type_annotation: ty, default: dv, span: nspan };
        let rest: Vec<Param> = if self.check(&Token::Comma) {
            self.advance();
            match self.parse_params() { Ok(v) => v, Err(e) => return Err(e) }
        } else if !self.check(&Token::RParen) {
            Vec::new()
        } else {
            match self.parse_params() { Ok(v) => v, Err(e) => return Err(e) }
        };
        let ghost pm = crate::mrl::shrubbery::param_model(&p);
        let ghost rm = param_seq_model(&rest);
        let mut out: Vec<Param> = Vec::new();
        out.push(p);
        let mut rest = rest;
        out.append(&mut rest);
        assert(param_seq_model(&out) =~= seq![pm] + rm);
        Ok(out)
    }

    /// Parameters in parentheses, if they come.
    fn parse_opt_params(&mut self) -> (r: Result<Vec<Param>, MrlError>)
        requires
            old(self).wf(),
        ensures
            final(self).wf(),
            final(self).toks() == old(self).toks(),
            final(self).scope_counter() == old(self).scope_counter(),
            match p_opt_params(old(self).toks(), old(self).state()) {
                Ok((ps, s)) => r matches Ok(v) && param_seq_model(&v) == ps && final(self).state() == s,
                Err(f) => r matches Err(e) && parse_failure(e, f),
            },
            r is Ok ==> old(self).pos <= final(self).pos,
        decreases old(self).tokens@.len() - old(self).pos, 10nat,
    {
        if self.check(&Token::LParen) {
            self.advance();
            let ps = match self.parse_params() { Ok(v) => v, Err(e) => return Err(e) };
            match self.expect(&Token::RParen) {
                Ok(_) => Ok(ps),
                Err(e) => Err(e),
            }
        } else {
            let v: Vec<Param> = Vec::new();
            assert(param_seq_model(&v) =~= Seq::<(Symbol, Option<ShrubModel>, Option<ShrubModel>, Span)>::empty());
            Ok(v)
        }
    }

    /// The return type of a definition after a colon; `Block` when the
    /// colon is followed by nothing.
    fn parse_return_type(&mut self) -> (r: Result<Option<Box<Shrubbery>>, MrlError>)
        requires
            old(self).wf(),
        ensures
            final(self).wf(),
            final(self).toks() == old(self).toks(),
            final(self).scope_counter() == old(self).scope_counter(),
            match p_return_type(old(self).toks(), old(self).state()) {
                Ok((m, s)) => r matches Ok(x) && crate::mrl::shrubbery::opt_box_model(&x) == m && final(self).state() == s,
                Err(f) => r matches Err(e) && parse_failure(e, f),
            },
            r is Ok ==> old(self).pos <= final(self).pos,
        decreases old(self).tokens@.len() - old(self).pos, 12nat,
    {
        if !self.check(&Token::Colon) {
            return Ok(None);
        }
        self.advance();
        if self.check(&Token::Newline) || self.check(&Token::Eq) {
            return Ok(None);
        }
        match self.parse_element() {
            Err(e) => Err(e),
            Ok(Some(e)) => Ok(Some(Box::new(e))),
            Ok(None) => {
                proof {
                    reveal_strlit("Block");
                }
                let sym = self.intern_here("Block");
                Ok(Some(Box::new(Shrubbery::Identifier(sym, ScopeSet::new(), Span::new(0, 0)))))
            },
        }
    }

    /// The body of a definition: `= element`, or an optional colon, a
    /// newline and an indented block.
    fn parse_def_body(&mut self) -> (r: Result<Vec<Shrubbery>, MrlError>)
        requires
            old(self).wf(),
        ensures
            final(self).wf(),
            final(self).toks() == old(self).toks(),
            final(self).scope_counter() == old(self).scope_counter(),
            items_outcome(r, final(self).state(), p_def_body(old(self).toks(), old(self).state())),
            r is Ok ==> old(self).pos <= final(self).pos,
        decreases old(self).tokens@.len() - old(self).pos, 12nat,
    {
        if self.check(&Token::Eq) {
            self.advance();
            let e = match self.parse_element() {
                Ok(Some(x)) => x,
                Ok(None) => none_literal(),
                Err(e) => return Err(e),
            };
            return Ok(cons_shrub(e, empty_shrubs()));
        }
        if !self.check(&Token::Newline) && !self.check(&Token::Colon) {
            let span = self.current_span();
            proof {
                reveal_strlit("Expected ':' or '=' after def signature");
            }
            return Err(parser_error_at(span, to_owned_string("Expected ':' or '=' after def signature")));
        }
        self.parse_colon_block()
    }

    /// `!def name(params): body`.
    #[verifier::spinoff_prover]
    #[verifier::rlimit(50)]
    fn parse_def(&mut self) -> (r: Result<Shrubbery, MrlError>)
        requires
            old(self).wf(),
        ensures
            final(self).wf(),
            final(self).toks() == old(self).toks(),
            final(self).scope_counter() == old(self).scope_counter(),
            shrub_outcome(r, final(self).state(), p_def(old(self).toks(), old(self).state())),
            r is Ok ==> old(self).pos < final(self).pos,
        decreases old(self).tokens@.len() - old(self).pos, 10nat,
    {
        let toks = self.tokens;
        let b = match self.expect(&Token::Bang) { Ok(i) => i, Err(e) => return Err(e) };
        let start = toks[b].span.start;
        match self.expect(&Token::Def) { Ok(_) => {}, Err(e) => return Err(e) }
        let i = match self.expect(&Token::Identifier(String::new())) { Ok(i) => i, Err(e) => return Err(e) };
        let name = match &toks[i].token {
            Token::Identifier(n) => self.intern_here(n.as_str()),
            _ => self.intern_here(""),
        };
        proof {
            reveal_strlit("");
        }
        let params = match self.parse_opt_params() { Ok(v) => v, Err(e) => return Err(e) };
        let return_type = match self.parse_return_type() { Ok(v) => v, Err(e) => return Err(e) };
        let body = match self.parse_def_body() { Ok(v) => v, Err(e) => return Err(e) };
        let end = self.next_start(start);
        Ok(Shrubbery::DefBlock { name, params, return_type, body, span: Span::new(start, end) })
    }

    /// `!staged[...]` or `!staged:` and an indented block.
    fn parse_staged(&mut self) -> (r: Result<Shrubbery, MrlError>)
        requires
            old(self).wf(),
        ensures
            final(self).wf(),
            final(self).toks() == old(self).toks(),
            final(self).scope_counter() == old(self).scope_counter(),
            shrub_outcome(r, final(self).state(), p_staged(old(self).toks(), old(self).state())),
            r is Ok ==> old(self).pos < final(self).pos,
        decreases old(self).tokens@.len() - old(self).pos, 10nat,
    {
        let toks = self.tokens;
        let b = match self.expect(&Token::Bang) { Ok(i) => i, Err(e) => return Err(e) };
        let start = toks[b].span.start;
        match self.expect(&Token::Staged) { Ok(_) => {}, Err(e) => return Err(e) }
        let body = match self.parse_body() { Ok(v) => v, Err(e) => return Err(e) };
        let end = self.next_start(start);
        Ok(Shrubbery::StagedBlock { body, span: Span::new(start, end) })
    }

    /// After a colon: a newline and an indented block, else an element
    /// (an expression when `expr`), `none` where none comes.
    fn parse_branch(&mut self, expr: bool) -> (r: Result<Shrubbery, MrlError>)
        requires
            old(self).wf(),
        ensures
            final(self).wf(),
            final(self).toks() == old(self).toks(),
            final(self).scope_counter() == old(self).scope_counter(),
            shrub_outcome(r, final(self).state(), p_branch(old(self).toks(), old(self).state(), expr)),
            r is Ok ==> old(self).pos <= final(self).pos,
        decreases old(self).tokens@.len() - old(self).pos, 14nat,
    {
        if self.check(&Token::Newline) {
            self.advance();
            match self.parse_indented_block() {
                Ok(body) => Ok(Shrubbery::Sequence(body, Span::new(0, 0))),
                Err(e) => Err(e),
            }
        } else {
            let r = if expr { self.parse_expression() } else { self.parse_element() };
            match r {
                Ok(Some(x)) => Ok(x),
                Ok(None) => Ok(none_literal()),
                Err(e) => Err(e),
            }
        }
    }

    /// `!show selector: transform`.
    fn parse_show(&mut self) -> (r: Result<Shrubbery, MrlError>)
        requires
            old(self).wf(),
        ensures
            final(self).wf(),
            final(self).toks() == old(self).toks(),
            final(self).scope_counter() == old(self).scope_counter(),
            shrub_outcome(r, final(self).state(), p_show(old(self).toks(), old(self).state())),
            r is Ok ==> old(self).pos < final(self).pos,
        decreases old(self).tokens@.len() - old(self).pos, 10nat,
    {
        let toks = self.tokens;
        let b = match self.expect(&Token::Bang) { Ok(i) => i, Err(e) => return Err(e) };
        let start = toks[b].span.start;
        match self.expect(&Token::Show) { Ok(_) => {}, Err(e) => return Err(e) }
        let selector = match self.parse_selector() { Ok(v) => v, Err(e) => return Err(e) };
        match self.expect(&Token::Colon) { Ok(_) => {}, Err(e) => return Err(e) }
        let transform = match self.parse_branch(false) { Ok(v) => v, Err(e) => return Err(e) };
        let end = self.next_start(start);
        Ok(Shrubbery::ShowRule { selector: Box::new(selector), transform: Box::new(transform), span: Span::new(start, end) })
    }

    /// Properties `key: value` up to the closing brace.
    fn parse_properties(&mut self) -> (r: Result<Vec<(Symbol, Shrubbery)>, MrlError>)
        requires
            old(self).wf(),
        ensures
            final(self).wf(),
            final(self).toks() == old(self).toks(),
            final(self).scope_counter() == old(self).scope_counter(),
            match p_properties(old(self).toks(), old(self).state()) {
                Ok((ps, s)) => r matches Ok(v) && crate::mrl::shrubbery::property_seq_model(&v) == ps && final(self).state() == s,
                Err(f) => r matches Err(e) && parse_failure(e, f),
            },
            r is Ok ==> old(self).pos <= final(self).pos,
        decreases old(self).tokens@.len() - old(self).pos, 12nat,
    {
        let ghost ts = self.toks();
        if self.check(&Token::RBrace) || self.is_eof() {
            let v: Vec<(Symbol, Shrubbery)> = Vec::new();
            assert(crate::mrl::shrubbery::property_seq_model(&v) =~= Seq::<(Symbol, ShrubModel)>::empty());
            return Ok(v);
        }
        let ghost st = self.state();
        self.skip_newlines();
        proof {
            lemma_past_newlines(ts, st);
        }
        if self.check(&Token::RBrace) {
            let v: Vec<(Symbol, Shrubbery)> = Vec::new();
            assert(crate::mrl::shrubbery::property_seq_model(&v) =~= Seq::<(Symbol, ShrubModel)>::empty());
            return Ok(v);
        }
        let toks = self.tokens;
        let i = match self.expect(&Token::Identifier(String::new())) { Ok(i) => i, Err(e) => return Err(e) };
        let key = match &toks[i].token {
            Token::Identifier(n) => self.intern_here(n.as_str()),
            _ => self.intern_here(""),
        };
        proof {
            reveal_strlit("");
        }
        match self.expect(&Token::Colon) { Ok(_) => {}, Err(e) => return Err(e) }
        let value = match self.parse_element() {
            Ok(Some(x)) => x,
            Ok(None) => none_literal(),
            Err(e) => return Err(e),
        };
        if self.check(&Token::Comma) {
            self.advance();
        }
        let rest = match self.parse_properties() { Ok(v) => v, Err(e) => return Err(e) };
        let ghost vm = value@;
        let ghost rm = crate::mrl::shrubbery::property_seq_model(&rest);
        let mut out: Vec<(Symbol, Shrubbery)> = Vec::new();
        out.push((key, value));
        let mut rest = rest;
        out.append(&mut rest);
        assert(crate::mrl::shrubbery::property_seq_model(&out) =~= seq![(key, vm)] + rm);
        Ok(out)
    }

    /// `!set selector { key: value, ... }`.
    fn parse_set(&mut self) -> (r: Result<Shrubbery, MrlError>)
        requires
            old(self).wf(),
        ensures
            final(self).wf(),
            final(self).toks() == old(self).toks(),
            final(self).scope_counter() == old(self).scope_counter(),
            shrub_outcome(r, final(self).state(), p_set(old(self).toks(), old(self).state())),
            r is Ok ==> old(self).pos < final(self).pos,
        decreases old(self).tokens@.len() - old(self).pos, 10nat,
    {
        let toks = self.tokens;
        let b = match self.expect(&Token::Bang) { Ok(i) => i, Err(e) => return Err(e) };
        let start = toks[b].span.start;
        match self.expect(&Token::SetKw) { Ok(_) => {}, Err(e) => return Err(e) }
        let selector = match self.parse_selector() { Ok(v) => v, Err(e) => return Err(e) };
        match self.expect(&Token::LBrace) { Ok(_) => {}, Err(e) => return Err(e) }
        let properties = match self.parse_properties() { Ok(v) => v, Err(e) => return Err(e) };
        match self.expect(&Token::RBrace) { Ok(_) => {}, Err(e) => return Err(e) }
        let end = self.next_start(start);
        Ok(Shrubbery::SetRule { selector: Box::new(selector), properties, span: Span::new(start, end) })
    }

    /// Identifiers, interned, with optional commas, up to `]`.
    fn parse_dep_names(&mut self) -> (r: Result<Vec<Symbol>, MrlError>)
        requires
            old(self).wf(),
        ensures
            final(self).wf(),
            final(self).toks() == old(self).toks(),
            final(self).scope_counter() == old(self).scope_counter(),
            match p_dep_names(old(self).toks(), old(self).state()) {
                Ok((ns, s)) => r matches Ok(v) && v@ == ns && final(self).state() == s,
                Err(f) => r matches Err(e) && parse_failure(e, f),
            },
            r is Ok ==> old(self).pos <= final(self).pos,
        decreases old(self).tokens@.len() - old(self).pos, 8nat,
    {
        if self.check(&Token::RBracket) || self.is_eof() {
            return Ok(Vec::new());
        }
        let toks = self.tokens;
        let i = match self.expect(&Token::Identifier(String::new())) { Ok(i) => i, Err(e) => return Err(e) };
        let sym = match &toks[i].token {
            Token::Identifier(n) => self.intern_here(n.as_str()),
            _ => self.intern_here(""),
        };
        proof {
            reveal_strlit("");
        }
        if self.check(&Token::Comma) {
            self.advance();
        }
        let rest = match self.parse_dep_names() { Ok(v) => v, Err(e) => return Err(e) };
        let mut out: Vec<Symbol> = Vec::new();
        out.push(sym);
        let mut rest = rest;
        let ghost rm = rest@;
        out.append(&mut rest);
        assert(out@ =~= seq![sym] + rm);
        Ok(out)
    }

    /// The dependencies of a live block, if they come.
    fn parse_deps(&mut self) -> (r: Result<Option<Vec<Symbol>>, MrlError>)
        requires
            old(self).wf(),
        ensures
            final(self).wf(),
            final(self).toks() == old(self).toks(),
            final(self).scope_counter() == old(self).scope_counter(),
            match p_deps(old(self).toks(), old(self).state()) {
                Ok((ns, s)) => r matches Ok(v) && (match v { Some(x) => Some(x@), None => None::<Seq<Symbol>> }) == ns
                    && final(self).state() == s,
                Err(f) => r matches Err(e) && parse_failure(e, f),
            },
            r is Ok ==> old(self).pos <= final(self).pos,
        decreases old(self).tokens@.len() - old(self).pos, 9nat,
    {
        if !self.check(&Token::LParen) {
            return Ok(None);
        }
        self.advance();
        let toks = self.tokens;
        let is_deps = self.pos < toks.len() && match &toks[self.pos].token {
            Token::Identifier(n) => str_eq(n.as_str(), "deps"),
            _ => false,
        };
        proof {
            reveal_strlit("deps");
        }
        if !is_deps {
            return Ok(None);
        }
        self.advance();
        match self.expect(&Token::Colon) { Ok(_) => {}, Err(e) => return Err(e) }
        match self.expect(&Token::LBracket) { Ok(_) => {}, Err(e) => return Err(e) }
        let names = match self.parse_dep_names() { Ok(v) => v, Err(e) => return Err(e) };
        match self.expect(&Token::RBracket) { Ok(_) => {}, Err(e) => return Err(e) }
        match self.expect(&Token::RParen) { Ok(_) => {}, Err(e) => return Err(e) }
        Ok(Some(names))
    }

    /// `!live(deps: [...])[...]` or with an indented body.
    fn parse_live(&mut self) -> (r: Result<Shrubbery, MrlError>)
        requires
            old(self).wf(),
        ensures
            final(self).wf(),
            final(self).toks() == old(self).toks(),
            final(self).scope_counter() == old(self).scope_counter(),
            shrub_outcome(r, final(self).state(), p_live(old(self).toks(), old(self).state())),
            r is Ok ==> old(self).pos < final(self).pos,
        decreases old(self).tokens@.len() - old(self).pos, 10nat,
    {
        let toks = self.tokens;
        let b = match self.expect(&Token::Bang) { Ok(i) => i, Err(e) => return Err(e) };
        let start = toks[b].span.start;
        match self.expect(&Token::Live) { Ok(_) => {}, Err(e) => return Err(e) }
        let deps = match self.parse_deps() { Ok(v) => v, Err(e) => return Err(e) };
        let body = match self.parse_body() { Ok(v) => v, Err(e) => return Err(e) };
        let end = self.next_start(start);
        Ok(Shrubbery::LiveBlock { deps, body, span: Span::new(start, end) })
    }

    /// A selector: a name, then optionally `.where(predicate)`.
    fn parse_selector(&mut self) -> (r: Result<Shrubbery, MrlError>)
        requires
            old(self).wf(),
        ensures
            final(self).wf(),
            final(self).toks() == old(self).toks(),
            final(self).scope_counter() == old(self).scope_counter(),
            shrub_outcome(r, final(self).state(), p_selector(old(self).toks(), old(self).state())),
            r is Ok ==> old(self).pos < final(self).pos,
        decreases old(self).tokens@.len() - old(self).pos, 9nat,
    {
        let toks = self.tokens;
        let i = match self.expect(&Token::Identifier(String::new())) { Ok(i) => i, Err(e) => return Err(e) };
        let start = toks[i].span.start;
        let base = match &toks[i].token {
            Token::Identifier(n) => self.intern_here(n.as_str()),
            _ => self.intern_here(""),
        };
        proof {
            reveal_strlit("");
        }
        self.parse_selector_rest(base, start)
    }

    /// After a selector's name: `.where(predicate)`, a dot alone, or nothing.
    #[verifier::rlimit(100)]
    fn parse_selector_rest(&mut self, base: Symbol, start: usize) -> (r: Result<Shrubbery, MrlError>)
        requires
            old(self).wf(),
        ensures
            final(self).wf(),
            final(self).toks() == old(self).toks(),
            final(self).scope_counter() == old(self).scope_counter(),
            shrub_outcome(r, final(self).state(), p_selector_rest(old(self).toks(), old(self).state(), base, start)),
            r is Ok ==> old(self).pos <= final(self).pos,
        decreases old(self).tokens@.len() - old(self).pos, 9nat,
    {
        let toks = self.tokens;
        let ghost ts = self.toks();
        let ghost st = self.state();
        if !self.check(&Token::Dot) {
            let end = self.next_start(start);
            proof {
                lemma_no_box();
            }
            return Ok(Shrubbery::Selector { base, predicate: None, span: Span::new(start, end) });
        }
        self.advance();
        let is_where = self.check(&Token::Where) || (self.pos < toks.len() && match &toks[self.pos].token {
            Token::Identifier(n) => str_eq(n.as_str(), "where"),
            _ => false,
        });
        proof {
            reveal_strlit("where");
        }
        if !is_where {
            let end = self.next_start(start);
            proof {
                lemma_no_box();
            }
            return Ok(Shrubbery::Selector { base, predicate: None, span: Span::new(start, end) });
        }
        self.advance();
        match self.expect(&Token::LParen) { Ok(_) => {}, Err(e) => return Err(e) }
        let pred = match self.parse_expression() {
            Ok(Some(x)) => x,
            Ok(None) => true_literal(),
            Err(e) => return Err(e),
        };
        match self.expect(&Token::RParen) { Ok(_) => {}, Err(e) => return Err(e) }
        let end = self.next_start(start);
        proof {
            lemma_some_box(pred);
        }
        Ok(Shrubbery::Selector { base, predicate: Some(Box::new(pred)), span: Span::new(start, end) })
    }
}


impl<'a> Parser<'a> {
    /// `quote[...]`, `quote:` and an indented block, or `quote element`.
    fn parse_quote(&mut self) -> (r: Result<Shrubbery, MrlError>)
        requires
            old(self).wf(),
        ensures
            final(self).wf(),
            final(self).toks() == old(self).toks(),
            final(self).scope_counter() == old(self).scope_counter(),
            shrub_outcome(r, final(self).state(), p_quote(old(self).toks(), old(self).state())),
            r is Ok ==> old(self).pos < final(self).pos,
        decreases old(self).tokens@.len() - old(self).pos, 10nat,
    {
        let toks = self.tokens;
        let q = match self.expect(&Token::Quote) { Ok(i) => i, Err(e) => return Err(e) };
        let start = toks[q].span.start;
        let body = match self.parse_quote_body() { Ok(b) => b, Err(e) => return Err(e) };
        let end = self.next_start(start);
        Ok(Shrubbery::Quote { body: Box::new(body), span: Span::new(start, end) })
    }

    /// The body of a quote.
    fn parse_quote_body(&mut self) -> (r: Result<Shrubbery, MrlError>)
        requires
            old(self).wf(),
        ensures
            final(self).wf(),
            final(self).toks() == old(self).toks(),
            final(self).scope_counter() == old(self).scope_counter(),
            shrub_outcome(r, final(self).state(), p_quote_body(old(self).toks(), old(self).state())),
            r is Ok ==> old(self).pos <= final(self).pos,
        decreases old(self).tokens@.len() - old(self).pos, 12nat,
    {
        if self.check(&Token::LBracket) {
            match self.parse_body() {
                Ok(items) => Ok(Shrubbery::Sequence(items, Span::new(0, 0))),
                Err(e) => Err(e),
            }
        } else if self.check(&Token::Colon) {
            self.advance();
            match self.expect(&Token::Newline) { Ok(_) => {}, Err(e) => return Err(e) }
            match self.parse_indented_block() {
                Ok(items) => Ok(Shrubbery::Sequence(items, Span::new(0, 0))),
                Err(e) => Err(e),
            }
        } else {
            match self.parse_element() {
                Ok(Some(x)) => Ok(x),
                Ok(None) => Ok(none_literal()),
                Err(e) => Err(e),
            }
        }
    }

    /// `splice(element)`.
    fn parse_splice_keyword(&mut self) -> (r: Result<Shrubbery, MrlError>)
        requires
            old(self).wf(),
        ensures
            final(self).wf(),
            final(self).toks() == old(self).toks(),
            final(self).scope_counter() == old(self).scope_counter(),
            shrub_outcome(r, final(self).state(), p_splice_keyword(old(self).toks(), old(self).state())),
            r is Ok ==> old(self).pos < final(self).pos,
        decreases old(self).tokens@.len() - old(self).pos, 10nat,
    {
        let toks = self.tokens;
        let s = match self.expect(&Token::Splice) { Ok(i) => i, Err(e) => return Err(e) };
        let start = toks[s].span.start;
        match self.expect(&Token::LParen) { Ok(_) => {}, Err(e) => return Err(e) }
        let expr = match self.parse_element() {
            Ok(Some(x)) => x,
            Ok(None) => none_literal(),
            Err(e) => return Err(e),
        };
        match self.expect(&Token::RParen) { Ok(_) => {}, Err(e) => return Err(e) }
        let end = self.next_start(start);
        Ok(Shrubbery::Splice { expr: Box::new(expr), span: Span::new(start, end) })
    }

    /// `$name`.
    fn parse_splice_dollar(&mut self) -> (r: Result<Shrubbery, MrlError>)
        requires
            old(self).wf(),
        ensures
            final(self).wf(),
            final(self).toks() == old(self).toks(),
            final(self).scope_counter() == old(self).scope_counter(),
            shrub_outcome(r, final(self).state(), p_splice_dollar(old(self).toks(), old(self).state())),
            r is Ok ==> old(self).pos < final(self).pos,
        decreases old(self).tokens@.len() - old(self).pos, 10nat,
    {
        let toks = self.tokens;
        let d = match self.expect(&Token::Dollar) { Ok(i) => i, Err(e) => return Err(e) };
        let start = toks[d].span.start;
        let expr = match self.parse_identifier() { Ok(x) => x, Err(e) => return Err(e) };
        let end = self.next_start(start);
        Ok(Shrubbery::Splice { expr: Box::new(expr), span: Span::new(start, end) })
    }

    /// `else: otherwise`, if it comes.
    fn parse_else(&mut self) -> (r: Result<Option<Box<Shrubbery>>, MrlError>)
        requires
            old(self).wf(),
        ensures
            final(self).wf(),
            final(self).toks() == old(self).toks(),
            final(self).scope_counter() == old(self).scope_counter(),
            match p_else(old(self).toks(), old(self).state()) {
                Ok((m, s)) => r matches Ok(x) && crate::mrl::shrubbery::opt_box_model(&x) == m && final(self).state() == s,
                Err(f) => r matches Err(e) && parse_failure(e, f),
            },
            r is Ok ==> old(self).pos <= final(self).pos,
        decreases old(self).tokens@.len() - old(self).pos, 10nat,
    {
        if !self.check(&Token::Else) {
            return Ok(None);
        }
        self.advance();
        match self.expect(&Token::Colon) { Ok(_) => {}, Err(e) => return Err(e) }
        match self.parse_branch(true) {
            Ok(e) => Ok(Some(Box::new(e))),
            Err(e) => Err(e),
        }
    }

    /// `if condition: then` and optionally `else: otherwise`.
    fn parse_if(&mut self) -> (r: Result<Shrubbery, MrlError>)
        requires
            old(self).wf(),
        ensures
            final(self).wf(),
            final(self).toks() == old(self).toks(),
            final(self).scope_counter() == old(self).scope_counter(),
            shrub_outcome(r, final(self).state(), p_if(old(self).toks(), old(self).state())),
            r is Ok ==> old(self).pos < final(self).pos,
        decreases old(self).tokens@.len() - old(self).pos, 10nat,
    {
        let toks = self.tokens;
        let i = match self.expect(&Token::If) { Ok(i) => i, Err(e) => return Err(e) };
        let start = toks[i].span.start;
        let condition = match self.parse_expression() {
            Ok(Some(x)) => x,
            Ok(None) => true_literal(),
            Err(e) => return Err(e),
        };
        match self.expect(&Token::Colon) { Ok(_) => {}, Err(e) => return Err(e) }
        let then_branch = match self.parse_branch(true) { Ok(x) => x, Err(e) => return Err(e) };
        let else_branch = match self.parse_else() { Ok(x) => x, Err(e) => return Err(e) };
        let end = self.next_start(start);
        Ok(Shrubbery::If {
            condition: Box::new(condition),
            then_branch: Box::new(then_branch),
            else_branch,
            span: Span::new(start, end),
        })
    }

    /// `for name in iterable: body`.
    fn parse_for(&mut self) -> (r: Result<Shrubbery, MrlError>)
        requires
            old(self).wf(),
        ensures
            final(self).wf(),
            final(self).toks() == old(self).toks(),
            final(self).scope_counter() == old(self).scope_counter(),
            shrub_outcome(r, final(self).state(), p_for(old(self).toks(), old(self).state())),
            r is Ok ==> old(self).pos < final(self).pos,
        decreases old(self).tokens@.len() - old(self).pos, 10nat,
    {
        let toks = self.tokens;
        let f = match self.expect(&Token::For) { Ok(i) => i, Err(e) => return Err(e) };
        let start = toks[f].span.start;
        let i = match self.expect(&Token::Identifier(String::new())) { Ok(i) => i, Err(e) => return Err(e) };
        let pattern = match &toks[i].token {
            Token::Identifier(n) => self.intern_here(n.as_str()),
            _ => self.intern_here(""),
        };
        proof {
            reveal_strlit("");
        }
        match self.expect(&Token::In) { Ok(_) => {}, Err(e) => return Err(e) }
        let iterable = match self.parse_element() {
            Ok(Some(x)) => x,
            Ok(None) => none_literal(),
            Err(e) => return Err(e),
        };
        match self.expect(&Token::Colon) { Ok(_) => {}, Err(e) => return Err(e) }
        let body = match self.parse_branch(true) { Ok(x) => x, Err(e) => return Err(e) };
        let end = self.next_start(start);
        Ok(Shrubbery::For { pattern, iterable: Box::new(iterable), body: Box::new(body), span: Span::new(start, end) })
    }

    /// An element: newlines skipped, then one form chosen by its first
    /// token; `None` at the end, or when an unexpected token was skipped.
    #[verifier::rlimit(40)]
    fn parse_element(&mut self) -> (r: Result<Option<Shrubbery>, MrlError>)
        requires
            old(self).wf(),
        ensures
            final(self).wf(),
            final(self).toks() == old(self).toks(),
            final(self).scope_counter() == old(self).scope_counter(),
            opt_outcome(r, final(self).state(), p_element(old(self).toks(), old(self).state())),
            r is Ok ==> old(self).pos <= final(self).pos,
            r is Ok && !at_end(old(self).toks(), old(self).pos as int) ==> old(self).pos < final(self).pos,
        decreases old(self).tokens@.len() - old(self).pos, 11nat,
    {
        let ghost ts = self.toks();
        let ghost st = self.state();
        self.skip_newlines();
        proof {
            lemma_past_newlines(ts, st);
        }
        if self.is_eof() {
            return Ok(None);
        }
        let toks = self.tokens;
        let p = self.pos;
        let form = match &toks[p].token {
            Token::Bang => {
                let next_kind: u8 = if p + 1 < toks.len() { token_kind(&toks[p + 1].token) } else { 255u8 };
                if next_kind == 0 { self.parse_def() }
                else if next_kind == 1 { self.parse_staged() }
                else if next_kind == 2 { self.parse_show() }
                else if next_kind == 3 { self.parse_set() }
                else if next_kind == 4 { self.parse_live() }
                else { self.parse_operator() }
            },
            Token::Quote => self.parse_quote(),
            Token::Splice => self.parse_splice_keyword(),
            Token::Dollar => self.parse_splice_dollar(),
            Token::If => self.parse_if(),
            Token::For => self.parse_for(),
            Token::Identifier(_) => self.parse_identifier(),
            Token::IntLiteral(_) | Token::FloatLiteral(_) | Token::StringLiteral(_) | Token::SymbolLiteral(_)
            | Token::True | Token::False | Token::NoneLit => self.parse_literal(),
            Token::LParen => self.parse_group(0),
            Token::LBracket => self.parse_group(1),
            Token::LBrace => self.parse_group(2),
            Token::Plus | Token::Minus | Token::Star | Token::Slash | Token::Percent | Token::EqEq
            | Token::NotEq | Token::Lt | Token::Le | Token::Gt | Token::Ge | Token::AndAnd | Token::OrOr
            | Token::PlusPlus => self.parse_operator(),
            _ => {
                self.advance();
                return Ok(None);
            },
        };
        match form {
            Ok(x) => Ok(Some(x)),
            Err(e) => Err(e),
        }
    }

    /// The elements of the whole input.
    fn parse_top(&mut self) -> (r: Result<Vec<Shrubbery>, MrlError>)
        requires
            old(self).wf(),
        ensures
            final(self).wf(),
            final(self).toks() == old(self).toks(),
            final(self).scope_counter() == old(self).scope_counter(),
            items_outcome(r, final(self).state(), p_top(old(self).toks(), old(self).state())),
        decreases old(self).tokens@.len() - old(self).pos, 12nat,
    {
        if self.is_eof() {
            return Ok(empty_shrubs());
        }
        match self.parse_element() {
            Err(e) => Err(e),
            Ok(None) => Ok(empty_shrubs()),
            Ok(Some(e)) => match self.parse_top() {
                Err(err) => Err(err),
                Ok(rest) => Ok(cons_shrub(e, rest)),
            },
        }
    }

    /// Parse the entire input as a shrubbery: its single element, or the
    /// sequence of its elements from the first token's start to where
    /// parsing stopped.
    pub fn parse(&mut self) -> (r: Result<Shrubbery, MrlError>)
        requires
            old(self).wf(),
        ensures
            final(self).wf(),
            final(self).toks() == old(self).toks(),
            shrub_outcome(r, final(self).state(), p_parse(old(self).toks(), old(self).state())),
    {
        let start = self.next_start(0);
        let mut elements = match self.parse_top() { Ok(v) => v, Err(e) => return Err(e) };
        if elements.len() == 1 {
            let ghost m = shrub_models(&elements);
            let e = elements.remove(0);
            assert(e@ == m[0]);
            Ok(e)
        } else {
            let end = self.next_start(start);
            Ok(Shrubbery::Sequence(elements, Span::new(start, end)))
        }
    }
}

/// Parse tokens into shrubbery, with no names interned beforehand.
pub fn parse(tokens: &[SpannedToken]) -> (r: Result<Shrubbery, MrlError>)
    requires
        tokens@.len() + 2 < u64::MAX,
    ensures
        match p_parse(token_models(tokens@), PState { pos: 0, syms: Map::empty(), next: 0 }) {
            Ok((m, _)) => r matches Ok(x) && x@ == m,
            Err(f) => r matches Err(e) && parse_failure(e, f),
        },
{
    let mut parser = Parser::new(tokens);
    parser.parse()
}

/// Parse tokens into shrubbery, keeping the symbol table that parsing built.
pub fn parse_with_symbols(tokens: &[SpannedToken]) -> (r: Result<(Shrubbery, SymbolTable), MrlError>)
    requires
        tokens@.len() + 2 < u64::MAX,
    ensures
        match p_parse(token_models(tokens@), PState { pos: 0, syms: Map::empty(), next: 0 }) {
            Ok((m, st)) => r matches Ok((x, t)) && x@ == m && t.table() == st.syms,
            Err(f) => r matches Err(e) && parse_failure(e, f),
        },
{
    let mut parser = Parser::new(tokens);
    match parser.parse() {
        Ok(shrub) => Ok((shrub, parser.symbols)),
        Err(e) => Err(e),
    }
}

} // verus!
