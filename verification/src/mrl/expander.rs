//! Expand-time evaluation of shrubbery: literals, prose and content
//! literals become values, show and set rules are collected, definitions
//! become macros, and quoted code can be spliced back in.

use vstd::prelude::*;
use vstd::pervasive::unreached;
use crate::mrl::content::{content_text, Block, Content, Inline, ListItem};
use crate::mrl::error::{MrlError, Span};
use crate::mrl::hygiene::{BindingModel, HygieneEnv};
use crate::mrl::rules::{base_for_name, selector_matches, set_rules_applied, RuleSet, Selector, SelectorBase, SetRule, SetValue, ShowRule};
use crate::mrl::shrubbery::{
    duplicate_items, param_seq_model, shrub_models, shrub_span, LiteralModel, Literal, Shrubbery, ShrubModel, Symbol,
};
use crate::mrl::types::{ContentKind, MrlType, TypeModel};
use crate::mrl::repr::{value_debug, value_debug_text};
use crate::mrl::rules::lowercase;
use crate::util::strmap::StrMap;
use crate::util::text::{decimal, push_str, to_owned_string, u64_to_text};
use std::collections::HashMap;

verus! {

/// The built-in functions of the expander.
#[derive(Debug, Clone, Copy, PartialEq, Eq, Structural)]
pub enum Builtin {
    Text,
    Paragraph,
    Heading,
    Emphasis,
    Strong,
    Quote,
    Splice,
    EvalExpand,
}

/// A function at expand time.
#[derive(Debug)]
pub enum ExpandFunction {
    /// A built-in function with its name and number of arguments.
    Native { name: String, arity: usize, builtin: Builtin },
    /// A user-defined macro: its parameter names, its body, and the
    /// hygiene environment it was defined in.
    Macro { params: Vec<String>, body: Box<Shrubbery>, env: HygieneEnv },
}

/// A value at expand time.
#[derive(Debug)]
pub enum ExpandValue {
    NoneValue,
    Bool(bool),
    Int(i64),
    /// A float, kept as its decimal text.
    Float(String),
    String(String),
    Symbol(String),
    Content(Content),
    /// Quoted code with the kind of content it produces.
    Code(Box<Shrubbery>, ContentKind),
    /// Raw shrubbery.
    Shrubbery(Box<Shrubbery>),
    Array(Vec<ExpandValue>),
    /// A map from names to values, as its entries.
    Mapping(Vec<(String, ExpandValue)>),
    Function(ExpandFunction),
}

/// Content as the expander sees it: a text, a sequence of contents, or
/// any other content as it is.
pub enum ContentValue {
    Text(Seq<char>),
    Sequence(Seq<ContentValue>),
    Other(Content),
}

/// The value of a content.
pub open spec fn content_value(c: Content) -> ContentValue
    decreases c,
{
    match c {
        Content::Inline(Inline::Text(t)) => ContentValue::Text(t@),
        Content::Sequence(items) => ContentValue::Sequence(
            Seq::new(items@.len(), |i: int| if 0 <= i < items@.len() { content_value(items@[i]) } else { ContentValue::Text(Seq::empty()) }),
        ),
        _ => ContentValue::Other(c),
    }
}

/// The values of a vector of contents.
pub open spec fn content_values(cs: Seq<Content>) -> Seq<ContentValue> {
    Seq::new(cs.len(), |i: int| content_value(cs[i]))
}

/// A function as plain values.
pub enum FunctionModel {
    Native { name: Seq<char>, arity: usize, builtin: Builtin },
    Macro { params: Seq<Seq<char>>, body: ShrubModel, env: Seq<BindingModel> },
}

/// An expand-time value as plain values.
pub enum ValueModel {
    NoneValue,
    Bool(bool),
    Int(i64),
    Float(Seq<char>),
    Str(Seq<char>),
    Symbol(Seq<char>),
    Content(ContentValue),
    Code(ShrubModel, ContentKind),
    Shrubbery(ShrubModel),
    Array(Seq<ValueModel>),
    Mapping(Seq<(Seq<char>, ValueModel)>),
    Function(FunctionModel),
}

impl View for ExpandFunction {
    type V = FunctionModel;

    open spec fn view(&self) -> FunctionModel {
        match self {
            ExpandFunction::Native { name, arity, builtin } => FunctionModel::Native { name: name@, arity: *arity, builtin: *builtin },
            ExpandFunction::Macro { params, body, env } => FunctionModel::Macro {
                params: params@.map_values(|p: String| p@),
                body: (**body)@,
                env: env@,
            },
        }
    }
}

impl ExpandValue {
    /// This value as plain values.
    pub open spec fn model(&self) -> ValueModel
        decreases self,
    {
        match self {
            ExpandValue::NoneValue => ValueModel::NoneValue,
            ExpandValue::Bool(b) => ValueModel::Bool(*b),
            ExpandValue::Int(i) => ValueModel::Int(*i),
            ExpandValue::Float(f) => ValueModel::Float(f@),
            ExpandValue::String(s) => ValueModel::Str(s@),
            ExpandValue::Symbol(s) => ValueModel::Symbol(s@),
            ExpandValue::Content(c) => ValueModel::Content(content_value(*c)),
            ExpandValue::Code(s, k) => ValueModel::Code((**s)@, *k),
            ExpandValue::Shrubbery(s) => ValueModel::Shrubbery((**s)@),
            ExpandValue::Array(items) => ValueModel::Array(
                Seq::new(items@.len(), |i: int| if 0 <= i < items@.len() { items@[i].model() } else { ValueModel::NoneValue }),
            ),
            ExpandValue::Mapping(es) => ValueModel::Mapping(
                Seq::new(es@.len(), |i: int| if 0 <= i < es@.len() { (es@[i].0@, es@[i].1.model()) } else { (Seq::empty(), ValueModel::NoneValue) }),
            ),
            ExpandValue::Function(f) => ValueModel::Function(f@),
        }
    }

    /// The content this value holds, if it is content.
    pub fn as_content(&self) -> (r: Option<&Content>)
        ensures
            match self {
                ExpandValue::Content(c) => r == Some(c),
                _ => r is None,
            },
    {
        match self {
            ExpandValue::Content(c) => Some(c),
            _ => None,
        }
    }

    /// The text this value holds, if it is a string.
    pub fn as_string(&self) -> (r: Option<&str>)
        ensures
            match self {
                ExpandValue::String(s) => r matches Some(x) && x@ == s@,
                _ => r is None,
            },
    {
        match self {
            ExpandValue::String(s) => Some(s.as_str()),
            _ => None,
        }
    }

    /// The integer this value holds, if it is one.
    pub fn as_int(&self) -> (r: Option<i64>)
        ensures
            match self {
                ExpandValue::Int(i) => r == Some(*i),
                _ => r is None,
            },
    {
        match self {
            ExpandValue::Int(i) => Some(*i),
            _ => None,
        }
    }
}

/// The type of a content value: block, inline, or content.
pub open spec fn content_type(c: ContentValue) -> TypeModel {
    match c {
        ContentValue::Text(_) => TypeModel::Inline,
        ContentValue::Other(x) => if x is Block { TypeModel::Block } else if x is Inline { TypeModel::Inline } else { TypeModel::Content },
        ContentValue::Sequence(_) => TypeModel::Content,
    }
}

/// The type of a value; an array has the type of its first item (`Dyn`
/// when empty), a map maps strings to `Dyn`, and a function is `Dyn`.
pub open spec fn value_type(v: ValueModel) -> TypeModel
    decreases v,
{
    match v {
        ValueModel::NoneValue => TypeModel::NoneType,
        ValueModel::Bool(_) => TypeModel::Bool,
        ValueModel::Int(_) => TypeModel::Int,
        ValueModel::Float(_) => TypeModel::Float,
        ValueModel::Str(_) => TypeModel::Str,
        ValueModel::Symbol(_) => TypeModel::Symbol,
        ValueModel::Content(c) => content_type(c),
        ValueModel::Code(_, k) => TypeModel::Code(k),
        ValueModel::Shrubbery(_) => TypeModel::Shrubbery,
        ValueModel::Array(items) => TypeModel::Array(Box::new(
            if items.len() > 0 { value_type(items[0]) } else { TypeModel::Dyn },
        )),
        ValueModel::Mapping(_) => TypeModel::Mapping(Box::new(TypeModel::Str), Box::new(TypeModel::Dyn)),
        ValueModel::Function(_) => TypeModel::Dyn,
    }
}

impl ExpandValue {
    /// The type of this value.
    pub fn get_type(&self) -> (r: MrlType)
        ensures
            r@ == value_type(self@),
        decreases self,
    {
        match self {
            ExpandValue::NoneValue => MrlType::NoneType,
            ExpandValue::Bool(_) => MrlType::Bool,
            ExpandValue::Int(_) => MrlType::Int,
            ExpandValue::Float(_) => MrlType::Float,
            ExpandValue::String(_) => MrlType::String,
            ExpandValue::Symbol(_) => MrlType::Symbol,
            ExpandValue::Content(c) => {
                assert(self@ == ValueModel::Content(content_value(*c)));
                if c.is_block() {
                    MrlType::Block
                } else if c.is_inline() {
                    MrlType::Inline
                } else {
                    MrlType::Content
                }
            },
            ExpandValue::Code(_, kind) => MrlType::Code(*kind),
            ExpandValue::Shrubbery(_) => MrlType::Shrubbery,
            ExpandValue::Array(items) => {
                assert(self@ is Array && self@->Array_0.len() == items@.len());
                assert(items@.len() > 0 ==> self@->Array_0[0] == items@[0]@);
                if items.len() > 0 {
                    proof {
                        assert(decreases_to!(items => items@[0]));
                    }
                    let t = items[0].get_type();
                    assert(t@ == value_type(self@->Array_0[0]));
                    let r = MrlType::Array(Box::new(t));
                    assert(r@ == TypeModel::Array(Box::new(t@)));
                    r
                } else {
                    let d = MrlType::Dyn;
                    assert(d@ == TypeModel::Dyn);
                    let r = MrlType::Array(Box::new(d));
                    assert(r@ == TypeModel::Array(Box::new(TypeModel::Dyn)));
                    r
                }
            },
            ExpandValue::Mapping(_) => {
                let k = MrlType::String;
                let d = MrlType::Dyn;
                assert(k@ == TypeModel::Str && d@ == TypeModel::Dyn);
                let r = MrlType::Mapping(Box::new(k), Box::new(d));
                assert(r@ == TypeModel::Mapping(Box::new(TypeModel::Str), Box::new(TypeModel::Dyn)));
                r
            },
            ExpandValue::Function(_) => MrlType::Dyn,
        }
    }
}

impl View for ExpandValue {
    type V = ValueModel;

    open spec fn view(&self) -> ValueModel {
        self.model()
    }
}

/// Attributes with nothing set.
pub open spec fn no_attrs(a: crate::mrl::content::Attributes) -> bool {
    a.id is None && a.classes@.len() == 0 && forall|k: Seq<char>| !a.other.has(k)
}

/// The inline a content value holds, when it holds one.
pub open spec fn inline_of(cv: ContentValue, i: Inline) -> bool {
    inline_value(cv) && content_value(Content::Inline(i)) == cv
}

/// What a built-in does with arguments of the right number: the content it
/// builds, quoted code, or the error for an argument of the wrong kind.
pub open spec fn builtin_outcome(b: Builtin, args: Seq<ValueModel>, r: Result<ExpandValue, MrlError>) -> bool {
    let fail = |m: Seq<char>| r matches Err(e) && expand_fails(e, ExpandFailure::Failed(Span { start: 0, end: 0 }, m));
    match b {
        Builtin::Text => match args[0] {
            ValueModel::Str(t) => r matches Ok(x) && x@ == ValueModel::Content(ContentValue::Text(t)),
            _ => fail("text() requires string argument"@),
        },
        Builtin::Paragraph => match args[0] {
            ValueModel::Content(cv) => if inline_value(cv) {
                r matches Ok(ExpandValue::Content(Content::Block(Block::Paragraph { body, attrs })))
                    && inline_of(cv, *body) && no_attrs(attrs)
            } else {
                fail("paragraph() requires inline content"@)
            },
            _ => fail("paragraph() requires content argument"@),
        },
        Builtin::Heading => match (args[0], args[1]) {
            (ValueModel::Int(level), ValueModel::Content(cv)) => if inline_value(cv) {
                r matches Ok(ExpandValue::Content(Content::Block(Block::Heading { level: l, body, attrs })))
                    && l == level as u8 && inline_of(cv, *body) && no_attrs(attrs)
            } else {
                fail("heading() requires inline content"@)
            },
            (ValueModel::Int(_), _) => fail("heading() requires content argument"@),
            _ => fail("heading() requires integer level"@),
        },
        Builtin::Emphasis => match args[0] {
            ValueModel::Content(cv) => if inline_value(cv) {
                r matches Ok(ExpandValue::Content(Content::Inline(Inline::Emphasis(body)))) && inline_of(cv, *body)
            } else {
                fail("emphasis() requires inline content"@)
            },
            _ => fail("emphasis() requires content argument"@),
        },
        Builtin::Strong => match args[0] {
            ValueModel::Content(cv) => if inline_value(cv) {
                r matches Ok(ExpandValue::Content(Content::Inline(Inline::Strong(body)))) && inline_of(cv, *body)
            } else {
                fail("strong() requires inline content"@)
            },
            _ => fail("strong() requires content argument"@),
        },
        Builtin::Quote => match args[0] {
            ValueModel::Content(_) => r matches Ok(ExpandValue::Code(code, kind))
                && (*code)@ is Prose,
            ValueModel::Shrubbery(s) => r matches Ok(x) && x@ == ValueModel::Code(s, ContentKind::Content),
            _ => fail("quote() requires content or shrubbery"@),
        },
        Builtin::Splice => match args[0] {
            ValueModel::Code(s, _) => r matches Ok(x) && x@ == ValueModel::Shrubbery(s),
            _ => fail("splice() requires quoted code"@),
        },
        Builtin::EvalExpand => match args[0] {
            ValueModel::Code(_, _) => r matches Ok(x) && x@ == args[0],
            _ => fail("eval_expand() requires quoted code"@),
        },
    }
}

/// Quoting content gives prose code holding the content's text form, of
/// the content's kind.
pub open spec fn quoted_content(c: Content, r: Result<ExpandValue, MrlError>) -> bool {
    r matches Ok(ExpandValue::Code(code, kind))
        && kind == kind_of(content_value(c))
        && (*code)@ == ShrubModel::Prose(content_text(c), Span { start: 0, end: 0 })
}

/// The number of arguments a built-in takes.
pub open spec fn builtin_arity(b: Builtin) -> usize {
    match b {
        Builtin::Heading => 2,
        _ => 1,
    }
}

/// The kind of content a content value is.
pub open spec fn kind_of(cv: ContentValue) -> ContentKind {
    match cv {
        ContentValue::Text(_) => ContentKind::Inline,
        ContentValue::Other(x) => if x is Block { ContentKind::Block } else if x is Inline { ContentKind::Inline } else { ContentKind::Content },
        ContentValue::Sequence(_) => ContentKind::Content,
    }
}

impl Builtin {
    /// The number of arguments this built-in takes.
    pub fn arity(&self) -> (r: usize)
        ensures
            r == builtin_arity(*self),
    {
        match self {
            Builtin::Heading => 2,
            _ => 1,
        }
    }

    /// Apply this built-in to its arguments.
    pub fn apply(&self, args: Vec<ExpandValue>) -> (r: Result<ExpandValue, MrlError>)
        requires
            args@.len() == builtin_arity(*self),
        ensures
            builtin_outcome(*self, args@.map_values(|v: ExpandValue| v@), r),
            *self == Builtin::Quote && args@[0] is Content ==> quoted_content(args@[0]->Content_0, r),
    {
        let ghost ms = args@.map_values(|v: ExpandValue| v@);
        let mut args = args;
        let first = args.remove(0);
        assert(ms[0] == first@);
        match self {
            Builtin::Text => match first {
                ExpandValue::String(s) => Ok(ExpandValue::Content(Content::Inline(Inline::Text(s)))),
                _ => Err(failed(Span::new(0, 0), "text() requires string argument")),
            },
            Builtin::Paragraph => match first {
                ExpandValue::Content(Content::Inline(i)) => Ok(ExpandValue::Content(Content::Block(Block::Paragraph {
                    body: Box::new(i),
                    attrs: crate::mrl::content::Attributes::new(),
                }))),
                ExpandValue::Content(_) => Err(failed(Span::new(0, 0), "paragraph() requires inline content")),
                _ => Err(failed(Span::new(0, 0), "paragraph() requires content argument")),
            },
            Builtin::Heading => {
                let second = args.remove(0);
                assert(ms[1] == second@);
                let level = match first {
                    ExpandValue::Int(l) => l,
                    _ => return Err(failed(Span::new(0, 0), "heading() requires integer level")),
                };
                match second {
                    ExpandValue::Content(Content::Inline(i)) => Ok(ExpandValue::Content(Content::Block(Block::Heading {
                        level: level as u8,
                        body: Box::new(i),
                        attrs: crate::mrl::content::Attributes::new(),
                    }))),
                    ExpandValue::Content(_) => Err(failed(Span::new(0, 0), "heading() requires inline content")),
                    _ => Err(failed(Span::new(0, 0), "heading() requires content argument")),
                }
            },
            Builtin::Emphasis => match first {
                ExpandValue::Content(Content::Inline(i)) => Ok(ExpandValue::Content(Content::Inline(Inline::Emphasis(Box::new(i))))),
                ExpandValue::Content(_) => Err(failed(Span::new(0, 0), "emphasis() requires inline content")),
                _ => Err(failed(Span::new(0, 0), "emphasis() requires content argument")),
            },
            Builtin::Strong => match first {
                ExpandValue::Content(Content::Inline(i)) => Ok(ExpandValue::Content(Content::Inline(Inline::Strong(Box::new(i))))),
                ExpandValue::Content(_) => Err(failed(Span::new(0, 0), "strong() requires inline content")),
                _ => Err(failed(Span::new(0, 0), "strong() requires content argument")),
            },
            Builtin::Quote => match first {
                ExpandValue::Content(c) => {
                    let kind = if c.is_block() {
                        ContentKind::Block
                    } else if c.is_inline() {
                        ContentKind::Inline
                    } else {
                        ContentKind::Content
                    };
                    let text = c.to_text();
                    Ok(ExpandValue::Code(Box::new(Shrubbery::Prose(text, Span::new(0, 0))), kind))
                },
                ExpandValue::Shrubbery(s) => Ok(ExpandValue::Code(s, ContentKind::Content)),
                _ => Err(failed(Span::new(0, 0), "quote() requires content or shrubbery")),
            },
            Builtin::Splice => match first {
                ExpandValue::Code(s, _) => Ok(ExpandValue::Shrubbery(s)),
                _ => Err(failed(Span::new(0, 0), "splice() requires quoted code")),
            },
            Builtin::EvalExpand => match first {
                ExpandValue::Code(s, k) => Ok(ExpandValue::Code(s, k)),
                _ => Err(failed(Span::new(0, 0), "eval_expand() requires quoted code")),
            },
        }
    }
}

/// A set-rule value as plain values.
pub enum SetValueModel {
    Text(Seq<char>),
    Int(i64),
    Bool(bool),
}

pub open spec fn set_value_model(v: SetValue) -> SetValueModel {
    match v {
        SetValue::String(s) => SetValueModel::Text(s@),
        SetValue::Int(i) => SetValueModel::Int(i),
        SetValue::Bool(b) => SetValueModel::Bool(b),
    }
}

/// What an expanded value sets a property to: strings, integers and booleans
/// as they are, anything else as its debug text.
pub open spec fn set_value_of(v: ValueModel) -> SetValueModel {
    match v {
        ValueModel::Str(s) => SetValueModel::Text(s),
        ValueModel::Int(i) => SetValueModel::Int(i),
        ValueModel::Bool(b) => SetValueModel::Bool(b),
        _ => SetValueModel::Text(value_debug(v)),
    }
}

/// What expansion reads and changes: the symbol names, the collected show
/// rules (selector, transform, span) and set rules (selector, properties,
/// span), the macros, and the hygiene environment macros are defined in.
pub struct ExpandState {
    pub symbols: Map<u64, Seq<char>>,
    pub show: Seq<(Selector, ShrubModel, Span)>,
    pub set: Seq<(Selector, Map<Seq<char>, SetValueModel>, Span)>,
    pub macros: Map<Seq<char>, FunctionModel>,
    pub hygiene: Seq<BindingModel>,
}

/// The state of a new expander: no symbol names, rules, macros or
/// hygiene bindings.
pub open spec fn fresh_expand_state() -> ExpandState {
    ExpandState {
        symbols: Map::empty(),
        show: Seq::empty(),
        set: Seq::empty(),
        macros: Map::empty(),
        hygiene: Seq::empty(),
    }
}

/// Why expansion fails: an unbound name, or an expansion error with its
/// message.
pub enum ExpandFailure {
    Unbound(Span, Seq<char>),
    Failed(Span, Seq<char>),
}

/// `e` is the error for failure `f`.
pub open spec fn expand_fails(e: MrlError, f: ExpandFailure) -> bool {
    match f {
        ExpandFailure::Unbound(span, n) => e matches MrlError::UnboundIdentifier { span: s, name } && s == span && name@ == n,
        ExpandFailure::Failed(span, m) => e matches MrlError::ExpansionError { span: s, message } && s == span && message@ == m,
    }
}

/// The environment key of a symbol: `id:` and its number.
pub open spec fn id_key(id: u64) -> Seq<char> {
    seq!['i', 'd', ':'] + decimal(id as nat)
}

/// The name a symbol has in the symbol table, or `prefix` and its number.
pub open spec fn name_or(symbols: Map<u64, Seq<char>>, id: u64, prefix: Seq<char>) -> Seq<char> {
    if symbols.contains_key(id) { symbols[id] } else { prefix + decimal(id as nat) }
}

/// The selector a shrubbery names, or why it names none.
pub open spec fn selector_of(symbols: Map<u64, Seq<char>>, s: ShrubModel) -> Result<Selector, ExpandFailure> {
    match s {
        ShrubModel::Selector { base, predicate, span } => if !symbols.contains_key(base.0) {
            Err(ExpandFailure::Failed(span, "Unknown selector base: "@ + decimal(base.0 as nat)))
        } else {
            match base_for_name(lowercase(symbols[base.0])) {
                Some(b) => Ok(Selector { base: b, predicate: None }),
                None => Err(ExpandFailure::Failed(span, "Invalid selector type: "@ + symbols[base.0])),
            }
        },
        ShrubModel::Identifier(sym, _, span) => if !symbols.contains_key(sym.0) {
            Err(ExpandFailure::Failed(span, "Unknown identifier: "@ + decimal(sym.0 as nat)))
        } else {
            match base_for_name(lowercase(symbols[sym.0])) {
                Some(b) => Ok(Selector { base: b, predicate: None }),
                None => Err(ExpandFailure::Failed(span, "Invalid selector type: "@ + symbols[sym.0])),
            }
        },
        _ => Err(ExpandFailure::Failed(shrub_span(s), "Expected selector"@)),
    }
}

/// Whether a condition value counts as true.
pub open spec fn truthy(v: ValueModel) -> bool {
    match v {
        ValueModel::Bool(b) => b,
        ValueModel::NoneValue => false,
        ValueModel::Int(i) => i != 0,
        ValueModel::Str(s) => s.len() != 0,
        _ => true,
    }
}

/// How an `if` chooses its branch from the value its condition expands to:
/// an integer other than 0, `true`, or a non-empty string takes the then
/// branch; 0, `false`, `none` or an empty string takes the else branch, or
/// gives `none` when there is none. The branch runs from the state the
/// condition left, and a failing condition fails the `if`.
pub proof fn lemma_if_branch(st: ExpandState, cond: ShrubModel, then_b: ShrubModel, else_b: Option<Box<ShrubModel>>, span: Span, fuel: nat)
    ensures
        ({
            let r = expanded(st, ShrubModel::If { condition: Box::new(cond), then_branch: Box::new(then_b), else_branch: else_b, span }, fuel);
            let (c, st2) = expanded(st, cond, fuel);
            let otherwise = match else_b {
                Some(e) => expanded(st2, *e, fuel),
                None => (Ok(ValueModel::NoneValue), st2),
            };
            &&& (c matches Err(f) ==> r == (Err::<ValueModel, ExpandFailure>(f), st2))
            &&& (c matches Ok(ValueModel::Int(i)) ==> r == if i != 0 { expanded(st2, then_b, fuel) } else { otherwise })
            &&& (c matches Ok(ValueModel::Bool(b)) ==> r == if b { expanded(st2, then_b, fuel) } else { otherwise })
            &&& (c matches Ok(ValueModel::Str(t)) ==> r == if t.len() > 0 { expanded(st2, then_b, fuel) } else { otherwise })
            &&& (c == Ok::<ValueModel, ExpandFailure>(ValueModel::NoneValue) ==> r == otherwise)
        }),
{
}

/// The value of a literal.
pub open spec fn literal_value(l: LiteralModel) -> ValueModel {
    match l {
        LiteralModel::NoneLit => ValueModel::NoneValue,
        LiteralModel::Bool(b) => ValueModel::Bool(b),
        LiteralModel::Int(i) => ValueModel::Int(i),
        LiteralModel::Float(f) => ValueModel::Float(f),
        LiteralModel::String(s) => ValueModel::Str(s),
        LiteralModel::Symbol(s) => ValueModel::Symbol(s),
    }
}

/// The value of a content literal holding these contents: the content
/// itself when there is one, else their sequence.
pub open spec fn bracket_value(cs: Seq<ContentValue>) -> ValueModel {
    if cs.len() == 1 {
        ValueModel::Content(cs[0])
    } else {
        ValueModel::Content(ContentValue::Sequence(cs))
    }
}

/// The body a definition stores: its only item, or the sequence of them.
pub open spec fn macro_body(body: Seq<ShrubModel>, span: Span) -> ShrubModel {
    if body.len() == 1 { body[0] } else { ShrubModel::Sequence(body, span) }
}

/// What expanding a shrubbery gives and leaves, with `fuel` splices of
/// spliced code allowed.
pub open spec fn expanded(st: ExpandState, s: ShrubModel, fuel: nat) -> (Result<ValueModel, ExpandFailure>, ExpandState)
    decreases fuel, s, 0nat,
{
    match s {
        ShrubModel::Literal(l, _) => (Ok(literal_value(l)), st),
        ShrubModel::Identifier(sym, _, span) => (Err(ExpandFailure::Unbound(span, id_key(sym.0))), st),
        ShrubModel::Sequence(items, span) => if items.len() == 0 {
            (Ok(ValueModel::NoneValue), st)
        } else if items[0] is Identifier {
            (Err(ExpandFailure::Unbound(span, id_key(items[0]->Identifier_0.0))), st)
        } else {
            expanded_items(st, items, 0, ValueModel::NoneValue, fuel)
        },
        ShrubModel::Brackets(items, _) => match expanded_contents(st, items, 0, Seq::empty(), fuel) {
            (Ok(cs), st2) => (Ok(bracket_value(cs)), st2),
            (Err(f), st2) => (Err(f), st2),
        },
        ShrubModel::Prose(text, _) => (Ok(ValueModel::Content(ContentValue::Text(text))), st),
        ShrubModel::ShowRule { selector, transform, span } => match selector_of(st.symbols, *selector) {
            Ok(sel) => (Ok(ValueModel::NoneValue), ExpandState { show: st.show.push((sel, *transform, span)), ..st }),
            Err(f) => (Err(f), st),
        },
        ShrubModel::SetRule { selector, properties, span } => match selector_of(st.symbols, *selector) {
            Ok(sel) => match expanded_props(st, properties, 0, Map::empty(), fuel) {
                (Ok(m), st2) => (Ok(ValueModel::NoneValue), ExpandState { set: st2.set.push((sel, m, span)), ..st2 }),
                (Err(f), st2) => (Err(f), st2),
            },
            Err(f) => (Err(f), st),
        },
        ShrubModel::DefBlock { name, params, body, span, .. } => {
            let m = FunctionModel::Macro {
                params: params.map_values(|p: (Symbol, Option<ShrubModel>, Option<ShrubModel>, Span)| name_or(st.symbols, p.0.0, "param_"@)),
                body: macro_body(body, span),
                env: st.hygiene,
            };
            (Ok(ValueModel::NoneValue), ExpandState { macros: st.macros.insert(name_or(st.symbols, name.0, "macro_"@), m), ..st })
        },
        ShrubModel::Quote { body, .. } => (Ok(ValueModel::Code(*body, ContentKind::Content)), st),
        ShrubModel::Splice { expr, span } => match expanded(st, *expr, fuel) {
            (Ok(ValueModel::Code(c, _)), st2) => if fuel == 0 {
                (Err(ExpandFailure::Failed(span, "Splice nesting too deep"@)), st2)
            } else {
                expanded(st2, c, (fuel - 1) as nat)
            },
            (Ok(_), st2) => (Err(ExpandFailure::Failed(span, "Splice requires quoted code"@)), st2),
            (Err(f), st2) => (Err(f), st2),
        },
        ShrubModel::If { condition, then_branch, else_branch, .. } => match expanded(st, *condition, fuel) {
            (Ok(c), st2) => if truthy(c) {
                expanded(st2, *then_branch, fuel)
            } else {
                match else_branch {
                    Some(e) => expanded(st2, *e, fuel),
                    None => (Ok(ValueModel::NoneValue), st2),
                }
            },
            (Err(f), st2) => (Err(f), st2),
        },
        // Expansion yields no array (`lemma_no_array`), so a loop never runs.
        ShrubModel::For { iterable, span, .. } => match expanded(st, *iterable, fuel) {
            (Ok(_), st2) => (Err(ExpandFailure::Failed(span, "For loop requires array"@)), st2),
            (Err(f), st2) => (Err(f), st2),
        },
        _ => (Ok(ValueModel::Shrubbery(s)), st),
    }
}

/// Expanding `items[i..]` in turn: the value of the last one, or the first
/// failure.
pub open spec fn expanded_items(st: ExpandState, items: Seq<ShrubModel>, i: int, last: ValueModel, fuel: nat) -> (Result<ValueModel, ExpandFailure>, ExpandState)
    decreases fuel, items, items.len() - i,
{
    if i < 0 || i >= items.len() {
        (Ok(last), st)
    } else {
        match expanded(st, items[i], fuel) {
            (Ok(v), st2) => expanded_items(st2, items, i + 1, v, fuel),
            (Err(f), st2) => (Err(f), st2),
        }
    }
}

/// Expanding `items[i..]` in turn and keeping the contents among the values.
pub open spec fn expanded_contents(st: ExpandState, items: Seq<ShrubModel>, i: int, acc: Seq<ContentValue>, fuel: nat) -> (Result<Seq<ContentValue>, ExpandFailure>, ExpandState)
    decreases fuel, items, items.len() - i,
{
    if i < 0 || i >= items.len() {
        (Ok(acc), st)
    } else {
        match expanded(st, items[i], fuel) {
            (Ok(ValueModel::Content(c)), st2) => expanded_contents(st2, items, i + 1, acc.push(c), fuel),
            (Ok(_), st2) => expanded_contents(st2, items, i + 1, acc, fuel),
            (Err(f), st2) => (Err(f), st2),
        }
    }
}

/// Expanding the values of the properties `ps[i..]` in turn, each stored
/// under its symbol's name.
pub open spec fn expanded_props(st: ExpandState, ps: Seq<(Symbol, ShrubModel)>, i: int, acc: Map<Seq<char>, SetValueModel>, fuel: nat) -> (Result<Map<Seq<char>, SetValueModel>, ExpandFailure>, ExpandState)
    decreases fuel, ps, ps.len() - i,
{
    if i < 0 || i >= ps.len() {
        (Ok(acc), st)
    } else {
        let name = name_or(st.symbols, ps[i].0.0, "prop_"@);
        proof {
            assert(decreases_to!(ps => ps[i]));
        }
        match expanded(st, ps[i].1, fuel) {
            (Ok(v), st2) => expanded_props(st2, ps, i + 1, acc.insert(name, set_value_of(v)), fuel),
            (Err(f), st2) => (Err(f), st2),
        }
    }
}

/// The show rules `a` are kept at the start of `b`.
pub open spec fn rules_kept(a: Seq<(Selector, ShrubModel, Span)>, b: Seq<(Selector, ShrubModel, Span)>) -> bool {
    a.len() <= b.len() && forall|k: int| 0 <= k < a.len() ==> #[trigger] b[k] == a[k]
}

/// Expansion only adds show rules after those already collected.
pub proof fn lemma_show_rules_kept(st: ExpandState, s: ShrubModel, fuel: nat)
    ensures
        rules_kept(st.show, expanded(st, s, fuel).1.show),
    decreases fuel, s, 0nat,
{
    match s {
        ShrubModel::Sequence(items, span) => {
            if items.len() > 0 && !(items[0] is Identifier) {
                lemma_items_kept(st, items, 0, ValueModel::NoneValue, fuel);
            }
        },
        ShrubModel::Brackets(items, _) => {
            lemma_contents_kept(st, items, 0, Seq::empty(), fuel);
        },
        ShrubModel::SetRule { selector, properties, span } => {
            lemma_props_kept(st, properties, 0, Map::empty(), fuel);
        },
        ShrubModel::Splice { expr, span } => {
            lemma_show_rules_kept(st, *expr, fuel);
            match expanded(st, *expr, fuel) {
                (Ok(ValueModel::Code(c, _)), st2) => {
                    if fuel > 0 {
                        lemma_show_rules_kept(st2, c, (fuel - 1) as nat);
                    }
                },
                _ => {},
            }
        },
        ShrubModel::If { condition, then_branch, else_branch, .. } => {
            lemma_show_rules_kept(st, *condition, fuel);
            match expanded(st, *condition, fuel) {
                (Ok(c), st2) => {
                    lemma_show_rules_kept(st2, *then_branch, fuel);
                    match else_branch {
                        Some(e) => lemma_show_rules_kept(st2, *e, fuel),
                        None => {},
                    }
                },
                _ => {},
            }
        },
        ShrubModel::For { iterable, .. } => {
            lemma_show_rules_kept(st, *iterable, fuel);
        },
        _ => {},
    }
}

proof fn lemma_items_kept(st: ExpandState, items: Seq<ShrubModel>, i: int, last: ValueModel, fuel: nat)
    ensures
        rules_kept(st.show, expanded_items(st, items, i, last, fuel).1.show),
    decreases fuel, items, items.len() - i,
{
    if 0 <= i < items.len() {
        lemma_show_rules_kept(st, items[i], fuel);
        match expanded(st, items[i], fuel) {
            (Ok(v), st2) => lemma_items_kept(st2, items, i + 1, v, fuel),
            _ => {},
        }
    }
}

proof fn lemma_contents_kept(st: ExpandState, items: Seq<ShrubModel>, i: int, acc: Seq<ContentValue>, fuel: nat)
    ensures
        rules_kept(st.show, expanded_contents(st, items, i, acc, fuel).1.show),
    decreases fuel, items, items.len() - i,
{
    if 0 <= i < items.len() {
        lemma_show_rules_kept(st, items[i], fuel);
        match expanded(st, items[i], fuel) {
            (Ok(ValueModel::Content(c)), st2) => lemma_contents_kept(st2, items, i + 1, acc.push(c), fuel),
            (Ok(_), st2) => lemma_contents_kept(st2, items, i + 1, acc, fuel),
            _ => {},
        }
    }
}

proof fn lemma_props_kept(st: ExpandState, ps: Seq<(Symbol, ShrubModel)>, i: int, acc: Map<Seq<char>, SetValueModel>, fuel: nat)
    ensures
        rules_kept(st.show, expanded_props(st, ps, i, acc, fuel).1.show),
    decreases fuel, ps, ps.len() - i,
{
    if 0 <= i < ps.len() {
        assert(decreases_to!(ps => ps[i]));
        lemma_show_rules_kept(st, ps[i].1, fuel);
        let name = name_or(st.symbols, ps[i].0.0, "prop_"@);
        match expanded(st, ps[i].1, fuel) {
            (Ok(v), st2) => lemma_props_kept(st2, ps, i + 1, acc.insert(name, set_value_of(v)), fuel),
            _ => {},
        }
    }
}

// ===== Show rules =====

/// The show rules as collected: selector, transform, span.
pub type ShowModels = Seq<(Selector, ShrubModel, Span)>;

/// The last of the first `n` show rules whose selector matches `c`.
pub open spec fn match_from(rules: ShowModels, c: Content, n: int) -> Option<int>
    decreases n,
{
    if n <= 0 {
        None
    } else if selector_matches(rules[n - 1].0, c) {
        Some(n - 1)
    } else {
        match_from(rules, c, n - 1)
    }
}

/// The rule that shows `c`: the last one that matches.
pub open spec fn show_match(rules: ShowModels, c: Content) -> Option<int> {
    match_from(rules, c, rules.len() as int)
}

/// Content whose value is inline.
pub open spec fn inline_value(cv: ContentValue) -> bool {
    cv is Text || (cv matches ContentValue::Other(c) && c is Inline)
}

/// Expanding a transform: the failure, if any (a value that is not content
/// fails at the transform), and the state it leaves.
pub open spec fn transform_step(st: ExpandState, t: ShrubModel, fuel: nat) -> (Option<ExpandFailure>, ExpandState) {
    let (res, s2) = expanded(st, t, fuel);
    (match res {
        Ok(ValueModel::Content(_)) => None,
        Ok(_) => Some(ExpandFailure::Failed(shrub_span(t), "Show rule transform must produce content"@)),
        Err(f) => Some(f),
    }, s2)
}

/// Expanding the transform of an inline: content that is not inline fails
/// at the rule.
pub open spec fn inline_transform_step(st: ExpandState, t: ShrubModel, span: Span, fuel: nat) -> (Option<ExpandFailure>, ExpandState) {
    let (res, s2) = expanded(st, t, fuel);
    (match res {
        Ok(ValueModel::Content(cv)) => if inline_value(cv) {
            None
        } else {
            Some(ExpandFailure::Failed(span, "Show rule for inline must produce inline content"@))
        },
        Ok(_) => Some(ExpandFailure::Failed(shrub_span(t), "Show rule transform must produce content"@)),
        Err(f) => Some(f),
    }, s2)
}

/// The content value a transform produced.
pub open spec fn transform_value(st: ExpandState, t: ShrubModel, fuel: nat) -> ContentValue {
    expanded(st, t, fuel).0->Ok_0->Content_0
}

/// Showing content: the failure, if any, and the state left. The last
/// matching rule transforms it; else its children are shown in order.
pub open spec fn show_step(st: ExpandState, rules: ShowModels, c: Content, fuel: nat) -> (Option<ExpandFailure>, ExpandState)
    decreases c, 0nat,
{
    match show_match(rules, c) {
        Some(k) => if 0 <= k < rules.len() { transform_step(st, rules[k].1, fuel) } else { (None, st) },
        None => match c {
            Content::Block(b) => block_step(st, rules, b, fuel),
            Content::Inline(i) => inline_step(st, rules, i, fuel),
            Content::Sequence(items) => contents_step(st, rules, items@, fuel),
        },
    }
}

/// Showing contents in order, stopping at the first failure.
pub open spec fn contents_step(st: ExpandState, rules: ShowModels, cs: Seq<Content>, fuel: nat) -> (Option<ExpandFailure>, ExpandState)
    decreases cs, 1nat,
{
    if cs.len() == 0 {
        (None, st)
    } else {
        let (e0, s1) = show_step(st, rules, cs[0], fuel);
        if e0 is Some { (e0, s1) } else { contents_step(s1, rules, cs.drop_first(), fuel) }
    }
}

/// Showing a block: the bodies of headings, paragraphs, block quotes,
/// directives and list items are shown; other blocks stay.
pub open spec fn block_step(st: ExpandState, rules: ShowModels, b: Block, fuel: nat) -> (Option<ExpandFailure>, ExpandState)
    decreases b, 0nat,
{
    match b {
        Block::Heading { body, .. } => inline_step(st, rules, *body, fuel),
        Block::Paragraph { body, .. } => inline_step(st, rules, *body, fuel),
        Block::Blockquote { body, .. } => show_step(st, rules, *body, fuel),
        Block::Directive { body, .. } => show_step(st, rules, *body, fuel),
        Block::List { items, .. } => items_step(st, rules, items@, fuel),
        _ => (None, st),
    }
}

/// Showing the bodies of list items in order.
pub open spec fn items_step(st: ExpandState, rules: ShowModels, items: Seq<ListItem>, fuel: nat) -> (Option<ExpandFailure>, ExpandState)
    decreases items, 1nat,
{
    if items.len() == 0 {
        (None, st)
    } else {
        let (e0, s1) = inline_step(st, rules, items[0].body, fuel);
        if e0 is Some { (e0, s1) } else { items_step(s1, rules, items.drop_first(), fuel) }
    }
}

/// Showing an inline: the last matching rule transforms it into inline
/// content; else its inline children are shown.
pub open spec fn inline_step(st: ExpandState, rules: ShowModels, i: Inline, fuel: nat) -> (Option<ExpandFailure>, ExpandState)
    decreases i, 0nat,
{
    match show_match(rules, Content::Inline(i)) {
        Some(k) => if 0 <= k < rules.len() { inline_transform_step(st, rules[k].1, rules[k].2, fuel) } else { (None, st) },
        None => match i {
            Inline::Emphasis(x) => inline_step(st, rules, *x, fuel),
            Inline::Strong(x) => inline_step(st, rules, *x, fuel),
            Inline::Link { body, .. } => inline_step(st, rules, *body, fuel),
            Inline::Span { body, .. } => inline_step(st, rules, *body, fuel),
            Inline::Sequence(items) => inlines_step(st, rules, items@, fuel),
            _ => (None, st),
        },
    }
}

/// Showing inlines in order, stopping at the first failure.
pub open spec fn inlines_step(st: ExpandState, rules: ShowModels, xs: Seq<Inline>, fuel: nat) -> (Option<ExpandFailure>, ExpandState)
    decreases xs, 1nat,
{
    if xs.len() == 0 {
        (None, st)
    } else {
        let (e0, s1) = inline_step(st, rules, xs[0], fuel);
        if e0 is Some { (e0, s1) } else { inlines_step(s1, rules, xs.drop_first(), fuel) }
    }
}

/// What showing `c` produces when it succeeds: a transformed element has
/// the transform's content; other elements keep their kind and fields, with
/// their shown children.
pub open spec fn show_out(st: ExpandState, rules: ShowModels, c: Content, r: Content, fuel: nat) -> bool
    decreases c, 0nat,
{
    match show_match(rules, c) {
        Some(k) => 0 <= k < rules.len() && content_value(r) == transform_value(st, rules[k].1, fuel),
        None => match c {
            Content::Block(b) => r matches Content::Block(b2) && block_out(st, rules, b, b2, fuel),
            Content::Inline(i) => r matches Content::Inline(i2) && inline_out(st, rules, i, i2, fuel),
            Content::Sequence(items) => r matches Content::Sequence(rs) && contents_out(st, rules, items@, rs@, fuel),
        },
    }
}

/// Shown contents, each from the state the previous ones left.
pub open spec fn contents_out(st: ExpandState, rules: ShowModels, cs: Seq<Content>, rs: Seq<Content>, fuel: nat) -> bool
    decreases cs, 1nat,
{
    &&& cs.len() == rs.len()
    &&& cs.len() > 0 ==> show_out(st, rules, cs[0], rs[0], fuel)
        && contents_out(show_step(st, rules, cs[0], fuel).1, rules, cs.drop_first(), rs.drop_first(), fuel)
}

/// A shown block.
pub open spec fn block_out(st: ExpandState, rules: ShowModels, b: Block, r: Block, fuel: nat) -> bool
    decreases b, 0nat,
{
    match b {
        Block::Heading { level, body, attrs } => r matches Block::Heading { level: l2, body: y, attrs: a2 }
            && l2 == level && a2 == attrs && inline_out(st, rules, *body, *y, fuel),
        Block::Paragraph { body, attrs } => r matches Block::Paragraph { body: y, attrs: a2 }
            && a2 == attrs && inline_out(st, rules, *body, *y, fuel),
        Block::Blockquote { body, attrs } => r matches Block::Blockquote { body: y, attrs: a2 }
            && a2 == attrs && show_out(st, rules, *body, *y, fuel),
        Block::Directive { name, args, body, attrs } => r matches Block::Directive { name: n2, args: g2, body: y, attrs: a2 }
            && n2 == name && g2 == args && a2 == attrs && show_out(st, rules, *body, *y, fuel),
        Block::List { items, ordered, attrs } => r matches Block::List { items: i2, ordered: o2, attrs: a2 }
            && o2 == ordered && a2 == attrs && items_out(st, rules, items@, i2@, fuel),
        _ => r == b,
    }
}

/// Shown list items: bodies shown, nested lists and attributes kept.
pub open spec fn items_out(st: ExpandState, rules: ShowModels, items: Seq<ListItem>, rs: Seq<ListItem>, fuel: nat) -> bool
    decreases items, 1nat,
{
    &&& items.len() == rs.len()
    &&& items.len() > 0 ==> inline_out(st, rules, items[0].body, rs[0].body, fuel)
        && rs[0].nested == items[0].nested && rs[0].attrs == items[0].attrs
        && items_out(inline_step(st, rules, items[0].body, fuel).1, rules, items.drop_first(), rs.drop_first(), fuel)
}

/// A shown inline.
pub open spec fn inline_out(st: ExpandState, rules: ShowModels, i: Inline, r: Inline, fuel: nat) -> bool
    decreases i, 0nat,
{
    match show_match(rules, Content::Inline(i)) {
        Some(k) => 0 <= k < rules.len() && content_value(Content::Inline(r)) == transform_value(st, rules[k].1, fuel),
        None => match i {
            Inline::Emphasis(x) => r matches Inline::Emphasis(y) && inline_out(st, rules, *x, *y, fuel),
            Inline::Strong(x) => r matches Inline::Strong(y) && inline_out(st, rules, *x, *y, fuel),
            Inline::Link { body, url, title } => r matches Inline::Link { body: y, url: u2, title: t2 }
                && u2 == url && t2 == title && inline_out(st, rules, *body, *y, fuel),
            Inline::Span { body, attrs } => r matches Inline::Span { body: y, attrs: a2 }
                && a2 == attrs && inline_out(st, rules, *body, *y, fuel),
            Inline::Sequence(items) => r matches Inline::Sequence(rs) && inlines_out(st, rules, items@, rs@, fuel),
            _ => r == i,
        },
    }
}

/// Shown inlines, each from the state the previous ones left.
pub open spec fn inlines_out(st: ExpandState, rules: ShowModels, xs: Seq<Inline>, rs: Seq<Inline>, fuel: nat) -> bool
    decreases xs, 1nat,
{
    &&& xs.len() == rs.len()
    &&& xs.len() > 0 ==> inline_out(st, rules, xs[0], rs[0], fuel)
        && inlines_out(inline_step(st, rules, xs[0], fuel).1, rules, xs.drop_first(), rs.drop_first(), fuel)
}

/// The outcome of showing against its specification.
pub open spec fn shown_outcome<T>(r: Result<T, MrlError>, e: Option<ExpandFailure>, ok: spec_fn(T) -> bool) -> bool {
    match e {
        None => r matches Ok(x) && ok(x),
        Some(f) => r matches Err(x) && expand_fails(x, f),
    }
}

proof fn lemma_match_kept(rules: Seq<(Selector, ShrubModel, Span)>, all: Seq<(Selector, ShrubModel, Span)>, c: Content, m: int)
    requires
        rules_kept(rules, all),
        m <= rules.len(),
    ensures
        match_from(rules, c, m) == match_from(all, c, m),
    decreases m,
{
    if m > 0 {
        assert(all[m - 1] == rules[m - 1]);
        lemma_match_kept(rules, all, c, m - 1);
    }
}

/// The outcome of an expansion against its specification.
pub open spec fn expand_outcome(r: Result<ExpandValue, MrlError>, o: Result<ValueModel, ExpandFailure>) -> bool {
    match o {
        Ok(v) => r matches Ok(x) && x@ == v,
        Err(f) => r matches Err(e) && expand_fails(e, f),
    }
}

/// Expansion never yields an array: no form builds one.
pub proof fn lemma_no_array(st: ExpandState, s: ShrubModel, fuel: nat)
    ensures
        expanded(st, s, fuel).0 matches Ok(v) ==> !(v is Array),
    decreases fuel, s, 0nat,
{
    match s {
        ShrubModel::Sequence(items, span) => {
            if items.len() > 0 && !(items[0] is Identifier) {
                lemma_items_no_array(st, items, 0, ValueModel::NoneValue, fuel);
            }
        },
        ShrubModel::Splice { expr, span } => {
            lemma_no_array(st, *expr, fuel);
            match expanded(st, *expr, fuel) {
                (Ok(ValueModel::Code(c, _)), st2) => {
                    if fuel > 0 {
                        lemma_no_array(st2, c, (fuel - 1) as nat);
                    }
                },
                _ => {},
            }
        },
        ShrubModel::If { condition, then_branch, else_branch, .. } => {
            lemma_no_array(st, *condition, fuel);
            match expanded(st, *condition, fuel) {
                (Ok(c), st2) => {
                    lemma_no_array(st2, *then_branch, fuel);
                    match else_branch {
                        Some(e) => lemma_no_array(st2, *e, fuel),
                        None => {},
                    }
                },
                _ => {},
            }
        },
        _ => {},
    }
}

proof fn lemma_items_no_array(st: ExpandState, items: Seq<ShrubModel>, i: int, last: ValueModel, fuel: nat)
    requires
        !(last is Array),
    ensures
        expanded_items(st, items, i, last, fuel).0 matches Ok(v) ==> !(v is Array),
    decreases fuel, items, items.len() - i,
{
    if 0 <= i < items.len() {
        lemma_no_array(st, items[i], fuel);
        match expanded(st, items[i], fuel) {
            (Ok(v), st2) => lemma_items_no_array(st2, items, i + 1, v, fuel),
            _ => {},
        }
    }
}

/// The symbol names of a symbol map.
pub open spec fn symbol_map(m: Map<u64, String>) -> Map<u64, Seq<char>> {
    Map::new(|k: u64| m.contains_key(k), |k: u64| m[k]@)
}

/// The show rules as (selector, transform, span).
pub open spec fn show_models(rs: Seq<ShowRule>) -> Seq<(Selector, ShrubModel, Span)> {
    Seq::new(rs.len(), |i: int| (rs[i].selector, (*rs[i].transform)@, rs[i].span))
}

/// The properties of a set rule.
pub open spec fn props_model(p: StrMap<SetValue>) -> Map<Seq<char>, SetValueModel> {
    Map::new(|k: Seq<char>| p.has(k), |k: Seq<char>| set_value_model(p.value_at(k)))
}

/// The set rules as (selector, properties, span).
pub open spec fn set_models(rs: Seq<SetRule>) -> Seq<(Selector, Map<Seq<char>, SetValueModel>, Span)> {
    Seq::new(rs.len(), |i: int| (rs[i].selector, props_model(rs[i].properties), rs[i].span))
}

/// The macros by name.
pub open spec fn macro_models(m: StrMap<ExpandFunction>) -> Map<Seq<char>, FunctionModel> {
    Map::new(|k: Seq<char>| m.has(k), |k: Seq<char>| m.value_at(k)@)
}

/// Expander state.
pub struct Expander {
    /// Variable bindings, by plain name.
    env: StrMap<ExpandValue>,
    /// Hygiene environment that macros are defined in.
    hygiene: HygieneEnv,
    /// Next scope id.
    next_scope_id: u64,
    /// Macro definitions.
    macros: StrMap<ExpandFunction>,
    /// Collected show and set rules.
    rules: RuleSet,
    /// Names of symbol ids.
    symbols: HashMap<u64, String>,
}

/// A key that no `id:` key equals: its second character is not `d`.
pub open spec fn plain_key(k: Seq<char>) -> bool {
    k.len() >= 2 && k[1] != 'd'
}

fn failed(span: Span, message: &str) -> (e: MrlError)
    ensures
        expand_fails(e, ExpandFailure::Failed(span, message@)),
{
    MrlError::ExpansionError { span, message: to_owned_string(message) }
}

/// The text `id:` and the decimal number of `id`.
fn id_name(id: u64) -> (r: String)
    ensures
        r@ == id_key(id),
        r@.len() >= 2 && r@[1] == 'd',
{
    let mut s = to_owned_string("id:");
    let d = u64_to_text(id);
    push_str(&mut s, d.as_str());
    proof {
        reveal_strlit("id:");
    }
    s
}

impl Expander {
    /// The names of symbol ids.
    pub closed spec fn symbol_names(&self) -> Map<u64, Seq<char>> {
        symbol_map(self.symbols@)
    }

    /// The collected show rules.
    pub closed spec fn show_rules(&self) -> Seq<(Selector, ShrubModel, Span)> {
        show_models(self.rules.show_rules@)
    }

    /// The collected set rules.
    pub closed spec fn set_rules(&self) -> Seq<(Selector, Map<Seq<char>, SetValueModel>, Span)> {
        set_models(self.rules.set_rules@)
    }

    /// The defined macros.
    pub closed spec fn macro_defs(&self) -> Map<Seq<char>, FunctionModel> {
        macro_models(self.macros)
    }

    /// The hygiene environment macros are defined in.
    pub closed spec fn hygiene_env(&self) -> Seq<BindingModel> {
        self.hygiene@
    }

    /// What expansion reads and changes.
    pub open spec fn model(&self) -> ExpandState {
        ExpandState {
            symbols: self.symbol_names(),
            show: self.show_rules(),
            set: self.set_rules(),
            macros: self.macro_defs(),
            hygiene: self.hygiene_env(),
        }
    }

    /// Bindings are keyed by plain names: the built-ins, and names bound
    /// while a transform or loop runs; no key has the form `id:`.
    pub closed spec fn wf(&self) -> bool {
        forall|k: Seq<char>| #[trigger] self.env.has(k) ==> plain_key(k)
    }

    /// An expander with the built-in functions, no symbol names, no rules
    /// and no macros.
    pub fn new() -> (r: Self)
        ensures
            r.wf(),
            r.symbol_names() == Map::<u64, Seq<char>>::empty(),
            r.show_rules().len() == 0,
            r.set_rules().len() == 0,
            r.macro_defs() == Map::<Seq<char>, FunctionModel>::empty(),
            r.hygiene_env() == Seq::<BindingModel>::empty(),
            r.model() == fresh_expand_state(),
    {
        let mut expander = Expander {
            env: StrMap::new(),
            hygiene: HygieneEnv::new(),
            next_scope_id: 0,
            macros: StrMap::new(),
            rules: RuleSet::new(),
            symbols: HashMap::new(),
        };
        expander.register_builtins();
        assert(expander.symbol_names() =~= Map::<u64, Seq<char>>::empty());
        assert(expander.macro_defs() =~= Map::<Seq<char>, FunctionModel>::empty());
        assert(expander.show_rules() =~= Seq::empty());
        assert(expander.set_rules() =~= Seq::empty());
        expander
    }

    /// Register the built-in functions.
    fn register_builtins(&mut self)
        requires
            old(self).wf(),
        ensures
            final(self).wf(),
            final(self).model() == old(self).model(),
    {
        proof {
            reveal_strlit("text");
            reveal_strlit("paragraph");
            reveal_strlit("heading");
            reveal_strlit("emphasis");
            reveal_strlit("strong");
            reveal_strlit("quote");
            reveal_strlit("splice");
            reveal_strlit("eval_expand");
        }
        self.register_native("text", 1, Builtin::Text);
        self.register_native("paragraph", 1, Builtin::Paragraph);
        self.register_native("heading", 2, Builtin::Heading);
        self.register_native("emphasis", 1, Builtin::Emphasis);
        self.register_native("strong", 1, Builtin::Strong);
        self.register_native("quote", 1, Builtin::Quote);
        self.register_native("splice", 1, Builtin::Splice);
        self.register_native("eval_expand", 1, Builtin::EvalExpand);
    }

    /// Bind a built-in function under its name.
    fn register_native(&mut self, name: &str, arity: usize, builtin: Builtin)
        requires
            old(self).wf(),
            plain_key(name@),
        ensures
            final(self).wf(),
            final(self).model() == old(self).model(),
            final(self).env.has(name@),
    {
        let f = ExpandFunction::Native { name: to_owned_string(name), arity, builtin };
        self.env.insert(to_owned_string(name), ExpandValue::Function(f));
    }

    /// Replace the symbol names.
    pub fn set_symbols(&mut self, symbols: HashMap<u64, String>)
        requires
            old(self).wf(),
        ensures
            final(self).wf(),
            final(self).symbol_names() == symbol_map(symbols@),
            final(self).show_rules() == old(self).show_rules(),
            final(self).set_rules() == old(self).set_rules(),
            final(self).macro_defs() == old(self).macro_defs(),
            final(self).hygiene_env() == old(self).hygiene_env(),
    {
        self.symbols = symbols;
    }

    /// Register the name of a symbol id.
    pub fn register_symbol(&mut self, id: u64, name: String)
        requires
            old(self).wf(),
        ensures
            final(self).wf(),
            final(self).symbol_names() == old(self).symbol_names().insert(id, name@),
            final(self).show_rules() == old(self).show_rules(),
            final(self).set_rules() == old(self).set_rules(),
            final(self).macro_defs() == old(self).macro_defs(),
            final(self).hygiene_env() == old(self).hygiene_env(),
    {
        let ghost before = self.symbol_names();
        let ghost n = name@;
        self.symbols.insert(id, name);
        assert(self.symbol_names() =~= before.insert(id, n));
    }

    /// The collected rules.
    pub fn rules(&self) -> (r: &RuleSet)
        ensures
            show_models(r.show_rules@) == self.show_rules(),
            set_models(r.set_rules@) == self.set_rules(),
    {
        &self.rules
    }

    /// The collected rules, to change: what is left in them afterwards
    /// becomes the expander's rules; nothing else changes.
    pub fn rules_mut(&mut self) -> (r: &mut RuleSet)
        ensures
            show_models(r.show_rules@) == old(self).show_rules(),
            set_models(r.set_rules@) == old(self).set_rules(),
            final(self).show_rules() == show_models(final(r).show_rules@),
            final(self).set_rules() == set_models(final(r).set_rules@),
            final(self).symbol_names() == old(self).symbol_names(),
            final(self).macro_defs() == old(self).macro_defs(),
            final(self).hygiene_env() == old(self).hygiene_env(),
            old(self).wf() ==> final(self).wf(),
    {
        &mut self.rules
    }

    /// Define a macro with its parameter names and body, in a child of the
    /// hygiene environment.
    pub fn define_macro(&mut self, name: String, params: Vec<String>, body: Shrubbery)
        requires
            old(self).wf(),
        ensures
            final(self).wf(),
            final(self).macro_defs() == old(self).macro_defs().insert(
                name@,
                FunctionModel::Macro { params: params@.map_values(|p: String| p@), body: body@, env: old(self).hygiene_env() },
            ),
            final(self).symbol_names() == old(self).symbol_names(),
            final(self).show_rules() == old(self).show_rules(),
            final(self).set_rules() == old(self).set_rules(),
            final(self).hygiene_env() == old(self).hygiene_env(),
    {
        let ghost before = self.macro_defs();
        let ghost k = name@;
        let env = self.hygiene.child();
        let f = ExpandFunction::Macro { params, body: Box::new(body), env };
        let ghost fm = f@;
        self.macros.insert(name, f);
        assert(self.macro_defs() =~= before.insert(k, fm));
    }

    /// The name of symbol `id`, or `prefix` and its number.
    fn name_for(&self, id: u64, prefix: &str) -> (r: String)
        ensures
            r@ == name_or(self.symbol_names(), id, prefix@),
    {
        match self.symbols.get(&id) {
            Some(n) => n.clone(),
            None => {
                let mut s = to_owned_string(prefix);
                let d = u64_to_text(id);
                push_str(&mut s, d.as_str());
                s
            },
        }
    }

    /// The selector that a shrubbery names.
    fn parse_selector(&self, shrub: &Shrubbery) -> (r: Result<Selector, MrlError>)
        ensures
            match selector_of(self.symbol_names(), shrub@) {
                Ok(sel) => r == Ok::<Selector, MrlError>(sel),
                Err(f) => r matches Err(e) && expand_fails(e, f),
            },
    {
        let (id, span, unknown) = match shrub {
            Shrubbery::Selector { base, span, .. } => (base.id(), *span, "Unknown selector base: "),
            Shrubbery::Identifier(sym, _, span) => (sym.id(), *span, "Unknown identifier: "),
            _ => return Err(failed(shrub.span(), "Expected selector")),
        };
        match self.symbols.get(&id) {
            None => {
                let mut message = to_owned_string(unknown);
                let d = u64_to_text(id);
                push_str(&mut message, d.as_str());
                Err(MrlError::ExpansionError { span, message })
            },
            Some(name) => match SelectorBase::from_name(name.as_str()) {
                Some(base) => Ok(Selector::new(base)),
                None => {
                    let mut message = to_owned_string("Invalid selector type: ");
                    push_str(&mut message, name.as_str());
                    Err(MrlError::ExpansionError { span, message })
                },
            },
        }
    }

    /// Expand a shrubbery to a value, collecting rules and macros on the way.
    pub fn expand(&mut self, shrub: &Shrubbery) -> (r: Result<ExpandValue, MrlError>)
        requires
            old(self).wf(),
        ensures
            final(self).wf(),
            expand_outcome(r, expanded(old(self).model(), shrub@, u64::MAX as nat).0),
            final(self).model() == expanded(old(self).model(), shrub@, u64::MAX as nat).1,
    {
        self.expand_within(shrub, u64::MAX)
    }

    /// Expand with `fuel` splices of spliced code allowed.
    fn expand_within(&mut self, shrub: &Shrubbery, fuel: u64) -> (r: Result<ExpandValue, MrlError>)
        requires
            old(self).wf(),
        ensures
            final(self).wf(),
            expand_outcome(r, expanded(old(self).model(), shrub@, fuel as nat).0),
            final(self).model() == expanded(old(self).model(), shrub@, fuel as nat).1,
        decreases fuel, shrub, 0nat,
    {
        let ghost st = self.model();
        match shrub {
            Shrubbery::Literal(lit, sp) => {
                assert(shrub@ == ShrubModel::Literal(lit@, *sp));
                let v = match lit {
                    Literal::NoneLit => ExpandValue::NoneValue,
                    Literal::Bool(b) => ExpandValue::Bool(*b),
                    Literal::Int(i) => ExpandValue::Int(*i),
                    Literal::Float(f) => ExpandValue::Float(f.clone()),
                    Literal::String(s) => ExpandValue::String(s.clone()),
                    Literal::Symbol(s) => ExpandValue::Symbol(s.clone()),
                };
                Ok(v)
            },
            Shrubbery::Identifier(sym, sc, span) => {
                assert(shrub@ == ShrubModel::Identifier(*sym, sc@, *span));
                let name = id_name(sym.id());
                // Bindings are keyed by plain names, so an `id:` key is never bound.
                match self.env.get(name.as_str()) {
                    Some(_) => unreached(),
                    None => Err(MrlError::UnboundIdentifier { span: *span, name }),
                }
            },
            Shrubbery::Sequence(items, span) => {
                assert(shrub@ == ShrubModel::Sequence(shrub_models(items), *span));
                if items.len() == 0 {
                    return Ok(ExpandValue::NoneValue);
                }
                match &items[0] {
                    Shrubbery::Identifier(sym, _, _) => {
                        let name = id_name(sym.id());
                        // The call target is looked up like any identifier.
                        match self.env.get(name.as_str()) {
                            Some(_) => unreached(),
                            None => Err(MrlError::UnboundIdentifier { span: *span, name }),
                        }
                    },
                    _ => self.expand_items(items, fuel),
                }
            },
            Shrubbery::Brackets(items, sp) => {
                assert(shrub@ == ShrubModel::Brackets(shrub_models(items), *sp));
                let mut contents = match self.expand_contents(items, fuel) {
                    Ok(c) => c,
                    Err(e) => return Err(e),
                };
                if contents.len() == 1 {
                    let c = contents.remove(0);
                    Ok(ExpandValue::Content(c))
                } else {
                    let ghost cs = contents@;
                    let r = Content::Sequence(contents);
                    proof {
                        let sq = Seq::new(cs.len(), |i: int| if 0 <= i < cs.len() { content_value(cs[i]) } else { ContentValue::Text(Seq::empty()) });
                        assert(r matches Content::Sequence(v) && v@ == cs);
                        assert(content_value(r)->Sequence_0 =~= sq);
                        assert(sq =~= content_values(cs));
                        assert(content_value(r) == ContentValue::Sequence(content_values(cs)));
                    }
                    Ok(ExpandValue::Content(r))
                }
            },
            Shrubbery::Prose(text, sp) => {
                assert(shrub@ == ShrubModel::Prose(text@, *sp));
                Ok(ExpandValue::Content(Content::Inline(Inline::Text(text.clone()))))
            },
            Shrubbery::ContentBlock(..) => Ok(ExpandValue::Shrubbery(Box::new(shrub.duplicate()))),
            Shrubbery::Parens(..) => Ok(ExpandValue::Shrubbery(Box::new(shrub.duplicate()))),
            Shrubbery::Braces(..) => Ok(ExpandValue::Shrubbery(Box::new(shrub.duplicate()))),
            Shrubbery::Operator(..) => Ok(ExpandValue::Shrubbery(Box::new(shrub.duplicate()))),
            Shrubbery::StagedBlock { .. } => Ok(ExpandValue::Shrubbery(Box::new(shrub.duplicate()))),
            Shrubbery::LiveBlock { .. } => Ok(ExpandValue::Shrubbery(Box::new(shrub.duplicate()))),
            Shrubbery::Selector { .. } => Ok(ExpandValue::Shrubbery(Box::new(shrub.duplicate()))),
            Shrubbery::ShowRule { selector, transform, span } => {
                assert(shrub@ == ShrubModel::ShowRule { selector: Box::new((**selector)@), transform: Box::new((**transform)@), span: *span });
                let sel = match self.parse_selector(selector) {
                    Ok(s) => s,
                    Err(e) => return Err(e),
                };
                let ghost before = self.rules.show_rules@;
                let rule = ShowRule { selector: sel, transform: Box::new((**transform).duplicate()), span: *span };
                self.rules.add_show_rule(rule);
                assert(self.show_rules() =~= show_models(before).push((sel, (**transform)@, *span)));
                Ok(ExpandValue::NoneValue)
            },
            Shrubbery::SetRule { selector, properties, span } => {
                assert(shrub@ == ShrubModel::SetRule { selector: Box::new((**selector)@), properties: crate::mrl::shrubbery::property_seq_model(properties), span: *span });
                let sel = match self.parse_selector(selector) {
                    Ok(s) => s,
                    Err(e) => return Err(e),
                };
                let props = match self.expand_props(properties, fuel) {
                    Ok(p) => p,
                    Err(e) => return Err(e),
                };
                let ghost before = self.rules.set_rules@;
                let ghost pm = props_model(props);
                self.rules.add_set_rule(SetRule { selector: sel, properties: props, span: *span });
                assert(self.set_rules() =~= set_models(before).push((sel, pm, *span)));
                Ok(ExpandValue::NoneValue)
            },
            Shrubbery::DefBlock { name, params, return_type, body, span } => {
                assert(shrub@ == ShrubModel::DefBlock {
                    name: *name,
                    params: crate::mrl::shrubbery::param_seq_model(params),
                    return_type: crate::mrl::shrubbery::opt_box_model(return_type),
                    body: shrub_models(body),
                    span: *span,
                });
                let name_str = self.name_for(name.id(), "macro_");
                let mut param_names: Vec<String> = Vec::new();
                let ghost pms = crate::mrl::shrubbery::param_seq_model(params);
                let mut i: usize = 0;
                while i < params.len()
                    invariant
                        0 <= i <= params@.len(),
                        pms == crate::mrl::shrubbery::param_seq_model(params),
                        param_names@.map_values(|p: String| p@) == pms.take(i as int).map_values(
                            |p: (Symbol, Option<ShrubModel>, Option<ShrubModel>, Span)| name_or(st.symbols, p.0.0, "param_"@),
                        ),
                        self.symbol_names() == st.symbols,
                    decreases params@.len() - i,
                {
                    let n = self.name_for(params[i].name.id(), "param_");
                    let ghost before = param_names@;
                    let ghost nv = n@;
                    param_names.push(n);
                    assert(param_names@.map_values(|p: String| p@) =~= before.map_values(|p: String| p@).push(nv));
                    assert(pms[i as int].0 == params@[i as int].name);
                    assert(pms.take(i + 1) =~= pms.take(i as int).push(pms[i as int]));
                    assert(pms.take(i + 1).map_values(|p: (Symbol, Option<ShrubModel>, Option<ShrubModel>, Span)| name_or(st.symbols, p.0.0, "param_"@))
                        =~= pms.take(i as int).map_values(|p: (Symbol, Option<ShrubModel>, Option<ShrubModel>, Span)| name_or(st.symbols, p.0.0, "param_"@)).push(nv));
                    i = i + 1;
                }
                assert(pms.take(params@.len() as int) =~= pms);
                let body_shrub = if body.len() == 1 {
                    body[0].duplicate()
                } else {
                    Shrubbery::Sequence(duplicate_items(body), *span)
                };
                assert(body_shrub@ == macro_body(shrub_models(body), *span));
                self.define_macro(name_str, param_names, body_shrub);
                Ok(ExpandValue::NoneValue)
            },
            Shrubbery::Quote { body, span } => {
                assert(shrub@ == ShrubModel::Quote { body: Box::new((**body)@), span: *span });
                Ok(ExpandValue::Code(Box::new((**body).duplicate()), ContentKind::Content))
            },
            Shrubbery::Splice { expr, span } => {
                assert(shrub@ == ShrubModel::Splice { expr: Box::new((**expr)@), span: *span });
                let value = match self.expand_within(expr, fuel) {
                    Ok(v) => v,
                    Err(e) => return Err(e),
                };
                match value {
                    ExpandValue::Code(code, _) => {
                        if fuel == 0 {
                            Err(failed(*span, "Splice nesting too deep"))
                        } else {
                            self.expand_within(&code, fuel - 1)
                        }
                    },
                    _ => Err(failed(*span, "Splice requires quoted code")),
                }
            },
            Shrubbery::If { condition, then_branch, else_branch, span } => {
                assert(shrub@ == ShrubModel::If {
                    condition: Box::new((**condition)@),
                    then_branch: Box::new((**then_branch)@),
                    else_branch: crate::mrl::shrubbery::opt_box_model(else_branch),
                    span: *span,
                });
                let cond = match self.expand_within(condition, fuel) {
                    Ok(v) => v,
                    Err(e) => return Err(e),
                };
                let is_true = match &cond {
                    ExpandValue::Bool(b) => *b,
                    ExpandValue::NoneValue => false,
                    ExpandValue::Int(i) => *i != 0,
                    ExpandValue::String(s) => !s.as_str().is_empty(),
                    _ => true,
                };
                if is_true {
                    self.expand_within(then_branch, fuel)
                } else {
                    match else_branch {
                        Some(e) => self.expand_within(e, fuel),
                        None => Ok(ExpandValue::NoneValue),
                    }
                }
            },
            Shrubbery::For { pattern, iterable, body, span } => {
                assert(shrub@ == ShrubModel::For { pattern: *pattern, iterable: Box::new((**iterable)@), body: Box::new((**body)@), span: *span });
                let ghost inner = (**iterable)@;
                let value = match self.expand_within(iterable, fuel) {
                    Ok(v) => v,
                    Err(e) => return Err(e),
                };
                proof {
                    lemma_no_array(st, inner, fuel as nat);
                }
                match value {
                    ExpandValue::Array(_) => unreached(),
                    _ => Err(failed(*span, "For loop requires array")),
                }
            },
        }
    }

    /// Expand shrubbery, then apply the collected rules to content: set
    /// rules first, then show rules; other values are returned as they are.
    pub fn expand_with_rules(&mut self, shrub: &Shrubbery) -> (r: Result<ExpandValue, MrlError>)
        requires
            old(self).wf(),
        ensures
            final(self).wf(),
            ({
                let (res, st1) = expanded(old(self).model(), shrub@, u64::MAX as nat);
                match res {
                    Err(f) => r matches Err(e) && expand_fails(e, f) && final(self).model() == st1,
                    Ok(ValueModel::Content(cv)) => exists|c0: Content, c1: Content, rs: Seq<SetRule>|
                        #[trigger] set_rules_applied(c0, c1, rs) && content_value(c0) == cv && set_models(rs) == st1.set
                        && (if st1.show.len() == 0 {
                            r matches Ok(ExpandValue::Content(x)) && x == c1 && final(self).model() == st1
                        } else {
                            final(self).model() == show_step(st1, st1.show, c1, u64::MAX as nat).1
                            && shown_outcome(r, show_step(st1, st1.show, c1, u64::MAX as nat).0,
                                |x: ExpandValue| x matches ExpandValue::Content(y) && show_out(st1, st1.show, c1, y, u64::MAX as nat))
                        }),
                    Ok(v) => r matches Ok(x) && x@ == v && final(self).model() == st1,
                }
            }),
    {
        let value = match self.expand(shrub) {
            Ok(v) => v,
            Err(e) => return Err(e),
        };
        match value {
            ExpandValue::Content(content) => {
                let ghost c0 = content;
                let mut content = content;
                self.rules.apply_set_rules(&mut content);
                let ghost c1 = content;
                let ghost rs = self.rules.set_rules@;
                proof {
                    assert(set_models(rs) == self.model().set);
                    assert(set_rules_applied(c0, c1, rs));
                }
                let n = self.rules.show_rules.len();
                if n == 0 {
                    return Ok(ExpandValue::Content(content));
                }
                let ghost rules = self.show_rules();
                let ghost st1 = self.model();
                let r = self.show_content(content, n, u64::MAX, Ghost(rules));
                let ghost step = show_step(st1, rules, c1, u64::MAX as nat);
                match r {
                    Ok(c) => {
                        let out = ExpandValue::Content(c);
                        assert(shown_outcome(Ok::<ExpandValue, MrlError>(out), step.0,
                            |x: ExpandValue| x matches ExpandValue::Content(y) && show_out(st1, rules, c1, y, u64::MAX as nat)));
                        Ok(out)
                    },
                    Err(e) => {
                        assert(shown_outcome(Err::<ExpandValue, MrlError>(e), step.0,
                            |x: ExpandValue| x matches ExpandValue::Content(y) && show_out(st1, rules, c1, y, u64::MAX as nat)));
                        Err(e)
                    },
                }
            },
            other => Ok(other),
        }
    }

    /// Apply the collected show rules to content: the last rule whose
    /// selector matches an element replaces it with the content its
    /// transform expands to; elements that no rule matches have their
    /// children shown in turn.
    pub fn apply_show_rules(&mut self, content: Content) -> (r: Result<Content, MrlError>)
        requires
            old(self).wf(),
        ensures
            final(self).wf(),
            final(self).model() == show_step(old(self).model(), old(self).show_rules(), content, u64::MAX as nat).1,
            shown_outcome(r, show_step(old(self).model(), old(self).show_rules(), content, u64::MAX as nat).0,
                |x: Content| show_out(old(self).model(), old(self).show_rules(), content, x, u64::MAX as nat)),
    {
        let ghost rules = self.show_rules();
        let n = self.rules.show_rules.len();
        proof {
            assert(rules_kept(rules, self.show_rules()));
        }
        self.show_content(content, n, u64::MAX, Ghost(rules))
    }

    /// The last of the first `n` show rules whose selector matches `c`.
    fn find_show_rule(&self, n: usize, c: &Content) -> (r: Option<usize>)
        requires
            n <= self.show_rules().len(),
        ensures
            match r {
                Some(k) => k < n && match_from(self.show_rules(), *c, n as int) == Some(k as int),
                None => match_from(self.show_rules(), *c, n as int) is None,
            },
    {
        let mut i = n;
        while i > 0
            invariant
                i <= n,
                n <= self.show_rules().len(),
                match_from(self.show_rules(), *c, n as int) == match_from(self.show_rules(), *c, i as int),
            decreases i,
        {
            if self.rules.show_rules[i - 1].selector.matches(c) {
                return Some(i - 1);
            }
            i = i - 1;
        }
        None
    }

    /// Expand show rule `k`'s transform; its value must be content.
    fn show_transform(&mut self, k: usize, fuel: u64) -> (r: Result<Content, MrlError>)
        requires
            old(self).wf(),
            k < old(self).show_rules().len(),
        ensures
            final(self).wf(),
            rules_kept(old(self).show_rules(), final(self).show_rules()),
            ({
                let t = old(self).show_rules()[k as int].1;
                &&& final(self).model() == transform_step(old(self).model(), t, fuel as nat).1
                &&& shown_outcome(r, transform_step(old(self).model(), t, fuel as nat).0,
                    |x: Content| content_value(x) == transform_value(old(self).model(), t, fuel as nat))
            }),
    {
        let t = (*self.rules.show_rules[k].transform).duplicate();
        proof {
            assert(t@ == old(self).show_rules()[k as int].1);
            lemma_show_rules_kept(self.model(), t@, fuel as nat);
        }
        let value = match self.expand_within(&t, fuel) {
            Ok(v) => v,
            Err(e) => return Err(e),
        };
        match value {
            ExpandValue::Content(c) => Ok(c),
            _ => Err(failed(t.span(), "Show rule transform must produce content")),
        }
    }

    /// Show content with the first `n` show rules (`rules`): the last
    /// matching rule transforms it, or else its children are shown.
    fn show_content(&mut self, c: Content, n: usize, fuel: u64, Ghost(rules): Ghost<ShowModels>) -> (r: Result<Content, MrlError>)
        requires
            old(self).wf(),
            rules_kept(rules, old(self).show_rules()),
            n == rules.len(),
        ensures
            final(self).wf(),
            rules_kept(rules, final(self).show_rules()),
            final(self).model() == show_step(old(self).model(), rules, c, fuel as nat).1,
            shown_outcome(r, show_step(old(self).model(), rules, c, fuel as nat).0,
                |x: Content| show_out(old(self).model(), rules, c, x, fuel as nat)),
        decreases c,
    {
        let ghost st = self.model();
        proof {
            lemma_match_kept(rules, self.show_rules(), c, n as int);
        }
        match self.find_show_rule(n, &c) {
            Some(k) => {
                proof {
                    assert(rules[k as int] == old(self).show_rules()[k as int]);
                }
                let r = self.show_transform(k, fuel);
                return r;
            },
            None => {},
        }
        match c {
            Content::Block(b) => {
                match self.show_block(b, n, fuel, Ghost(rules)) {
                    Ok(b2) => Ok(Content::Block(b2)),
                    Err(e) => Err(e),
                }
            },
            Content::Inline(i) => {
                match self.show_inline(i, n, fuel, Ghost(rules)) {
                    Ok(i2) => Ok(Content::Inline(i2)),
                    Err(e) => Err(e),
                }
            },
            Content::Sequence(items) => {
                let ghost orig = items@;
                proof {
                    assert forall|k: int| 0 <= k < orig.len() implies decreases_to!(c => #[trigger] orig[k]) by {
                        vstd::std_specs::vec::axiom_vec_index_decreases(items, k);
                    }
                }
                let mut rest = items;
                let mut out: Vec<Content> = Vec::new();
                let ghost mut j: int = 0;
                while rest.len() > 0
                    invariant
                        self.wf(),
                        rules_kept(rules, self.show_rules()),
                        n == rules.len(),
                        0 <= j <= orig.len(),
                        rest@ == orig.subrange(j, orig.len() as int),
                        forall|k: int| 0 <= k < orig.len() ==> decreases_to!(c => #[trigger] orig[k]),
                        st == old(self).model(),
                        show_step(st, rules, c, fuel as nat) == contents_step(st, rules, orig, fuel as nat),
                        contents_step(st, rules, orig, fuel as nat) == contents_step(self.model(), rules, rest@, fuel as nat),
                        forall|rs2: Seq<Content>| #[trigger] contents_out(self.model(), rules, rest@, rs2, fuel as nat)
                            ==> contents_out(st, rules, orig, out@ + rs2, fuel as nat),
                    decreases rest@.len(),
                {
                    let ghost cur = self.model();
                    let ghost rest0 = rest@;
                    let item = rest.remove(0);
                    proof {
                        assert(item == orig[j]);
                        assert(decreases_to!(c => orig[j]));
                        assert(rest@ =~= rest0.drop_first());
                    }
                    let ghost it = item;
                    let r = self.show_content(item, n, fuel, Ghost(rules));
                    proof {
                        assert(rest0[0] == it);
                        assert(contents_step(cur, rules, rest0, fuel as nat) == {
                            let (e0, s1) = show_step(cur, rules, it, fuel as nat);
                            if e0 is Some { (e0, s1) } else { contents_step(s1, rules, rest0.drop_first(), fuel as nat) }
                        });
                    }
                    match r {
                        Ok(r0) => {
                            let ghost before = out@;
                            out.push(r0);
                            proof {
                                assert forall|rs2: Seq<Content>| #[trigger] contents_out(self.model(), rules, rest@, rs2, fuel as nat)
                                    implies contents_out(st, rules, orig, out@ + rs2, fuel as nat) by {
                                    let full = seq![r0] + rs2;
                                    assert(full.drop_first() =~= rs2);
                                    assert(contents_out(cur, rules, rest0, full, fuel as nat));
                                    assert(before + full =~= out@ + rs2);
                                }
                                j = j + 1;
                            }
                        },
                        Err(e) => {
                            return Err(e);
                        },
                    }
                }
                proof {
                    assert(contents_out(self.model(), rules, rest@, Seq::empty(), fuel as nat));
                    assert(out@ + Seq::<Content>::empty() =~= out@);
                }
                Ok(Content::Sequence(out))
            },
        }
    }

    /// Show a block: the bodies of headings, paragraphs, block quotes,
    /// directives and list items are shown; other blocks stay as they are.
    fn show_block(&mut self, b: Block, n: usize, fuel: u64, Ghost(rules): Ghost<ShowModels>) -> (r: Result<Block, MrlError>)
        requires
            old(self).wf(),
            rules_kept(rules, old(self).show_rules()),
            n == rules.len(),
        ensures
            final(self).wf(),
            rules_kept(rules, final(self).show_rules()),
            final(self).model() == block_step(old(self).model(), rules, b, fuel as nat).1,
            shown_outcome(r, block_step(old(self).model(), rules, b, fuel as nat).0,
                |x: Block| block_out(old(self).model(), rules, b, x, fuel as nat)),
        decreases b,
    {
        let ghost st = self.model();
        match b {
            Block::Heading { level, body, attrs } => match self.show_inline(*body, n, fuel, Ghost(rules)) {
                Ok(x) => Ok(Block::Heading { level, body: Box::new(x), attrs }),
                Err(e) => Err(e),
            },
            Block::Paragraph { body, attrs } => match self.show_inline(*body, n, fuel, Ghost(rules)) {
                Ok(x) => Ok(Block::Paragraph { body: Box::new(x), attrs }),
                Err(e) => Err(e),
            },
            Block::Blockquote { body, attrs } => match self.show_content(*body, n, fuel, Ghost(rules)) {
                Ok(x) => Ok(Block::Blockquote { body: Box::new(x), attrs }),
                Err(e) => Err(e),
            },
            Block::Directive { name, args, body, attrs } => match self.show_content(*body, n, fuel, Ghost(rules)) {
                Ok(x) => Ok(Block::Directive { name, args, body: Box::new(x), attrs }),
                Err(e) => Err(e),
            },
            Block::List { items, ordered, attrs } => {
                let ghost orig = items@;
                let ghost items0 = items;
                let mut rest = items;
                let mut out: Vec<ListItem> = Vec::new();
                let ghost mut j: int = 0;
                while rest.len() > 0
                    invariant
                        self.wf(),
                        rules_kept(rules, self.show_rules()),
                        n == rules.len(),
                        0 <= j <= orig.len(),
                        rest@ == orig.subrange(j, orig.len() as int),
                        b == (Block::List { items: items0, ordered, attrs }),
                        orig == items0@,
                        st == old(self).model(),
                        block_step(st, rules, b, fuel as nat) == items_step(st, rules, orig, fuel as nat),
                        items_step(st, rules, orig, fuel as nat) == items_step(self.model(), rules, rest@, fuel as nat),
                        forall|rs2: Seq<ListItem>| #[trigger] items_out(self.model(), rules, rest@, rs2, fuel as nat)
                            ==> items_out(st, rules, orig, out@ + rs2, fuel as nat),
                    decreases rest@.len(),
                {
                    let ghost cur = self.model();
                    let ghost rest0 = rest@;
                    let item = rest.remove(0);
                    proof {
                        assert(item == orig[j]);
                        assert(rest@ =~= rest0.drop_first());
                    }
                    let ListItem { body, nested, attrs: item_attrs } = item;
                    let ghost it = body;
                    let r = self.show_inline(body, n, fuel, Ghost(rules));
                    proof {
                        assert(rest0[0].body == it);
                        assert(items_step(cur, rules, rest0, fuel as nat) == {
                            let (e0, s1) = inline_step(cur, rules, it, fuel as nat);
                            if e0 is Some { (e0, s1) } else { items_step(s1, rules, rest0.drop_first(), fuel as nat) }
                        });
                    }
                    match r {
                        Ok(r0) => {
                            let ghost before = out@;
                            let li = ListItem { body: r0, nested, attrs: item_attrs };
                            out.push(li);
                            proof {
                                assert forall|rs2: Seq<ListItem>| #[trigger] items_out(self.model(), rules, rest@, rs2, fuel as nat)
                                    implies items_out(st, rules, orig, out@ + rs2, fuel as nat) by {
                                    let full = seq![li] + rs2;
                                    assert(full.drop_first() =~= rs2);
                                    assert(items_out(cur, rules, rest0, full, fuel as nat));
                                    assert(before + full =~= out@ + rs2);
                                }
                                j = j + 1;
                            }
                        },
                        Err(e) => {
                            return Err(e);
                        },
                    }
                }
                proof {
                    assert(items_out(self.model(), rules, rest@, Seq::empty(), fuel as nat));
                    assert(out@ + Seq::<ListItem>::empty() =~= out@);
                }
                Ok(Block::List { items: out, ordered, attrs })
            },
            other => Ok(other),
        }
    }

    /// Show an inline: the last matching rule transforms it into inline
    /// content, or else its inline children are shown.
    fn show_inline(&mut self, inl: Inline, n: usize, fuel: u64, Ghost(rules): Ghost<ShowModels>) -> (r: Result<Inline, MrlError>)
        requires
            old(self).wf(),
            rules_kept(rules, old(self).show_rules()),
            n == rules.len(),
        ensures
            final(self).wf(),
            rules_kept(rules, final(self).show_rules()),
            final(self).model() == inline_step(old(self).model(), rules, inl, fuel as nat).1,
            shown_outcome(r, inline_step(old(self).model(), rules, inl, fuel as nat).0,
                |x: Inline| inline_out(old(self).model(), rules, inl, x, fuel as nat)),
        decreases inl,
    {
        let ghost st = self.model();
        let content = Content::Inline(inl);
        proof {
            lemma_match_kept(rules, self.show_rules(), content, n as int);
        }
        match self.find_show_rule(n, &content) {
            Some(k) => {
                let span = self.rules.show_rules[k].span;
                proof {
                    assert(rules[k as int] == old(self).show_rules()[k as int]);
                }
                let r = self.show_transform(k, fuel);
                return match r {
                    Ok(Content::Inline(x)) => Ok(x),
                    Ok(_) => Err(failed(span, "Show rule for inline must produce inline content")),
                    Err(e) => Err(e),
                };
            },
            None => {},
        }
        let i = match content {
            Content::Inline(x) => x,
            _ => unreached(),
        };
        match i {
            Inline::Emphasis(x) => match self.show_inline(*x, n, fuel, Ghost(rules)) {
                Ok(y) => Ok(Inline::Emphasis(Box::new(y))),
                Err(e) => Err(e),
            },
            Inline::Strong(x) => match self.show_inline(*x, n, fuel, Ghost(rules)) {
                Ok(y) => Ok(Inline::Strong(Box::new(y))),
                Err(e) => Err(e),
            },
            Inline::Link { body, url, title } => match self.show_inline(*body, n, fuel, Ghost(rules)) {
                Ok(y) => Ok(Inline::Link { body: Box::new(y), url, title }),
                Err(e) => Err(e),
            },
            Inline::Span { body, attrs } => match self.show_inline(*body, n, fuel, Ghost(rules)) {
                Ok(y) => Ok(Inline::Span { body: Box::new(y), attrs }),
                Err(e) => Err(e),
            },
            Inline::Sequence(items) => {
                let ghost orig = items@;
                proof {
                    assert forall|k: int| 0 <= k < orig.len() implies decreases_to!(inl => #[trigger] orig[k]) by {
                        vstd::std_specs::vec::axiom_vec_index_decreases(items, k);
                    }
                }
                let mut rest = items;
                let mut out: Vec<Inline> = Vec::new();
                let ghost mut j: int = 0;
                while rest.len() > 0
                    invariant
                        self.wf(),
                        rules_kept(rules, self.show_rules()),
                        n == rules.len(),
                        0 <= j <= orig.len(),
                        rest@ == orig.subrange(j, orig.len() as int),
                        forall|k: int| 0 <= k < orig.len() ==> decreases_to!(inl => #[trigger] orig[k]),
                        st == old(self).model(),
                        inline_step(st, rules, inl, fuel as nat) == inlines_step(st, rules, orig, fuel as nat),
                        inlines_step(st, rules, orig, fuel as nat) == inlines_step(self.model(), rules, rest@, fuel as nat),
                        forall|rs2: Seq<Inline>| #[trigger] inlines_out(self.model(), rules, rest@, rs2, fuel as nat)
                            ==> inlines_out(st, rules, orig, out@ + rs2, fuel as nat),
                    decreases rest@.len(),
                {
                    let ghost cur = self.model();
                    let ghost rest0 = rest@;
                    let item = rest.remove(0);
                    proof {
                        assert(item == orig[j]);
                        assert(decreases_to!(inl => orig[j]));
                        assert(rest@ =~= rest0.drop_first());
                    }
                    let ghost it = item;
                    let r = self.show_inline(item, n, fuel, Ghost(rules));
                    proof {
                        assert(rest0[0] == it);
                        assert(inlines_step(cur, rules, rest0, fuel as nat) == {
                            let (e0, s1) = inline_step(cur, rules, it, fuel as nat);
                            if e0 is Some { (e0, s1) } else { inlines_step(s1, rules, rest0.drop_first(), fuel as nat) }
                        });
                    }
                    match r {
                        Ok(r0) => {
                            let ghost before = out@;
                            out.push(r0);
                            proof {
                                assert forall|rs2: Seq<Inline>| #[trigger] inlines_out(self.model(), rules, rest@, rs2, fuel as nat)
                                    implies inlines_out(st, rules, orig, out@ + rs2, fuel as nat) by {
                                    let full = seq![r0] + rs2;
                                    assert(full.drop_first() =~= rs2);
                                    assert(inlines_out(cur, rules, rest0, full, fuel as nat));
                                    assert(before + full =~= out@ + rs2);
                                }
                                j = j + 1;
                            }
                        },
                        Err(e) => {
                            return Err(e);
                        },
                    }
                }
                proof {
                    assert(inlines_out(self.model(), rules, rest@, Seq::empty(), fuel as nat));
                    assert(out@ + Seq::<Inline>::empty() =~= out@);
                }
                Ok(Inline::Sequence(out))
            },
            other => Ok(other),
        }
    }

    /// Expand a sequence's items in turn; the value of the last.
    fn expand_items(&mut self, items: &Vec<Shrubbery>, fuel: u64) -> (r: Result<ExpandValue, MrlError>)
        requires
            old(self).wf(),
        ensures
            final(self).wf(),
            expand_outcome(r, expanded_items(old(self).model(), shrub_models(items), 0, ValueModel::NoneValue, fuel as nat).0),
            final(self).model() == expanded_items(old(self).model(), shrub_models(items), 0, ValueModel::NoneValue, fuel as nat).1,
        decreases fuel, items, 1nat,
    {
        let ghost ms = shrub_models(items);
        let ghost goal = expanded_items(self.model(), ms, 0, ValueModel::NoneValue, fuel as nat);
        let mut result = ExpandValue::NoneValue;
        let mut i: usize = 0;
        while i < items.len()
            invariant
                self.wf(),
                0 <= i <= items@.len(),
                ms == shrub_models(items),
                expanded_items(self.model(), ms, i as int, result@, fuel as nat) == goal,
                goal == expanded_items(old(self).model(), ms, 0, ValueModel::NoneValue, fuel as nat),
            decreases items@.len() - i,
        {
            assert(ms[i as int] == items@[i as int]@);
            match self.expand_within(&items[i], fuel) {
                Ok(v) => {
                    result = v;
                },
                Err(e) => return Err(e),
            }
            i = i + 1;
        }
        Ok(result)
    }

    /// Expand a content literal's items in turn, keeping the contents.
    fn expand_contents(&mut self, items: &Vec<Shrubbery>, fuel: u64) -> (r: Result<Vec<Content>, MrlError>)
        requires
            old(self).wf(),
        ensures
            final(self).wf(),
            ({
                let o = expanded_contents(old(self).model(), shrub_models(items), 0, Seq::empty(), fuel as nat);
                &&& final(self).model() == o.1
                &&& match o.0 {
                    Ok(cs) => r matches Ok(v) && content_values(v@) == cs,
                    Err(f) => r matches Err(e) && expand_fails(e, f),
                }
            }),
        decreases fuel, items, 1nat,
    {
        let ghost ms = shrub_models(items);
        let ghost goal = expanded_contents(self.model(), ms, 0, Seq::empty(), fuel as nat);
        let mut contents: Vec<Content> = Vec::new();
        assert(content_values(contents@) =~= Seq::<ContentValue>::empty());
        let mut i: usize = 0;
        while i < items.len()
            invariant
                self.wf(),
                0 <= i <= items@.len(),
                ms == shrub_models(items),
                expanded_contents(self.model(), ms, i as int, content_values(contents@), fuel as nat) == goal,
                goal == expanded_contents(old(self).model(), ms, 0, Seq::empty(), fuel as nat),
            decreases items@.len() - i,
        {
            assert(ms[i as int] == items@[i as int]@);
            match self.expand_within(&items[i], fuel) {
                Ok(ExpandValue::Content(c)) => {
                    let ghost before = contents@;
                    contents.push(c);
                    assert(content_values(contents@) =~= content_values(before).push(content_value(c)));
                },
                Ok(_) => {},
                Err(e) => return Err(e),
            }
            i = i + 1;
        }
        Ok(contents)
    }

    /// Expand the values of a set rule's properties, each stored under its
    /// symbol's name.
    fn expand_props(&mut self, props: &Vec<(Symbol, Shrubbery)>, fuel: u64) -> (r: Result<StrMap<SetValue>, MrlError>)
        requires
            old(self).wf(),
        ensures
            final(self).wf(),
            ({
                let o = expanded_props(old(self).model(), crate::mrl::shrubbery::property_seq_model(props), 0, Map::empty(), fuel as nat);
                &&& final(self).model() == o.1
                &&& match o.0 {
                    Ok(m) => r matches Ok(p) && props_model(p) == m,
                    Err(f) => r matches Err(e) && expand_fails(e, f),
                }
            }),
        decreases fuel, props, 1nat,
    {
        let ghost ps = crate::mrl::shrubbery::property_seq_model(props);
        let ghost goal = expanded_props(self.model(), ps, 0, Map::empty(), fuel as nat);
        let mut out: StrMap<SetValue> = StrMap::new();
        assert(props_model(out) =~= Map::<Seq<char>, SetValueModel>::empty());
        let mut i: usize = 0;
        while i < props.len()
            invariant
                self.wf(),
                0 <= i <= props@.len(),
                ps == crate::mrl::shrubbery::property_seq_model(props),
                expanded_props(self.model(), ps, i as int, props_model(out), fuel as nat) == goal,
                goal == expanded_props(old(self).model(), ps, 0, Map::empty(), fuel as nat),
            decreases props@.len() - i,
        {
            assert(ps[i as int] == (props@[i as int].0, props@[i as int].1@));
            let name = self.name_for(props[i].0.id(), "prop_");
            let value = match self.expand_within(&props[i].1, fuel) {
                Ok(v) => v,
                Err(e) => return Err(e),
            };
            let ghost vm = value@;
            let sv = match value {
                ExpandValue::String(s) => SetValue::String(s),
                ExpandValue::Int(n) => SetValue::Int(n),
                ExpandValue::Bool(b) => SetValue::Bool(b),
                other => SetValue::String(value_debug_text(&other)),
            };
            assert(set_value_model(sv) == set_value_of(vm));
            let ghost before = props_model(out);
            let ghost k = name@;
            out.insert(name, sv);
            assert(props_model(out) =~= before.insert(k, set_value_of(vm)));
            i = i + 1;
        }
        Ok(out)
    }
}

} // verus!
