//! The debugging text of expand-time values: each value is written the way
//! a derived `Debug` writes it, variant name first and fields in order;
//! texts are quoted as `<str as Debug>` quotes them.

use vstd::prelude::*;
use crate::mrl::content::{Attributes, Block, Content, Inline, ListItem};
use crate::mrl::error::Span;
use crate::mrl::expander::{Builtin, ContentValue, ExpandFunction, ExpandValue, FunctionModel, ValueModel, content_value};
use crate::mrl::hygiene::{Binding, BindingModel, HygieneEnv, Space};
use crate::mrl::shrubbery::{Literal, LiteralModel, Param, ScopeSet, Shrubbery, ShrubModel, Symbol, debug_quoted, quoted_debug};
use crate::mrl::types::ContentKind;
use crate::util::strmap::StrMap;
use crate::util::text::{bool_text, decimal, push_str, signed_decimal, u64_to_text, i64_to_text, bool_to_text};

verus! {

/// Texts separated by `", "`.
pub open spec fn join(ps: Seq<Seq<char>>) -> Seq<char>
    decreases ps.len(),
{
    if ps.len() == 0 {
        Seq::empty()
    } else if ps.len() == 1 {
        ps[0]
    } else {
        join(ps.drop_last()) + ", "@ + ps.last()
    }
}

/// Texts as a list: `[a, b]`.
pub open spec fn list_repr(ps: Seq<Seq<char>>) -> Seq<char> {
    "["@ + join(ps) + "]"@
}

/// Texts as a set or map: `{a, b}`.
pub open spec fn braces_repr(ps: Seq<Seq<char>>) -> Seq<char> {
    "{"@ + join(ps) + "}"@
}

/// An optional text: `None` or `Some(x)`.
pub open spec fn opt_repr(o: Option<Seq<char>>) -> Seq<char> {
    match o {
        None => "None"@,
        Some(x) => "Some("@ + x + ")"@,
    }
}

/// An optional string, quoted.
pub open spec fn opt_text_repr(o: Option<String>) -> Seq<char> {
    match o {
        None => "None"@,
        Some(x) => "Some("@ + quoted_debug(x@) + ")"@,
    }
}

pub open spec fn span_repr(s: Span) -> Seq<char> {
    "Span { start: "@ + decimal(s.start as nat) + ", end: "@ + decimal(s.end as nat) + " }"@
}

pub open spec fn symbol_repr(s: Symbol) -> Seq<char> {
    "Symbol("@ + decimal(s.0 as nat) + ")"@
}

pub open spec fn scope_repr(x: u64) -> Seq<char> {
    "Scope("@ + decimal(x as nat) + ")"@
}

/// Every element is below the next.
pub open spec fn strictly_increasing(q: Seq<u64>) -> bool {
    forall|i: int, j: int| 0 <= i < j < q.len() ==> q[i] < q[j]
}

/// The elements of a finite set, smallest first.
pub open spec fn ascending(s: Set<u64>) -> Seq<u64> {
    choose|q: Seq<u64>| strictly_increasing(q) && q.to_set() == s
}

/// A scope set, its scopes smallest first as a sorted set prints them.
pub open spec fn scopes_repr(s: Set<u64>) -> Seq<char> {
    let a = ascending(s);
    "ScopeSet { scopes: "@ + braces_repr(Seq::new(a.len(), |i: int| scope_repr(a[i]))) + " }"@
}

/// String entries as a map: `{"k": "v"}`.
pub open spec fn text_map_repr(es: Seq<(Seq<char>, String)>) -> Seq<char> {
    braces_repr(Seq::new(es.len(), |i: int| quoted_debug(es[i].0) + ": "@ + quoted_debug(es[i].1@)))
}

pub open spec fn attrs_repr(a: Attributes) -> Seq<char> {
    "Attributes { id: "@ + opt_text_repr(a.id)
        + ", classes: "@ + list_repr(Seq::new(a.classes@.len(), |i: int| quoted_debug(a.classes@[i]@)))
        + ", other: "@ + text_map_repr(a.other.entry_seq()) + " }"@
}

pub open spec fn kind_repr(k: ContentKind) -> Seq<char> {
    match k {
        ContentKind::Block => "Block"@,
        ContentKind::Inline => "Inline"@,
        ContentKind::Content => "Content"@,
    }
}

pub open spec fn inline_repr(i: Inline) -> Seq<char>
    decreases i,
{
    match i {
        Inline::Text(t) => "Text("@ + quoted_debug(t@) + ")"@,
        Inline::Emphasis(x) => "Emphasis("@ + inline_repr(*x) + ")"@,
        Inline::Strong(x) => "Strong("@ + inline_repr(*x) + ")"@,
        Inline::Code(t) => "Code("@ + quoted_debug(t@) + ")"@,
        Inline::Link { body, url, title } => "Link { body: "@ + inline_repr(*body) + ", url: "@ + quoted_debug(url@)
            + ", title: "@ + opt_text_repr(title) + " }"@,
        Inline::Image { alt, url, title } => "Image { alt: "@ + quoted_debug(alt@) + ", url: "@ + quoted_debug(url@)
            + ", title: "@ + opt_text_repr(title) + " }"@,
        Inline::Reference(t) => "Reference("@ + quoted_debug(t@) + ")"@,
        Inline::Math(t) => "Math("@ + quoted_debug(t@) + ")"@,
        Inline::Span { body, attrs } => "Span { body: "@ + inline_repr(*body) + ", attrs: "@ + attrs_repr(attrs) + " }"@,
        Inline::Sequence(xs) => "Sequence("@ + ("["@ + inlines_join(xs@) + "]"@) + ")"@,
    }
}

/// Inlines separated by `", "`.
pub open spec fn inlines_join(xs: Seq<Inline>) -> Seq<char>
    decreases xs,
{
    if xs.len() == 0 {
        Seq::empty()
    } else if xs.len() == 1 {
        inline_repr(xs[0])
    } else {
        inlines_join(xs.drop_last()) + ", "@ + inline_repr(xs.last())
    }
}

/// Inlines as a list.
pub open spec fn inlines_repr(xs: Seq<Inline>) -> Seq<char> {
    "["@ + inlines_join(xs) + "]"@
}

pub open spec fn item_repr(it: ListItem) -> Seq<char>
    decreases it,
{
    "ListItem { body: "@ + inline_repr(it.body) + ", nested: "@
        + (match it.nested {
            None => "None"@,
            Some(v) => "Some("@ + ("["@ + items_join(v@) + "]"@) + ")"@,
        })
        + ", attrs: "@ + attrs_repr(it.attrs) + " }"@
}

/// List items separated by `", "`.
pub open spec fn items_join(xs: Seq<ListItem>) -> Seq<char>
    decreases xs,
{
    if xs.len() == 0 {
        Seq::empty()
    } else if xs.len() == 1 {
        item_repr(xs[0])
    } else {
        items_join(xs.drop_last()) + ", "@ + item_repr(xs.last())
    }
}

pub open spec fn content_repr(c: Content) -> Seq<char>
    decreases c,
{
    match c {
        Content::Block(b) => "Block("@ + block_repr(b) + ")"@,
        Content::Inline(i) => "Inline("@ + inline_repr(i) + ")"@,
        Content::Sequence(v) => "Sequence("@ + ("["@ + contents_join(v@) + "]"@) + ")"@,
    }
}

/// Contents separated by `", "`.
pub open spec fn contents_join(xs: Seq<Content>) -> Seq<char>
    decreases xs,
{
    if xs.len() == 0 {
        Seq::empty()
    } else if xs.len() == 1 {
        content_repr(xs[0])
    } else {
        contents_join(xs.drop_last()) + ", "@ + content_repr(xs.last())
    }
}

pub open spec fn block_repr(b: Block) -> Seq<char>
    decreases b,
{
    match b {
        Block::Heading { level, body, attrs } => "Heading { level: "@ + decimal(level as nat) + ", body: "@ + inline_repr(*body)
            + ", attrs: "@ + attrs_repr(attrs) + " }"@,
        Block::Paragraph { body, attrs } => "Paragraph { body: "@ + inline_repr(*body) + ", attrs: "@ + attrs_repr(attrs) + " }"@,
        Block::CodeBlock { lang, code, opts, attrs } => "CodeBlock { lang: "@ + opt_text_repr(lang) + ", code: "@ + quoted_debug(code@)
            + ", opts: "@ + text_map_repr(opts.entry_seq()) + ", attrs: "@ + attrs_repr(attrs) + " }"@,
        Block::List { items, ordered, attrs } => "List { items: "@ + ("["@ + items_join(items@) + "]"@)
            + ", ordered: "@ + bool_text(ordered) + ", attrs: "@ + attrs_repr(attrs) + " }"@,
        Block::Blockquote { body, attrs } => "Blockquote { body: "@ + content_repr(*body) + ", attrs: "@ + attrs_repr(attrs) + " }"@,
        Block::Table { headers, rows, attrs } => "Table { headers: "@ + inlines_repr(headers@)
            + ", rows: "@ + list_repr(Seq::new(rows@.len(), |k: int| inlines_repr(rows@[k]@)))
            + ", attrs: "@ + attrs_repr(attrs) + " }"@,
        Block::ThematicBreak { attrs } => "ThematicBreak { attrs: "@ + attrs_repr(attrs) + " }"@,
        Block::Directive { name, args, body, attrs } => "Directive { name: "@ + quoted_debug(name@) + ", args: "@ + text_map_repr(args.entry_seq())
            + ", body: "@ + content_repr(*body) + ", attrs: "@ + attrs_repr(attrs) + " }"@,
    }
}

/// A content value the way the content it stands for prints.
pub open spec fn content_value_repr(cv: ContentValue) -> Seq<char>
    decreases cv,
{
    match cv {
        ContentValue::Text(t) => "Inline("@ + ("Text("@ + quoted_debug(t) + ")"@) + ")"@,
        ContentValue::Sequence(xs) => "Sequence("@ + ("["@ + content_values_join(xs) + "]"@) + ")"@,
        ContentValue::Other(c) => content_repr(c),
    }
}

/// Content values separated by `", "`.
pub open spec fn content_values_join(xs: Seq<ContentValue>) -> Seq<char>
    decreases xs,
{
    if xs.len() == 0 {
        Seq::empty()
    } else if xs.len() == 1 {
        content_value_repr(xs[0])
    } else {
        content_values_join(xs.drop_last()) + ", "@ + content_value_repr(xs.last())
    }
}

pub open spec fn literal_repr(l: LiteralModel) -> Seq<char> {
    match l {
        LiteralModel::NoneLit => "None"@,
        LiteralModel::Bool(b) => "Bool("@ + bool_text(b) + ")"@,
        LiteralModel::Int(i) => "Int("@ + signed_decimal(i as int) + ")"@,
        LiteralModel::Float(t) => "Float("@ + t + ")"@,
        LiteralModel::String(t) => "String("@ + quoted_debug(t) + ")"@,
        LiteralModel::Symbol(t) => "Symbol("@ + quoted_debug(t) + ")"@,
    }
}

/// Shrubberies separated by `", "`.
pub open spec fn shrubs_join(xs: Seq<ShrubModel>) -> Seq<char>
    decreases xs,
{
    if xs.len() == 0 {
        Seq::empty()
    } else if xs.len() == 1 {
        shrub_repr(xs[0])
    } else {
        shrubs_join(xs.drop_last()) + ", "@ + shrub_repr(xs.last())
    }
}

/// An optional shrubbery.
pub open spec fn opt_shrub_repr(o: Option<ShrubModel>) -> Seq<char>
    decreases o,
{
    match o {
        None => "None"@,
        Some(x) => "Some("@ + shrub_repr(x) + ")"@,
    }
}

/// An optional boxed shrubbery.
pub open spec fn opt_box_repr(o: Option<Box<ShrubModel>>) -> Seq<char>
    decreases o,
{
    match o {
        None => "None"@,
        Some(x) => "Some("@ + shrub_repr(*x) + ")"@,
    }
}

pub open spec fn param_repr(p: (Symbol, Option<ShrubModel>, Option<ShrubModel>, Span)) -> Seq<char>
    decreases p,
{
    "Param { name: "@ + symbol_repr(p.0) + ", type_annotation: "@ + opt_shrub_repr(p.1)
        + ", default: "@ + opt_shrub_repr(p.2) + ", span: "@ + span_repr(p.3) + " }"@
}

/// Parameters separated by `", "`.
pub open spec fn params_join(ps: Seq<(Symbol, Option<ShrubModel>, Option<ShrubModel>, Span)>) -> Seq<char>
    decreases ps,
{
    if ps.len() == 0 {
        Seq::empty()
    } else if ps.len() == 1 {
        param_repr(ps[0])
    } else {
        params_join(ps.drop_last()) + ", "@ + param_repr(ps.last())
    }
}

/// A set-rule property as a pair.
pub open spec fn prop_repr(p: (Symbol, ShrubModel)) -> Seq<char>
    decreases p,
{
    "("@ + symbol_repr(p.0) + ", "@ + shrub_repr(p.1) + ")"@
}

/// Properties separated by `", "`.
pub open spec fn props_join(ps: Seq<(Symbol, ShrubModel)>) -> Seq<char>
    decreases ps,
{
    if ps.len() == 0 {
        Seq::empty()
    } else if ps.len() == 1 {
        prop_repr(ps[0])
    } else {
        props_join(ps.drop_last()) + ", "@ + prop_repr(ps.last())
    }
}

/// Symbols as a list.
pub open spec fn symbols_repr(d: Seq<Symbol>) -> Seq<char> {
    list_repr(Seq::new(d.len(), |k: int| symbol_repr(d[k])))
}

pub open spec fn shrub_repr(m: ShrubModel) -> Seq<char>
    decreases m,
{
    match m {
        ShrubModel::Identifier(sym, scopes, span) => "Identifier("@ + symbol_repr(sym) + ", "@ + scopes_repr(scopes) + ", "@ + span_repr(span) + ")"@,
        ShrubModel::Literal(l, span) => "Literal("@ + literal_repr(l) + ", "@ + span_repr(span) + ")"@,
        ShrubModel::Operator(sym, span) => "Operator("@ + symbol_repr(sym) + ", "@ + span_repr(span) + ")"@,
        ShrubModel::Parens(xs, span) => "Parens("@ + ("["@ + shrubs_join(xs) + "]"@) + ", "@ + span_repr(span) + ")"@,
        ShrubModel::Brackets(xs, span) => "Brackets("@ + ("["@ + shrubs_join(xs) + "]"@) + ", "@ + span_repr(span) + ")"@,
        ShrubModel::Braces(xs, span) => "Braces("@ + ("["@ + shrubs_join(xs) + "]"@) + ", "@ + span_repr(span) + ")"@,
        ShrubModel::Prose(t, span) => "Prose("@ + quoted_debug(t) + ", "@ + span_repr(span) + ")"@,
        ShrubModel::ContentBlock(xs, span) => "ContentBlock("@ + ("["@ + shrubs_join(xs) + "]"@) + ", "@ + span_repr(span) + ")"@,
        ShrubModel::Sequence(xs, span) => "Sequence("@ + ("["@ + shrubs_join(xs) + "]"@) + ", "@ + span_repr(span) + ")"@,
        ShrubModel::DefBlock { name, params, return_type, body, span } => "DefBlock { name: "@ + symbol_repr(name)
            + ", params: "@ + ("["@ + params_join(params) + "]"@)
            + ", return_type: "@ + opt_box_repr(return_type) + ", body: "@ + ("["@ + shrubs_join(body) + "]"@) + ", span: "@ + span_repr(span) + " }"@,
        ShrubModel::StagedBlock { body, span } => "StagedBlock { body: "@ + ("["@ + shrubs_join(body) + "]"@) + ", span: "@ + span_repr(span) + " }"@,
        ShrubModel::ShowRule { selector, transform, span } => "ShowRule { selector: "@ + shrub_repr(*selector)
            + ", transform: "@ + shrub_repr(*transform) + ", span: "@ + span_repr(span) + " }"@,
        ShrubModel::SetRule { selector, properties, span } => "SetRule { selector: "@ + shrub_repr(*selector)
            + ", properties: "@ + ("["@ + props_join(properties) + "]"@)
            + ", span: "@ + span_repr(span) + " }"@,
        ShrubModel::LiveBlock { deps, body, span } => "LiveBlock { deps: "@
            + (match deps {
                None => "None"@,
                Some(d) => "Some("@ + symbols_repr(d) + ")"@,
            })
            + ", body: "@ + ("["@ + shrubs_join(body) + "]"@) + ", span: "@ + span_repr(span) + " }"@,
        ShrubModel::Selector { base, predicate, span } => "Selector { base: "@ + symbol_repr(base)
            + ", predicate: "@ + opt_box_repr(predicate) + ", span: "@ + span_repr(span) + " }"@,
        ShrubModel::Quote { body, span } => "Quote { body: "@ + shrub_repr(*body) + ", span: "@ + span_repr(span) + " }"@,
        ShrubModel::Splice { expr, span } => "Splice { expr: "@ + shrub_repr(*expr) + ", span: "@ + span_repr(span) + " }"@,
        ShrubModel::If { condition, then_branch, else_branch, span } => "If { condition: "@ + shrub_repr(*condition)
            + ", then_branch: "@ + shrub_repr(*then_branch) + ", else_branch: "@ + opt_box_repr(else_branch)
            + ", span: "@ + span_repr(span) + " }"@,
        ShrubModel::For { pattern, iterable, body, span } => "For { pattern: "@ + symbol_repr(pattern)
            + ", iterable: "@ + shrub_repr(*iterable) + ", body: "@ + shrub_repr(*body) + ", span: "@ + span_repr(span) + " }"@,
    }
}

pub open spec fn builtin_repr(b: Builtin) -> Seq<char> {
    match b {
        Builtin::Text => "Text"@,
        Builtin::Paragraph => "Paragraph"@,
        Builtin::Heading => "Heading"@,
        Builtin::Emphasis => "Emphasis"@,
        Builtin::Strong => "Strong"@,
        Builtin::Quote => "Quote"@,
        Builtin::Splice => "Splice"@,
        Builtin::EvalExpand => "EvalExpand"@,
    }
}

pub open spec fn space_repr(s: Space) -> Seq<char> {
    "Space { id: "@ + decimal(s.spec_id() as nat) + ", scope: "@ + scope_repr(s.spec_scope().0) + " }"@
}

pub open spec fn binding_repr(b: BindingModel) -> Seq<char> {
    "Binding { symbol: "@ + symbol_repr(b.symbol) + ", scopes: "@ + scopes_repr(b.scopes) + ", span: "@ + span_repr(b.span)
        + ", space: "@ + (match b.space { None => "None"@, Some(s) => "Some("@ + space_repr(s) + ")"@ }) + " }"@
}

/// A function: a built-in shows its name, its number of arguments and
/// which built-in handles it; a macro its parameters, body and the
/// bindings of its hygiene environment.
pub open spec fn function_repr(f: FunctionModel) -> Seq<char> {
    match f {
        FunctionModel::Native { name, arity, builtin } => "Native { name: "@ + quoted_debug(name) + ", arity: "@ + decimal(arity as nat)
            + ", handler: "@ + builtin_repr(builtin) + " }"@,
        FunctionModel::Macro { params, body, env } => "Macro { params: "@ + list_repr(Seq::new(params.len(), |k: int| quoted_debug(params[k])))
            + ", body: "@ + shrub_repr(body)
            + ", env: HygieneEnv { bindings: "@ + list_repr(Seq::new(env.len(), |k: int| binding_repr(env[k]))) + " } }"@,
    }
}

/// The debugging text of an expand-time value.
pub open spec fn value_debug(v: ValueModel) -> Seq<char>
    decreases v,
{
    match v {
        ValueModel::NoneValue => "None"@,
        ValueModel::Bool(b) => "Bool("@ + bool_text(b) + ")"@,
        ValueModel::Int(i) => "Int("@ + signed_decimal(i as int) + ")"@,
        ValueModel::Float(t) => "Float("@ + t + ")"@,
        ValueModel::Str(t) => "String("@ + quoted_debug(t) + ")"@,
        ValueModel::Symbol(t) => "Symbol("@ + quoted_debug(t) + ")"@,
        ValueModel::Content(cv) => "Content("@ + content_value_repr(cv) + ")"@,
        ValueModel::Code(s, k) => "Code("@ + shrub_repr(s) + ", "@ + kind_repr(k) + ")"@,
        ValueModel::Shrubbery(s) => "Shrubbery("@ + shrub_repr(s) + ")"@,
        ValueModel::Array(xs) => "Array("@ + ("["@ + values_join(xs) + "]"@) + ")"@,
        ValueModel::Mapping(es) => "Map("@ + ("{"@ + entries_join(es) + "}"@) + ")"@,
        ValueModel::Function(f) => "Function("@ + function_repr(f) + ")"@,
    }
}

/// Values separated by `", "`.
pub open spec fn values_join(xs: Seq<ValueModel>) -> Seq<char>
    decreases xs,
{
    if xs.len() == 0 {
        Seq::empty()
    } else if xs.len() == 1 {
        value_debug(xs[0])
    } else {
        values_join(xs.drop_last()) + ", "@ + value_debug(xs.last())
    }
}

/// A map entry: the quoted key, then the value.
pub open spec fn entry_repr(e: (Seq<char>, ValueModel)) -> Seq<char>
    decreases e,
{
    quoted_debug(e.0) + ": "@ + value_debug(e.1)
}

/// Map entries separated by `", "`.
pub open spec fn entries_join(es: Seq<(Seq<char>, ValueModel)>) -> Seq<char>
    decreases es,
{
    if es.len() == 0 {
        Seq::empty()
    } else if es.len() == 1 {
        entry_repr(es[0])
    } else {
        entries_join(es.drop_last()) + ", "@ + entry_repr(es.last())
    }
}

proof fn lemma_inlines_step(xs: Seq<Inline>, i: int)
    requires
        0 <= i < xs.len(),
    ensures
        inlines_join(xs.take(i + 1)) == inlines_join(xs.take(i)) + (if i == 0 { Seq::<char>::empty() } else { ", "@ }) + inline_repr(xs[i]),
{
    assert(xs.take(i + 1).drop_last() =~= xs.take(i));
    assert(xs.take(i + 1).last() == xs[i]);
    if i == 0 {
        assert(xs.take(1).len() == 1);
        assert(xs.take(1)[0] == xs[0]);
        assert(xs.take(0).len() == 0);
        assert(Seq::<char>::empty() + Seq::<char>::empty() + inline_repr(xs[0]) =~= inline_repr(xs[0]));
    }
}

proof fn lemma_items_step(xs: Seq<ListItem>, i: int)
    requires
        0 <= i < xs.len(),
    ensures
        items_join(xs.take(i + 1)) == items_join(xs.take(i)) + (if i == 0 { Seq::<char>::empty() } else { ", "@ }) + item_repr(xs[i]),
{
    assert(xs.take(i + 1).drop_last() =~= xs.take(i));
    assert(xs.take(i + 1).last() == xs[i]);
    if i == 0 {
        assert(xs.take(1).len() == 1);
        assert(xs.take(1)[0] == xs[0]);
        assert(xs.take(0).len() == 0);
        assert(Seq::<char>::empty() + Seq::<char>::empty() + item_repr(xs[0]) =~= item_repr(xs[0]));
    }
}

proof fn lemma_contents_step(xs: Seq<Content>, i: int)
    requires
        0 <= i < xs.len(),
    ensures
        contents_join(xs.take(i + 1)) == contents_join(xs.take(i)) + (if i == 0 { Seq::<char>::empty() } else { ", "@ }) + content_repr(xs[i]),
{
    assert(xs.take(i + 1).drop_last() =~= xs.take(i));
    assert(xs.take(i + 1).last() == xs[i]);
    if i == 0 {
        assert(xs.take(1).len() == 1);
        assert(xs.take(1)[0] == xs[0]);
        assert(xs.take(0).len() == 0);
        assert(Seq::<char>::empty() + Seq::<char>::empty() + content_repr(xs[0]) =~= content_repr(xs[0]));
    }
}

proof fn lemma_content_values_step(xs: Seq<ContentValue>, i: int)
    requires
        0 <= i < xs.len(),
    ensures
        content_values_join(xs.take(i + 1)) == content_values_join(xs.take(i)) + (if i == 0 { Seq::<char>::empty() } else { ", "@ }) + content_value_repr(xs[i]),
{
    assert(xs.take(i + 1).drop_last() =~= xs.take(i));
    assert(xs.take(i + 1).last() == xs[i]);
    if i == 0 {
        assert(xs.take(1).len() == 1);
        assert(xs.take(1)[0] == xs[0]);
        assert(xs.take(0).len() == 0);
        assert(Seq::<char>::empty() + Seq::<char>::empty() + content_value_repr(xs[0]) =~= content_value_repr(xs[0]));
    }
}

proof fn lemma_shrubs_step(xs: Seq<ShrubModel>, i: int)
    requires
        0 <= i < xs.len(),
    ensures
        shrubs_join(xs.take(i + 1)) == shrubs_join(xs.take(i)) + (if i == 0 { Seq::<char>::empty() } else { ", "@ }) + shrub_repr(xs[i]),
{
    assert(xs.take(i + 1).drop_last() =~= xs.take(i));
    assert(xs.take(i + 1).last() == xs[i]);
    if i == 0 {
        assert(xs.take(1).len() == 1);
        assert(xs.take(1)[0] == xs[0]);
        assert(xs.take(0).len() == 0);
        assert(Seq::<char>::empty() + Seq::<char>::empty() + shrub_repr(xs[0]) =~= shrub_repr(xs[0]));
    }
}

proof fn lemma_params_step(xs: Seq<(Symbol, Option<ShrubModel>, Option<ShrubModel>, Span)>, i: int)
    requires
        0 <= i < xs.len(),
    ensures
        params_join(xs.take(i + 1)) == params_join(xs.take(i)) + (if i == 0 { Seq::<char>::empty() } else { ", "@ }) + param_repr(xs[i]),
{
    assert(xs.take(i + 1).drop_last() =~= xs.take(i));
    assert(xs.take(i + 1).last() == xs[i]);
    if i == 0 {
        assert(xs.take(1).len() == 1);
        assert(xs.take(1)[0] == xs[0]);
        assert(xs.take(0).len() == 0);
        assert(Seq::<char>::empty() + Seq::<char>::empty() + param_repr(xs[0]) =~= param_repr(xs[0]));
    }
}

proof fn lemma_props_step(xs: Seq<(Symbol, ShrubModel)>, i: int)
    requires
        0 <= i < xs.len(),
    ensures
        props_join(xs.take(i + 1)) == props_join(xs.take(i)) + (if i == 0 { Seq::<char>::empty() } else { ", "@ }) + prop_repr(xs[i]),
{
    assert(xs.take(i + 1).drop_last() =~= xs.take(i));
    assert(xs.take(i + 1).last() == xs[i]);
    if i == 0 {
        assert(xs.take(1).len() == 1);
        assert(xs.take(1)[0] == xs[0]);
        assert(xs.take(0).len() == 0);
        assert(Seq::<char>::empty() + Seq::<char>::empty() + prop_repr(xs[0]) =~= prop_repr(xs[0]));
    }
}

proof fn lemma_values_step(xs: Seq<ValueModel>, i: int)
    requires
        0 <= i < xs.len(),
    ensures
        values_join(xs.take(i + 1)) == values_join(xs.take(i)) + (if i == 0 { Seq::<char>::empty() } else { ", "@ }) + value_debug(xs[i]),
{
    assert(xs.take(i + 1).drop_last() =~= xs.take(i));
    assert(xs.take(i + 1).last() == xs[i]);
    if i == 0 {
        assert(xs.take(1).len() == 1);
        assert(xs.take(1)[0] == xs[0]);
        assert(xs.take(0).len() == 0);
        assert(Seq::<char>::empty() + Seq::<char>::empty() + value_debug(xs[0]) =~= value_debug(xs[0]));
    }
}

proof fn lemma_entries_step(xs: Seq<(Seq<char>, ValueModel)>, i: int)
    requires
        0 <= i < xs.len(),
    ensures
        entries_join(xs.take(i + 1)) == entries_join(xs.take(i)) + (if i == 0 { Seq::<char>::empty() } else { ", "@ }) + entry_repr(xs[i]),
{
    assert(xs.take(i + 1).drop_last() =~= xs.take(i));
    assert(xs.take(i + 1).last() == xs[i]);
    if i == 0 {
        assert(xs.take(1).len() == 1);
        assert(xs.take(1)[0] == xs[0]);
        assert(xs.take(0).len() == 0);
        assert(Seq::<char>::empty() + Seq::<char>::empty() + entry_repr(xs[0]) =~= entry_repr(xs[0]));
    }
}

proof fn lemma_join_step(ps: Seq<Seq<char>>, i: int)
    requires
        0 <= i < ps.len(),
    ensures
        join(ps.take(i + 1)) == join(ps.take(i)) + (if i == 0 { Seq::<char>::empty() } else { ", "@ }) + ps[i],
{
    assert(ps.take(i + 1).drop_last() =~= ps.take(i));
    assert(ps.take(i + 1).last() == ps[i]);
    if i == 0 {
        assert(ps.take(1).len() == 1);
        assert(ps.take(0).len() == 0);
        assert(Seq::<char>::empty() + Seq::<char>::empty() + ps[0] =~= ps[0]);
    }
}

#[verifier::spinoff_prover]
fn write_sep(out: &mut String, i: usize)
    ensures
        final(out)@ == old(out)@ + (if i == 0 { Seq::<char>::empty() } else { ", "@ }),
{
    if i > 0 {
        push_str(out, ", ");
    } else {
        assert(out@ =~= old(out)@ + Seq::<char>::empty());
    }
}

#[verifier::spinoff_prover]
fn write_quoted(out: &mut String, t: &str)
    ensures
        final(out)@ == old(out)@ + quoted_debug(t@),
{
    let q = debug_quoted(t);
    push_str(out, q.as_str());
}

#[verifier::spinoff_prover]
fn write_decimal(out: &mut String, n: u64)
    ensures
        final(out)@ == old(out)@ + decimal(n as nat),
{
    let d = u64_to_text(n);
    push_str(out, d.as_str());
}

#[verifier::spinoff_prover]
fn write_span(out: &mut String, s: Span)
    ensures
        final(out)@ == old(out)@ + span_repr(s),
{
    let ghost start = out@;
    push_str(out, "Span { start: ");
    write_decimal(out, s.start as u64);
    push_str(out, ", end: ");
    write_decimal(out, s.end as u64);
    push_str(out, " }");
    assert(out@ =~= start + span_repr(s));
}

#[verifier::spinoff_prover]
fn write_symbol(out: &mut String, s: Symbol)
    ensures
        final(out)@ == old(out)@ + symbol_repr(s),
{
    let ghost start = out@;
    push_str(out, "Symbol(");
    write_decimal(out, s.0);
    push_str(out, ")");
    assert(out@ =~= start + symbol_repr(s));
}

#[verifier::spinoff_prover]
fn write_opt_text(out: &mut String, o: &Option<String>)
    ensures
        final(out)@ == old(out)@ + opt_text_repr(*o),
{
    let ghost start = out@;
    match o {
        None => push_str(out, "None"),
        Some(x) => {
            push_str(out, "Some(");
            write_quoted(out, x.as_str());
            push_str(out, ")");
        },
    }
    assert(out@ =~= start + opt_text_repr(*o));
}

/// Two strictly increasing sequences with the same elements are equal.
proof fn lemma_increasing_unique(a: Seq<u64>, b: Seq<u64>)
    requires
        strictly_increasing(a),
        strictly_increasing(b),
        a.to_set() == b.to_set(),
    ensures
        a == b,
    decreases a.len(),
{
    if a.len() == 0 {
        if b.len() > 0 {
            assert(b.to_set().contains(b[0]));
        }
        assert(a =~= b);
    } else {
        assert(a.to_set().contains(a[0]));
        assert(b.len() > 0);
        assert(b.to_set().contains(b[0]));
        let j = choose|j: int| 0 <= j < b.len() && b[j] == a[0];
        let k = choose|k: int| 0 <= k < a.len() && a[k] == b[0];
        assert(b[0] <= a[0]);
        assert(a[0] <= b[0]);
        let a1 = a.drop_first();
        let b1 = b.drop_first();
        assert forall|x: u64| a1.to_set().contains(x) == b1.to_set().contains(x) by {
            if a1.to_set().contains(x) {
                let i = choose|i: int| 0 <= i < a1.len() && a1[i] == x;
                assert(a[i + 1] == x);
                assert(a.to_set().contains(x));
                let m = choose|m: int| 0 <= m < b.len() && b[m] == x;
                assert(m != 0);
                assert(b1[m - 1] == x);
            }
            if b1.to_set().contains(x) {
                let i = choose|i: int| 0 <= i < b1.len() && b1[i] == x;
                assert(b[i + 1] == x);
                assert(b.to_set().contains(x));
                let m = choose|m: int| 0 <= m < a.len() && a[m] == x;
                assert(m != 0);
                assert(a1[m - 1] == x);
            }
        }
        assert(a1.to_set() =~= b1.to_set());
        lemma_increasing_unique(a1, b1);
        assert(a =~= b) by {
            assert forall|i: int| 0 <= i < a.len() implies a[i] == b[i] by {
                if i > 0 {
                    assert(a[i] == a1[i - 1]);
                    assert(b[i] == b1[i - 1]);
                }
            }
        }
    }
}

fn insert_sorted(v: &mut Vec<u64>, x: u64)
    requires
        strictly_increasing(old(v)@),
    ensures
        strictly_increasing(final(v)@),
        final(v)@.to_set() == old(v)@.to_set().insert(x),
{
    let mut p: usize = 0;
    while p < v.len() && v[p] < x
        invariant
            0 <= p <= v@.len(),
            v@ == old(v)@,
            forall|k: int| 0 <= k < p ==> v@[k] < x,
        decreases v@.len() - p,
    {
        p = p + 1;
    }
    if p < v.len() && v[p] == x {
        assert(v@.to_set() =~= old(v)@.to_set().insert(x)) by {
            assert(v@.to_set().contains(v@[p as int]));
        }
    } else {
        let ghost before = v@;
        v.insert(p, x);
        assert(v@ == before.insert(p as int, x));
        assert forall|i: int, j: int| 0 <= i < j < v@.len() implies v@[i] < v@[j] by {
            if j < p {
                assert(v@[i] == before[i] && v@[j] == before[j]);
            } else if j == p {
                assert(v@[i] == before[i]);
            } else if i < p {
                assert(v@[i] == before[i] && v@[j] == before[j - 1]);
                if p < before.len() {
                    assert(before[p as int] > x);
                    assert(before[p as int] <= before[j - 1]);
                }
            } else if i == p {
                assert(v@[j] == before[j - 1]);
                assert(before[p as int] > x);
                assert(before[p as int] <= before[j - 1]);
            } else {
                assert(v@[i] == before[i - 1] && v@[j] == before[j - 1]);
            }
        }
        assert forall|y: u64| v@.to_set().contains(y) == before.to_set().insert(x).contains(y) by {
            if v@.to_set().contains(y) {
                let i = choose|i: int| 0 <= i < v@.len() && v@[i] == y;
                if i < p {
                    assert(before[i] == y);
                } else if i > p {
                    assert(before[i - 1] == y);
                }
            }
            if before.to_set().contains(y) {
                let i = choose|i: int| 0 <= i < before.len() && before[i] == y;
                if i < p {
                    assert(v@[i] == y);
                } else {
                    assert(v@[i + 1] == y);
                }
            }
            if y == x {
                assert(v@[p as int] == x);
            }
        }
        assert(v@.to_set() =~= old(v)@.to_set().insert(x));
    }
}

/// The scopes of a set, smallest first.
fn ascending_scopes(s: &ScopeSet) -> (r: Vec<u64>)
    ensures
        r@ == ascending(s@),
{
    let items = s.iter();
    let mut out: Vec<u64> = Vec::new();
    let mut k: usize = 0;
    while k < items.len()
        invariant
            0 <= k <= items@.len(),
            strictly_increasing(out@),
            out@.to_set() == Seq::new(k as nat, |j: int| items@[j].0).to_set(),
        decreases items@.len() - k,
    {
        insert_sorted(&mut out, items[k].0);
        assert(Seq::new((k + 1) as nat, |j: int| items@[j].0).to_set() =~= Seq::new(k as nat, |j: int| items@[j].0).to_set().insert(items@[k as int].0)) by {
            let a = Seq::new((k + 1) as nat, |j: int| items@[j].0);
            let b = Seq::new(k as nat, |j: int| items@[j].0);
            assert forall|y: u64| a.to_set().contains(y) == b.to_set().insert(items@[k as int].0).contains(y) by {
                if a.to_set().contains(y) {
                    let i = choose|i: int| 0 <= i < a.len() && a[i] == y;
                    if i < k {
                        assert(b[i] == y);
                    }
                }
                if b.to_set().contains(y) {
                    let i = choose|i: int| 0 <= i < b.len() && b[i] == y;
                    assert(a[i] == y);
                }
                if y == items@[k as int].0 {
                    assert(a[k as int] == y);
                }
            }
        }
        k = k + 1;
    }
    proof {
        let all = Seq::new(items@.len() as nat, |j: int| items@[j].0);
        assert forall|y: u64| all.to_set().contains(y) == s@.contains(y) by {
            if all.to_set().contains(y) {
                let i = choose|i: int| 0 <= i < all.len() && all[i] == y;
                assert(s@.contains(items@[i].0));
            }
            if s@.contains(y) {
                let i = choose|i: int| 0 <= i < items@.len() && items@[i].0 == y;
                assert(all[i] == y);
            }
        }
        assert(out@.to_set() =~= s@);
        let q = ascending(s@);
        assert(strictly_increasing(q) && q.to_set() == s@);
        lemma_increasing_unique(out@, q);
    }
    out
}

#[verifier::spinoff_prover]
fn write_scopes(out: &mut String, s: &ScopeSet)
    ensures
        final(out)@ == old(out)@ + scopes_repr(s@),
{
    let ghost start = out@;
    let xs = ascending_scopes(s);
    let ghost ps = Seq::new(xs@.len(), |i: int| scope_repr(xs@[i]));
    push_str(out, "ScopeSet { scopes: ");
    push_str(out, "{");
    let mut i: usize = 0;
    while i < xs.len()
        invariant
            0 <= i <= xs@.len(),
            ps.len() == xs@.len(),
            forall|k: int| 0 <= k < ps.len() ==> ps[k] == scope_repr(xs@[k]),
            out@ == start + "ScopeSet { scopes: "@ + "{"@ + join(ps.take(i as int)),
        decreases xs@.len() - i,
    {
        write_sep(out, i);
        push_str(out, "Scope(");
        write_decimal(out, xs[i]);
        push_str(out, ")");
        proof { lemma_join_step(ps, i as int); }
        assert(out@ =~= start + "ScopeSet { scopes: "@ + "{"@ + join(ps.take(i + 1)));
        i = i + 1;
    }
    push_str(out, "}");
    push_str(out, " }");
    assert(ps.take(xs@.len() as int) =~= ps);
    assert(out@ =~= start + scopes_repr(s@));
}

#[verifier::spinoff_prover]
fn write_quoted_list(out: &mut String, xs: &Vec<String>)
    ensures
        final(out)@ == old(out)@ + list_repr(Seq::new(xs@.len(), |i: int| quoted_debug(xs@[i]@))),
{
    let ghost start = out@;
    let ghost ps = Seq::new(xs@.len(), |i: int| quoted_debug(xs@[i]@));
    push_str(out, "[");
    let mut i: usize = 0;
    while i < xs.len()
        invariant
            0 <= i <= xs@.len(),
            ps == Seq::new(xs@.len(), |i: int| quoted_debug(xs@[i]@)),
            out@ == start + "["@ + join(ps.take(i as int)),
        decreases xs@.len() - i,
    {
        write_sep(out, i);
        write_quoted(out, xs[i].as_str());
        proof { lemma_join_step(ps, i as int); }
        assert(out@ =~= start + "["@ + join(ps.take(i + 1)));
        i = i + 1;
    }
    push_str(out, "]");
    assert(ps.take(xs@.len() as int) =~= ps);
    assert(out@ =~= start + list_repr(ps));
}

#[verifier::spinoff_prover]
fn write_text_map(out: &mut String, m: &StrMap<String>)
    ensures
        final(out)@ == old(out)@ + text_map_repr(m.entry_seq()),
{
    let ghost start = out@;
    let ghost es = m.entry_seq();
    let ghost ps = Seq::new(es.len(), |i: int| quoted_debug(es[i].0) + ": "@ + quoted_debug(es[i].1@));
    let xs = m.entries();
    push_str(out, "{");
    let mut i: usize = 0;
    while i < xs.len()
        invariant
            0 <= i <= xs@.len(),
            xs@.len() == es.len(),
            es == m.entry_seq(),
            ps == Seq::new(es.len(), |i: int| quoted_debug(es[i].0) + ": "@ + quoted_debug(es[i].1@)),
            forall|k: int| #![trigger xs@[k]] 0 <= k < xs@.len() ==> xs@[k].0@ == es[k].0 && xs@[k].1 == es[k].1,
            out@ == start + "{"@ + join(ps.take(i as int)),
        decreases xs@.len() - i,
    {
        write_sep(out, i);
        write_quoted(out, xs[i].0.as_str());
        push_str(out, ": ");
        write_quoted(out, xs[i].1.as_str());
        proof { lemma_join_step(ps, i as int); }
        assert(out@ =~= start + "{"@ + join(ps.take(i + 1)));
        i = i + 1;
    }
    push_str(out, "}");
    assert(ps.take(xs@.len() as int) =~= ps);
    assert(out@ =~= start + text_map_repr(es));
}

#[verifier::spinoff_prover]
fn write_attrs(out: &mut String, a: &Attributes)
    ensures
        final(out)@ == old(out)@ + attrs_repr(*a),
{
    let ghost start = out@;
    push_str(out, "Attributes { id: ");
    write_opt_text(out, &a.id);
    push_str(out, ", classes: ");
    write_quoted_list(out, &a.classes);
    push_str(out, ", other: ");
    write_text_map(out, &a.other);
    push_str(out, " }");
    assert(out@ =~= start + attrs_repr(*a));
}

#[verifier::spinoff_prover]
fn write_inline(out: &mut String, i: &Inline)
    ensures
        final(out)@ == old(out)@ + inline_repr(*i),
    decreases i,
{
    let ghost start = out@;
    match i {
        Inline::Text(t) => {
            push_str(out, "Text(");
            write_quoted(out, t.as_str());
            push_str(out, ")");
        },
        Inline::Emphasis(x) => {
            push_str(out, "Emphasis(");
            write_inline(out, x);
            push_str(out, ")");
        },
        Inline::Strong(x) => {
            push_str(out, "Strong(");
            write_inline(out, x);
            push_str(out, ")");
        },
        Inline::Code(t) => {
            push_str(out, "Code(");
            write_quoted(out, t.as_str());
            push_str(out, ")");
        },
        Inline::Link { body, url, title } => {
            push_str(out, "Link { body: ");
            write_inline(out, body);
            push_str(out, ", url: ");
            write_quoted(out, url.as_str());
            push_str(out, ", title: ");
            write_opt_text(out, title);
            push_str(out, " }");
        },
        Inline::Image { alt, url, title } => {
            push_str(out, "Image { alt: ");
            write_quoted(out, alt.as_str());
            push_str(out, ", url: ");
            write_quoted(out, url.as_str());
            push_str(out, ", title: ");
            write_opt_text(out, title);
            push_str(out, " }");
        },
        Inline::Reference(t) => {
            push_str(out, "Reference(");
            write_quoted(out, t.as_str());
            push_str(out, ")");
        },
        Inline::Math(t) => {
            push_str(out, "Math(");
            write_quoted(out, t.as_str());
            push_str(out, ")");
        },
        Inline::Span { body, attrs } => {
            push_str(out, "Span { body: ");
            write_inline(out, body);
            push_str(out, ", attrs: ");
            write_attrs(out, attrs);
            push_str(out, " }");
        },
        Inline::Sequence(xs) => {
            push_str(out, "Sequence(");
            push_str(out, "[");
            write_inlines_join(out, xs);
            push_str(out, "]");
            push_str(out, ")");
        },
    }
    assert(out@ =~= start + inline_repr(*i));
}

#[verifier::spinoff_prover]
fn write_inlines_join(out: &mut String, xs: &Vec<Inline>)
    ensures
        final(out)@ == old(out)@ + inlines_join(xs@),
    decreases xs,
{
    let ghost start = out@;
    let mut i: usize = 0;
    while i < xs.len()
        invariant
            0 <= i <= xs@.len(),
            out@ == start + inlines_join(xs@.take(i as int)),
        decreases xs@.len() - i,
    {
        write_sep(out, i);
        proof { vstd::std_specs::vec::axiom_vec_index_decreases(*xs, i as int); }
        write_inline(out, &xs[i]);
        proof { lemma_inlines_step(xs@, i as int); }
        assert(out@ =~= start + inlines_join(xs@.take(i + 1)));
        i = i + 1;
    }
    assert(xs@.take(xs@.len() as int) =~= xs@);
}

#[verifier::spinoff_prover]
fn write_inlines(out: &mut String, xs: &Vec<Inline>)
    ensures
        final(out)@ == old(out)@ + inlines_repr(xs@),
{
    let ghost start = out@;
    push_str(out, "[");
    write_inlines_join(out, xs);
    push_str(out, "]");
    assert(out@ =~= start + inlines_repr(xs@));
}

#[verifier::spinoff_prover]
fn write_item(out: &mut String, it: &ListItem)
    ensures
        final(out)@ == old(out)@ + item_repr(*it),
    decreases it,
{
    let ghost start = out@;
    push_str(out, "ListItem { body: ");
    write_inline(out, &it.body);
    push_str(out, ", nested: ");
    match &it.nested {
        None => push_str(out, "None"),
        Some(v) => {
            push_str(out, "Some(");
            push_str(out, "[");
            write_items_join(out, v);
            push_str(out, "]");
            push_str(out, ")");
        },
    }
    push_str(out, ", attrs: ");
    write_attrs(out, &it.attrs);
    push_str(out, " }");
    assert(out@ =~= start + item_repr(*it));
}

#[verifier::spinoff_prover]
fn write_items_join(out: &mut String, xs: &Vec<ListItem>)
    ensures
        final(out)@ == old(out)@ + items_join(xs@),
    decreases xs,
{
    let ghost start = out@;
    let mut i: usize = 0;
    while i < xs.len()
        invariant
            0 <= i <= xs@.len(),
            out@ == start + items_join(xs@.take(i as int)),
        decreases xs@.len() - i,
    {
        write_sep(out, i);
        proof { vstd::std_specs::vec::axiom_vec_index_decreases(*xs, i as int); }
        write_item(out, &xs[i]);
        proof { lemma_items_step(xs@, i as int); }
        assert(out@ =~= start + items_join(xs@.take(i + 1)));
        i = i + 1;
    }
    assert(xs@.take(xs@.len() as int) =~= xs@);
}

#[verifier::spinoff_prover]
fn write_rows(out: &mut String, rows: &Vec<Vec<Inline>>)
    ensures
        final(out)@ == old(out)@ + list_repr(Seq::new(rows@.len(), |k: int| inlines_repr(rows@[k]@))),
{
    let ghost start = out@;
    let ghost ps = Seq::new(rows@.len(), |k: int| inlines_repr(rows@[k]@));
    push_str(out, "[");
    let mut i: usize = 0;
    while i < rows.len()
        invariant
            0 <= i <= rows@.len(),
            ps == Seq::new(rows@.len(), |k: int| inlines_repr(rows@[k]@)),
            out@ == start + "["@ + join(ps.take(i as int)),
        decreases rows@.len() - i,
    {
        write_sep(out, i);
        write_inlines(out, &rows[i]);
        proof { lemma_join_step(ps, i as int); }
        assert(out@ =~= start + "["@ + join(ps.take(i + 1)));
        i = i + 1;
    }
    push_str(out, "]");
    assert(ps.take(rows@.len() as int) =~= ps);
    assert(out@ =~= start + list_repr(ps));
}

#[verifier::spinoff_prover]
fn write_content(out: &mut String, c: &Content)
    ensures
        final(out)@ == old(out)@ + content_repr(*c),
    decreases c,
{
    let ghost start = out@;
    match c {
        Content::Block(b) => {
            push_str(out, "Block(");
            write_block(out, b);
            push_str(out, ")");
        },
        Content::Inline(i) => {
            push_str(out, "Inline(");
            write_inline(out, i);
            push_str(out, ")");
        },
        Content::Sequence(v) => {
            push_str(out, "Sequence(");
            push_str(out, "[");
            write_contents_join(out, v);
            push_str(out, "]");
            push_str(out, ")");
        },
    }
    assert(out@ =~= start + content_repr(*c));
}

#[verifier::spinoff_prover]
fn write_contents_join(out: &mut String, xs: &Vec<Content>)
    ensures
        final(out)@ == old(out)@ + contents_join(xs@),
    decreases xs,
{
    let ghost start = out@;
    let mut i: usize = 0;
    while i < xs.len()
        invariant
            0 <= i <= xs@.len(),
            out@ == start + contents_join(xs@.take(i as int)),
        decreases xs@.len() - i,
    {
        write_sep(out, i);
        proof { vstd::std_specs::vec::axiom_vec_index_decreases(*xs, i as int); }
        write_content(out, &xs[i]);
        proof { lemma_contents_step(xs@, i as int); }
        assert(out@ =~= start + contents_join(xs@.take(i + 1)));
        i = i + 1;
    }
    assert(xs@.take(xs@.len() as int) =~= xs@);
}

#[verifier::spinoff_prover]
#[verifier::rlimit(60)]
fn write_block(out: &mut String, b: &Block)
    ensures
        final(out)@ == old(out)@ + block_repr(*b),
    decreases b,
{
    let ghost start = out@;
    match b {
        Block::Heading { level, body, attrs } => {
            push_str(out, "Heading { level: ");
            write_decimal(out, *level as u64);
            push_str(out, ", body: ");
            write_inline(out, body);
            push_str(out, ", attrs: ");
            write_attrs(out, attrs);
            push_str(out, " }");
            assert(out@ =~= start + block_repr(*b));
        },
        Block::Paragraph { body, attrs } => {
            push_str(out, "Paragraph { body: ");
            write_inline(out, body);
            push_str(out, ", attrs: ");
            write_attrs(out, attrs);
            push_str(out, " }");
            assert(out@ =~= start + block_repr(*b));
        },
        Block::CodeBlock { lang, code, opts, attrs } => {
            push_str(out, "CodeBlock { lang: ");
            write_opt_text(out, lang);
            push_str(out, ", code: ");
            write_quoted(out, code.as_str());
            push_str(out, ", opts: ");
            write_text_map(out, opts);
            push_str(out, ", attrs: ");
            write_attrs(out, attrs);
            push_str(out, " }");
            assert(out@ =~= start + block_repr(*b));
        },
        Block::List { items, ordered, attrs } => {
            push_str(out, "List { items: ");
            push_str(out, "[");
            write_items_join(out, items);
            push_str(out, "]");
            push_str(out, ", ordered: ");
            let t = bool_to_text(*ordered);
            push_str(out, t.as_str());
            push_str(out, ", attrs: ");
            write_attrs(out, attrs);
            push_str(out, " }");
            assert(out@ =~= start + block_repr(*b));
        },
        Block::Blockquote { body, attrs } => {
            push_str(out, "Blockquote { body: ");
            write_content(out, body);
            push_str(out, ", attrs: ");
            write_attrs(out, attrs);
            push_str(out, " }");
            assert(out@ =~= start + block_repr(*b));
        },
        Block::Table { headers, rows, attrs } => {
            push_str(out, "Table { headers: ");
            write_inlines(out, headers);
            push_str(out, ", rows: ");
            write_rows(out, rows);
            push_str(out, ", attrs: ");
            write_attrs(out, attrs);
            push_str(out, " }");
            assert(out@ =~= start + block_repr(*b));
        },
        Block::ThematicBreak { attrs } => {
            push_str(out, "ThematicBreak { attrs: ");
            write_attrs(out, attrs);
            push_str(out, " }");
            assert(out@ =~= start + block_repr(*b));
        },
        Block::Directive { name, args, body, attrs } => {
            push_str(out, "Directive { name: ");
            write_quoted(out, name.as_str());
            push_str(out, ", args: ");
            write_text_map(out, args);
            push_str(out, ", body: ");
            write_content(out, body);
            push_str(out, ", attrs: ");
            write_attrs(out, attrs);
            push_str(out, " }");
            assert(out@ =~= start + block_repr(*b));
        },
    }
}

/// A content's value prints as the content does.
pub proof fn lemma_content_value_repr(c: Content)
    ensures
        content_value_repr(content_value(c)) == content_repr(c),
    decreases c, 1nat,
{
    match c {
        Content::Sequence(items) => {
            let ys = content_value(c)->Sequence_0;
            assert(ys.len() == items@.len());
            assert forall|i: int| 0 <= i < ys.len() implies #[trigger] ys[i] == content_value(items@[i]) by {}
            lemma_content_values_join(c, items, ys, items@.len() as int);
            assert(ys.take(items@.len() as int) =~= ys);
            assert(items@.take(items@.len() as int) =~= items@);
        },
        _ => {},
    }
}

proof fn lemma_content_values_join(c: Content, items: Vec<Content>, ys: Seq<ContentValue>, n: int)
    requires
        c == Content::Sequence(items),
        0 <= n <= items@.len(),
        ys.len() == items@.len(),
        forall|i: int| 0 <= i < ys.len() ==> #[trigger] ys[i] == content_value(items@[i]),
    ensures
        content_values_join(ys.take(n)) == contents_join(items@.take(n)),
    decreases c, 0nat, n,
{
    if n > 0 {
        lemma_content_values_join(c, items, ys, n - 1);
        lemma_content_values_step(ys, n - 1);
        lemma_contents_step(items@, n - 1);
        vstd::std_specs::vec::axiom_vec_index_decreases(items, n - 1);
        assert(decreases_to!(c => c->Sequence_0));
        assert(decreases_to!(c => items@[n - 1]));
        lemma_content_value_repr(items@[n - 1]);
    }
}

#[verifier::spinoff_prover]
fn write_literal(out: &mut String, l: &Literal)
    ensures
        final(out)@ == old(out)@ + literal_repr(l@),
{
    let ghost start = out@;
    match l {
        Literal::NoneLit => push_str(out, "None"),
        Literal::Bool(b) => {
            push_str(out, "Bool(");
            let t = bool_to_text(*b);
            push_str(out, t.as_str());
            push_str(out, ")");
        },
        Literal::Int(i) => {
            push_str(out, "Int(");
            let t = i64_to_text(*i);
            push_str(out, t.as_str());
            push_str(out, ")");
        },
        Literal::Float(t) => {
            push_str(out, "Float(");
            push_str(out, t.as_str());
            push_str(out, ")");
        },
        Literal::String(t) => {
            push_str(out, "String(");
            write_quoted(out, t.as_str());
            push_str(out, ")");
        },
        Literal::Symbol(t) => {
            push_str(out, "Symbol(");
            write_quoted(out, t.as_str());
            push_str(out, ")");
        },
    }
    assert(out@ =~= start + literal_repr(l@));
}

#[verifier::spinoff_prover]
fn write_symbols(out: &mut String, d: &Vec<Symbol>)
    ensures
        final(out)@ == old(out)@ + symbols_repr(d@),
{
    let ghost start = out@;
    let ghost ps = Seq::new(d@.len(), |k: int| symbol_repr(d@[k]));
    push_str(out, "[");
    let mut i: usize = 0;
    while i < d.len()
        invariant
            0 <= i <= d@.len(),
            ps == Seq::new(d@.len(), |k: int| symbol_repr(d@[k])),
            out@ == start + "["@ + join(ps.take(i as int)),
        decreases d@.len() - i,
    {
        write_sep(out, i);
        write_symbol(out, d[i]);
        proof { lemma_join_step(ps, i as int); }
        assert(out@ =~= start + "["@ + join(ps.take(i + 1)));
        i = i + 1;
    }
    push_str(out, "]");
    assert(ps.take(d@.len() as int) =~= ps);
    assert(out@ =~= start + symbols_repr(d@));
}

#[verifier::spinoff_prover]
fn write_shrubs_join(out: &mut String, xs: &Vec<Shrubbery>)
    ensures
        final(out)@ == old(out)@ + shrubs_join(crate::mrl::shrubbery::shrub_models(xs)),
    decreases xs, 0nat,
{
    let ghost start = out@;
    let ghost ms = crate::mrl::shrubbery::shrub_models(xs);
    let mut i: usize = 0;
    while i < xs.len()
        invariant
            0 <= i <= xs@.len(),
            ms == crate::mrl::shrubbery::shrub_models(xs),
            ms.len() == xs@.len(),
            out@ == start + shrubs_join(ms.take(i as int)),
        decreases xs@.len() - i,
    {
        write_sep(out, i);
        proof { vstd::std_specs::vec::axiom_vec_index_decreases(*xs, i as int); }
        write_shrub(out, &xs[i]);
        proof {
            assert(ms[i as int] == xs@[i as int]@);
            lemma_shrubs_step(ms, i as int);
        }
        assert(out@ =~= start + shrubs_join(ms.take(i + 1)));
        i = i + 1;
    }
    assert(ms.take(xs@.len() as int) =~= ms);
}

#[verifier::spinoff_prover]
fn write_opt_shrub(out: &mut String, o: &Option<Shrubbery>)
    ensures
        final(out)@ == old(out)@ + opt_shrub_repr(crate::mrl::shrubbery::opt_model(o)),
    decreases o, 0nat,
{
    let ghost start = out@;
    match o {
        None => push_str(out, "None"),
        Some(x) => {
            push_str(out, "Some(");
            write_shrub(out, x);
            push_str(out, ")");
        },
    }
    assert(out@ =~= start + opt_shrub_repr(crate::mrl::shrubbery::opt_model(o)));
}

#[verifier::spinoff_prover]
fn write_opt_box(out: &mut String, o: &Option<Box<Shrubbery>>)
    ensures
        final(out)@ == old(out)@ + opt_box_repr(crate::mrl::shrubbery::opt_box_model(o)),
    decreases o, 0nat,
{
    let ghost start = out@;
    match o {
        None => push_str(out, "None"),
        Some(x) => {
            push_str(out, "Some(");
            write_shrub(out, x);
            push_str(out, ")");
        },
    }
    assert(out@ =~= start + opt_box_repr(crate::mrl::shrubbery::opt_box_model(o)));
}

#[verifier::spinoff_prover]
#[verifier::rlimit(40)]
fn write_param(out: &mut String, p: &Param)
    ensures
        final(out)@ == old(out)@ + param_repr(crate::mrl::shrubbery::param_model(p)),
    decreases p, 0nat,
{
    let ghost start = out@;
    let ghost pm = crate::mrl::shrubbery::param_model(p);
    let ghost t1 = crate::mrl::shrubbery::opt_model(&p.type_annotation);
    let ghost t2 = crate::mrl::shrubbery::opt_model(&p.default);
    assert(pm == (p.name, t1, t2, p.span));
    push_str(out, "Param { name: ");
    write_symbol(out, p.name);
    push_str(out, ", type_annotation: ");
    let ghost m1 = out@;
    write_opt_shrub(out, &p.type_annotation);
    assert(out@ == m1 + opt_shrub_repr(t1));
    push_str(out, ", default: ");
    let ghost m2 = out@;
    write_opt_shrub(out, &p.default);
    assert(out@ == m2 + opt_shrub_repr(t2));
    push_str(out, ", span: ");
    write_span(out, p.span);
    push_str(out, " }");
    assert(param_repr(pm) == "Param { name: "@ + symbol_repr(p.name) + ", type_annotation: "@ + opt_shrub_repr(t1)
        + ", default: "@ + opt_shrub_repr(t2) + ", span: "@ + span_repr(p.span) + " }"@);
    assert(out@ =~= start + param_repr(pm));
}

#[verifier::spinoff_prover]
fn write_params_join(out: &mut String, xs: &Vec<Param>)
    ensures
        final(out)@ == old(out)@ + params_join(crate::mrl::shrubbery::param_seq_model(xs)),
    decreases xs, 0nat,
{
    let ghost start = out@;
    let ghost ms = crate::mrl::shrubbery::param_seq_model(xs);
    let mut i: usize = 0;
    while i < xs.len()
        invariant
            0 <= i <= xs@.len(),
            ms == crate::mrl::shrubbery::param_seq_model(xs),
            ms.len() == xs@.len(),
            out@ == start + params_join(ms.take(i as int)),
        decreases xs@.len() - i,
    {
        write_sep(out, i);
        proof { vstd::std_specs::vec::axiom_vec_index_decreases(*xs, i as int); }
        write_param(out, &xs[i]);
        proof {
            assert(ms[i as int] == crate::mrl::shrubbery::param_model(&xs@[i as int]));
            lemma_params_step(ms, i as int);
        }
        assert(out@ =~= start + params_join(ms.take(i + 1)));
        i = i + 1;
    }
    assert(ms.take(xs@.len() as int) =~= ms);
}

#[verifier::spinoff_prover]
fn write_props_join(out: &mut String, xs: &Vec<(Symbol, Shrubbery)>)
    ensures
        final(out)@ == old(out)@ + props_join(crate::mrl::shrubbery::property_seq_model(xs)),
    decreases xs, 0nat,
{
    let ghost start = out@;
    let ghost ms = crate::mrl::shrubbery::property_seq_model(xs);
    let mut i: usize = 0;
    while i < xs.len()
        invariant
            0 <= i <= xs@.len(),
            ms == crate::mrl::shrubbery::property_seq_model(xs),
            ms.len() == xs@.len(),
            out@ == start + props_join(ms.take(i as int)),
        decreases xs@.len() - i,
    {
        let ghost before = out@;
        write_sep(out, i);
        proof {
            vstd::std_specs::vec::axiom_vec_index_decreases(*xs, i as int);
            assert(decreases_to!(xs@[i as int] => xs@[i as int].1));
        }
        let ghost mid = out@;
        push_str(out, "(");
        write_symbol(out, xs[i].0);
        push_str(out, ", ");
        write_shrub(out, &xs[i].1);
        push_str(out, ")");
        proof {
            assert(ms[i as int] == (xs@[i as int].0, xs@[i as int].1@));
            assert(out@ =~= mid + prop_repr(ms[i as int]));
            lemma_props_step(ms, i as int);
        }
        assert(out@ =~= start + props_join(ms.take(i + 1)));
        i = i + 1;
    }
    assert(ms.take(xs@.len() as int) =~= ms);
}

#[verifier::spinoff_prover]
#[verifier::rlimit(60)]
fn write_shrub(out: &mut String, s: &Shrubbery)
    ensures
        final(out)@ == old(out)@ + shrub_repr(s@),
    decreases s, 2nat,
{
    let ghost start = out@;
    match s {
        Shrubbery::Identifier(sym, scopes, span) => {
            push_str(out, "Identifier(");
            write_symbol(out, *sym);
            push_str(out, ", ");
            write_scopes(out, scopes);
            push_str(out, ", ");
            write_span(out, *span);
            push_str(out, ")");
            assert(out@ =~= start + shrub_repr(s@));
        },
        Shrubbery::Literal(l, span) => {
            push_str(out, "Literal(");
            write_literal(out, l);
            push_str(out, ", ");
            write_span(out, *span);
            push_str(out, ")");
            assert(out@ =~= start + shrub_repr(s@));
        },
        Shrubbery::Operator(sym, span) => {
            push_str(out, "Operator(");
            write_symbol(out, *sym);
            push_str(out, ", ");
            write_span(out, *span);
            push_str(out, ")");
            assert(out@ =~= start + shrub_repr(s@));
        },
        Shrubbery::Parens(xs, span) => {
            push_str(out, "Parens(");
            push_str(out, "[");
            write_shrubs_join(out, xs);
            push_str(out, "]");
            push_str(out, ", ");
            write_span(out, *span);
            push_str(out, ")");
            assert(out@ =~= start + shrub_repr(s@));
        },
        Shrubbery::Brackets(xs, span) => {
            push_str(out, "Brackets(");
            push_str(out, "[");
            write_shrubs_join(out, xs);
            push_str(out, "]");
            push_str(out, ", ");
            write_span(out, *span);
            push_str(out, ")");
            assert(out@ =~= start + shrub_repr(s@));
        },
        Shrubbery::Braces(xs, span) => {
            push_str(out, "Braces(");
            push_str(out, "[");
            write_shrubs_join(out, xs);
            push_str(out, "]");
            push_str(out, ", ");
            write_span(out, *span);
            push_str(out, ")");
            assert(out@ =~= start + shrub_repr(s@));
        },
        Shrubbery::ContentBlock(xs, span) => {
            push_str(out, "ContentBlock(");
            push_str(out, "[");
            write_shrubs_join(out, xs);
            push_str(out, "]");
            push_str(out, ", ");
            write_span(out, *span);
            push_str(out, ")");
            assert(out@ =~= start + shrub_repr(s@));
        },
        Shrubbery::Sequence(xs, span) => {
            push_str(out, "Sequence(");
            push_str(out, "[");
            write_shrubs_join(out, xs);
            push_str(out, "]");
            push_str(out, ", ");
            write_span(out, *span);
            push_str(out, ")");
            assert(out@ =~= start + shrub_repr(s@));
        },
        Shrubbery::Prose(t, span) => {
            push_str(out, "Prose(");
            write_quoted(out, t.as_str());
            push_str(out, ", ");
            write_span(out, *span);
            push_str(out, ")");
            assert(out@ =~= start + shrub_repr(s@));
        },
        _ => write_shrub_blocks(out, s),
    }
}

#[verifier::spinoff_prover]
#[verifier::rlimit(60)]
fn write_shrub_blocks(out: &mut String, s: &Shrubbery)
    requires
        !(s is Identifier || s is Literal || s is Operator || s is Parens || s is Brackets || s is Braces
            || s is Prose || s is ContentBlock || s is Sequence),
    ensures
        final(out)@ == old(out)@ + shrub_repr(s@),
    decreases s, 1nat,
{
    let ghost start = out@;
    match s {
        Shrubbery::DefBlock { name, params, return_type, body, span } => {
            push_str(out, "DefBlock { name: ");
            write_symbol(out, *name);
            push_str(out, ", params: ");
            push_str(out, "[");
            write_params_join(out, params);
            push_str(out, "]");
            push_str(out, ", return_type: ");
            write_opt_box(out, return_type);
            push_str(out, ", body: ");
            push_str(out, "[");
            write_shrubs_join(out, body);
            push_str(out, "]");
            push_str(out, ", span: ");
            write_span(out, *span);
            push_str(out, " }");
            assert(out@ =~= start + shrub_repr(s@));
        },
        Shrubbery::StagedBlock { body, span } => {
            push_str(out, "StagedBlock { body: ");
            push_str(out, "[");
            write_shrubs_join(out, body);
            push_str(out, "]");
            push_str(out, ", span: ");
            write_span(out, *span);
            push_str(out, " }");
            assert(out@ =~= start + shrub_repr(s@));
        },
        Shrubbery::ShowRule { selector, transform, span } => {
            push_str(out, "ShowRule { selector: ");
            write_shrub(out, selector);
            push_str(out, ", transform: ");
            write_shrub(out, transform);
            push_str(out, ", span: ");
            write_span(out, *span);
            push_str(out, " }");
            assert(out@ =~= start + shrub_repr(s@));
        },
        Shrubbery::SetRule { selector, properties, span } => {
            push_str(out, "SetRule { selector: ");
            write_shrub(out, selector);
            push_str(out, ", properties: ");
            push_str(out, "[");
            write_props_join(out, properties);
            push_str(out, "]");
            push_str(out, ", span: ");
            write_span(out, *span);
            push_str(out, " }");
            assert(out@ =~= start + shrub_repr(s@));
        },
        Shrubbery::LiveBlock { deps, body, span } => {
            push_str(out, "LiveBlock { deps: ");
            match deps {
                None => push_str(out, "None"),
                Some(d) => {
                    push_str(out, "Some(");
                    write_symbols(out, d);
                    push_str(out, ")");
                },
            }
            push_str(out, ", body: ");
            push_str(out, "[");
            write_shrubs_join(out, body);
            push_str(out, "]");
            push_str(out, ", span: ");
            write_span(out, *span);
            push_str(out, " }");
            assert(out@ =~= start + shrub_repr(s@));
        },
        _ => write_shrub_forms(out, s),
    }
}

#[verifier::spinoff_prover]
#[verifier::rlimit(60)]
fn write_shrub_forms(out: &mut String, s: &Shrubbery)
    requires
        s is Selector || s is Quote || s is Splice || s is If || s is For,
    ensures
        final(out)@ == old(out)@ + shrub_repr(s@),
    decreases s, 0nat,
{
    let ghost start = out@;
    match s {
        Shrubbery::Selector { base, predicate, span } => {
            push_str(out, "Selector { base: ");
            write_symbol(out, *base);
            push_str(out, ", predicate: ");
            write_opt_box(out, predicate);
            push_str(out, ", span: ");
            write_span(out, *span);
            push_str(out, " }");
            assert(out@ =~= start + shrub_repr(s@));
        },
        Shrubbery::Quote { body, span } => {
            push_str(out, "Quote { body: ");
            write_shrub(out, body);
            push_str(out, ", span: ");
            write_span(out, *span);
            push_str(out, " }");
            assert(out@ =~= start + shrub_repr(s@));
        },
        Shrubbery::Splice { expr, span } => {
            push_str(out, "Splice { expr: ");
            write_shrub(out, expr);
            push_str(out, ", span: ");
            write_span(out, *span);
            push_str(out, " }");
            assert(out@ =~= start + shrub_repr(s@));
        },
        Shrubbery::If { condition, then_branch, else_branch, span } => {
            push_str(out, "If { condition: ");
            write_shrub(out, condition);
            push_str(out, ", then_branch: ");
            write_shrub(out, then_branch);
            push_str(out, ", else_branch: ");
            write_opt_box(out, else_branch);
            push_str(out, ", span: ");
            write_span(out, *span);
            push_str(out, " }");
            assert(out@ =~= start + shrub_repr(s@));
        },
        Shrubbery::For { pattern, iterable, body, span } => {
            push_str(out, "For { pattern: ");
            write_symbol(out, *pattern);
            push_str(out, ", iterable: ");
            write_shrub(out, iterable);
            push_str(out, ", body: ");
            write_shrub(out, body);
            push_str(out, ", span: ");
            write_span(out, *span);
            push_str(out, " }");
            assert(out@ =~= start + shrub_repr(s@));
        },
        _ => {},
    }
}

#[verifier::spinoff_prover]
fn write_binding(out: &mut String, b: &Binding)
    ensures
        final(out)@ == old(out)@ + binding_repr(b@),
{
    let ghost start = out@;
    push_str(out, "Binding { symbol: ");
    write_symbol(out, b.symbol);
    push_str(out, ", scopes: ");
    write_scopes(out, &b.scopes);
    push_str(out, ", span: ");
    write_span(out, b.span);
    push_str(out, ", space: ");
    match &b.space {
        None => push_str(out, "None"),
        Some(sp) => {
            push_str(out, "Some(");
            push_str(out, "Space { id: ");
            write_decimal(out, sp.id());
            push_str(out, ", scope: ");
            push_str(out, "Scope(");
            write_decimal(out, sp.scope().0);
            push_str(out, ")");
            push_str(out, " }");
            push_str(out, ")");
            assert(out@ =~= start + "Binding { symbol: "@ + symbol_repr(b.symbol) + ", scopes: "@ + scopes_repr(b.scopes@) + ", span: "@ + span_repr(b.span)
                + ", space: "@ + ("Some("@ + space_repr(*sp) + ")"@));
        },
    }
    push_str(out, " }");
    assert(out@ =~= start + binding_repr(b@));
}

#[verifier::spinoff_prover]
fn write_bindings(out: &mut String, env: &HygieneEnv)
    ensures
        final(out)@ == old(out)@ + list_repr(Seq::new(env@.len(), |k: int| binding_repr(env@[k]))),
{
    let ghost start = out@;
    let ghost ps = Seq::new(env@.len(), |k: int| binding_repr(env@[k]));
    let bs = env.bindings();
    push_str(out, "[");
    let mut i: usize = 0;
    while i < bs.len()
        invariant
            0 <= i <= bs@.len(),
            bs@.len() == env@.len(),
            forall|k: int| 0 <= k < bs@.len() ==> #[trigger] bs@[k]@ == env@[k],
            ps == Seq::new(env@.len(), |k: int| binding_repr(env@[k])),
            out@ == start + "["@ + join(ps.take(i as int)),
        decreases bs@.len() - i,
    {
        write_sep(out, i);
        write_binding(out, &bs[i]);
        proof { lemma_join_step(ps, i as int); }
        assert(out@ =~= start + "["@ + join(ps.take(i + 1)));
        i = i + 1;
    }
    push_str(out, "]");
    assert(ps.take(bs@.len() as int) =~= ps);
    assert(out@ =~= start + list_repr(ps));
}

#[verifier::spinoff_prover]
fn write_function(out: &mut String, f: &ExpandFunction)
    ensures
        final(out)@ == old(out)@ + function_repr(f@),
{
    let ghost start = out@;
    match f {
        ExpandFunction::Native { name, arity, builtin } => {
            push_str(out, "Native { name: ");
            write_quoted(out, name.as_str());
            push_str(out, ", arity: ");
            write_decimal(out, *arity as u64);
            push_str(out, ", handler: ");
            match builtin {
                Builtin::Text => push_str(out, "Text"),
                Builtin::Paragraph => push_str(out, "Paragraph"),
                Builtin::Heading => push_str(out, "Heading"),
                Builtin::Emphasis => push_str(out, "Emphasis"),
                Builtin::Strong => push_str(out, "Strong"),
                Builtin::Quote => push_str(out, "Quote"),
                Builtin::Splice => push_str(out, "Splice"),
                Builtin::EvalExpand => push_str(out, "EvalExpand"),
            }
            push_str(out, " }");
            assert(out@ =~= start + function_repr(f@));
        },
        ExpandFunction::Macro { params, body, env } => {
            push_str(out, "Macro { params: ");
            write_quoted_list(out, params);
            push_str(out, ", body: ");
            write_shrub(out, body);
            push_str(out, ", env: HygieneEnv { bindings: ");
            write_bindings(out, env);
            push_str(out, " } }");
            assert(params@.map_values(|p: String| p@).len() == params@.len());
            assert(Seq::new(params@.map_values(|p: String| p@).len(), |k: int| quoted_debug(params@.map_values(|p: String| p@)[k]))
                =~= Seq::new(params@.len(), |i: int| quoted_debug(params@[i]@)));
            assert(out@ =~= start + function_repr(f@));
        },
    }
}

#[verifier::spinoff_prover]
#[verifier::rlimit(60)]
fn write_value(out: &mut String, v: &ExpandValue)
    ensures
        final(out)@ == old(out)@ + value_debug(v@),
    decreases v,
{
    let ghost start = out@;
    match v {
        ExpandValue::NoneValue => {
            push_str(out, "None");
            assert(out@ =~= start + value_debug(v@));
        },
        ExpandValue::Bool(b) => {
            push_str(out, "Bool(");
            let t = bool_to_text(*b);
            push_str(out, t.as_str());
            push_str(out, ")");
            assert(out@ =~= start + value_debug(v@));
        },
        ExpandValue::Int(i) => {
            push_str(out, "Int(");
            let t = i64_to_text(*i);
            push_str(out, t.as_str());
            push_str(out, ")");
            assert(out@ =~= start + value_debug(v@));
        },
        ExpandValue::Float(t) => {
            push_str(out, "Float(");
            push_str(out, t.as_str());
            push_str(out, ")");
            assert(out@ =~= start + value_debug(v@));
        },
        ExpandValue::String(t) => {
            push_str(out, "String(");
            write_quoted(out, t.as_str());
            push_str(out, ")");
            assert(out@ =~= start + value_debug(v@));
        },
        ExpandValue::Symbol(t) => {
            push_str(out, "Symbol(");
            write_quoted(out, t.as_str());
            push_str(out, ")");
            assert(out@ =~= start + value_debug(v@));
        },
        ExpandValue::Content(c) => {
            push_str(out, "Content(");
            write_content(out, c);
            push_str(out, ")");
            proof { lemma_content_value_repr(*c); }
            assert(out@ =~= start + value_debug(v@));
        },
        ExpandValue::Code(sh, k) => {
            push_str(out, "Code(");
            write_shrub(out, sh);
            push_str(out, ", ");
            match k {
                ContentKind::Block => push_str(out, "Block"),
                ContentKind::Inline => push_str(out, "Inline"),
                ContentKind::Content => push_str(out, "Content"),
            }
            push_str(out, ")");
            assert(out@ =~= start + value_debug(v@));
        },
        ExpandValue::Shrubbery(sh) => {
            push_str(out, "Shrubbery(");
            write_shrub(out, sh);
            push_str(out, ")");
            assert(out@ =~= start + value_debug(v@));
        },
        ExpandValue::Array(items) => {
            push_str(out, "Array(");
            push_str(out, "[");
            write_values_join(out, items);
            push_str(out, "]");
            push_str(out, ")");
            let ghost ms = v@->Array_0;
            assert(ms =~= Seq::new(items@.len(), |i: int| items@[i]@));
            assert(out@ =~= start + value_debug(v@));
        },
        ExpandValue::Mapping(es) => {
            push_str(out, "Map(");
            push_str(out, "{");
            write_entries_join(out, es);
            push_str(out, "}");
            push_str(out, ")");
            let ghost ms = v@->Mapping_0;
            assert(ms =~= Seq::new(es@.len(), |i: int| (es@[i].0@, es@[i].1@)));
            assert(out@ =~= start + value_debug(v@));
        },
        ExpandValue::Function(f) => {
            push_str(out, "Function(");
            write_function(out, f);
            push_str(out, ")");
            assert(out@ =~= start + value_debug(v@));
        },
    }
}

#[verifier::spinoff_prover]
fn write_values_join(out: &mut String, xs: &Vec<ExpandValue>)
    ensures
        final(out)@ == old(out)@ + values_join(Seq::new(xs@.len(), |i: int| xs@[i]@)),
    decreases xs,
{
    let ghost start = out@;
    let ghost ms = Seq::new(xs@.len(), |i: int| xs@[i]@);
    let mut i: usize = 0;
    while i < xs.len()
        invariant
            0 <= i <= xs@.len(),
            ms == Seq::new(xs@.len(), |i: int| xs@[i]@),
            out@ == start + values_join(ms.take(i as int)),
        decreases xs@.len() - i,
    {
        write_sep(out, i);
        proof { vstd::std_specs::vec::axiom_vec_index_decreases(*xs, i as int); }
        write_value(out, &xs[i]);
        proof { lemma_values_step(ms, i as int); }
        assert(out@ =~= start + values_join(ms.take(i + 1)));
        i = i + 1;
    }
    assert(ms.take(xs@.len() as int) =~= ms);
}

#[verifier::spinoff_prover]
fn write_entries_join(out: &mut String, es: &Vec<(String, ExpandValue)>)
    ensures
        final(out)@ == old(out)@ + entries_join(Seq::new(es@.len(), |i: int| (es@[i].0@, es@[i].1@))),
    decreases es,
{
    let ghost start = out@;
    let ghost ms = Seq::new(es@.len(), |i: int| (es@[i].0@, es@[i].1@));
    let mut i: usize = 0;
    while i < es.len()
        invariant
            0 <= i <= es@.len(),
            ms == Seq::new(es@.len(), |i: int| (es@[i].0@, es@[i].1@)),
            out@ == start + entries_join(ms.take(i as int)),
        decreases es@.len() - i,
    {
        write_sep(out, i);
        proof {
            vstd::std_specs::vec::axiom_vec_index_decreases(*es, i as int);
            assert(decreases_to!(es@[i as int] => es@[i as int].1));
        }
        let ghost mid = out@;
        write_quoted(out, es[i].0.as_str());
        push_str(out, ": ");
        write_value(out, &es[i].1);
        proof {
            assert(out@ =~= mid + entry_repr(ms[i as int]));
            lemma_entries_step(ms, i as int);
        }
        assert(out@ =~= start + entries_join(ms.take(i + 1)));
        i = i + 1;
    }
    assert(ms.take(es@.len() as int) =~= ms);
}

/// The debugging text of a value: `value_debug` of it.
#[verifier::spinoff_prover]
pub fn value_debug_text(v: &ExpandValue) -> (r: String)
    ensures
        r@ == value_debug(v@),
{
    let mut out = String::new();
    write_value(&mut out, v);
    assert(out@ =~= value_debug(v@));
    out
}

} // verus!
