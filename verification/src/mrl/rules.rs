//! Show/Set rules: selectors that match content elements, predicates over
//! their fields, and set rules that change the attributes of what matches.

use vstd::prelude::*;
use crate::mrl::content::{AttrModel, Attributes, Block, Content, Inline, ListItem, block_attrs, block_with_attrs, block_text, content_text, contents_text, inline_text, inlines_text, list_text};
use crate::mrl::error::{MrlError, Span};
use crate::mrl::shrubbery::{Shrubbery, ShrubModel, Symbol};
use crate::util::strmap::StrMap;
use crate::util::text::{str_eq, chars_of, push_str, i64_to_text, bool_to_text, signed_decimal, bool_text, to_owned_string};
use std::collections::HashMap;

verus! {

/// Lowers the case of a text with `str::to_lowercase` (Unicode case mapping).
/// Claimed: the result is `lowercase(s@)`, a function of the text alone.
#[verifier::external_body]
fn to_lowercase(s: &str) -> (r: String)
    ensures
        r@ == lowercase(s@),
{
    s.to_lowercase()
}

/// The Unicode lower-case mapping of a text, as `str::to_lowercase` computes it.
pub uninterp spec fn lowercase(s: Seq<char>) -> Seq<char>;

/// Base selector types.
#[derive(Debug, Clone, Copy, PartialEq, Eq, Structural)]
pub enum SelectorBase {
    // Block types
    Heading,
    Paragraph,
    CodeBlock,
    List,
    Blockquote,
    Table,
    ThematicBreak,
    Directive,
    // Inline types
    Text,
    Emphasis,
    Strong,
    Code,
    Link,
    Image,
    Reference,
    Math,
    Span,
    // Generic
    Block,
    Inline,
    Content,
}

/// The selector base named by a lower-case name.
pub open spec fn base_for_name(n: Seq<char>) -> Option<SelectorBase> {
    if n == "heading"@ { Some(SelectorBase::Heading) }
    else if n == "paragraph"@ || n == "para"@ || n == "p"@ { Some(SelectorBase::Paragraph) }
    else if n == "codeblock"@ || n == "code-block"@ { Some(SelectorBase::CodeBlock) }
    else if n == "list"@ { Some(SelectorBase::List) }
    else if n == "blockquote"@ || n == "quote"@ { Some(SelectorBase::Blockquote) }
    else if n == "table"@ { Some(SelectorBase::Table) }
    else if n == "thematicbreak"@ || n == "hr"@ { Some(SelectorBase::ThematicBreak) }
    else if n == "directive"@ { Some(SelectorBase::Directive) }
    else if n == "text"@ { Some(SelectorBase::Text) }
    else if n == "emphasis"@ || n == "emph"@ || n == "em"@ { Some(SelectorBase::Emphasis) }
    else if n == "strong"@ || n == "bold"@ || n == "b"@ { Some(SelectorBase::Strong) }
    else if n == "code"@ { Some(SelectorBase::Code) }
    else if n == "link"@ || n == "a"@ { Some(SelectorBase::Link) }
    else if n == "image"@ || n == "img"@ { Some(SelectorBase::Image) }
    else if n == "reference"@ || n == "ref"@ { Some(SelectorBase::Reference) }
    else if n == "math"@ { Some(SelectorBase::Math) }
    else if n == "span"@ { Some(SelectorBase::Span) }
    else if n == "block"@ { Some(SelectorBase::Block) }
    else if n == "inline"@ { Some(SelectorBase::Inline) }
    else if n == "content"@ { Some(SelectorBase::Content) }
    else { None }
}

/// Whether a selector base matches a content element: each block or
/// inline kind matches itself, Block any block, Inline any inline, and
/// Content anything.
pub open spec fn base_matches(b: SelectorBase, c: Content) -> bool {
    match (b, c) {
        (SelectorBase::Heading, Content::Block(Block::Heading { .. })) => true,
        (SelectorBase::Paragraph, Content::Block(Block::Paragraph { .. })) => true,
        (SelectorBase::CodeBlock, Content::Block(Block::CodeBlock { .. })) => true,
        (SelectorBase::List, Content::Block(Block::List { .. })) => true,
        (SelectorBase::Blockquote, Content::Block(Block::Blockquote { .. })) => true,
        (SelectorBase::Table, Content::Block(Block::Table { .. })) => true,
        (SelectorBase::ThematicBreak, Content::Block(Block::ThematicBreak { .. })) => true,
        (SelectorBase::Directive, Content::Block(Block::Directive { .. })) => true,
        (SelectorBase::Text, Content::Inline(Inline::Text(_))) => true,
        (SelectorBase::Emphasis, Content::Inline(Inline::Emphasis(_))) => true,
        (SelectorBase::Strong, Content::Inline(Inline::Strong(_))) => true,
        (SelectorBase::Code, Content::Inline(Inline::Code(_))) => true,
        (SelectorBase::Link, Content::Inline(Inline::Link { .. })) => true,
        (SelectorBase::Image, Content::Inline(Inline::Image { .. })) => true,
        (SelectorBase::Reference, Content::Inline(Inline::Reference(_))) => true,
        (SelectorBase::Math, Content::Inline(Inline::Math(_))) => true,
        (SelectorBase::Span, Content::Inline(Inline::Span { .. })) => true,
        (SelectorBase::Block, Content::Block(_)) => true,
        (SelectorBase::Inline, Content::Inline(_)) => true,
        (SelectorBase::Content, _) => true,
        _ => false,
    }
}

impl SelectorBase {
    /// The selector base named by `name`, compared after lowering its case.
    pub fn from_name(name: &str) -> (r: Option<Self>)
        ensures
            r == base_for_name(lowercase(name@)),
    {
        let lower = to_lowercase(name);
        Self::from_lowercase_name(lower.as_str())
    }

    /// The selector base named by an already lower-case `name`.
    pub fn from_lowercase_name(n: &str) -> (r: Option<Self>)
        ensures
            r == base_for_name(n@),
    {
        if str_eq(n, "heading") { Some(SelectorBase::Heading) }
        else if str_eq(n, "paragraph") || str_eq(n, "para") || str_eq(n, "p") { Some(SelectorBase::Paragraph) }
        else if str_eq(n, "codeblock") || str_eq(n, "code-block") { Some(SelectorBase::CodeBlock) }
        else if str_eq(n, "list") { Some(SelectorBase::List) }
        else if str_eq(n, "blockquote") || str_eq(n, "quote") { Some(SelectorBase::Blockquote) }
        else if str_eq(n, "table") { Some(SelectorBase::Table) }
        else if str_eq(n, "thematicbreak") || str_eq(n, "hr") { Some(SelectorBase::ThematicBreak) }
        else if str_eq(n, "directive") { Some(SelectorBase::Directive) }
        else if str_eq(n, "text") { Some(SelectorBase::Text) }
        else if str_eq(n, "emphasis") || str_eq(n, "emph") || str_eq(n, "em") { Some(SelectorBase::Emphasis) }
        else if str_eq(n, "strong") || str_eq(n, "bold") || str_eq(n, "b") { Some(SelectorBase::Strong) }
        else if str_eq(n, "code") { Some(SelectorBase::Code) }
        else if str_eq(n, "link") || str_eq(n, "a") { Some(SelectorBase::Link) }
        else if str_eq(n, "image") || str_eq(n, "img") { Some(SelectorBase::Image) }
        else if str_eq(n, "reference") || str_eq(n, "ref") { Some(SelectorBase::Reference) }
        else if str_eq(n, "math") { Some(SelectorBase::Math) }
        else if str_eq(n, "span") { Some(SelectorBase::Span) }
        else if str_eq(n, "block") { Some(SelectorBase::Block) }
        else if str_eq(n, "inline") { Some(SelectorBase::Inline) }
        else if str_eq(n, "content") { Some(SelectorBase::Content) }
        else { None }
    }

    /// Check if this selector matches the given content.
    pub fn matches(&self, content: &Content) -> (r: bool)
        ensures
            r == base_matches(*self, *content),
    {
        match (self, content) {
            (SelectorBase::Heading, Content::Block(Block::Heading { .. })) => true,
            (SelectorBase::Paragraph, Content::Block(Block::Paragraph { .. })) => true,
            (SelectorBase::CodeBlock, Content::Block(Block::CodeBlock { .. })) => true,
            (SelectorBase::List, Content::Block(Block::List { .. })) => true,
            (SelectorBase::Blockquote, Content::Block(Block::Blockquote { .. })) => true,
            (SelectorBase::Table, Content::Block(Block::Table { .. })) => true,
            (SelectorBase::ThematicBreak, Content::Block(Block::ThematicBreak { .. })) => true,
            (SelectorBase::Directive, Content::Block(Block::Directive { .. })) => true,
            (SelectorBase::Text, Content::Inline(Inline::Text(_))) => true,
            (SelectorBase::Emphasis, Content::Inline(Inline::Emphasis(_))) => true,
            (SelectorBase::Strong, Content::Inline(Inline::Strong(_))) => true,
            (SelectorBase::Code, Content::Inline(Inline::Code(_))) => true,
            (SelectorBase::Link, Content::Inline(Inline::Link { .. })) => true,
            (SelectorBase::Image, Content::Inline(Inline::Image { .. })) => true,
            (SelectorBase::Reference, Content::Inline(Inline::Reference(_))) => true,
            (SelectorBase::Math, Content::Inline(Inline::Math(_))) => true,
            (SelectorBase::Span, Content::Inline(Inline::Span { .. })) => true,
            (SelectorBase::Block, Content::Block(_)) => true,
            (SelectorBase::Inline, Content::Inline(_)) => true,
            (SelectorBase::Content, _) => true,
            _ => false,
        }
    }
}

/// Values that can be compared in predicates.
#[derive(Debug)]
pub enum PredicateValue {
    Int(i64),
    String(String),
    Bool(bool),
}

/// Predicate for filtering matched elements.
#[derive(Debug)]
pub enum Predicate {
    /// Compare a field to a value: field == value
    Equals(String, PredicateValue),
    /// Compare a field to a value: field != value
    NotEquals(String, PredicateValue),
    /// Compare a field to a value: field < value
    LessThan(String, PredicateValue),
    /// Compare a field to a value: field <= value
    LessOrEqual(String, PredicateValue),
    /// Compare a field to a value: field > value
    GreaterThan(String, PredicateValue),
    /// Compare a field to a value: field >= value
    GreaterOrEqual(String, PredicateValue),
    /// Logical AND of predicates
    And(Box<Predicate>, Box<Predicate>),
    /// Logical OR of predicates
    Or(Box<Predicate>, Box<Predicate>),
    /// Logical NOT of predicate
    Not(Box<Predicate>),
}

/// Predicate values are equal: same kind and same value.
pub open spec fn value_eq(a: PredicateValue, b: PredicateValue) -> bool {
    match (a, b) {
        (PredicateValue::Int(x), PredicateValue::Int(y)) => x == y,
        (PredicateValue::String(x), PredicateValue::String(y)) => x@ == y@,
        (PredicateValue::Bool(x), PredicateValue::Bool(y)) => x == y,
        _ => false,
    }
}

/// Lexicographic order of texts by character code.
pub open spec fn text_lt(a: Seq<char>, b: Seq<char>) -> bool
    decreases a.len(),
{
    if a.len() == 0 {
        b.len() > 0
    } else if b.len() == 0 {
        false
    } else if a[0] != b[0] {
        (a[0] as u32) < (b[0] as u32)
    } else {
        text_lt(a.drop_first(), b.drop_first())
    }
}

/// The ordering of predicate values: integers by value, texts
/// lexicographically; values of other or different kinds are unordered.
pub open spec fn value_order(a: PredicateValue, b: PredicateValue) -> Option<int> {
    match (a, b) {
        (PredicateValue::Int(x), PredicateValue::Int(y)) => Some(if x < y { -1 } else if x == y { 0 } else { 1 }),
        (PredicateValue::String(x), PredicateValue::String(y)) => Some(if text_lt(x@, y@) { -1 } else if x@ == y@ { 0 } else { 1 }),
        _ => None,
    }
}

/// How a field is compared with a value.
#[derive(Clone, Copy, PartialEq, Eq, Structural)]
pub enum Comparison {
    Less,
    LessEq,
    Greater,
    GreaterEq,
}

/// Whether comparison `c` holds between two values.
pub open spec fn comparison_holds(c: Comparison, a: PredicateValue, b: PredicateValue) -> bool {
    match value_order(a, b) {
        Some(o) => match c {
            Comparison::Less => o < 0,
            Comparison::LessEq => o <= 0,
            Comparison::Greater => o > 0,
            Comparison::GreaterEq => o >= 0,
        },
        None => false,
    }
}

/// The value of field `f` of a block, if the block has such a field.
pub open spec fn block_field(b: Block, f: Seq<char>) -> Option<PredicateValue> {
    match b {
        Block::Heading { level, .. } => if f == "level"@ { Some(PredicateValue::Int(level as i64)) } else { None },
        Block::CodeBlock { lang, .. } => if f == "lang"@ || f == "language"@ {
            match lang { Some(l) => Some(PredicateValue::String(l)), None => None }
        } else { None },
        Block::List { ordered, .. } => if f == "ordered"@ { Some(PredicateValue::Bool(ordered)) } else { None },
        Block::Directive { name, .. } => if f == "name"@ { Some(PredicateValue::String(name)) } else { None },
        _ => None,
    }
}

/// The value of field `f` of an inline, if it has such a field.
pub open spec fn inline_field(i: Inline, f: Seq<char>) -> Option<PredicateValue> {
    match i {
        Inline::Link { url, title, .. } => if f == "url"@ || f == "href"@ {
            Some(PredicateValue::String(url))
        } else if f == "title"@ {
            match title { Some(t) => Some(PredicateValue::String(t)), None => None }
        } else { None },
        Inline::Image { alt, url, .. } => if f == "url"@ || f == "src"@ {
            Some(PredicateValue::String(url))
        } else if f == "alt"@ {
            Some(PredicateValue::String(alt))
        } else { None },
        Inline::Reference(r) => if f == "target"@ { Some(PredicateValue::String(r)) } else { None },
        _ => None,
    }
}

/// The value of field `f` of a content element.
pub open spec fn content_field(c: Content, f: Seq<char>) -> Option<PredicateValue> {
    match c {
        Content::Block(b) => block_field(b, f),
        Content::Inline(i) => inline_field(i, f),
        Content::Sequence(_) => None,
    }
}

/// What a predicate says of a content element. A comparison with a field
/// the element lacks is false, except `!=`, which is then true.
pub open spec fn predicate_holds(p: Predicate, c: Content) -> bool
    decreases p,
{
    match p {
        Predicate::Equals(f, v) => match content_field(c, f@) { Some(x) => value_eq(x, v), None => false },
        Predicate::NotEquals(f, v) => match content_field(c, f@) { Some(x) => !value_eq(x, v), None => true },
        Predicate::LessThan(f, v) => match content_field(c, f@) { Some(x) => comparison_holds(Comparison::Less, x, v), None => false },
        Predicate::LessOrEqual(f, v) => match content_field(c, f@) { Some(x) => comparison_holds(Comparison::LessEq, x, v), None => false },
        Predicate::GreaterThan(f, v) => match content_field(c, f@) { Some(x) => comparison_holds(Comparison::Greater, x, v), None => false },
        Predicate::GreaterOrEqual(f, v) => match content_field(c, f@) { Some(x) => comparison_holds(Comparison::GreaterEq, x, v), None => false },
        Predicate::And(l, r) => predicate_holds(*l, c) && predicate_holds(*r, c),
        Predicate::Or(l, r) => predicate_holds(*l, c) || predicate_holds(*r, c),
        Predicate::Not(inner) => !predicate_holds(*inner, c),
    }
}

/// On an integer field, each comparison predicate means the comparison of
/// integers: with field value `x` and predicate value `y`, `==` holds when
/// `x == y`, `!=` when `x != y`, `<` when `x < y`, `<=` when `x <= y`,
/// `>` when `x > y` and `>=` when `x >= y` (so `>=` holds on equal values
/// and is the negation of `<`, as `<=` is of `>`).
pub proof fn lemma_integer_field_comparisons(c: Content, f: String, x: i64, y: i64)
    requires
        content_field(c, f@) == Some(PredicateValue::Int(x)),
    ensures
        predicate_holds(Predicate::Equals(f, PredicateValue::Int(y)), c) <==> x == y,
        predicate_holds(Predicate::NotEquals(f, PredicateValue::Int(y)), c) <==> x != y,
        predicate_holds(Predicate::LessThan(f, PredicateValue::Int(y)), c) <==> x < y,
        predicate_holds(Predicate::LessOrEqual(f, PredicateValue::Int(y)), c) <==> x <= y,
        predicate_holds(Predicate::GreaterThan(f, PredicateValue::Int(y)), c) <==> x > y,
        predicate_holds(Predicate::GreaterOrEqual(f, PredicateValue::Int(y)), c) <==> x >= y,
        predicate_holds(Predicate::GreaterOrEqual(f, PredicateValue::Int(y)), c)
            == !predicate_holds(Predicate::LessThan(f, PredicateValue::Int(y)), c),
        predicate_holds(Predicate::LessOrEqual(f, PredicateValue::Int(y)), c)
            == !predicate_holds(Predicate::GreaterThan(f, PredicateValue::Int(y)), c),
{
}

/// On a text field, the strict and non-strict comparisons are each
/// other's negations, and equality holds exactly on equal texts, where
/// both non-strict comparisons hold and neither strict one does.
pub proof fn lemma_text_field_comparisons(c: Content, f: String, x: String, y: String)
    requires
        content_field(c, f@) == Some(PredicateValue::String(x)),
    ensures
        predicate_holds(Predicate::Equals(f, PredicateValue::String(y)), c) <==> x@ == y@,
        predicate_holds(Predicate::GreaterOrEqual(f, PredicateValue::String(y)), c)
            == !predicate_holds(Predicate::LessThan(f, PredicateValue::String(y)), c),
        predicate_holds(Predicate::LessOrEqual(f, PredicateValue::String(y)), c)
            == !predicate_holds(Predicate::GreaterThan(f, PredicateValue::String(y)), c),
        x@ == y@ ==> predicate_holds(Predicate::GreaterOrEqual(f, PredicateValue::String(y)), c)
            && predicate_holds(Predicate::LessOrEqual(f, PredicateValue::String(y)), c)
            && !predicate_holds(Predicate::LessThan(f, PredicateValue::String(y)), c)
            && !predicate_holds(Predicate::GreaterThan(f, PredicateValue::String(y)), c),
{
    if x@ == y@ {
        lemma_text_lt_irreflexive(x@);
    }
}

/// No text is below itself.
proof fn lemma_text_lt_irreflexive(a: Seq<char>)
    ensures
        !text_lt(a, a),
    decreases a.len(),
{
    if a.len() > 0 {
        lemma_text_lt_irreflexive(a.drop_first());
    }
}

fn text_less(a: &String, b: &String) -> (r: bool)
    ensures
        r == text_lt(a@, b@),
{
    let x = chars_of(a.as_str());
    let y = chars_of(b.as_str());
    let mut i: usize = 0;
    proof {
        assert(x@.skip(0) =~= x@);
        assert(y@.skip(0) =~= y@);
    }
    while i < x.len() && i < y.len() && x[i] == y[i]
        invariant
            0 <= i <= x@.len(),
            i <= y@.len(),
            text_lt(x@, y@) == text_lt(x@.skip(i as int), y@.skip(i as int)),
        decreases x@.len() - i,
    {
        proof {
            assert(x@.skip(i as int).drop_first() =~= x@.skip(i + 1));
            assert(y@.skip(i as int).drop_first() =~= y@.skip(i + 1));
        }
        i = i + 1;
    }
    if i == x.len() {
        i < y.len()
    } else if i == y.len() {
        false
    } else {
        (x[i] as u32) < (y[i] as u32)
    }
}

fn value_equal(a: &PredicateValue, b: &PredicateValue) -> (r: bool)
    ensures
        r == value_eq(*a, *b),
{
    match (a, b) {
        (PredicateValue::Int(x), PredicateValue::Int(y)) => *x == *y,
        (PredicateValue::String(x), PredicateValue::String(y)) => str_eq(x.as_str(), y.as_str()),
        (PredicateValue::Bool(x), PredicateValue::Bool(y)) => *x == *y,
        _ => false,
    }
}

fn compare_values(c: Comparison, a: &PredicateValue, b: &PredicateValue) -> (r: bool)
    ensures
        r == comparison_holds(c, *a, *b),
{
    match (a, b) {
        (PredicateValue::Int(x), PredicateValue::Int(y)) => match c {
            Comparison::Less => *x < *y,
            Comparison::LessEq => *x <= *y,
            Comparison::Greater => *x > *y,
            Comparison::GreaterEq => *x >= *y,
        },
        (PredicateValue::String(x), PredicateValue::String(y)) => {
            let lt = text_less(x, y);
            let eq = str_eq(x.as_str(), y.as_str());
            match c {
                Comparison::Less => lt,
                Comparison::LessEq => lt || eq,
                Comparison::Greater => !lt && !eq,
                Comparison::GreaterEq => !lt,
            }
        },
        _ => false,
    }
}

fn get_block_field(block: &Block, field: &str) -> (r: Option<PredicateValue>)
    ensures
        match (r, block_field(*block, field@)) {
            (Some(PredicateValue::String(x)), Some(PredicateValue::String(y))) => x@ == y@,
            (Some(x), Some(y)) => x == y,
            (None, None) => true,
            _ => false,
        },
{
    match block {
        Block::Heading { level, .. } => if str_eq(field, "level") { Some(PredicateValue::Int(*level as i64)) } else { None },
        Block::CodeBlock { lang, .. } => if str_eq(field, "lang") || str_eq(field, "language") {
            match lang { Some(l) => Some(PredicateValue::String(l.clone())), None => None }
        } else { None },
        Block::List { ordered, .. } => if str_eq(field, "ordered") { Some(PredicateValue::Bool(*ordered)) } else { None },
        Block::Directive { name, .. } => if str_eq(field, "name") { Some(PredicateValue::String(name.clone())) } else { None },
        _ => None,
    }
}

fn get_inline_field(inline: &Inline, field: &str) -> (r: Option<PredicateValue>)
    ensures
        match (r, inline_field(*inline, field@)) {
            (Some(PredicateValue::String(x)), Some(PredicateValue::String(y))) => x@ == y@,
            (Some(x), Some(y)) => x == y,
            (None, None) => true,
            _ => false,
        },
{
    match inline {
        Inline::Link { url, title, .. } => if str_eq(field, "url") || str_eq(field, "href") {
            Some(PredicateValue::String(url.clone()))
        } else if str_eq(field, "title") {
            match title { Some(t) => Some(PredicateValue::String(t.clone())), None => None }
        } else { None },
        Inline::Image { alt, url, .. } => if str_eq(field, "url") || str_eq(field, "src") {
            Some(PredicateValue::String(url.clone()))
        } else if str_eq(field, "alt") {
            Some(PredicateValue::String(alt.clone()))
        } else { None },
        Inline::Reference(r) => if str_eq(field, "target") { Some(PredicateValue::String(r.clone())) } else { None },
        _ => None,
    }
}

/// Get a field value from content for predicate evaluation.
fn get_field(content: &Content, field: &str) -> (r: Option<PredicateValue>)
    ensures
        match (r, content_field(*content, field@)) {
            (Some(PredicateValue::String(x)), Some(PredicateValue::String(y))) => x@ == y@,
            (Some(x), Some(y)) => x == y,
            (None, None) => true,
            _ => false,
        },
{
    match content {
        Content::Block(block) => get_block_field(block, field),
        Content::Inline(inline) => get_inline_field(inline, field),
        Content::Sequence(_) => None,
    }
}

proof fn lemma_same_value(a: PredicateValue, b: PredicateValue, v: PredicateValue)
    requires
        match (a, b) {
            (PredicateValue::String(x), PredicateValue::String(y)) => x@ == y@,
            _ => a == b,
        },
    ensures
        value_eq(a, v) == value_eq(b, v),
        value_order(a, v) == value_order(b, v),
{
}

fn compare_field(content: &Content, field: &str, value: &PredicateValue, c: Comparison) -> (r: bool)
    ensures
        r == match content_field(*content, field@) { Some(x) => comparison_holds(c, x, *value), None => false },
{
    match get_field(content, field) {
        Some(field_val) => {
            proof { lemma_same_value(field_val, content_field(*content, field@).unwrap(), *value); }
            compare_values(c, &field_val, value)
        },
        None => false,
    }
}

impl Predicate {
    /// Evaluate this predicate against a content element.
    pub fn evaluate(&self, content: &Content) -> (r: bool)
        ensures
            r == predicate_holds(*self, *content),
        decreases self,
    {
        match self {
            Predicate::Equals(field, value) => {
                match get_field(content, field.as_str()) {
                    Some(field_val) => {
                        proof { lemma_same_value(field_val, content_field(*content, field@).unwrap(), *value); }
                        value_equal(&field_val, value)
                    },
                    None => false,
                }
            },
            Predicate::NotEquals(field, value) => {
                match get_field(content, field.as_str()) {
                    Some(field_val) => {
                        proof { lemma_same_value(field_val, content_field(*content, field@).unwrap(), *value); }
                        !value_equal(&field_val, value)
                    },
                    None => true,
                }
            },
            Predicate::LessThan(field, value) => compare_field(content, field.as_str(), value, Comparison::Less),
            Predicate::LessOrEqual(field, value) => compare_field(content, field.as_str(), value, Comparison::LessEq),
            Predicate::GreaterThan(field, value) => compare_field(content, field.as_str(), value, Comparison::Greater),
            Predicate::GreaterOrEqual(field, value) => compare_field(content, field.as_str(), value, Comparison::GreaterEq),
            Predicate::And(left, right) => left.evaluate(content) && right.evaluate(content),
            Predicate::Or(left, right) => left.evaluate(content) || right.evaluate(content),
            Predicate::Not(inner) => !inner.evaluate(content),
        }
    }
}

/// A selector that matches content elements.
#[derive(Debug)]
pub struct Selector {
    /// The base type to match (e.g., "heading", "paragraph", "emphasis")
    pub base: SelectorBase,
    /// Optional predicate for filtering (e.g., level == 1)
    pub predicate: Option<Predicate>,
}

/// A selector matches an element when its base matches and its predicate,
/// if any, holds.
pub open spec fn selector_matches(s: Selector, c: Content) -> bool {
    base_matches(s.base, c) && match s.predicate {
        Some(p) => predicate_holds(p, c),
        None => true,
    }
}

impl Selector {
    /// Create a new selector with just a base type.
    pub fn new(base: SelectorBase) -> (r: Self)
        ensures
            r.base == base,
            r.predicate is None,
    {
        Selector { base, predicate: None }
    }

    /// Add a predicate to this selector.
    pub fn with_predicate(self, predicate: Predicate) -> (r: Self)
        ensures
            r.base == self.base,
            r.predicate == Some(predicate),
    {
        Selector { base: self.base, predicate: Some(predicate) }
    }

    /// Check if this selector matches the given content.
    pub fn matches(&self, content: &Content) -> (r: bool)
        ensures
            r == selector_matches(*self, *content),
    {
        if !self.base.matches(content) {
            return false;
        }
        match &self.predicate {
            Some(pred) => pred.evaluate(content),
            None => true,
        }
    }

    /// Parse a selector from shrubbery: an identifier whose name, looked up
    /// in `symbols`, names a selector base.
    pub fn from_shrubbery(shrub: &Shrubbery, symbols: &HashMap<u64, String>) -> (r: Option<Self>)
        ensures
            match shrub@ {
                ShrubModel::Identifier(sym, _, _) => match symbols@.get(sym.0) {
                    Some(name) => match base_for_name(lowercase(name@)) {
                        Some(b) => r matches Some(s) && s.base == b && s.predicate is None,
                        None => r is None,
                    },
                    None => r is None,
                },
                _ => r is None,
            },
    {
        match shrub {
            Shrubbery::Identifier(sym, _, _) => {
                match symbols.get(&sym.id()) {
                    Some(name) => match SelectorBase::from_name(name.as_str()) {
                        Some(base) => Some(Selector::new(base)),
                        None => None,
                    },
                    None => None,
                }
            },
            _ => None,
        }
    }
}

/// Value that can be set by a set rule.
#[derive(Debug)]
pub enum SetValue {
    String(String),
    Int(i64),
    Bool(bool),
}

/// A set rule: modifies attributes of matching content.
#[derive(Debug)]
pub struct SetRule {
    /// Selector for matching elements
    pub selector: Selector,
    /// Properties to set (attribute name -> value)
    pub properties: StrMap<SetValue>,
    /// Source span for error reporting
    pub span: Span,
}

/// What setting property `key` to `v` does to attributes: a text under
/// `id` becomes the id, a text under `class` is appended to the classes,
/// anything else is stored as text under its key.
pub open spec fn prop_applied(m: AttrModel, key: Seq<char>, v: SetValue) -> AttrModel {
    match v {
        SetValue::String(s) => if key == "id"@ {
            AttrModel { id: Some(s@), ..m }
        } else if key == "class"@ {
            AttrModel { classes: m.classes.push(s@), ..m }
        } else {
            AttrModel { other: m.other.insert(key, s@), ..m }
        },
        SetValue::Int(i) => AttrModel { other: m.other.insert(key, signed_decimal(i as int)), ..m },
        SetValue::Bool(b) => AttrModel { other: m.other.insert(key, bool_text(b)), ..m },
    }
}

/// The properties `es` set one after the other, in order.
pub open spec fn props_applied(m: AttrModel, es: Seq<(Seq<char>, SetValue)>) -> AttrModel
    decreases es.len(),
{
    if es.len() == 0 {
        m
    } else {
        prop_applied(props_applied(m, es.drop_last()), es.last().0, es.last().1)
    }
}

/// What one set rule does to the attributes of one element: where the
/// element matched, its properties are set; elsewhere nothing changes.
pub open spec fn attrs_after(before: Attributes, after: Attributes, props: StrMap<SetValue>, hit: bool) -> bool {
    if hit {
        after.model() == props_applied(before.model(), props.entry_seq())
    } else {
        after == before
    }
}

/// Content `r` is content `c` after one pass of set rule `rule`: each
/// matching element has the rule's properties set on its attributes
/// (blocks and spans carry attributes), and the pass goes on into every
/// child: the bodies of headings, paragraphs, block quotes and directives,
/// the bodies of list items and their nested lists, the cells of tables,
/// what inline wrappers wrap, sequences item by item; nothing else changes.
pub open spec fn content_after(c: Content, r: Content, rule: SetRule) -> bool
    decreases c,
{
    match c {
        Content::Block(b) => r matches Content::Block(rb) && block_after(b, rb, rule),
        Content::Inline(i) => r matches Content::Inline(ri) && inline_after(i, ri, rule),
        Content::Sequence(items) => r matches Content::Sequence(ritems)
            && ritems@.len() == items@.len()
            && forall|j: int| 0 <= j < items@.len() ==> content_after(#[trigger] items@[j], ritems@[j], rule),
    }
}

/// `content_after` for a block.
pub open spec fn block_after(b: Block, rb: Block, rule: SetRule) -> bool
    decreases b,
{
    let hit = selector_matches(rule.selector, Content::Block(b));
    match b {
        Block::Heading { level, body, attrs } => rb matches Block::Heading { level: rlevel, body: rbody, attrs: rattrs }
            && rlevel == level
            && attrs_after(attrs, rattrs, rule.properties, hit)
            && inline_after(*body, *rbody, rule),
        Block::Paragraph { body, attrs } => rb matches Block::Paragraph { body: rbody, attrs: rattrs }
            && attrs_after(attrs, rattrs, rule.properties, hit)
            && inline_after(*body, *rbody, rule),
        Block::List { items, ordered, attrs } => rb matches Block::List { items: ritems, ordered: rordered, attrs: rattrs }
            && rordered == ordered
            && attrs_after(attrs, rattrs, rule.properties, hit)
            && list_items_after(items@, ritems@, rule),
        Block::Table { headers, rows, attrs } => rb matches Block::Table { headers: rheaders, rows: rrows, attrs: rattrs }
            && attrs_after(attrs, rattrs, rule.properties, hit)
            && inlines_after(headers@, rheaders@, rule)
            && rrows@.len() == rows@.len()
            && forall|j: int| 0 <= j < rows@.len() ==> inlines_after(#[trigger] rows@[j]@, rrows@[j]@, rule),
        Block::Blockquote { body, attrs } => rb matches Block::Blockquote { body: rbody, attrs: rattrs }
            && attrs_after(attrs, rattrs, rule.properties, hit)
            && content_after(*body, *rbody, rule),
        Block::Directive { name, args, body, attrs } => rb matches Block::Directive { name: rname, args: rargs, body: rbody, attrs: rattrs }
            && rname == name && rargs == args
            && attrs_after(attrs, rattrs, rule.properties, hit)
            && content_after(*body, *rbody, rule),
        _ => rb == block_with_attrs(b, block_attrs(rb))
            && attrs_after(block_attrs(b), block_attrs(rb), rule.properties, hit),
    }
}

/// `content_after` for inlines, item by item.
pub open spec fn inlines_after(xs: Seq<Inline>, rs: Seq<Inline>, rule: SetRule) -> bool {
    rs.len() == xs.len() && forall|j: int| 0 <= j < xs.len() ==> inline_after(#[trigger] xs[j], rs[j], rule)
}

/// `content_after` for a list item: its body and its nested items are
/// visited; its own attributes stay as they are.
pub open spec fn list_item_after(it: ListItem, rit: ListItem, rule: SetRule) -> bool
    decreases it,
{
    &&& rit.attrs == it.attrs
    &&& inline_after(it.body, rit.body, rule)
    &&& match it.nested {
        None => rit.nested is None,
        Some(v) => rit.nested matches Some(rv) && rv@.len() == v@.len()
            && forall|j: int| 0 <= j < v@.len() ==> list_item_after(#[trigger] v@[j], rv@[j], rule),
    }
}

/// `content_after` for list items, item by item.
pub open spec fn list_items_after(xs: Seq<ListItem>, rs: Seq<ListItem>, rule: SetRule) -> bool {
    rs.len() == xs.len() && forall|j: int| 0 <= j < xs.len() ==> list_item_after(#[trigger] xs[j], rs[j], rule)
}

/// `content_after` for an inline.
pub open spec fn inline_after(i: Inline, ri: Inline, rule: SetRule) -> bool
    decreases i,
{
    let hit = selector_matches(rule.selector, Content::Inline(i));
    match i {
        Inline::Emphasis(x) => ri matches Inline::Emphasis(rx) && inline_after(*x, *rx, rule),
        Inline::Strong(x) => ri matches Inline::Strong(rx) && inline_after(*x, *rx, rule),
        Inline::Link { body, url, title } => ri matches Inline::Link { body: rbody, url: rurl, title: rtitle }
            && rurl == url && rtitle == title
            && inline_after(*body, *rbody, rule),
        Inline::Span { body, attrs } => ri matches Inline::Span { body: rbody, attrs: rattrs }
            && attrs_after(attrs, rattrs, rule.properties, hit)
            && inline_after(*body, *rbody, rule),
        Inline::Sequence(items) => ri matches Inline::Sequence(ritems)
            && ritems@.len() == items@.len()
            && forall|j: int| 0 <= j < items@.len() ==> inline_after(#[trigger] items@[j], ritems@[j], rule),
        _ => ri == i,
    }
}

fn set_property(attrs: &mut Attributes, key: &String, value: &SetValue)
    ensures
        final(attrs).model() == prop_applied(old(attrs).model(), key@, *value),
{
    let ghost before = attrs.model();
    match value {
        SetValue::String(s) => {
            if str_eq(key.as_str(), "id") {
                attrs.id = Some(s.clone());
            } else if str_eq(key.as_str(), "class") {
                let ghost cs = attrs.classes@;
                attrs.classes.push(s.clone());
                assert(attrs.classes@.map_values(|c: String| c@) =~= cs.map_values(|c: String| c@).push(s@));
            } else {
                attrs.other.insert(key.clone(), s.clone());
                assert(attrs.model().other =~= before.other.insert(key@, s@));
            }
        },
        SetValue::Int(i) => {
            attrs.other.insert(key.clone(), i64_to_text(*i));
            assert(attrs.model().other =~= before.other.insert(key@, signed_decimal(*i as int)));
        },
        SetValue::Bool(b) => {
            attrs.other.insert(key.clone(), bool_to_text(*b));
            assert(attrs.model().other =~= before.other.insert(key@, bool_text(*b)));
        },
    }
}

fn apply_properties(attrs: &mut Attributes, props: &StrMap<SetValue>)
    ensures
        final(attrs).model() == props_applied(old(attrs).model(), props.entry_seq()),
{
    let ghost start = attrs.model();
    let ghost es = props.entry_seq();
    let entries = props.entries();
    let mut i: usize = 0;
    while i < entries.len()
        invariant
            0 <= i <= entries@.len(),
            entries@.len() == es.len(),
            es == props.entry_seq(),
            forall|j: int| 0 <= j < entries@.len() ==> entries@[j].0@ == es[j].0 && entries@[j].1 == es[j].1,
            attrs.model() == props_applied(start, es.take(i as int)),
        decreases entries@.len() - i,
    {
        set_property(attrs, &entries[i].0, &entries[i].1);
        assert(es.take(i + 1).drop_last() =~= es.take(i as int));
        i = i + 1;
    }
    assert(es.take(entries@.len() as int) =~= es);
}

#[verifier::loop_isolation(false)]
fn set_in_content(c: Content, rule: &SetRule) -> (r: Content)
    ensures
        content_after(c, r, *rule),
    decreases c,
{
    let ghost gc = c;
    match c {
        Content::Block(b) => Content::Block(set_in_block(b, rule)),
        Content::Inline(i) => Content::Inline(set_in_inline(i, rule)),
        Content::Sequence(items) => {
            let ghost all = items@;
            let mut rest = items;
            let mut out: Vec<Content> = Vec::new();
            while rest.len() > 0
                invariant
                    gc is Sequence,
                    all == gc->Sequence_0@,
                    out@.len() + rest@.len() == all.len(),
                    rest@ == all.skip(out@.len() as int),
                    forall|j: int| 0 <= j < out@.len() ==> content_after(#[trigger] all[j], out@[j], *rule),
                decreases rest@.len(),
            {
                let ghost k = out@.len() as int;
                let item = rest.remove(0);
                assert(item == all[k]);
                assert(decreases_to!(gc => item));
                assert(rest@ =~= all.skip(k + 1));
                let done = set_in_content(item, rule);
                out.push(done);
            }
            Content::Sequence(out)
        },
    }
}

fn set_in_block(b: Block, rule: &SetRule) -> (r: Block)
    ensures
        block_after(b, r, *rule),
    decreases b,
{
    let ghost orig = b;
    let c = Content::Block(b);
    let hit = rule.selector.matches(&c);
    let mut b = match c {
        Content::Block(x) => x,
        _ => Block::ThematicBreak { attrs: Attributes::new() },
    };
    if hit {
        let a = b.attrs_mut();
        apply_properties(a, &rule.properties);
    }
    match b {
        Block::Heading { level, body, attrs } => {
            assert(*body == orig->Heading_body);
            Block::Heading { level, body: Box::new(set_in_inline(*body, rule)), attrs }
        },
        Block::Paragraph { body, attrs } => {
            assert(*body == orig->Paragraph_body);
            Block::Paragraph { body: Box::new(set_in_inline(*body, rule)), attrs }
        },
        Block::List { items, ordered, attrs } => {
            assert(items == orig->List_items);
            Block::List { items: set_in_list_items(items, rule), ordered, attrs }
        },
        Block::Table { headers, rows, attrs } => {
            assert(headers == orig->Table_headers);
            assert(rows == orig->Table_rows);
            let ghost all = rows@;
            let headers = set_in_inlines(headers, rule);
            let mut rest = rows;
            let mut out: Vec<Vec<Inline>> = Vec::new();
            while rest.len() > 0
                invariant
                    out@.len() + rest@.len() == all.len(),
                    rest@ == all.skip(out@.len() as int),
                    forall|j: int| 0 <= j < out@.len() ==> inlines_after(#[trigger] all[j]@, out@[j]@, *rule),
                decreases rest@.len(),
            {
                let ghost k = out@.len() as int;
                let row = rest.remove(0);
                assert(row == all[k]);
                assert(rest@ =~= all.skip(k + 1));
                out.push(set_in_inlines(row, rule));
            }
            Block::Table { headers, rows: out, attrs }
        },
        Block::Blockquote { body, attrs } => {
            assert(*body == orig->Blockquote_body);
            Block::Blockquote { body: Box::new(set_in_content(*body, rule)), attrs }
        },
        Block::Directive { name, args, body, attrs } => {
            assert(*body == orig->Directive_body);
            Block::Directive { name, args, body: Box::new(set_in_content(*body, rule)), attrs }
        },
        other => other,
    }
}

fn set_in_inlines(xs: Vec<Inline>, rule: &SetRule) -> (r: Vec<Inline>)
    ensures
        inlines_after(xs@, r@, *rule),
{
    let ghost all = xs@;
    let mut rest = xs;
    let mut out: Vec<Inline> = Vec::new();
    while rest.len() > 0
        invariant
            out@.len() + rest@.len() == all.len(),
            rest@ == all.skip(out@.len() as int),
            forall|j: int| 0 <= j < out@.len() ==> inline_after(#[trigger] all[j], out@[j], *rule),
        decreases rest@.len(),
    {
        let ghost k = out@.len() as int;
        let item = rest.remove(0);
        assert(item == all[k]);
        assert(rest@ =~= all.skip(k + 1));
        out.push(set_in_inline(item, rule));
    }
    out
}

#[verifier::loop_isolation(false)]
fn set_in_list_item(it: ListItem, rule: &SetRule) -> (r: ListItem)
    ensures
        list_item_after(it, r, *rule),
    decreases it,
{
    let ghost orig = it;
    let ListItem { body, nested, attrs } = it;
    let body = set_in_inline(body, rule);
    let nested = match nested {
        Some(v) => {
            assert(orig.nested == Some(v));
            let ghost all = v@;
            let mut rest = v;
            let mut out: Vec<ListItem> = Vec::new();
            while rest.len() > 0
                invariant
                    orig.nested == Some(v),
                    all == v@,
                    out@.len() + rest@.len() == all.len(),
                    rest@ == all.skip(out@.len() as int),
                    forall|j: int| 0 <= j < out@.len() ==> list_item_after(#[trigger] all[j], out@[j], *rule),
                decreases rest@.len(),
            {
                let ghost k = out@.len() as int;
                let item = rest.remove(0);
                assert(item == all[k]);
                assert(decreases_to!(orig => item)) by {
                    assert(decreases_to!(orig => orig.nested));
                    assert(decreases_to!(orig.nested => orig.nested->Some_0));
                    vstd::std_specs::vec::axiom_vec_index_decreases(v, k);
                }
                assert(rest@ =~= all.skip(k + 1));
                out.push(set_in_list_item(item, rule));
            }
            Some(out)
        },
        None => None,
    };
    ListItem { body, nested, attrs }
}

fn set_in_list_items(xs: Vec<ListItem>, rule: &SetRule) -> (r: Vec<ListItem>)
    ensures
        list_items_after(xs@, r@, *rule),
{
    let ghost all = xs@;
    let mut rest = xs;
    let mut out: Vec<ListItem> = Vec::new();
    while rest.len() > 0
        invariant
            out@.len() + rest@.len() == all.len(),
            rest@ == all.skip(out@.len() as int),
            forall|j: int| 0 <= j < out@.len() ==> list_item_after(#[trigger] all[j], out@[j], *rule),
        decreases rest@.len(),
    {
        let ghost k = out@.len() as int;
        let item = rest.remove(0);
        assert(item == all[k]);
        assert(rest@ =~= all.skip(k + 1));
        out.push(set_in_list_item(item, rule));
    }
    out
}

#[verifier::loop_isolation(false)]
fn set_in_inline(i: Inline, rule: &SetRule) -> (r: Inline)
    ensures
        inline_after(i, r, *rule),
    decreases i,
{
    let c = Content::Inline(i);
    let hit = rule.selector.matches(&c);
    let i = match c {
        Content::Inline(x) => x,
        _ => Inline::empty(),
    };
    let ghost gi = i;
    match i {
        Inline::Emphasis(inner) => Inline::Emphasis(Box::new(set_in_inline(*inner, rule))),
        Inline::Strong(inner) => Inline::Strong(Box::new(set_in_inline(*inner, rule))),
        Inline::Link { body, url, title } => Inline::Link { body: Box::new(set_in_inline(*body, rule)), url, title },
        Inline::Span { body, attrs } => {
            let mut attrs = attrs;
            if hit {
                apply_properties(&mut attrs, &rule.properties);
            }
            Inline::Span { body: Box::new(set_in_inline(*body, rule)), attrs }
        },
        Inline::Sequence(items) => {
            let ghost all = items@;
            let mut rest = items;
            let mut out: Vec<Inline> = Vec::new();
            while rest.len() > 0
                invariant
                    gi is Sequence,
                    all == gi->Sequence_0@,
                    out@.len() + rest@.len() == all.len(),
                    rest@ == all.skip(out@.len() as int),
                    forall|j: int| 0 <= j < out@.len() ==> inline_after(#[trigger] all[j], out@[j], *rule),
                decreases rest@.len(),
            {
                let ghost k = out@.len() as int;
                let item = rest.remove(0);
                assert(item == all[k]);
                assert(decreases_to!(gi => item));
                assert(rest@ =~= all.skip(k + 1));
                let done = set_in_inline(item, rule);
                out.push(done);
            }
            Inline::Sequence(out)
        },
        other => other,
    }
}

/// A show rule: transforms matching content into new content.
#[derive(Debug)]
pub struct ShowRule {
    /// Selector for matching elements
    pub selector: Selector,
    /// Transform function (takes matched element via `it` binding)
    pub transform: Box<Shrubbery>,
    /// Source span for error reporting
    pub span: Span,
}

/// Collection of active rules.
#[derive(Debug)]
pub struct RuleSet {
    /// Show rules in order of definition (later rules take precedence)
    pub show_rules: Vec<ShowRule>,
    /// Set rules in order of definition
    pub set_rules: Vec<SetRule>,
}

/// `r` is `c` after the set rules `rules`, applied one after the other in
/// their order: some chain of contents leads from `c` to `r`, each step
/// one pass of the next rule.
pub open spec fn set_rules_applied(c: Content, r: Content, rules: Seq<SetRule>) -> bool {
    exists|cs: Seq<Content>|
        cs.len() == rules.len() + 1 && cs[0] == c && cs[rules.len() as int] == r
        && forall|k: int| #![trigger rules[k]] 0 <= k < rules.len() ==> content_after(cs[k], cs[k + 1], rules[k])
}

impl RuleSet {
    /// No rules.
    pub fn new() -> (r: Self)
        ensures
            r.show_rules@.len() == 0,
            r.set_rules@.len() == 0,
    {
        RuleSet { show_rules: Vec::new(), set_rules: Vec::new() }
    }

    /// Add a show rule.
    pub fn add_show_rule(&mut self, rule: ShowRule)
        ensures
            final(self).show_rules@ == old(self).show_rules@.push(rule),
            final(self).set_rules@ == old(self).set_rules@,
    {
        self.show_rules.push(rule);
    }

    /// Add a set rule.
    pub fn add_set_rule(&mut self, rule: SetRule)
        ensures
            final(self).set_rules@ == old(self).set_rules@.push(rule),
            final(self).show_rules@ == old(self).show_rules@,
    {
        self.set_rules.push(rule);
    }

    /// Check if there are any rules.
    pub fn is_empty(&self) -> (r: bool)
        ensures
            r == (self.show_rules@.len() == 0 && self.set_rules@.len() == 0),
    {
        self.show_rules.len() == 0 && self.set_rules.len() == 0
    }

    /// Apply the set rules to content, in order, changing attributes.
    pub fn apply_set_rules(&self, content: &mut Content)
        ensures
            set_rules_applied(*old(content), *final(content), self.set_rules@),
    {
        let ghost start = *content;
        let ghost mut cs: Seq<Content> = seq![start];
        let mut i: usize = 0;
        while i < self.set_rules.len()
            invariant
                0 <= i <= self.set_rules@.len(),
                cs.len() == i + 1,
                cs[0] == start,
                cs[i as int] == *content,
                forall|k: int| #![trigger self.set_rules@[k]] 0 <= k < i ==> content_after(cs[k], cs[k + 1], self.set_rules@[k]),
            decreases self.set_rules@.len() - i,
        {
            let mut taken = Content::Sequence(Vec::new());
            std::mem::swap(&mut taken, content);
            let done = set_in_content(taken, &self.set_rules[i]);
            proof {
                cs = cs.push(done);
            }
            *content = done;
            i = i + 1;
        }
        assert(cs.len() == self.set_rules@.len() + 1 && cs[0] == start && cs[self.set_rules@.len() as int] == *content
            && forall|k: int| #![trigger self.set_rules@[k]] 0 <= k < self.set_rules@.len() ==> content_after(cs[k], cs[k + 1], self.set_rules@[k]));
    }
}

impl Default for RuleSet {
    fn default() -> (r: Self)
        ensures
            r.show_rules@.len() == 0,
            r.set_rules@.len() == 0,
    {
        RuleSet::new()
    }
}

proof fn lemma_fields_kept(c: Content, r: Content, rule: SetRule)
    requires
        content_after(c, r, rule),
    ensures
        forall|f: Seq<char>| #[trigger] content_field(r, f) == content_field(c, f),
        base_kind_kept(c, r),
{
    match c {
        Content::Block(b) => {
            let rb = r->Block_0;
            assert(block_after(b, rb, rule));
            match b {
                Block::Heading { .. } => {},
                Block::Paragraph { .. } => {},
                Block::List { .. } => {},
                Block::Table { .. } => {},
                Block::Blockquote { .. } => {},
                Block::Directive { .. } => {},
                _ => {
                    assert(rb == block_with_attrs(b, block_attrs(rb)));
                },
            }
            assert forall|f: Seq<char>| #[trigger] content_field(r, f) == content_field(c, f) by {
                assert(block_field(rb, f) == block_field(b, f));
            }
        },
        Content::Inline(i) => {
            let ri = r->Inline_0;
            assert(inline_after(i, ri, rule));
            assert forall|f: Seq<char>| #[trigger] content_field(r, f) == content_field(c, f) by {
                assert(inline_field(ri, f) == inline_field(i, f));
            }
        },
        Content::Sequence(_) => {},
    }
}

/// `c` and `r` are the same kind of element, so each selector base
/// matches both or neither.
pub open spec fn base_kind_kept(c: Content, r: Content) -> bool {
    forall|b: SelectorBase| #[trigger] base_matches(b, r) == base_matches(b, c)
}

proof fn lemma_predicate_kept(p: Predicate, c: Content, r: Content)
    requires
        forall|f: Seq<char>| #[trigger] content_field(r, f) == content_field(c, f),
    ensures
        predicate_holds(p, r) == predicate_holds(p, c),
    decreases p,
{
    match p {
        Predicate::And(l, rr) => {
            lemma_predicate_kept(*l, c, r);
            lemma_predicate_kept(*rr, c, r);
        },
        Predicate::Or(l, rr) => {
            lemma_predicate_kept(*l, c, r);
            lemma_predicate_kept(*rr, c, r);
        },
        Predicate::Not(inner) => {
            lemma_predicate_kept(*inner, c, r);
        },
        _ => {},
    }
}

/// A set rule changes attributes only, and selectors never read
/// attributes: after one pass of any set rule, every selector matches the
/// content exactly when it matched it before.
pub proof fn lemma_set_rule_keeps_matching(c: Content, r: Content, rule: SetRule, s: Selector)
    requires
        content_after(c, r, rule),
    ensures
        selector_matches(s, r) == selector_matches(s, c),
{
    lemma_fields_kept(c, r, rule);
    assert(base_matches(s.base, r) == base_matches(s.base, c));
    match s.predicate {
        Some(p) => lemma_predicate_kept(p, c, r),
        None => {},
    }
}

/// A pass of a set rule changes attributes only, so the text form of the
/// content stays the same.
pub proof fn lemma_set_rule_keeps_text(c: Content, r: Content, rule: SetRule)
    requires
        content_after(c, r, rule),
    ensures
        content_text(r) == content_text(c),
    decreases c,
{
    match c {
        Content::Block(b) => {
            lemma_block_keeps_text(b, r->Block_0, rule);
        },
        Content::Inline(i) => {
            lemma_inline_keeps_text(i, r->Inline_0, rule);
        },
        Content::Sequence(items) => {
            let rs = r->Sequence_0@;
            assert forall|j: int| 0 <= j < items@.len() implies content_text(#[trigger] rs[j]) == content_text(items@[j]) by {
                assert(decreases_to!(c => items@[j])) by {
                    vstd::std_specs::vec::axiom_vec_index_decreases(items, j);
                }
                lemma_set_rule_keeps_text(items@[j], rs[j], rule);
            }
            lemma_contents_same_text(items@, rs);
        },
    }
}

/// An element with no children: a code block, a thematic break, or an
/// inline text, code, image, reference or math element.
pub open spec fn childless(c: Content) -> bool {
    match c {
        Content::Block(b) => b is CodeBlock || b is ThematicBreak,
        Content::Inline(i) => i is Text || i is Code || i is Image || i is Reference || i is Math,
        Content::Sequence(_) => false,
    }
}

/// A pass of a set rule leaves an element without children that the
/// rule's selector does not match exactly as it was.
pub proof fn lemma_set_rule_skips_unmatched_leaf(c: Content, r: Content, rule: SetRule)
    requires
        content_after(c, r, rule),
        childless(c),
        !selector_matches(rule.selector, c),
    ensures
        r == c,
{
    match c {
        Content::Block(b) => {
            let rb = r->Block_0;
            assert(block_after(b, rb, rule));
            assert(block_attrs(rb) == block_attrs(b));
            assert(rb == b);
        },
        _ => {},
    }
}

proof fn lemma_contents_same_text(cs: Seq<Content>, rs: Seq<Content>)
    requires
        cs.len() == rs.len(),
        forall|j: int| 0 <= j < cs.len() ==> content_text(#[trigger] rs[j]) == content_text(cs[j]),
    ensures
        contents_text(rs) == contents_text(cs),
    decreases cs.len(),
{
    if cs.len() > 0 {
        lemma_contents_same_text(cs.drop_first(), rs.drop_first());
        assert(content_text(rs[0]) == content_text(cs[0]));
    }
}

proof fn lemma_inlines_same_text(cs: Seq<Inline>, rs: Seq<Inline>)
    requires
        cs.len() == rs.len(),
        forall|j: int| 0 <= j < cs.len() ==> inline_text(#[trigger] rs[j]) == inline_text(cs[j]),
    ensures
        inlines_text(rs) == inlines_text(cs),
    decreases cs.len(),
{
    if cs.len() > 0 {
        lemma_inlines_same_text(cs.drop_first(), rs.drop_first());
        assert(inline_text(rs[0]) == inline_text(cs[0]));
    }
}

proof fn lemma_block_keeps_text(b: Block, rb: Block, rule: SetRule)
    requires
        block_after(b, rb, rule),
    ensures
        block_text(rb) == block_text(b),
    decreases b,
{
    match b {
        Block::Heading { body, .. } => {
            lemma_inline_keeps_text(*body, *(rb->Heading_body), rule);
        },
        Block::Paragraph { body, .. } => {
            lemma_inline_keeps_text(*body, *(rb->Paragraph_body), rule);
        },
        Block::List { items, ordered, .. } => {
            lemma_list_keeps_text(items@, rb->List_items@, ordered, 0, rule);
        },
        Block::Blockquote { body, attrs } => {
            lemma_set_rule_keeps_text(*body, *(rb->Blockquote_body), rule);
        },
        Block::Directive { name, args, body, attrs } => {
            lemma_set_rule_keeps_text(*body, *(rb->Directive_body), rule);
        },
        _ => {},
    }
}

proof fn lemma_list_keeps_text(items: Seq<ListItem>, ritems: Seq<ListItem>, ordered: bool, k: nat, rule: SetRule)
    requires
        list_items_after(items, ritems, rule),
    ensures
        list_text(ritems, ordered, k) == list_text(items, ordered, k),
    decreases items.len(),
{
    if items.len() > 0 {
        assert(list_item_after(items[0], ritems[0], rule));
        lemma_inline_keeps_text(items[0].body, ritems[0].body, rule);
        assert(list_items_after(items.drop_first(), ritems.drop_first(), rule)) by {
            assert forall|j: int| 0 <= j < items.drop_first().len() implies list_item_after(#[trigger] items.drop_first()[j], ritems.drop_first()[j], rule) by {
                assert(list_item_after(items[j + 1], ritems[j + 1], rule));
            }
        }
        lemma_list_keeps_text(items.drop_first(), ritems.drop_first(), ordered, k + 1, rule);
    }
}

proof fn lemma_inline_keeps_text(i: Inline, ri: Inline, rule: SetRule)
    requires
        inline_after(i, ri, rule),
    ensures
        inline_text(ri) == inline_text(i),
    decreases i,
{
    match i {
        Inline::Emphasis(x) => {
            lemma_inline_keeps_text(*x, *(ri->Emphasis_0), rule);
        },
        Inline::Strong(x) => {
            lemma_inline_keeps_text(*x, *(ri->Strong_0), rule);
        },
        Inline::Link { body, url, title } => {
            lemma_inline_keeps_text(*body, *(ri->Link_body), rule);
        },
        Inline::Span { body, attrs } => {
            lemma_inline_keeps_text(*body, *(ri->Span_body), rule);
        },
        Inline::Sequence(items) => {
            let rs = ri->Sequence_0@;
            assert forall|j: int| 0 <= j < items@.len() implies inline_text(#[trigger] rs[j]) == inline_text(items@[j]) by {
                assert(decreases_to!(i => items@[j])) by {
                    vstd::std_specs::vec::axiom_vec_index_decreases(items, j);
                }
                lemma_inline_keeps_text(items@[j], rs[j], rule);
            }
            lemma_inlines_same_text(items@, rs);
        },
        _ => {},
    }
}

/// Applying a list of set rules keeps the text form of the content.
pub proof fn lemma_set_rules_keep_text(c: Content, r: Content, rules: Seq<SetRule>)
    requires
        set_rules_applied(c, r, rules),
    ensures
        content_text(r) == content_text(c),
{
    let cs = choose|cs: Seq<Content>|
        cs.len() == rules.len() + 1 && cs[0] == c && cs[rules.len() as int] == r
        && forall|k: int| #![trigger rules[k]] 0 <= k < rules.len() ==> content_after(cs[k], cs[k + 1], rules[k]);
    lemma_chain_keeps_text(cs, rules, rules.len() as int);
}

proof fn lemma_chain_keeps_text(cs: Seq<Content>, rules: Seq<SetRule>, k: int)
    requires
        cs.len() == rules.len() + 1,
        0 <= k <= rules.len(),
        forall|j: int| #![trigger rules[j]] 0 <= j < rules.len() ==> content_after(cs[j], cs[j + 1], rules[j]),
    ensures
        content_text(cs[k]) == content_text(cs[0]),
    decreases k,
{
    if k > 0 {
        lemma_chain_keeps_text(cs, rules, k - 1);
        assert(content_after(cs[k - 1], cs[k], rules[k - 1]));
        lemma_set_rule_keeps_text(cs[k - 1], cs[k], rules[k - 1]);
    }
}

} // verus!
