//! Content: the document tree (blocks, inlines, sequences) with attributes.

use vstd::prelude::*;
use crate::util::strmap::StrMap;
use crate::util::text::{decimal, push_str, to_owned_string, u64_to_text};

verus! {

/// Attributes for content elements.
#[derive(Debug, PartialEq)]
pub struct Attributes {
    pub id: Option<String>,
    pub classes: Vec<String>,
    pub other: StrMap<String>,
}

/// Attributes taken by their text: the id, the classes in order, and the
/// other attributes as a map from key to value.
pub struct AttrModel {
    pub id: Option<Seq<char>>,
    pub classes: Seq<Seq<char>>,
    pub other: Map<Seq<char>, Seq<char>>,
}

impl Attributes {
    /// These attributes taken by their text.
    pub open spec fn model(&self) -> AttrModel {
        AttrModel {
            id: match self.id { Some(s) => Some(s@), None => None },
            classes: self.classes@.map_values(|c: String| c@),
            other: Map::new(|k: Seq<char>| self.other.has(k), |k: Seq<char>| self.other.value_at(k)@),
        }
    }

    /// No id, no classes, no other attributes.
    pub fn new() -> (r: Self)
        ensures
            r.id is None,
            r.classes@.len() == 0,
            r.other.size() == 0,
            forall|k: Seq<char>| !r.other.has(k),
    {
        Attributes { id: None, classes: Vec::new(), other: StrMap::new() }
    }

    /// These attributes with `id` set.
    pub fn with_id(self, id: String) -> (r: Self)
        ensures
            r.id == Some(id),
            r.classes == self.classes,
            r.other == self.other,
    {
        let mut s = self;
        s.id = Some(id);
        s
    }

    /// These attributes with `class` appended to the classes.
    pub fn with_class(self, class: String) -> (r: Self)
        ensures
            r.id == self.id,
            r.classes@ == self.classes@.push(class),
            r.other == self.other,
    {
        let mut s = self;
        s.classes.push(class);
        s
    }

    /// These attributes with `key` set to `value`.
    pub fn with_attr(self, key: String, value: String) -> (r: Self)
        ensures
            r.id == self.id,
            r.classes == self.classes,
            r.other.has(key@),
            r.other.value_at(key@) == value,
            forall|k: Seq<char>| k != key@ ==> (r.other.has(k) == self.other.has(k)),
            forall|k: Seq<char>| k != key@ && self.other.has(k) ==> r.other.value_at(k) == self.other.value_at(k),
    {
        let mut s = self;
        s.other.insert(key, value);
        s
    }
}

impl Default for Attributes {
    fn default() -> (r: Self)
        ensures
            r.id is None,
            r.classes@.len() == 0,
            r.other.size() == 0,
    {
        Attributes::new()
    }
}

/// Content: the top-level document tree type.
#[derive(Debug, PartialEq)]
pub enum Content {
    Block(Block),
    Inline(Inline),
    Sequence(Vec<Content>),
}

/// Block-level content.
#[derive(Debug, PartialEq)]
pub enum Block {
    Heading { level: u8, body: Box<Inline>, attrs: Attributes },
    Paragraph { body: Box<Inline>, attrs: Attributes },
    CodeBlock { lang: Option<String>, code: String, opts: StrMap<String>, attrs: Attributes },
    List { items: Vec<ListItem>, ordered: bool, attrs: Attributes },
    Blockquote { body: Box<Content>, attrs: Attributes },
    Table { headers: Vec<Inline>, rows: Vec<Vec<Inline>>, attrs: Attributes },
    ThematicBreak { attrs: Attributes },
    /// Directive is for custom elements
    Directive { name: String, args: StrMap<String>, body: Box<Content>, attrs: Attributes },
}

/// List item.
#[derive(Debug, PartialEq)]
pub struct ListItem {
    pub body: Inline,
    pub nested: Option<Vec<ListItem>>,
    pub attrs: Attributes,
}

/// Inline content.
#[derive(Debug, PartialEq)]
pub enum Inline {
    Text(String),
    Emphasis(Box<Inline>),
    Strong(Box<Inline>),
    Code(String),
    Link { body: Box<Inline>, url: String, title: Option<String> },
    Image { alt: String, url: String, title: Option<String> },
    Reference(String),
    Math(String),
    Span { body: Box<Inline>, attrs: Attributes },
    Sequence(Vec<Inline>),
}

/// What `Content::concat(a, b)` gives: two sequences are joined, a sequence
/// takes the other value at its end (or its start), two other values form
/// a new two-element sequence.
pub open spec fn content_concat(a: Content, b: Content, r: Content) -> bool {
    match (a, b) {
        (Content::Sequence(s1), Content::Sequence(s2)) => r matches Content::Sequence(s) && s@ == s1@ + s2@,
        (Content::Sequence(s1), o) => r matches Content::Sequence(s) && s@ == s1@.push(o),
        (t, Content::Sequence(s2)) => r matches Content::Sequence(s) && s@ == seq![t] + s2@,
        (t, o) => r matches Content::Sequence(s) && s@ == seq![t, o],
    }
}

/// What `Inline::concat(a, b)` gives: like `content_concat`, except that two
/// texts are joined into one text.
pub open spec fn inline_concat(a: Inline, b: Inline, r: Inline) -> bool {
    match (a, b) {
        (Inline::Sequence(s1), Inline::Sequence(s2)) => r matches Inline::Sequence(s) && s@ == s1@ + s2@,
        (Inline::Sequence(s1), o) => r matches Inline::Sequence(s) && s@ == s1@.push(o),
        (t, Inline::Sequence(s2)) => r matches Inline::Sequence(s) && s@ == seq![t] + s2@,
        (Inline::Text(x), Inline::Text(y)) => r matches Inline::Text(z) && z@ == x@ + y@,
        (t, o) => r matches Inline::Sequence(s) && s@ == seq![t, o],
    }
}

impl Content {
    /// Combine two content values.
    pub fn concat(self, other: Content) -> (r: Content)
        ensures
            content_concat(self, other, r),
    {
        match (self, other) {
            (Content::Sequence(mut seq1), Content::Sequence(mut seq2)) => {
                seq1.append(&mut seq2);
                Content::Sequence(seq1)
            },
            (Content::Sequence(mut seq), other) => {
                seq.push(other);
                Content::Sequence(seq)
            },
            (this, Content::Sequence(mut seq)) => {
                let ghost before = seq@;
                let ghost t = this;
                seq.insert(0, this);
                assert(seq@ =~= seq![t] + before);
                Content::Sequence(seq)
            },
            (this, other) => {
                let ghost pair = seq![this, other];
                let mut v: Vec<Content> = Vec::new();
                v.push(this);
                v.push(other);
                assert(v@ =~= pair);
                Content::Sequence(v)
            },
        }
    }

    /// Check if this is block-level content.
    pub fn is_block(&self) -> (r: bool)
        ensures
            r == (*self is Block),
    {
        match self {
            Content::Block(_) => true,
            _ => false,
        }
    }

    /// Check if this is inline content.
    pub fn is_inline(&self) -> (r: bool)
        ensures
            r == (*self is Inline),
    {
        match self {
            Content::Inline(_) => true,
            _ => false,
        }
    }

    /// Inline text.
    pub fn text(s: &str) -> (r: Self)
        ensures
            r matches Content::Inline(Inline::Text(t)) && t@ == s@,
    {
        Content::Inline(Inline::Text(to_owned_string(s)))
    }

    /// A paragraph around `body`, with empty attributes.
    pub fn paragraph(body: Inline) -> (r: Self)
        ensures
            r matches Content::Block(Block::Paragraph { body: b, attrs }) && *b == body && attrs.id is None && attrs.classes@.len() == 0 && attrs.other.size() == 0,
    {
        Content::Block(Block::Paragraph { body: Box::new(body), attrs: Attributes::new() })
    }

    /// A heading of `level` around `body`, with empty attributes.
    pub fn heading(level: u8, body: Inline) -> (r: Self)
        ensures
            r matches Content::Block(Block::Heading { level: l, body: b, attrs }) && l == level && *b == body && attrs.id is None && attrs.classes@.len() == 0 && attrs.other.size() == 0,
    {
        Content::Block(Block::Heading { level, body: Box::new(body), attrs: Attributes::new() })
    }

    /// A code block in `lang` holding `code`, without options or attributes.
    pub fn code_block(lang: Option<String>, code: &str) -> (r: Self)
        ensures
            r matches Content::Block(Block::CodeBlock { lang: l, code: c, opts, attrs }) && l == lang && c@ == code@ && opts.size() == 0 && attrs.id is None && attrs.classes@.len() == 0 && attrs.other.size() == 0,
    {
        Content::Block(Block::CodeBlock { lang, code: to_owned_string(code), opts: StrMap::new(), attrs: Attributes::new() })
    }

    /// A block quote around `body`, with empty attributes.
    pub fn blockquote(body: Content) -> (r: Self)
        ensures
            r matches Content::Block(Block::Blockquote { body: b, attrs }) && *b == body && attrs.id is None && attrs.classes@.len() == 0 && attrs.other.size() == 0,
    {
        Content::Block(Block::Blockquote { body: Box::new(body), attrs: Attributes::new() })
    }

    /// A thematic break, with empty attributes.
    pub fn thematic_break() -> (r: Self)
        ensures
            r matches Content::Block(Block::ThematicBreak { attrs }) && attrs.id is None && attrs.classes@.len() == 0 && attrs.other.size() == 0,
    {
        Content::Block(Block::ThematicBreak { attrs: Attributes::new() })
    }
}

/// The attributes a block carries.
pub open spec fn block_attrs(b: Block) -> Attributes {
    match b {
        Block::Heading { attrs, .. } => attrs,
        Block::Paragraph { attrs, .. } => attrs,
        Block::CodeBlock { attrs, .. } => attrs,
        Block::List { attrs, .. } => attrs,
        Block::Blockquote { attrs, .. } => attrs,
        Block::Table { attrs, .. } => attrs,
        Block::ThematicBreak { attrs } => attrs,
        Block::Directive { attrs, .. } => attrs,
    }
}

/// The block `b` with its attributes replaced by `a`.
pub open spec fn block_with_attrs(b: Block, a: Attributes) -> Block {
    match b {
        Block::Heading { level, body, .. } => Block::Heading { level, body, attrs: a },
        Block::Paragraph { body, .. } => Block::Paragraph { body, attrs: a },
        Block::CodeBlock { lang, code, opts, .. } => Block::CodeBlock { lang, code, opts, attrs: a },
        Block::List { items, ordered, .. } => Block::List { items, ordered, attrs: a },
        Block::Blockquote { body, .. } => Block::Blockquote { body, attrs: a },
        Block::Table { headers, rows, .. } => Block::Table { headers, rows, attrs: a },
        Block::ThematicBreak { .. } => Block::ThematicBreak { attrs: a },
        Block::Directive { name, args, body, .. } => Block::Directive { name, args, body, attrs: a },
    }
}

impl Block {
    /// The block's attributes.
    pub fn attrs(&self) -> (r: &Attributes)
        ensures
            *r == block_attrs(*self),
    {
        match self {
            Block::Heading { attrs, .. } => attrs,
            Block::Paragraph { attrs, .. } => attrs,
            Block::CodeBlock { attrs, .. } => attrs,
            Block::List { attrs, .. } => attrs,
            Block::Blockquote { attrs, .. } => attrs,
            Block::Table { attrs, .. } => attrs,
            Block::ThematicBreak { attrs } => attrs,
            Block::Directive { attrs, .. } => attrs,
        }
    }

    /// The block's attributes, to change in place.
    pub fn attrs_mut(&mut self) -> (r: &mut Attributes)
        ensures
            *r == block_attrs(*old(self)),
            *final(self) == block_with_attrs(*old(self), *final(r)),
    {
        match self {
            Block::Heading { attrs, .. } => attrs,
            Block::Paragraph { attrs, .. } => attrs,
            Block::CodeBlock { attrs, .. } => attrs,
            Block::List { attrs, .. } => attrs,
            Block::Blockquote { attrs, .. } => attrs,
            Block::Table { attrs, .. } => attrs,
            Block::ThematicBreak { attrs } => attrs,
            Block::Directive { attrs, .. } => attrs,
        }
    }
}

impl Inline {
    /// Combine two inline values.
    pub fn concat(self, other: Inline) -> (r: Inline)
        ensures
            inline_concat(self, other, r),
    {
        match (self, other) {
            (Inline::Sequence(mut seq1), Inline::Sequence(mut seq2)) => {
                seq1.append(&mut seq2);
                Inline::Sequence(seq1)
            },
            (Inline::Sequence(mut seq), other) => {
                seq.push(other);
                Inline::Sequence(seq)
            },
            (this, Inline::Sequence(mut seq)) => {
                let ghost before = seq@;
                let ghost t = this;
                seq.insert(0, this);
                assert(seq@ =~= seq![t] + before);
                Inline::Sequence(seq)
            },
            (Inline::Text(s1), Inline::Text(s2)) => {
                let mut s = s1;
                push_str(&mut s, s2.as_str());
                Inline::Text(s)
            },
            (this, other) => {
                let ghost pair = seq![this, other];
                let mut v: Vec<Inline> = Vec::new();
                v.push(this);
                v.push(other);
                assert(v@ =~= pair);
                Inline::Sequence(v)
            },
        }
    }

    /// Create an empty inline (an empty text).
    pub fn empty() -> (r: Inline)
        ensures
            r matches Inline::Text(t) && t@.len() == 0,
    {
        Inline::Text(String::new())
    }

    /// Inline text.
    pub fn text(s: &str) -> (r: Self)
        ensures
            r matches Inline::Text(t) && t@ == s@,
    {
        Inline::Text(to_owned_string(s))
    }

    /// Emphasis around `body`.
    pub fn emphasis(body: Inline) -> (r: Self)
        ensures
            r matches Inline::Emphasis(b) && *b == body,
    {
        Inline::Emphasis(Box::new(body))
    }

    /// Strong emphasis around `body`.
    pub fn strong(body: Inline) -> (r: Self)
        ensures
            r matches Inline::Strong(b) && *b == body,
    {
        Inline::Strong(Box::new(body))
    }

    /// Inline code.
    pub fn code(s: &str) -> (r: Self)
        ensures
            r matches Inline::Code(t) && t@ == s@,
    {
        Inline::Code(to_owned_string(s))
    }

    /// A link around `body` to `url`, without a title.
    pub fn link(body: Inline, url: &str) -> (r: Self)
        ensures
            r matches Inline::Link { body: b, url: u, title } && *b == body && u@ == url@ && title is None,
    {
        Inline::Link { body: Box::new(body), url: to_owned_string(url), title: None }
    }

    /// A reference to `target`.
    pub fn reference(target: &str) -> (r: Self)
        ensures
            r matches Inline::Reference(t) && t@ == target@,
    {
        Inline::Reference(to_owned_string(target))
    }

    /// Inline math.
    pub fn math(s: &str) -> (r: Self)
        ensures
            r matches Inline::Math(t) && t@ == s@,
    {
        Inline::Math(to_owned_string(s))
    }
}

// ===== Text form =====

/// `n` hash marks.
pub open spec fn hashes(n: nat) -> Seq<char>
    decreases n,
{
    if n == 0 { Seq::empty() } else { hashes((n - 1) as nat).push('#') }
}

/// The text form of content, as written for display.
pub open spec fn content_text(c: Content) -> Seq<char>
    decreases c, 0nat,
{
    match c {
        Content::Block(b) => block_text(b),
        Content::Inline(i) => inline_text(i),
        Content::Sequence(items) => contents_text(items@),
    }
}

/// The text forms of contents, one after the other.
pub open spec fn contents_text(cs: Seq<Content>) -> Seq<char>
    decreases cs, 1nat,
{
    if cs.len() == 0 { Seq::empty() } else { content_text(cs[0]) + contents_text(cs.drop_first()) }
}

/// The text form of a block.
pub open spec fn block_text(b: Block) -> Seq<char>
    decreases b, 0nat,
{
    match b {
        Block::Heading { level, body, .. } => hashes(level as nat) + " "@ + inline_text(*body) + "\n"@,
        Block::Paragraph { body, .. } => inline_text(*body) + "\n\n"@,
        Block::CodeBlock { lang, code, .. } => "```"@ + (match lang { Some(l) => l@, None => Seq::empty() }) + "\n"@ + code@ + "\n```\n"@,
        Block::List { items, ordered, .. } => list_text(items@, ordered, 0),
        Block::Blockquote { body, .. } => "> "@ + content_text(*body) + "\n"@,
        Block::Table { .. } => "[table]\n"@,
        Block::ThematicBreak { .. } => "---\n"@,
        Block::Directive { name, body, .. } => "!"@ + name@ + "["@ + content_text(*body) + "]\n"@,
    }
}

/// List items, one per line, numbered from `k + 1` when ordered and marked
/// with `- ` otherwise.
pub open spec fn list_text(items: Seq<ListItem>, ordered: bool, k: nat) -> Seq<char>
    decreases items.len(),
{
    if items.len() == 0 {
        Seq::empty()
    } else {
        (if ordered { decimal(k + 1) + ". "@ } else { "- "@ }) + inline_text(items[0].body) + "\n"@
            + list_text(items.drop_first(), ordered, k + 1)
    }
}

/// The text form of an inline.
pub open spec fn inline_text(i: Inline) -> Seq<char>
    decreases i, 0nat,
{
    match i {
        Inline::Text(t) => t@,
        Inline::Emphasis(x) => "_"@ + inline_text(*x) + "_"@,
        Inline::Strong(x) => "*"@ + inline_text(*x) + "*"@,
        Inline::Code(c) => "`"@ + c@ + "`"@,
        Inline::Link { body, url, .. } => "["@ + inline_text(*body) + "]("@ + url@ + ")"@,
        Inline::Image { alt, url, .. } => "!["@ + alt@ + "]("@ + url@ + ")"@,
        Inline::Reference(t) => "@"@ + t@,
        Inline::Math(m) => "$"@ + m@ + "$"@,
        Inline::Span { body, .. } => inline_text(*body),
        Inline::Sequence(items) => inlines_text(items@),
    }
}

/// The text forms of inlines, one after the other.
pub open spec fn inlines_text(xs: Seq<Inline>) -> Seq<char>
    decreases xs, 1nat,
{
    if xs.len() == 0 { Seq::empty() } else { inline_text(xs[0]) + inlines_text(xs.drop_first()) }
}

proof fn lemma_contents_text_step(cs: Seq<Content>, i: int)
    requires
        0 <= i < cs.len(),
    ensures
        contents_text(cs.subrange(i, cs.len() as int)) == content_text(cs[i]) + contents_text(cs.subrange(i + 1, cs.len() as int)),
{
    assert(cs.subrange(i, cs.len() as int).drop_first() =~= cs.subrange(i + 1, cs.len() as int));
}

proof fn lemma_inlines_text_step(xs: Seq<Inline>, i: int)
    requires
        0 <= i < xs.len(),
    ensures
        inlines_text(xs.subrange(i, xs.len() as int)) == inline_text(xs[i]) + inlines_text(xs.subrange(i + 1, xs.len() as int)),
{
    assert(xs.subrange(i, xs.len() as int).drop_first() =~= xs.subrange(i + 1, xs.len() as int));
}

proof fn lemma_list_text_step(items: Seq<ListItem>, ordered: bool, i: int)
    requires
        0 <= i < items.len(),
    ensures
        list_text(items.subrange(i, items.len() as int), ordered, i as nat)
            == (if ordered { decimal((i + 1) as nat) + ". "@ } else { "- "@ }) + inline_text(items[i].body) + "\n"@
            + list_text(items.subrange(i + 1, items.len() as int), ordered, (i + 1) as nat),
{
    assert(items.subrange(i, items.len() as int).drop_first() =~= items.subrange(i + 1, items.len() as int));
}

/// Concatenating content gives a sequence whose text is the two texts one
/// after the other.
pub proof fn lemma_concat_text(a: Content, b: Content, r: Content)
    requires
        content_concat(a, b, r),
    ensures
        r is Sequence,
        content_text(r) == content_text(a) + content_text(b),
{
    match (a, b) {
        (Content::Sequence(s1), Content::Sequence(s2)) => {
            lemma_contents_text_concat(s1@, s2@);
        },
        (Content::Sequence(s1), o) => {
            lemma_contents_text_concat(s1@, seq![o]);
            lemma_contents_text_single(o);
            assert(s1@.push(o) =~= s1@ + seq![o]);
        },
        (t, Content::Sequence(s2)) => {
            lemma_contents_text_concat(seq![t], s2@);
            lemma_contents_text_single(t);
        },
        (t, o) => {
            assert(seq![t, o] =~= seq![t] + seq![o]);
            lemma_contents_text_concat(seq![t], seq![o]);
            lemma_contents_text_single(t);
            lemma_contents_text_single(o);
        },
    }
}

proof fn lemma_contents_text_single(x: Content)
    ensures
        contents_text(seq![x]) == content_text(x),
{
    let s = seq![x];
    assert(s.drop_first() =~= Seq::<Content>::empty());
    assert(s[0] == x);
    assert(contents_text(s.drop_first()) == Seq::<char>::empty());
    assert(contents_text(s) == content_text(s[0]) + contents_text(s.drop_first()));
    assert(content_text(x) + Seq::<char>::empty() =~= content_text(x));
}

proof fn lemma_contents_text_concat(a: Seq<Content>, b: Seq<Content>)
    ensures
        contents_text(a + b) == contents_text(a) + contents_text(b),
    decreases a.len(),
{
    if a.len() == 0 {
        assert(a + b =~= b);
    } else {
        assert((a + b).drop_first() =~= a.drop_first() + b);
        lemma_contents_text_concat(a.drop_first(), b);
    }
}

impl Content {
    /// The text form of this content.
    pub fn to_text(&self) -> (r: String)
        ensures
            r@ == content_text(*self),
        decreases self,
    {
        match self {
            Content::Block(b) => b.to_text(),
            Content::Inline(i) => i.to_text(),
            Content::Sequence(items) => {
                let mut out = String::new();
                let mut k: usize = 0;
                proof {
                    assert(items@.subrange(0, items@.len() as int) =~= items@);
                    assert(out@ + contents_text(items@) =~= contents_text(items@));
                    assert forall|j: int| 0 <= j < items@.len() implies decreases_to!(self => #[trigger] items@[j]) by {
                        vstd::std_specs::vec::axiom_vec_index_decreases(*items, j);
                    }
                }
                while k < items.len()
                    invariant
                        0 <= k <= items@.len(),
                        forall|j: int| 0 <= j < items@.len() ==> decreases_to!(self => #[trigger] items@[j]),
                        out@ + contents_text(items@.subrange(k as int, items@.len() as int)) == contents_text(items@),
                    decreases items@.len() - k,
                {
                    proof {
                        lemma_contents_text_step(items@, k as int);
                    }
                    let t = items[k].to_text();
                    let ghost before = out@;
                    push_str(&mut out, t.as_str());
                    assert(out@ + contents_text(items@.subrange(k + 1, items@.len() as int))
                        =~= before + (t@ + contents_text(items@.subrange(k + 1, items@.len() as int))));
                    k = k + 1;
                }
                assert(items@.subrange(k as int, items@.len() as int) =~= Seq::<Content>::empty());
                assert(out@ + Seq::<char>::empty() =~= out@);
                out
            },
        }
    }
}

impl Block {
    /// The text form of this block.
    pub fn to_text(&self) -> (r: String)
        ensures
            r@ == block_text(*self),
        decreases self,
    {
        let mut out = String::new();
        match self {
            Block::Heading { level, body, .. } => {
                let mut k: u8 = 0;
                while k < *level
                    invariant
                        k <= *level,
                        out@ == hashes(k as nat),
                    decreases *level - k,
                {
                    crate::util::text::push_char(&mut out, '#');
                    k = k + 1;
                }
                push_str(&mut out, " ");
                let t = body.to_text();
                push_str(&mut out, t.as_str());
                push_str(&mut out, "\n");
            },
            Block::Paragraph { body, .. } => {
                let t = body.to_text();
                push_str(&mut out, t.as_str());
                push_str(&mut out, "\n\n");
            },
            Block::CodeBlock { lang, code, .. } => {
                push_str(&mut out, "```");
                match lang {
                    Some(l) => push_str(&mut out, l.as_str()),
                    None => {},
                }
                push_str(&mut out, "\n");
                push_str(&mut out, code.as_str());
                push_str(&mut out, "\n```\n");
            },
            Block::List { items, ordered, .. } => {
                let mut k: usize = 0;
                proof {
                    assert(items@.subrange(0, items@.len() as int) =~= items@);
                    assert(out@ + list_text(items@, *ordered, 0) =~= list_text(items@, *ordered, 0));
                }
                while k < items.len()
                    invariant
                        0 <= k <= items@.len(),
                        out@ + list_text(items@.subrange(k as int, items@.len() as int), *ordered, k as nat) == list_text(items@, *ordered, 0),
                    decreases items@.len() - k,
                {
                    proof {
                        lemma_list_text_step(items@, *ordered, k as int);
                    }
                    let ghost before = out@;
                    if *ordered {
                        let d = u64_to_text((k + 1) as u64);
                        push_str(&mut out, d.as_str());
                        push_str(&mut out, ". ");
                    } else {
                        push_str(&mut out, "- ");
                    }
                    let t = items[k].body.to_text();
                    push_str(&mut out, t.as_str());
                    push_str(&mut out, "\n");
                    assert(out@ + list_text(items@.subrange(k + 1, items@.len() as int), *ordered, (k + 1) as nat)
                        =~= before + ((if *ordered { decimal((k + 1) as nat) + ". "@ } else { "- "@ }) + inline_text(items@[k as int].body) + "\n"@
                        + list_text(items@.subrange(k + 1, items@.len() as int), *ordered, (k + 1) as nat)));
                    k = k + 1;
                }
                assert(items@.subrange(0, items@.len() as int) =~= items@);
                assert(items@.subrange(k as int, items@.len() as int) =~= Seq::<ListItem>::empty());
                assert(out@ + Seq::<char>::empty() =~= out@);
            },
            Block::Blockquote { body, .. } => {
                push_str(&mut out, "> ");
                let t = body.to_text();
                push_str(&mut out, t.as_str());
                push_str(&mut out, "\n");
            },
            Block::Table { .. } => push_str(&mut out, "[table]\n"),
            Block::ThematicBreak { .. } => push_str(&mut out, "---\n"),
            Block::Directive { name, body, .. } => {
                push_str(&mut out, "!");
                push_str(&mut out, name.as_str());
                push_str(&mut out, "[");
                let t = body.to_text();
                push_str(&mut out, t.as_str());
                push_str(&mut out, "]\n");
            },
        }
        out
    }
}

impl Inline {
    /// The text form of this inline.
    pub fn to_text(&self) -> (r: String)
        ensures
            r@ == inline_text(*self),
        decreases self,
    {
        let mut out = String::new();
        match self {
            Inline::Text(t) => push_str(&mut out, t.as_str()),
            Inline::Emphasis(x) => {
                push_str(&mut out, "_");
                let t = x.to_text();
                push_str(&mut out, t.as_str());
                push_str(&mut out, "_");
            },
            Inline::Strong(x) => {
                push_str(&mut out, "*");
                let t = x.to_text();
                push_str(&mut out, t.as_str());
                push_str(&mut out, "*");
            },
            Inline::Code(c) => {
                push_str(&mut out, "`");
                push_str(&mut out, c.as_str());
                push_str(&mut out, "`");
            },
            Inline::Link { body, url, .. } => {
                push_str(&mut out, "[");
                let t = body.to_text();
                push_str(&mut out, t.as_str());
                push_str(&mut out, "](");
                push_str(&mut out, url.as_str());
                push_str(&mut out, ")");
            },
            Inline::Image { alt, url, .. } => {
                push_str(&mut out, "![");
                push_str(&mut out, alt.as_str());
                push_str(&mut out, "](");
                push_str(&mut out, url.as_str());
                push_str(&mut out, ")");
            },
            Inline::Reference(t) => {
                push_str(&mut out, "@");
                push_str(&mut out, t.as_str());
            },
            Inline::Math(m) => {
                push_str(&mut out, "$");
                push_str(&mut out, m.as_str());
                push_str(&mut out, "$");
            },
            Inline::Span { body, .. } => {
                let t = body.to_text();
                push_str(&mut out, t.as_str());
            },
            Inline::Sequence(items) => {
                let mut k: usize = 0;
                proof {
                    assert(items@.subrange(0, items@.len() as int) =~= items@);
                    assert(out@ + inlines_text(items@) =~= inlines_text(items@));
                    assert forall|j: int| 0 <= j < items@.len() implies decreases_to!(self => #[trigger] items@[j]) by {
                        vstd::std_specs::vec::axiom_vec_index_decreases(*items, j);
                    }
                }
                while k < items.len()
                    invariant
                        0 <= k <= items@.len(),
                        forall|j: int| 0 <= j < items@.len() ==> decreases_to!(self => #[trigger] items@[j]),
                        out@ + inlines_text(items@.subrange(k as int, items@.len() as int)) == inlines_text(items@),
                    decreases items@.len() - k,
                {
                    proof {
                        lemma_inlines_text_step(items@, k as int);
                    }
                    let t = items[k].to_text();
                    let ghost before = out@;
                    push_str(&mut out, t.as_str());
                    assert(out@ + inlines_text(items@.subrange(k + 1, items@.len() as int))
                        =~= before + (t@ + inlines_text(items@.subrange(k + 1, items@.len() as int))));
                    k = k + 1;
                }
                assert(items@.subrange(k as int, items@.len() as int) =~= Seq::<Inline>::empty());
                assert(items@.subrange(0, items@.len() as int) =~= items@);
            },
        }
        out
    }
}

} // verus!
