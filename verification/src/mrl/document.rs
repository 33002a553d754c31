//! The document-level reader for mixed prose and code, where `!` turns
//! from prose to code.
//!
//! A document is read character by character. Prose runs until a `!` that
//! starts code; `!!` stands for a literal `!`. A code element runs from its
//! `!` until an unmatched closing bracket, or a line end that is not
//! followed by an indented line. Inline code, which starts in the middle of
//! a line, also stops at the first whitespace outside brackets and strings;
//! a block, which starts at the beginning of a line, takes its indented
//! lines with it. Each code element is then tokenized and parsed on its own.

use vstd::prelude::*;
use vstd::utf8::*;
use vstd::string::StringSliceAdditionalSpecFns;
use crate::mrl::error::{MrlError, Span};
use crate::mrl::lexer::lexed;
use crate::mrl::parser::p_parse;
use crate::mrl::shrubbery::{Shrubbery, ShrubModel};
use crate::mrl::{fresh_parse, parse_source, source_outcome};
use crate::util::text::{
    chars_of, is_alphabetic, is_whitespace, push_char, unicode_alphabetic, unicode_whitespace,
};
use crate::util::utf8::{byte_offset, lemma_offset_split, lemma_offset_step, utf8_width};

verus! {

/// An element of a document: prose with its byte span, or parsed code.
#[derive(Debug)]
pub enum DocumentElement {
    /// Prose text (Markdown), with `!!` read as `!`.
    Prose(String, Span),
    /// A code element, parsed.
    Code(Shrubbery),
}

/// What a document element is, as plain values.
pub enum ElementModel {
    Prose(Seq<char>, Span),
    Code(ShrubModel),
}

impl View for DocumentElement {
    type V = ElementModel;

    open spec fn view(&self) -> ElementModel {
        match self {
            DocumentElement::Prose(t, s) => ElementModel::Prose(t@, *s),
            DocumentElement::Code(c) => ElementModel::Code(c@),
        }
    }
}

/// A stretch of a document before its code is parsed: prose text with its
/// byte span, or the characters of a code element.
pub enum Piece {
    Prose(Seq<char>, Span),
    Code(Seq<char>),
}

/// The Unicode `Alphabetic` property of each character.
pub open spec fn alphabetic_classes(cs: Seq<char>) -> Seq<bool> {
    Seq::new(cs.len(), |i: int| unicode_alphabetic(cs[i]))
}

/// The Unicode `White_Space` property of each character.
pub open spec fn whitespace_classes(cs: Seq<char>) -> Seq<bool> {
    Seq::new(cs.len(), |i: int| unicode_whitespace(cs[i]))
}

/// The position of the first `]` at or after `j`, or the length when there
/// is none.
pub open spec fn first_close_bracket(cs: Seq<char>, j: int) -> int
    decreases cs.len() - j,
{
    if j < 0 || j >= cs.len() {
        cs.len() as int
    } else if cs[j] == ']' {
        j
    } else {
        first_close_bracket(cs, j + 1)
    }
}

/// A Markdown image `![...](` starts at `i`: the first `]` after the `![`
/// is directly followed by `(`.
pub open spec fn image_at(cs: Seq<char>, i: int) -> bool {
    let m = first_close_bracket(cs, i + 2);
    m + 1 < cs.len() && cs[m + 1] == '('
}

/// Code starts at `i`: a `!` followed by an alphabetic character, `(`, `[`
/// or `_`; `!!` is an escaped `!`, and `![` that opens a Markdown image is
/// prose.
pub open spec fn code_start(cs: Seq<char>, alpha: Seq<bool>, i: int) -> bool {
    &&& 0 <= i
    &&& i + 1 < cs.len()
    &&& cs[i] == '!'
    &&& cs[i + 1] != '!'
    &&& (cs[i + 1] == '[' ==> !image_at(cs, i))
    &&& (alpha[i + 1] || cs[i + 1] == '(' || cs[i + 1] == '[' || cs[i + 1] == '_')
}

/// `!!` at `j`, which prose reads as one `!`.
pub open spec fn escaped_bang(cs: Seq<char>, j: int) -> bool {
    0 <= j && j + 1 < cs.len() && cs[j] == '!' && cs[j + 1] == '!'
}

/// The text of the prose that starts at `j`.
pub open spec fn prose_text(cs: Seq<char>, alpha: Seq<bool>, j: int) -> Seq<char>
    decreases cs.len() - j,
{
    if j < 0 || j >= cs.len() || code_start(cs, alpha, j) {
        Seq::empty()
    } else if escaped_bang(cs, j) {
        seq!['!'] + prose_text(cs, alpha, j + 2)
    } else {
        seq![cs[j]] + prose_text(cs, alpha, j + 1)
    }
}

/// Where the prose that starts at `j` ends.
pub open spec fn prose_end(cs: Seq<char>, alpha: Seq<bool>, j: int) -> int
    decreases cs.len() - j,
{
    if j < 0 || j >= cs.len() || code_start(cs, alpha, j) {
        j
    } else if escaped_bang(cs, j) {
        prose_end(cs, alpha, j + 2)
    } else {
        prose_end(cs, alpha, j + 1)
    }
}

pub open spec fn opens(c: char) -> bool {
    c == '(' || c == '[' || c == '{'
}

pub open spec fn closes(c: char) -> bool {
    c == ')' || c == ']' || c == '}'
}

/// Where a code element ends, scanning from `j` with `depth` brackets
/// open, inside a string or not, and after a backslash or not; inline code
/// also ends after whitespace outside brackets and strings.
pub open spec fn code_end(cs: Seq<char>, ws: Seq<bool>, j: int, depth: nat, in_str: bool, esc: bool, inline: bool) -> int
    decreases cs.len() - j,
{
    if j < 0 || j >= cs.len() {
        j
    } else {
        let ch = cs[j];
        let s = if ch == '"' && !esc { !in_str } else { in_str };
        let e = ch == '\\' && !esc;
        if !s && closes(ch) && depth == 0 {
            j
        } else if !s && ch == '\n' && depth == 0 {
            if j + 1 >= cs.len() || !ws[j + 1] || cs[j + 1] == '\n' {
                j + 1
            } else {
                code_end(cs, ws, j + 1, depth, s, e, inline)
            }
        } else {
            let d: nat = if !s && opens(ch) {
                depth + 1
            } else if !s && closes(ch) {
                (depth - 1) as nat
            } else {
                depth
            };
            if inline && d == 0 && !s && ws[j] {
                j + 1
            } else {
                code_end(cs, ws, j + 1, d, s, e, inline)
            }
        }
    }
}

/// Code at `i` is a block: it starts a line.
pub open spec fn line_start(cs: Seq<char>, i: int) -> bool {
    i == 0 || cs[i - 1] == '\n'
}

/// Where the code element whose `!` stands at `i` ends.
pub open spec fn code_element_end(cs: Seq<char>, ws: Seq<bool>, i: int) -> int {
    code_end(cs, ws, i + 1, 0, false, false, !line_start(cs, i))
}

/// The pieces of the document from character `i` on.
pub open spec fn pieces_from(cs: Seq<char>, alpha: Seq<bool>, ws: Seq<bool>, i: int) -> Seq<Piece>
    decreases cs.len() - i,
{
    if i < 0 || i >= cs.len() {
        Seq::empty()
    } else if code_start(cs, alpha, i) {
        let k = code_element_end(cs, ws, i);
        if i < k <= cs.len() {
            seq![Piece::Code(cs.subrange(i, k))] + pieces_from(cs, alpha, ws, k)
        } else {
            Seq::empty()
        }
    } else {
        let k = prose_end(cs, alpha, i);
        if i < k <= cs.len() {
            let span = Span { start: byte_offset(cs, i) as usize, end: byte_offset(cs, k) as usize };
            seq![Piece::Prose(prose_text(cs, alpha, i), span)] + pieces_from(cs, alpha, ws, k)
        } else {
            Seq::empty()
        }
    }
}

/// The pieces of a whole document.
pub open spec fn pieces(cs: Seq<char>, alpha: Seq<bool>, ws: Seq<bool>) -> Seq<Piece> {
    pieces_from(cs, alpha, ws, 0)
}

/// The shrubbery that the code text parses to, if it parses.
pub open spec fn code_parsed(code: Seq<char>) -> Option<ShrubModel> {
    match lexed(encode_utf8(code)) {
        Err(_) => None,
        Ok(ts) => match p_parse(ts, fresh_parse()) {
            Ok((m, _)) => Some(m),
            Err(_) => None,
        },
    }
}

/// A piece whose code does not parse.
pub open spec fn fails(p: Piece) -> bool {
    p matches Piece::Code(c) && code_parsed(c) is None
}

/// The error that parsing the code of a piece gives.
pub open spec fn failed_with(p: Piece, e: MrlError) -> bool {
    match p {
        Piece::Code(c) => source_outcome(Err(e), encode_utf8(c)),
        Piece::Prose(_, _) => false,
    }
}

/// An element is what a piece gives: the same prose, or the shrubbery its
/// code parses to.
pub open spec fn gives(p: Piece, e: ElementModel) -> bool {
    match p {
        Piece::Prose(t, sp) => e == ElementModel::Prose(t, sp),
        Piece::Code(c) => code_parsed(c) matches Some(m) && e == ElementModel::Code(m),
    }
}

/// What reading a document with these pieces gives: every element when all
/// code parses, else the error of the first code that does not.
pub open spec fn document_outcome(r: Result<Vec<DocumentElement>, MrlError>, ps: Seq<Piece>) -> bool {
    if forall|k: int| 0 <= k < ps.len() ==> !fails(#[trigger] ps[k]) {
        &&& r matches Ok(v)
        &&& v@.len() == ps.len()
        &&& forall|k: int| 0 <= k < ps.len() ==> gives(#[trigger] ps[k], v@[k]@)
    } else {
        &&& r matches Err(e)
        &&& exists|k: int|
            #![trigger ps[k]]
            0 <= k < ps.len() && fails(ps[k]) && (forall|j: int| 0 <= j < k ==> !fails(#[trigger] ps[j]))
                && failed_with(ps[k], e)
    }
}

proof fn lemma_pieces_prose(cs: Seq<char>, alpha: Seq<bool>, ws: Seq<bool>, i: int)
    requires
        0 <= i < cs.len(),
        !code_start(cs, alpha, i),
    ensures
        i < prose_end(cs, alpha, i) <= cs.len(),
        pieces_from(cs, alpha, ws, i) == seq![
            Piece::Prose(
                prose_text(cs, alpha, i),
                Span { start: byte_offset(cs, i) as usize, end: byte_offset(cs, prose_end(cs, alpha, i)) as usize },
            ),
        ] + pieces_from(cs, alpha, ws, prose_end(cs, alpha, i)),
{
    if escaped_bang(cs, i) {
        lemma_prose_end(cs, alpha, i + 2);
    } else {
        lemma_prose_end(cs, alpha, i + 1);
    }
}

proof fn lemma_pieces_code(cs: Seq<char>, alpha: Seq<bool>, ws: Seq<bool>, i: int)
    requires
        code_start(cs, alpha, i),
    ensures
        i < code_element_end(cs, ws, i) <= cs.len(),
        pieces_from(cs, alpha, ws, i) == seq![Piece::Code(cs.subrange(i, code_element_end(cs, ws, i)))]
            + pieces_from(cs, alpha, ws, code_element_end(cs, ws, i)),
{
    lemma_code_end(cs, ws, i + 1, 0, false, false, !line_start(cs, i));
}

proof fn lemma_extend(cs: Seq<char>, a: int, b: int)
    requires
        0 <= a <= b < cs.len(),
    ensures
        cs.subrange(a, b + 1) == cs.subrange(a, b).push(cs[b]),
{
    assert(cs.subrange(a, b + 1) =~= cs.subrange(a, b).push(cs[b]));
}

proof fn lemma_prose_end(cs: Seq<char>, alpha: Seq<bool>, j: int)
    requires
        0 <= j <= cs.len(),
    ensures
        j <= prose_end(cs, alpha, j) <= cs.len(),
    decreases cs.len() - j,
{
    if j < cs.len() && !code_start(cs, alpha, j) {
        if escaped_bang(cs, j) {
            lemma_prose_end(cs, alpha, j + 2);
        } else {
            lemma_prose_end(cs, alpha, j + 1);
        }
    }
}

proof fn lemma_code_end(cs: Seq<char>, ws: Seq<bool>, j: int, depth: nat, in_str: bool, esc: bool, inline: bool)
    requires
        0 <= j <= cs.len(),
    ensures
        j <= code_end(cs, ws, j, depth, in_str, esc, inline) <= cs.len(),
    decreases cs.len() - j,
{
    if j < cs.len() {
        let ch = cs[j];
        let s = if ch == '"' && !esc { !in_str } else { in_str };
        let e = ch == '\\' && !esc;
        let d: nat = if !s && opens(ch) {
            depth + 1
        } else if !s && closes(ch) {
            (depth - 1) as nat
        } else {
            depth
        };
        lemma_code_end(cs, ws, j + 1, depth, s, e, inline);
        lemma_code_end(cs, ws, j + 1, d, s, e, inline);
    }
}

/// Document parser state: the characters of the source with their classes,
/// and the position reached, in characters and in bytes.
pub struct DocumentParser<'a> {
    source: &'a str,
    chars: Vec<char>,
    alphabetic: Vec<bool>,
    whitespace: Vec<bool>,
    index: usize,
    pos: usize,
}

impl<'a> DocumentParser<'a> {
    /// The text being read.
    pub closed spec fn source(&self) -> Seq<char> {
        self.source@
    }

    /// Whether each character is alphabetic.
    pub closed spec fn alpha(&self) -> Seq<bool> {
        self.alphabetic@
    }

    /// Whether each character is whitespace.
    pub closed spec fn ws(&self) -> Seq<bool> {
        self.whitespace@
    }

    /// The number of characters read.
    pub closed spec fn index(&self) -> int {
        self.index as int
    }

    /// The number of bytes read.
    pub closed spec fn pos(&self) -> int {
        self.pos as int
    }

    /// The state is consistent: the characters are those of the source,
    /// one class of each kind per character, and the byte position is the
    /// encoded length of the characters read.
    pub closed spec fn wf(&self) -> bool {
        &&& self.chars@ == self.source@
        &&& self.alphabetic@.len() == self.chars@.len()
        &&& self.whitespace@.len() == self.chars@.len()
        &&& self.index <= self.chars@.len()
        &&& self.pos == byte_offset(self.chars@, self.index as int)
    }

    /// A reader at the start of `source`, classifying each character with
    /// the Unicode `Alphabetic` and `White_Space` properties.
    pub fn new(source: &'a str) -> (r: Self)
        ensures
            r.wf(),
            r.source() == source@,
            r.alpha() == alphabetic_classes(source@),
            r.ws() == whitespace_classes(source@),
            r.index() == 0,
    {
        let chars = chars_of(source);
        let mut alphabetic: Vec<bool> = Vec::new();
        let mut whitespace: Vec<bool> = Vec::new();
        let mut i: usize = 0;
        while i < chars.len()
            invariant
                chars@ == source@,
                i <= chars@.len(),
                alphabetic@ == alphabetic_classes(source@).subrange(0, i as int),
                whitespace@ == whitespace_classes(source@).subrange(0, i as int),
            decreases chars@.len() - i,
        {
            let a = is_alphabetic(chars[i]);
            let w = is_whitespace(chars[i]);
            alphabetic.push(a);
            whitespace.push(w);
            assert(alphabetic@ =~= alphabetic_classes(source@).subrange(0, i + 1));
            assert(whitespace@ =~= whitespace_classes(source@).subrange(0, i + 1));
            i = i + 1;
        }
        assert(alphabetic@ =~= alphabetic_classes(source@));
        assert(whitespace@ =~= whitespace_classes(source@));
        Self::with_classes(source, alphabetic, whitespace)
    }

    /// A reader at the start of `source`, with the class of each character
    /// given: whether it is alphabetic, and whether it is whitespace.
    pub fn with_classes(source: &'a str, alphabetic: Vec<bool>, whitespace: Vec<bool>) -> (r: Self)
        requires
            alphabetic@.len() == source@.len(),
            whitespace@.len() == source@.len(),
        ensures
            r.wf(),
            r.source() == source@,
            r.alpha() == alphabetic@,
            r.ws() == whitespace@,
            r.index() == 0,
    {
        let chars = chars_of(source);
        proof {
            assert(chars@.subrange(0, 0) =~= Seq::<char>::empty());
            assert(encode_utf8(Seq::<char>::empty()) =~= Seq::<u8>::empty());
        }
        DocumentParser { source, chars, alphabetic, whitespace, index: 0, pos: 0 }
    }

    /// Read the whole document from the current position: its elements in
    /// order, or the error of the first code element that does not parse.
    pub fn parse(&mut self) -> (r: Result<Vec<DocumentElement>, MrlError>)
        requires
            old(self).wf(),
            encode_utf8(old(self).source()).len() + 3 < u64::MAX,
        ensures
            final(self).wf(),
            final(self).source() == old(self).source(),
            document_outcome(r, pieces_from(old(self).source(), old(self).alpha(), old(self).ws(), old(self).index())),
    {
        let ghost cs = self.chars@;
        let ghost alpha = self.alphabetic@;
        let ghost ws = self.whitespace@;
        let ghost all = pieces_from(cs, alpha, ws, self.index as int);
        let ghost mut done: Seq<Piece> = Seq::empty();
        let mut elements: Vec<DocumentElement> = Vec::new();
        while !self.is_eof()
            invariant
                self.wf(),
                self.chars@ == cs,
                self.source@ == cs,
                self.alphabetic@ == alpha,
                self.whitespace@ == ws,
                cs == old(self).source@,
                alpha == old(self).alphabetic@,
                ws == old(self).whitespace@,
                all == pieces_from(cs, alpha, ws, old(self).index as int),
                encode_utf8(cs).len() + 3 < u64::MAX,
                all == done + pieces_from(cs, alpha, ws, self.index as int),
                elements@.len() == done.len(),
                forall|k: int| 0 <= k < done.len() ==> !fails(#[trigger] done[k]),
                forall|k: int| 0 <= k < done.len() ==> gives(#[trigger] done[k], elements@[k]@),
            decreases cs.len() - self.index,
        {
            let ghost i = self.index as int;
            if self.peek_char() == Some('!') && self.is_code_start() {
                let ghost k = code_element_end(cs, ws, i);
                proof {
                    lemma_pieces_code(cs, alpha, ws, i);
                }
                let ghost p = Piece::Code(cs.subrange(i, k));
                let ghost rest = pieces_from(cs, alpha, ws, k);
                assert(pieces_from(cs, alpha, ws, i) == seq![p] + rest);
                let res = self.parse_code_element();
                match res {
                    Ok(e) => {
                        elements.push(e);
                        proof {
                            assert(all == (done + seq![p]) + rest);
                            done = done + seq![p];
                        }
                    },
                    Err(e) => {
                        proof {
                            let n = done.len() as int;
                            assert(all == done + (seq![p] + rest));
                            assert(all[n] == p);
                            assert(fails(all[n]));
                            assert forall|j: int| 0 <= j < n implies !fails(#[trigger] all[j]) by {
                                assert(all[j] == done[j]);
                            }
                        }
                        return Err(e);
                    },
                }
            } else {
                let ghost k = prose_end(cs, alpha, i);
                proof {
                    lemma_pieces_prose(cs, alpha, ws, i);
                }
                let ghost p = Piece::Prose(
                    prose_text(cs, alpha, i),
                    Span { start: byte_offset(cs, i) as usize, end: byte_offset(cs, k) as usize },
                );
                let ghost rest = pieces_from(cs, alpha, ws, k);
                let e = self.parse_prose();
                assert(pieces_from(cs, alpha, ws, i) == seq![p] + rest);
                elements.push(e);
                proof {
                    assert(all == (done + seq![p]) + rest);
                    done = done + seq![p];
                }
            }
        }
        proof {
            assert(pieces_from(cs, alpha, ws, self.index as int) =~= Seq::<Piece>::empty());
            assert(all =~= done);
        }
        Ok(elements)
    }

    /// Whether every character has been read.
    fn is_eof(&self) -> (r: bool)
        requires
            self.wf(),
        ensures
            r == (self.index >= self.chars@.len()),
    {
        self.index >= self.chars.len()
    }

    /// The next character, if any.
    fn peek_char(&self) -> (r: Option<char>)
        requires
            self.wf(),
        ensures
            r == (if self.index < self.chars@.len() { Some(self.chars@[self.index as int]) } else { None::<char> }),
    {
        if self.index < self.chars.len() {
            Some(self.chars[self.index])
        } else {
            None
        }
    }

    /// The character `offset` places after the next one, if any.
    fn peek_ahead(&self, offset: usize) -> (r: Option<char>)
        requires
            self.wf(),
        ensures
            r == (if self.index + offset < self.chars@.len() {
                Some(self.chars@[self.index + offset])
            } else {
                None::<char>
            }),
    {
        if offset < self.chars.len() - self.index {
            Some(self.chars[self.index + offset])
        } else {
            None
        }
    }

    /// Read one character, if any is left.
    fn advance(&mut self) -> (r: Option<char>)
        requires
            old(self).wf(),
        ensures
            final(self).wf(),
            final(self).chars@ == old(self).chars@,
            final(self).source@ == old(self).source@,
            final(self).alphabetic@ == old(self).alphabetic@,
            final(self).whitespace@ == old(self).whitespace@,
            old(self).index < old(self).chars@.len() ==> final(self).index == old(self).index + 1
                && r == Some(old(self).chars@[old(self).index as int]),
            old(self).index >= old(self).chars@.len() ==> final(self).index == old(self).index && r is None,
    {
        if self.index < self.chars.len() {
            let ch = self.chars[self.index];
            let w = utf8_width(ch);
            let total = self.source.as_bytes().len();
            proof {
                lemma_offset_step(self.chars@, self.index as int);
                lemma_offset_split(self.chars@, self.index + 1, self.chars@.len() as int);
                assert(self.chars@.subrange(0, self.chars@.len() as int) =~= self.chars@);
            }
            self.pos = self.pos + w;
            self.index = self.index + 1;
            Some(ch)
        } else {
            None
        }
    }

    /// Whether the `![` at the current position opens a Markdown image: the
    /// first `]` after it is directly followed by `(`.
    fn image_follows(&self) -> (r: bool)
        requires
            self.wf(),
            self.index + 1 < self.chars@.len(),
        ensures
            r == image_at(self.chars@, self.index as int),
    {
        let n = self.chars.len();
        let mut j = self.index + 2;
        while j < n && self.chars[j] != ']'
            invariant
                self.wf(),
                n == self.chars@.len(),
                self.index + 2 <= j <= n,
                first_close_bracket(self.chars@, j as int) == first_close_bracket(self.chars@, self.index + 2),
            decreases n - j,
        {
            j = j + 1;
        }
        j < n && 1 < n - j && self.chars[j + 1] == '('
    }

    /// Whether the `!` at the current position starts code.
    fn is_code_start(&self) -> (r: bool)
        requires
            self.wf(),
        ensures
            r == code_start(self.chars@, self.alphabetic@, self.index as int),
    {
        if self.peek_char() != Some('!') {
            return false;
        }
        if self.peek_ahead(1) == Some('!') {
            return false;
        }
        if self.peek_ahead(1) == Some('[') && self.image_follows() {
            return false;
        }
        if self.index < self.chars.len() && 1 < self.chars.len() - self.index {
            let next = self.chars[self.index + 1];
            self.alphabetic[self.index + 1] || next == '(' || next == '[' || next == '_'
        } else {
            false
        }
    }

    /// Read prose up to the next code element or the end.
    fn parse_prose(&mut self) -> (r: DocumentElement)
        requires
            old(self).wf(),
        ensures
            final(self).wf(),
            final(self).chars@ == old(self).chars@,
            final(self).source@ == old(self).source@,
            final(self).alphabetic@ == old(self).alphabetic@,
            final(self).whitespace@ == old(self).whitespace@,
            final(self).index == prose_end(old(self).chars@, old(self).alphabetic@, old(self).index as int),
            r@ == ElementModel::Prose(
                prose_text(old(self).chars@, old(self).alphabetic@, old(self).index as int),
                Span {
                    start: byte_offset(old(self).chars@, old(self).index as int) as usize,
                    end: byte_offset(old(self).chars@, final(self).index as int) as usize,
                },
            ),
    {
        let ghost cs = self.chars@;
        let ghost alpha = self.alphabetic@;
        let ghost i = self.index as int;
        let start = self.pos;
        let mut text = String::new();
        while !self.is_eof()
            invariant
                self.wf(),
                self.chars@ == cs,
                self.source@ == old(self).source@,
                self.alphabetic@ == alpha,
                self.whitespace@ == old(self).whitespace@,
                i <= self.index,
                prose_end(cs, alpha, self.index as int) == prose_end(cs, alpha, i),
                text@ + prose_text(cs, alpha, self.index as int) == prose_text(cs, alpha, i),
            ensures
                self.index >= cs.len() || code_start(cs, alpha, self.index as int),
            decreases cs.len() - self.index,
        {
            let ghost j = self.index as int;
            if self.peek_char() == Some('!') && self.is_code_start() {
                break;
            }
            if self.peek_char() == Some('!') && self.peek_ahead(1) == Some('!') {
                self.advance();
                self.advance();
                assert(text@.push('!') + prose_text(cs, alpha, j + 2) =~= text@ + (seq!['!'] + prose_text(cs, alpha, j + 2)));
                push_char(&mut text, '!');
                continue;
            }
            if let Some(ch) = self.advance() {
                assert(text@.push(ch) + prose_text(cs, alpha, j + 1) =~= text@ + (seq![ch] + prose_text(cs, alpha, j + 1)));
                push_char(&mut text, ch);
            }
        }
        let end = self.pos;
        proof {
            assert(prose_text(cs, alpha, self.index as int) =~= Seq::<char>::empty());
            assert(text@ =~= text@ + Seq::<char>::empty());
        }
        DocumentElement::Prose(text, Span::new(start, end))
    }

    /// Read a code element that starts at the current `!`, then tokenize and
    /// parse its text.
    fn parse_code_element(&mut self) -> (r: Result<DocumentElement, MrlError>)
        requires
            old(self).wf(),
            code_start(old(self).chars@, old(self).alphabetic@, old(self).index as int),
            encode_utf8(old(self).chars@).len() + 3 < u64::MAX,
        ensures
            final(self).wf(),
            final(self).chars@ == old(self).chars@,
            final(self).source@ == old(self).source@,
            final(self).alphabetic@ == old(self).alphabetic@,
            final(self).whitespace@ == old(self).whitespace@,
            final(self).index == code_element_end(old(self).chars@, old(self).whitespace@, old(self).index as int),
            ({
                let code = old(self).chars@.subrange(old(self).index as int, final(self).index as int);
                match r {
                    Ok(e) => code_parsed(code) matches Some(m) && e@ == ElementModel::Code(m),
                    Err(e) => code_parsed(code) is None && source_outcome(Err(e), encode_utf8(code)),
                }
            }),
    {
        let ghost cs = self.chars@;
        let ghost ws = self.whitespace@;
        let ghost i = self.index as int;
        let ghost k = code_element_end(cs, ws, i);
        let inline = !(self.index == 0 || self.chars[self.index - 1] == '\n');
        let mut code = String::new();
        if self.peek_char() == Some('!') {
            push_char(&mut code, '!');
            self.advance();
        }
        proof {
            assert(code@ =~= cs.subrange(i, i + 1));
        }
        let n = self.chars.len();
        let mut depth: u64 = 0;
        let mut in_string = false;
        let mut escape_next = false;
        while !self.is_eof()
            invariant_except_break
                code_end(cs, ws, self.index as int, depth as nat, in_string, escape_next, inline) == k,
                inline == !line_start(cs, i),
            invariant
                self.wf(),
                self.chars@ == cs,
                self.source@ == old(self).source@,
                self.alphabetic@ == old(self).alphabetic@,
                self.whitespace@ == ws,
                n == cs.len(),
                0 <= i < self.index,
                depth <= self.index,
                code@ == cs.subrange(i, self.index as int),
            ensures
                self.index == k,
            decreases cs.len() - self.index,
        {
            let here = self.index;
            let ch = self.chars[here];
            proof {
                lemma_extend(cs, i, here as int);
            }
            if ch == '"' && !escape_next {
                in_string = !in_string;
            }
            escape_next = ch == '\\' && !escape_next;
            if !in_string {
                if ch == '(' || ch == '[' || ch == '{' {
                    depth = depth + 1;
                } else if ch == ')' || ch == ']' || ch == '}' {
                    if depth == 0 {
                        break;
                    }
                    depth = depth - 1;
                } else if ch == '\n' {
                    if depth == 0 {
                        push_char(&mut code, ch);
                        self.advance();

                        match self.peek_char() {
                            Some(next_ch) => {
                                if !self.whitespace[self.index] || next_ch == '\n' {
                                    break;
                                }
                            },
                            None => {
                                break;
                            },
                        }
                        continue;
                    }
                }
            }
            push_char(&mut code, ch);
            self.advance();
            if inline && depth == 0 && !in_string && self.whitespace[here] {
                break;
            }
        }
        proof {
            lemma_code_end(cs, ws, i + 1, 0, false, false, !line_start(cs, i));
            lemma_offset_split(cs, i, k);
            lemma_offset_split(cs, 0, i);
            assert(cs.subrange(0, cs.len() as int) =~= cs);
        }
        let r = parse_source(code.as_str());
        match r {
            Ok(shrub) => Ok(DocumentElement::Code(shrub)),
            Err(e) => Err(e),
        }
    }
}

/// Parse a document with mixed prose and MRL code.
pub fn parse_document(source: &str) -> (r: Result<Vec<DocumentElement>, MrlError>)
    requires
        source.spec_bytes().len() + 3 < u64::MAX,
    ensures
        document_outcome(r, pieces(source@, alphabetic_classes(source@), whitespace_classes(source@))),
{
    let mut parser = DocumentParser::new(source);
    parser.parse()
}

} // verus!
