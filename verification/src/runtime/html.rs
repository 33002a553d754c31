//! HTML escaping of text and of attribute values.

use vstd::prelude::*;
use crate::util::text::{chars_of, push_char, push_str};

verus! {

/// How one character is written in HTML text.
pub open spec fn html_char(c: char) -> Seq<char> {
    if c == '&' { "&amp;"@ }
    else if c == '<' { "&lt;"@ }
    else if c == '>' { "&gt;"@ }
    else { seq![c] }
}

/// How one character is written in an HTML attribute value.
pub open spec fn attr_char(c: char) -> Seq<char> {
    if c == '&' { "&amp;"@ }
    else if c == '<' { "&lt;"@ }
    else if c == '>' { "&gt;"@ }
    else if c == '"' { "&quot;"@ }
    else if c == '\'' { "&#x27;"@ }
    else { seq![c] }
}

/// Text with each character written as `html_char` gives.
pub open spec fn html_escaped(s: Seq<char>) -> Seq<char>
    decreases s.len(),
{
    if s.len() == 0 { Seq::empty() } else { html_escaped(s.drop_last()) + html_char(s.last()) }
}

/// Text with each character written as `attr_char` gives.
pub open spec fn attr_escaped(s: Seq<char>) -> Seq<char>
    decreases s.len(),
{
    if s.len() == 0 { Seq::empty() } else { attr_escaped(s.drop_last()) + attr_char(s.last()) }
}

/// Escape HTML special characters.
pub fn escape_html(s: &str) -> (r: String)
    ensures
        r@ == html_escaped(s@),
{
    let cs = chars_of(s);
    let mut out = String::new();
    let mut i: usize = 0;
    while i < cs.len()
        invariant
            0 <= i <= cs@.len(),
            cs@ == s@,
            out@ == html_escaped(cs@.take(i as int)),
        decreases cs@.len() - i,
    {
        let c = cs[i];
        assert(cs@.take(i + 1).drop_last() =~= cs@.take(i as int));
        if c == '&' {
            push_str(&mut out, "&amp;");
        } else if c == '<' {
            push_str(&mut out, "&lt;");
        } else if c == '>' {
            push_str(&mut out, "&gt;");
        } else {
            push_char(&mut out, c);
        }
        i = i + 1;
    }
    assert(cs@.take(cs@.len() as int) =~= cs@);
    out
}

/// Escape HTML attribute values.
pub fn escape_attr(s: &str) -> (r: String)
    ensures
        r@ == attr_escaped(s@),
{
    let cs = chars_of(s);
    let mut out = String::new();
    let mut i: usize = 0;
    while i < cs.len()
        invariant
            0 <= i <= cs@.len(),
            cs@ == s@,
            out@ == attr_escaped(cs@.take(i as int)),
        decreases cs@.len() - i,
    {
        let c = cs[i];
        assert(cs@.take(i + 1).drop_last() =~= cs@.take(i as int));
        if c == '&' {
            push_str(&mut out, "&amp;");
        } else if c == '<' {
            push_str(&mut out, "&lt;");
        } else if c == '>' {
            push_str(&mut out, "&gt;");
        } else if c == '"' {
            push_str(&mut out, "&quot;");
        } else if c == '\'' {
            push_str(&mut out, "&#x27;");
        } else {
            push_char(&mut out, c);
        }
        i = i + 1;
    }
    assert(cs@.take(cs@.len() as int) =~= cs@);
    out
}

/// Escaped text holds no `<` and no `>`, so it opens and closes no tag.
pub proof fn lemma_html_escaped_has_no_tags(s: Seq<char>)
    ensures
        forall|i: int| 0 <= i < html_escaped(s).len() ==> #[trigger] html_escaped(s)[i] != '<' && html_escaped(s)[i] != '>',
    decreases s.len(),
{
    reveal_strlit("&amp;");
    reveal_strlit("&lt;");
    reveal_strlit("&gt;");
    if s.len() > 0 {
        lemma_html_escaped_has_no_tags(s.drop_last());
        let p = html_escaped(s.drop_last());
        let q = html_char(s.last());
        assert forall|i: int| 0 <= i < html_escaped(s).len() implies #[trigger] html_escaped(s)[i] != '<' && html_escaped(s)[i] != '>' by {
            if i < p.len() {
                assert(html_escaped(s)[i] == p[i]);
            } else {
                assert(html_escaped(s)[i] == q[i - p.len()]);
            }
        }
    }
}

/// An escaped attribute value holds no quote of either kind and no `<` or
/// `>`, so it cannot end the attribute or the tag.
pub proof fn lemma_attr_escaped_has_no_quotes(s: Seq<char>)
    ensures
        forall|i: int| 0 <= i < attr_escaped(s).len() ==> {
            let c = #[trigger] attr_escaped(s)[i];
            c != '"' && c != '\'' && c != '<' && c != '>'
        },
    decreases s.len(),
{
    reveal_strlit("&amp;");
    reveal_strlit("&lt;");
    reveal_strlit("&gt;");
    reveal_strlit("&quot;");
    reveal_strlit("&#x27;");
    if s.len() > 0 {
        lemma_attr_escaped_has_no_quotes(s.drop_last());
        let p = attr_escaped(s.drop_last());
        let q = attr_char(s.last());
        assert forall|i: int| 0 <= i < attr_escaped(s).len() implies {
            let c = #[trigger] attr_escaped(s)[i];
            c != '"' && c != '\'' && c != '<' && c != '>'
        } by {
            if i < p.len() {
                assert(attr_escaped(s)[i] == p[i]);
            } else {
                assert(attr_escaped(s)[i] == q[i - p.len()]);
            }
        }
    }
}

} // verus!
