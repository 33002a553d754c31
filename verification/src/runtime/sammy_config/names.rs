//! Dataspace naming conventions: each document has a content space
//! `doc-content/<id>` and a view space `doc-view/<id>`, beside the
//! `system` space.

use vstd::prelude::*;
use crate::util::text::{chars_of, push_str, to_owned_string};

verus! {

/// The system dataspace name.
pub const SYSTEM: &'static str = "system";

/// `p` is a prefix of `s`.
pub open spec fn is_prefix(p: Seq<char>, s: Seq<char>) -> bool {
    p.len() <= s.len() && s.subrange(0, p.len() as int) == p
}

fn has_prefix(s: &str, p: &str) -> (r: bool)
    ensures
        r == is_prefix(p@, s@),
{
    let sc = chars_of(s);
    let pc = chars_of(p);
    if pc.len() > sc.len() {
        return false;
    }
    let mut i: usize = 0;
    while i < pc.len()
        invariant
            0 <= i <= pc@.len(),
            pc@.len() <= sc@.len(),
            sc@ == s@,
            pc@ == p@,
            forall|j: int| 0 <= j < i ==> sc@[j] == pc@[j],
        decreases pc@.len() - i,
    {
        if sc[i] != pc[i] {
            assert(s@.subrange(0, p@.len() as int)[i as int] != p@[i as int]);
            return false;
        }
        i = i + 1;
    }
    assert(s@.subrange(0, p@.len() as int) =~= p@);
    true
}

/// The doc-content dataspace name of a document.
pub fn doc_content(doc_id: &str) -> (r: String)
    ensures
        r@ == "doc-content/"@ + doc_id@,
{
    let mut s = to_owned_string("doc-content/");
    push_str(&mut s, doc_id);
    s
}

/// The doc-view dataspace name of a document.
pub fn doc_view(doc_id: &str) -> (r: String)
    ensures
        r@ == "doc-view/"@ + doc_id@,
{
    let mut s = to_owned_string("doc-view/");
    push_str(&mut s, doc_id);
    s
}

/// Whether a dataspace name is a doc-content space.
pub fn is_doc_content(name: &str) -> (r: bool)
    ensures
        r == is_prefix("doc-content/"@, name@),
{
    has_prefix(name, "doc-content/")
}

/// Whether a dataspace name is a doc-view space.
pub fn is_doc_view(name: &str) -> (r: bool)
    ensures
        r == is_prefix("doc-view/"@, name@),
{
    has_prefix(name, "doc-view/")
}

/// The document id in a doc-content or doc-view name: what follows the
/// prefix.
pub fn extract_doc_id(name: &str) -> (r: Option<&str>)
    ensures
        is_prefix("doc-content/"@, name@) ==> (r matches Some(x) && x@ == name@.skip("doc-content/"@.len() as int)),
        !is_prefix("doc-content/"@, name@) && is_prefix("doc-view/"@, name@) ==> (r matches Some(x) && x@ == name@.skip("doc-view/"@.len() as int)),
        !is_prefix("doc-content/"@, name@) && !is_prefix("doc-view/"@, name@) ==> r is None,
{
    let len = name.unicode_len();
    if has_prefix(name, "doc-content/") {
        let p = "doc-content/".unicode_len();
        let rest = name.substring_char(p, len);
        assert(rest@ =~= name@.skip("doc-content/"@.len() as int));
        Some(rest)
    } else if has_prefix(name, "doc-view/") {
        let p = "doc-view/".unicode_len();
        let rest = name.substring_char(p, len);
        assert(rest@ =~= name@.skip("doc-view/"@.len() as int));
        Some(rest)
    } else {
        None
    }
}

/// The document of a content or view name is found again: extracting the
/// id from `doc_content(id)` or `doc_view(id)` gives back `id`.
pub proof fn lemma_names_roundtrip(id: Seq<char>)
    ensures
        is_prefix("doc-content/"@, "doc-content/"@ + id),
        ("doc-content/"@ + id).skip("doc-content/"@.len() as int) == id,
        is_prefix("doc-view/"@, "doc-view/"@ + id),
        ("doc-view/"@ + id).skip("doc-view/"@.len() as int) == id,
{
    assert(("doc-content/"@ + id).subrange(0, "doc-content/"@.len() as int) =~= "doc-content/"@);
    assert(("doc-content/"@ + id).skip("doc-content/"@.len() as int) =~= id);
    assert(("doc-view/"@ + id).subrange(0, "doc-view/"@.len() as int) =~= "doc-view/"@);
    assert(("doc-view/"@ + id).skip("doc-view/"@.len() as int) =~= id);
}

} // verus!
