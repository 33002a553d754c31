//! Page data for the site templates, and the HTML of the directory tree.

use vstd::prelude::*;
use crate::runtime::html::{attr_escaped, escape_attr};
use crate::util::text::{decimal, push_str, str_eq, u64_to_text};

verus! {

/// A simple note entry for display in lists.
#[derive(Debug, Clone)]
pub struct NoteEntry {
    pub url: String,
    pub title: String,
    pub date: Option<String>,
    pub description: Option<String>,
    pub note_type: String,
}

/// A file entry in the directory tree.
#[derive(Debug, Clone)]
pub struct FileNode {
    pub name: String,
    pub url: String,
    pub title: String,
    pub note_type: String,
    /// The kind of API item ("struct", "enum", "trait", "function",
    /// "method", "module"), from `kind:` tags of doc notes.
    pub kind: Option<String>,
}

/// A directory entry in the directory tree.
#[derive(Debug)]
pub struct DirectoryNode {
    pub name: String,
    pub files: Vec<FileNode>,
    pub subdirs: Vec<DirectoryNode>,
}

/// Upper-cases a text with `str::to_uppercase` (Unicode case mapping).
/// Claimed: the result is `uppercase(s@)`, a function of the text alone.
#[verifier::external_body]
fn to_uppercase(s: &str) -> (r: String)
    ensures
        r@ == uppercase(s@),
{
    s.to_uppercase()
}

/// The Unicode upper-case mapping of a text, as `str::to_uppercase` computes it.
pub uninterp spec fn uppercase(s: Seq<char>) -> Seq<char>;

/// The API kinds in display order, with their headings.
pub open spec fn kind_order() -> Seq<(Seq<char>, Seq<char>)> {
    seq![
        ("module"@, "Modules"@),
        ("trait"@, "Traits"@),
        ("struct"@, "Structs"@),
        ("enum"@, "Enums"@),
        ("function"@, "Functions"@),
        ("method"@, "Methods"@),
    ]
}

/// The texts of `s`, one after the other.
pub open spec fn concat_all(s: Seq<Seq<char>>) -> Seq<char>
    decreases s.len(),
{
    if s.len() == 0 { Seq::empty() } else { concat_all(s.drop_last()) + s.last() }
}

/// The badge of a file: its kind in capitals, else its note type.
pub open spec fn badge_text(f: FileNode) -> Seq<char> {
    match f.kind {
        Some(k) => uppercase(k@),
        None => f.note_type@,
    }
}

/// The list item of a file.
pub open spec fn file_item_html(f: FileNode) -> Seq<char> {
    "      <li class=\"file-item\">\n"@
        + "        <a href=\""@ + attr_escaped(f.url@) + "\" class=\"file-link\">"@ + attr_escaped(f.title@) + "</a>\n"@
        + "        <span class=\"file-type-badge\">"@ + badge_text(f) + "</span>\n"@
        + "      </li>\n"@
}

/// The list items of files, in order.
pub open spec fn file_items_html(fs: Seq<FileNode>) -> Seq<char>
    decreases fs.len(),
{
    if fs.len() == 0 { Seq::empty() } else { file_items_html(fs.drop_last()) + file_item_html(fs.last()) }
}

/// The files of kind `k`, in order.
pub open spec fn files_of_kind(fs: Seq<FileNode>, k: Seq<char>) -> Seq<FileNode>
    decreases fs.len(),
{
    if fs.len() == 0 {
        Seq::empty()
    } else if fs.last().kind matches Some(x) && x@ == k {
        files_of_kind(fs.drop_last(), k).push(fs.last())
    } else {
        files_of_kind(fs.drop_last(), k)
    }
}

/// One of the kinds that have a group of their own.
pub open spec fn known_kind(k: Seq<char>) -> bool {
    ||| k == "module"@
    ||| k == "trait"@
    ||| k == "struct"@
    ||| k == "enum"@
    ||| k == "function"@
    ||| k == "method"@
}

/// A file that no kind group shows: it has no kind, or one without a group.
pub open spec fn ungrouped(f: FileNode) -> bool {
    match f.kind {
        None => true,
        Some(k) => !known_kind(k@),
    }
}

/// The files that no kind group shows, in order.
pub open spec fn files_without_kind(fs: Seq<FileNode>) -> Seq<FileNode>
    decreases fs.len(),
{
    if fs.len() == 0 {
        Seq::empty()
    } else if ungrouped(fs.last()) {
        files_without_kind(fs.drop_last()).push(fs.last())
    } else {
        files_without_kind(fs.drop_last())
    }
}

/// The group of the files of one kind, if there are any.
pub open spec fn kind_group_html(fs: Seq<FileNode>, key: Seq<char>, label: Seq<char>) -> Seq<char> {
    let group = files_of_kind(fs, key);
    if group.len() == 0 {
        Seq::empty()
    } else {
        "  <div class=\"kind-group\">\n    <h4 class=\"kind-heading\">"@ + label + "</h4>\n"@
            + "    <ul class=\"file-list\">\n"@ + file_items_html(group) + "    </ul>\n"@ + "  </div>\n"@
    }
}

/// The groups of the first `n` kinds.
pub open spec fn kind_groups_html(fs: Seq<FileNode>, n: nat) -> Seq<char>
    decreases n,
{
    if n == 0 || n > kind_order().len() {
        Seq::empty()
    } else {
        kind_groups_html(fs, (n - 1) as nat) + kind_group_html(fs, kind_order()[n - 1].0, kind_order()[n - 1].1)
    }
}

/// The list of the files that no kind group shows, if there are any.
pub open spec fn others_html(fs: Seq<FileNode>) -> Seq<char> {
    let others = files_without_kind(fs);
    if others.len() == 0 {
        Seq::empty()
    } else {
        "  <ul class=\"file-list\">\n"@ + file_items_html(others) + "  </ul>\n"@
    }
}

/// One flat list of files.
pub open spec fn flat_html(fs: Seq<FileNode>) -> Seq<char> {
    "  <ul class=\"file-list\">\n"@ + file_items_html(fs) + "  </ul>\n"@
}

/// The files of a directory: grouped by kind in display order when some
/// file has a kind, followed by one list of the files without a known
/// kind (no kind, or a kind without a group); else one flat list.
pub open spec fn files_html(fs: Seq<FileNode>) -> Seq<char> {
    if fs.len() == 0 {
        Seq::empty()
    } else if exists|i: int| 0 <= i < fs.len() && #[trigger] fs[i].kind is Some {
        kind_groups_html(fs, 6) + others_html(fs)
    } else {
        flat_html(fs)
    }
}

/// The HTML of each directory, in order.
pub open spec fn dirs_html(ds: Seq<DirectoryNode>) -> Seq<Seq<char>>
    decreases ds,
{
    Seq::new(ds.len(), |i: int| if 0 <= i < ds.len() { dir_html(ds[i]) } else { Seq::empty() })
}

/// The HTML of a directory node and everything below it.
pub open spec fn dir_html(d: DirectoryNode) -> Seq<char>
    decreases d,
{
    "<details class=\"directory-node\" open>\n"@
        + "  <summary class=\"directory-name\">\n"@
        + "    <span class=\"dir-label\">"@ + d.name@ + "/</span>\n"@
        + "    <span class=\"file-count\">("@ + decimal(d.files@.len()) + " files)</span>\n"@
        + "  </summary>\n"@
        + if d.subdirs@.len() == 0 {
            Seq::empty()
        } else {
            "  <div class=\"subdirs-container\">\n"@ + concat_all(dirs_html(d.subdirs@)) + "  </div>\n"@
        }
        + files_html(d.files@)
        + "</details>\n"@
}

/// The opening of a directory's HTML, up to and with the line that names it.
pub open spec fn dir_opening(name: Seq<char>) -> Seq<char> {
    "<details class=\"directory-node\" open>\n"@
        + "  <summary class=\"directory-name\">\n"@
        + "    <span class=\"dir-label\">"@ + name + "/</span>\n"@
}

/// The line that shows how many files a directory holds.
pub open spec fn file_count_line(n: nat) -> Seq<char> {
    "    <span class=\"file-count\">("@ + decimal(n) + " files)</span>\n"@
}

/// A rendered directory opens with its name, followed by the number of its
/// own files (not of its subdirectories, nor of the files below them).
pub proof fn lemma_file_count_shown(d: DirectoryNode)
    ensures
        exists|rest: Seq<char>| dir_html(d) == dir_opening(d.name@) + file_count_line(d.files@.len()) + rest,
{
    let rest = "  </summary>\n"@
        + (if d.subdirs@.len() == 0 {
            Seq::empty()
        } else {
            "  <div class=\"subdirs-container\">\n"@ + concat_all(dirs_html(d.subdirs@)) + "  </div>\n"@
        })
        + files_html(d.files@)
        + "</details>\n"@;
    assert(dir_html(d) =~= dir_opening(d.name@) + file_count_line(d.files@.len()) + rest);
}

/// Two directories with the same name and the same number of files open
/// with the same text, whatever their subdirectories hold.
pub proof fn lemma_file_count_ignores_subdirs(d1: DirectoryNode, d2: DirectoryNode)
    requires
        d1.name@ == d2.name@,
        d1.files@.len() == d2.files@.len(),
    ensures
        dir_html(d1).take((dir_opening(d1.name@) + file_count_line(d1.files@.len())).len() as int)
            == dir_html(d2).take((dir_opening(d2.name@) + file_count_line(d2.files@.len())).len() as int),
{
    lemma_file_count_shown(d1);
    lemma_file_count_shown(d2);
    let p = dir_opening(d1.name@) + file_count_line(d1.files@.len());
    let r1 = choose|rest: Seq<char>| dir_html(d1) == dir_opening(d1.name@) + file_count_line(d1.files@.len()) + rest;
    let r2 = choose|rest: Seq<char>| dir_html(d2) == dir_opening(d2.name@) + file_count_line(d2.files@.len()) + rest;
    assert((p + r1).take(p.len() as int) =~= p);
    assert((p + r2).take(p.len() as int) =~= p);
}

fn render_file_item(html: &mut String, file: &FileNode)
    ensures
        final(html)@ == old(html)@ + file_item_html(*file),
{
    push_str(html, "      <li class=\"file-item\">\n");
    push_str(html, "        <a href=\"");
    let url = escape_attr(file.url.as_str());
    push_str(html, url.as_str());
    push_str(html, "\" class=\"file-link\">");
    let title = escape_attr(file.title.as_str());
    push_str(html, title.as_str());
    push_str(html, "</a>\n");
    push_str(html, "        <span class=\"file-type-badge\">");
    match &file.kind {
        Some(k) => {
            let b = to_uppercase(k.as_str());
            push_str(html, b.as_str());
        },
        None => push_str(html, file.note_type.as_str()),
    }
    push_str(html, "</span>\n");
    push_str(html, "      </li>\n");
    assert(html@ =~= old(html)@ + file_item_html(*file));
}

fn render_items(html: &mut String, items: &Vec<&FileNode>, Ghost(g): Ghost<Seq<FileNode>>)
    requires
        items@.len() == g.len(),
        forall|t: int| 0 <= t < items@.len() ==> *items@[t] == #[trigger] g[t],
    ensures
        final(html)@ == old(html)@ + file_items_html(g),
{
    let ghost before = html@;
    let mut j: usize = 0;
    while j < items.len()
        invariant
            0 <= j <= items@.len(),
            items@.len() == g.len(),
            forall|t: int| 0 <= t < items@.len() ==> *items@[t] == #[trigger] g[t],
            html@ == before + file_items_html(g.take(j as int)),
        decreases items@.len() - j,
    {
        assert(g.take(j + 1).drop_last() =~= g.take(j as int));
        render_file_item(html, items[j]);
        j = j + 1;
    }
    assert(g.take(g.len() as int) =~= g);
}

fn render_kind_group(html: &mut String, files: &Vec<FileNode>, key: &str, label: &str)
    ensures
        final(html)@ == old(html)@ + kind_group_html(files@, key@, label@),
{
    let ghost start = html@;
    let mut group: Vec<&FileNode> = Vec::new();
    let mut i: usize = 0;
    while i < files.len()
        invariant
            0 <= i <= files@.len(),
            group@.len() == files_of_kind(files@.take(i as int), key@).len(),
            forall|j: int| 0 <= j < group@.len() ==> *group@[j] == #[trigger] files_of_kind(files@.take(i as int), key@)[j],
        decreases files@.len() - i,
    {
        assert(files@.take(i + 1).drop_last() =~= files@.take(i as int));
        match &files[i].kind {
            Some(k) => {
                if str_eq(k.as_str(), key) {
                    group.push(&files[i]);
                }
            },
            None => {},
        }
        i = i + 1;
    }
    assert(files@.take(files@.len() as int) =~= files@);
    if group.len() != 0 {
        push_str(html, "  <div class=\"kind-group\">\n    <h4 class=\"kind-heading\">");
        push_str(html, label);
        push_str(html, "</h4>\n");
        push_str(html, "    <ul class=\"file-list\">\n");
        render_items(html, &group, Ghost(files_of_kind(files@, key@)));
        push_str(html, "    </ul>\n");
        push_str(html, "  </div>\n");
    }
    assert(html@ =~= start + kind_group_html(files@, key@, label@));
}

fn render_kind_groups(html: &mut String, files: &Vec<FileNode>)
    ensures
        final(html)@ == old(html)@ + kind_groups_html(files@, 6),
{
    let ghost start = html@;
    let order: Vec<(&str, &str)> = vec![
        ("module", "Modules"),
        ("trait", "Traits"),
        ("struct", "Structs"),
        ("enum", "Enums"),
        ("function", "Functions"),
        ("method", "Methods"),
    ];
    assert(order@.len() == kind_order().len());
    assert forall|t: int| 0 <= t < order@.len() implies #[trigger] order@[t].0@ == kind_order()[t].0 && order@[t].1@ == kind_order()[t].1 by {
        assert(order@ == seq![("module", "Modules"), ("trait", "Traits"), ("struct", "Structs"), ("enum", "Enums"), ("function", "Functions"), ("method", "Methods")]);
    }
    let mut i: usize = 0;
    while i < order.len()
        invariant
            0 <= i <= order@.len(),
            order@.len() == 6,
            kind_order().len() == 6,
            forall|t: int| 0 <= t < order@.len() ==> #[trigger] order@[t].0@ == kind_order()[t].0 && order@[t].1@ == kind_order()[t].1,
            html@ == start + kind_groups_html(files@, i as nat),
        decreases order@.len() - i,
    {
        render_kind_group(html, files, order[i].0, order[i].1);
        assert(kind_groups_html(files@, (i + 1) as nat) == kind_groups_html(files@, i as nat) + kind_group_html(files@, kind_order()[i as int].0, kind_order()[i as int].1));
        i = i + 1;
    }
}

fn is_known_kind(k: &str) -> (r: bool)
    ensures
        r == known_kind(k@),
{
    str_eq(k, "module") || str_eq(k, "trait") || str_eq(k, "struct") || str_eq(k, "enum")
        || str_eq(k, "function") || str_eq(k, "method")
}

fn render_grouped(html: &mut String, files: &Vec<FileNode>)
    ensures
        final(html)@ == old(html)@ + kind_groups_html(files@, 6) + others_html(files@),
{
    let ghost start = html@;
    render_kind_groups(html, files);
    let ghost g1 = html@;
    let mut other: Vec<&FileNode> = Vec::new();
    let mut k: usize = 0;
    while k < files.len()
        invariant
            0 <= k <= files@.len(),
            other@.len() == files_without_kind(files@.take(k as int)).len(),
            forall|j: int| 0 <= j < other@.len() ==> *other@[j] == #[trigger] files_without_kind(files@.take(k as int))[j],
        decreases files@.len() - k,
    {
        assert(files@.take(k + 1).drop_last() =~= files@.take(k as int));
        let shown = match &files[k].kind {
            Some(kd) => is_known_kind(kd.as_str()),
            None => false,
        };
        if !shown {
            other.push(&files[k]);
        }
        k = k + 1;
    }
    assert(files@.take(files@.len() as int) =~= files@);
    if other.len() != 0 {
        push_str(html, "  <ul class=\"file-list\">\n");
        render_items(html, &other, Ghost(files_without_kind(files@)));
        push_str(html, "  </ul>\n");
    }
    assert(html@ =~= g1 + others_html(files@));
}

fn render_flat(html: &mut String, files: &Vec<FileNode>)
    ensures
        final(html)@ == old(html)@ + flat_html(files@),
{
    let ghost start = html@;
    push_str(html, "  <ul class=\"file-list\">\n");
    let mut refs: Vec<&FileNode> = Vec::new();
    let mut j: usize = 0;
    while j < files.len()
        invariant
            0 <= j <= files@.len(),
            refs@.len() == j,
            forall|t: int| 0 <= t < j ==> *refs@[t] == #[trigger] files@[t],
        decreases files@.len() - j,
    {
        refs.push(&files[j]);
        j = j + 1;
    }
    render_items(html, &refs, Ghost(files@));
    push_str(html, "  </ul>\n");
    assert(html@ =~= start + flat_html(files@));
}

fn render_files(html: &mut String, files: &Vec<FileNode>)
    ensures
        final(html)@ == old(html)@ + files_html(files@),
{
    let ghost start = html@;
    if files.len() == 0 {
        assert(html@ =~= start + files_html(files@));
        return;
    }
    let mut has_kinds = false;
    let mut i: usize = 0;
    while i < files.len()
        invariant
            0 <= i <= files@.len(),
            has_kinds == exists|j: int| 0 <= j < i && #[trigger] files@[j].kind is Some,
        decreases files@.len() - i,
    {
        if files[i].kind.is_some() {
            has_kinds = true;
        }
        i = i + 1;
    }
    if has_kinds {
        render_grouped(html, files);
    } else {
        render_flat(html, files);
    }
}

impl DirectoryNode {
    /// Render this directory node and its children to HTML.
    pub fn render_to_html(&self) -> (r: String)
        ensures
            r@ == dir_html(*self),
        decreases *self,
    {
        let mut html = String::new();
        push_str(&mut html, "<details class=\"directory-node\" open>\n");
        push_str(&mut html, "  <summary class=\"directory-name\">\n");
        push_str(&mut html, "    <span class=\"dir-label\">");
        push_str(&mut html, self.name.as_str());
        push_str(&mut html, "/</span>\n");
        push_str(&mut html, "    <span class=\"file-count\">(");
        let count = u64_to_text(self.files.len() as u64);
        push_str(&mut html, count.as_str());
        push_str(&mut html, " files)</span>\n");
        push_str(&mut html, "  </summary>\n");
        let ghost head = html@;
        let ghost hs = dirs_html(self.subdirs@);
        if self.subdirs.len() != 0 {
            push_str(&mut html, "  <div class=\"subdirs-container\">\n");
            let ghost before = html@;
            let mut i: usize = 0;
            while i < self.subdirs.len()
                invariant
                    0 <= i <= self.subdirs@.len(),
                    hs == dirs_html(self.subdirs@),
                    html@ == before + concat_all(hs.take(i as int)),
                decreases self.subdirs@.len() - i,
            {
                assert(hs.take(i + 1).drop_last() =~= hs.take(i as int));
                assert(decreases_to!(*self => self.subdirs@[i as int]));
                let sub = self.subdirs[i].render_to_html();
                push_str(&mut html, sub.as_str());
                i = i + 1;
            }
            assert(hs.take(hs.len() as int) =~= hs);
            push_str(&mut html, "  </div>\n");
        }
        let ghost mid = html@;
        render_files(&mut html, &self.files);
        push_str(&mut html, "</details>\n");
        assert(html@ =~= dir_html(*self));
        html
    }
}

/// A paper from ORCID.
#[derive(Debug, Clone)]
pub struct Paper {
    pub title: String,
    pub url: Option<String>,
    pub year: Option<u32>,
    pub authors: Vec<Author>,
    pub journal: Option<String>,
}

/// An author of a paper.
#[derive(Debug, Clone)]
pub struct Author {
    pub name: String,
    pub is_me: bool,
}

/// A backlink entry.
#[derive(Debug, Clone)]
pub struct BacklinkEntry {
    pub url: String,
    pub title: String,
}

/// A comment as it is rendered.
#[derive(Debug, Clone)]
pub struct CommentRender {
    pub id: String,
    pub status: String,
    pub resolved: bool,
    pub resolved_anchor: String,
    pub has_anchor: bool,
    pub author: String,
    pub has_author: bool,
    pub quote: String,
    pub has_quote: bool,
    pub body_html: String,
    pub color_bg: String,
    pub color_border: String,
    pub parent_id: String,
    pub has_parent: bool,
    pub thread_root: String,
    pub depth: u8,
    pub is_reply: bool,
}

/// The data of a post or note page.
#[derive(Debug, Clone)]
pub struct PostTemplate {
    pub title: String,
    pub description: String,
    pub date: Option<String>,
    pub updated: Option<String>,
    pub tags: Vec<String>,
    pub content: String,
    pub toc_html: Option<String>,
    pub site_title: String,
    pub site_author: String,
    pub year: i32,
    pub nav_home: String,
    pub nav_about: String,
    pub nav_github: String,
    pub has_about: bool,
    pub has_github: bool,
    pub css_path: String,
    pub backlinks: Vec<BacklinkEntry>,
    pub base_url: String,
    pub slug: String,
    pub source: Option<String>,
    pub comments: Vec<CommentRender>,
    pub has_unanchored_comments: bool,
}

/// The data of an API documentation page.
#[derive(Debug, Clone)]
pub struct ApiTemplate {
    pub title: String,
    pub description: String,
    pub content: String,
    pub site_title: String,
    pub site_author: String,
    pub year: i32,
    pub nav_home: String,
    pub nav_about: String,
    pub nav_github: String,
    pub has_about: bool,
    pub has_github: bool,
    pub css_path: String,
    pub backlinks: Vec<BacklinkEntry>,
    pub base_url: String,
    pub slug: String,
    pub source: Option<String>,
    pub doc_kind: String,
    pub signature: String,
    pub signature_html: String,
    pub source_url: Option<String>,
    pub source_file: Option<String>,
    pub source_lines: Option<String>,
    pub parent_item: Option<String>,
    pub parent_item_url: Option<String>,
}

/// The data of the index page.
#[derive(Debug, Clone)]
pub struct IndexTemplate {
    pub site_title: String,
    pub site_description: String,
    pub site_author: String,
    pub site_intro: Option<String>,
    pub year: i32,
    pub nav_home: String,
    pub nav_about: String,
    pub nav_github: String,
    pub has_about: bool,
    pub has_github: bool,
    pub items: Vec<NoteEntry>,
    pub papers: Vec<Paper>,
    pub directory_tree_html: Option<String>,
    pub base_url: String,
}

/// The data of the 404 page.
#[derive(Debug, Clone)]
pub struct NotFoundTemplate {
    pub site_title: String,
    pub site_author: String,
    pub year: i32,
    pub nav_home: String,
    pub nav_about: String,
    pub nav_github: String,
    pub has_about: bool,
    pub has_github: bool,
    pub css_path: String,
    pub base_url: String,
}

} // verus!
