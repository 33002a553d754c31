//! Document reflection: the view a running program has of the document it
//! belongs to. A reflection holds no document yet, so its outline and
//! references are empty, nothing is found, and no metadata is set.

use vstd::prelude::*;
use vstd::string::StringSliceAdditionalSpecFns;
use crate::mrl::checker::{builtin_env, checked, expr_checked, fails_with, names_added, stage_depth, CheckState, TypeChecker};
use crate::mrl::content::{Content, Inline};
use crate::mrl::enforest::{enforest, enforested, parse_failure, OpTables, OpView};
use crate::mrl::error::{MrlError, Span};
use crate::mrl::expander::{
    content_value, expand_fails, expanded, fresh_expand_state, ExpandState, ExpandValue, Expander, ValueModel,
};
use crate::mrl::lexer::{lexed, lexer_failure, tokenize};
use crate::mrl::repr::{value_debug, value_debug_text};
use crate::mrl::parser::{p_parse, parse_with_symbols, SymbolTable};
use crate::mrl::shrubbery::{ShrubModel, Shrubbery};
use crate::mrl::{fresh_parse, lemma_token_count};

verus! {

/// The operator tables that enforesting starts with.
pub open spec fn base_tables() -> OpTables {
    OpTables {
        prefix: Map::<u64, OpView>::empty(),
        infix: Map::<u64, OpView>::empty(),
        names: Map::<u64, Seq<char>>::empty(),
    }
}

/// The content a staged block produces from its value: the content itself,
/// or a text holding the value's debug text.
pub open spec fn content_of_value(c: Content, v: ValueModel) -> bool {
    match v {
        ValueModel::Content(cv) => content_value(c) == cv,
        _ => c matches Content::Inline(Inline::Text(t)) && t@ == value_debug(v),
    }
}

/// What expanding a checked block gives.
pub open spec fn expansion_outcome(r: Result<Content, MrlError>, est: ExpandState, s: ShrubModel) -> bool {
    match expanded(est, s, u64::MAX as nat).0 {
        Err(f) => r matches Err(e) && expand_fails(e, f),
        Ok(v) => r matches Ok(c) && content_of_value(c, v),
    }
}

/// What executing a staged block with full expression checking gives:
/// the enforesting error, the type error, or the expansion's outcome.
pub open spec fn staged_outcome(names: Map<u64, Seq<char>>, cst: CheckState, est: ExpandState, s: ShrubModel, r: Result<Content, MrlError>) -> bool {
    match enforested(base_tables(), s) {
        Err(f) => r matches Err(e) && parse_failure(e, f),
        Ok(m) => match expr_checked(names, cst, m).0 {
            Err(f) => r matches Err(e) && fails_with(e, f),
            Ok(_) => expansion_outcome(r, est, s),
        },
    }
}

/// The stage counter cannot overflow while checking `s`.
pub open spec fn stage_fits(stage: usize, s: ShrubModel) -> bool {
    enforested(base_tables(), s) matches Ok(m) ==> stage + stage_depth(m) <= usize::MAX
}

/// The stage counter cannot overflow while checking the code of `source`.
pub open spec fn source_stage_fits(stage: usize, source: Seq<u8>) -> bool {
    match lexed(source) {
        Ok(ts) => match p_parse(ts, fresh_parse()) {
            Ok((m, _)) => stage_fits(stage, m),
            Err(_) => true,
        },
        Err(_) => true,
    }
}

/// What executing a whole document gives: the lexer's or parser's error,
/// or the outcome of the staged block with the parsed symbols registered.
pub open spec fn document_run(names: Map<u64, Seq<char>>, cst: CheckState, est: ExpandState, source: Seq<u8>, r: Result<Content, MrlError>) -> bool {
    match lexed(source) {
        Err(sp) => r matches Err(e) && lexer_failure(e, source, sp),
        Ok(ts) => match p_parse(ts, fresh_parse()) {
            Err(f) => r matches Err(e) && parse_failure(e, f),
            Ok((m, ps)) => exists|t: SymbolTable|
                #![trigger t.table()]
                t.table() == ps.syms && staged_outcome(names_added(names, t.entries()), cst, est, m, r),
        },
    }
}

/// Expand-time interpreter: checks staged blocks and expands them into
/// content.
pub struct Interpreter {
    expander: Expander,
    checker: TypeChecker,
}

impl Interpreter {
    /// The checker's symbol names.
    pub closed spec fn names(&self) -> Map<u64, Seq<char>> {
        self.checker.names()
    }

    /// The checker's bindings and stage.
    pub closed spec fn check_state(&self) -> CheckState {
        self.checker.state()
    }

    /// The expander's state.
    pub closed spec fn expand_state(&self) -> ExpandState {
        self.expander.model()
    }

    /// The expander is consistent.
    pub closed spec fn wf(&self) -> bool {
        self.expander.wf()
    }

    /// A fresh interpreter: a new expander and a new checker.
    pub fn new() -> (r: Self)
        ensures
            r.wf(),
            r.check_state() == (CheckState { env: builtin_env(), stage: 0 }),
            r.expand_state() == fresh_expand_state(),
            r.names() == Map::<u64, Seq<char>>::empty(),
    {
        Interpreter { expander: Expander::new(), checker: TypeChecker::new() }
    }

    /// Register the symbols of a symbol table with the checker.
    pub fn register_symbols(&mut self, symbols: &SymbolTable)
        requires
            old(self).wf(),
        ensures
            final(self).wf(),
            final(self).names() == names_added(old(self).names(), symbols.entries()),
            final(self).check_state() == old(self).check_state(),
            final(self).expand_state() == old(self).expand_state(),
    {
        self.checker.register_symbols(symbols.symbols());
    }

    /// Execute a staged block: check the shrubbery, then expand it; a value
    /// that is not content becomes the text of its debug form.
    pub fn execute_staged(&mut self, shrub: &Shrubbery) -> (r: Result<Content, MrlError>)
        requires
            old(self).wf(),
        ensures
            final(self).wf(),
            match checked(old(self).check_state().env, old(self).names(), shrub@) {
                Err(f) => r matches Err(e) && fails_with(e, f),
                Ok(_) => expansion_outcome(r, old(self).expand_state(), shrub@),
            },
    {
        match self.checker.check(shrub) {
            Ok(_) => {},
            Err(e) => return Err(e),
        }
        let value = match self.expander.expand(shrub) {
            Ok(v) => v,
            Err(e) => return Err(e),
        };
        Ok(value_content(value))
    }

    /// Execute a staged block with full expression checking: enforest it,
    /// check the expression, then expand the shrubbery.
    pub fn execute_staged_checked(&mut self, shrub: &Shrubbery) -> (r: Result<Content, MrlError>)
        requires
            old(self).wf(),
            stage_fits(old(self).check_state().stage, shrub@),
        ensures
            final(self).wf(),
            staged_outcome(old(self).names(), old(self).check_state(), old(self).expand_state(), shrub@, r),
    {
        let expr = match enforest(shrub) {
            Ok(x) => x,
            Err(e) => return Err(e),
        };
        match self.checker.check_expr(&expr) {
            Ok(_) => {},
            Err(e) => return Err(e),
        }
        let value = match self.expander.expand(shrub) {
            Ok(v) => v,
            Err(e) => return Err(e),
        };
        Ok(value_content(value))
    }

    /// Execute a whole document: tokenize and parse it, register its
    /// symbols, and run it as a staged block.
    pub fn execute_document(&mut self, source: &str) -> (r: Result<Content, MrlError>)
        requires
            old(self).wf(),
            source.spec_bytes().len() + 3 < u64::MAX,
            source_stage_fits(old(self).check_state().stage, source.spec_bytes()),
        ensures
            final(self).wf(),
            document_run(old(self).names(), old(self).check_state(), old(self).expand_state(), source.spec_bytes(), r),
    {
        let tokens = match tokenize(source) {
            Ok(t) => t,
            Err(e) => return Err(e),
        };
        proof {
            lemma_token_count(source.spec_bytes(), 0);
        }
        let (shrub, symbols) = match parse_with_symbols(tokens.as_slice()) {
            Ok(p) => p,
            Err(e) => return Err(e),
        };
        self.register_symbols(&symbols);
        let r = self.execute_staged_checked(&shrub);
        assert(symbols.table() == symbols.table());
        r
    }

    /// The reflection view of the document.
    pub fn reflection(&self) -> (r: DocumentReflection) {
        DocumentReflection::new()
    }
}

/// The content a value stands for: itself when it is content, else the text
/// of its debug form.
fn value_content(value: ExpandValue) -> (c: Content)
    ensures
        content_of_value(c, value@),
{
    match value {
        ExpandValue::Content(c) => c,
        other => {
            let t = value_debug_text(&other);
            Content::text(t.as_str())
        },
    }
}

/// Document reflection API: methods for introspecting document structure.
#[derive(Debug)]
pub struct DocumentReflection {}

/// An entry in the document outline.
#[derive(Debug, Clone)]
pub struct OutlineEntry {
    pub level: u8,
    pub title: String,
    pub id: Option<String>,
}

/// A cross-reference entry.
#[derive(Debug, Clone)]
pub struct ReferenceEntry {
    pub target: String,
    pub source_span: Span,
}

/// Section context for reflection.
#[derive(Debug, Clone)]
pub struct SectionContext {
    pub section_id: Option<String>,
    pub heading: Option<String>,
    pub level: u8,
}

impl Default for SectionContext {
    /// Outside any section: no id, no heading, level 0.
    fn default() -> (r: Self)
        ensures
            r.section_id is None,
            r.heading is None,
            r.level == 0,
    {
        SectionContext { section_id: None, heading: None, level: 0 }
    }
}

impl DocumentReflection {
    /// A reflection of no document.
    pub fn new() -> (r: Self) {
        DocumentReflection {}
    }

    /// The document outline (headings): none without a document.
    pub fn outline(&self) -> (r: Vec<OutlineEntry>)
        ensures
            r@.len() == 0,
    {
        Vec::new()
    }

    /// All cross-references in the document: none without a document.
    pub fn refs(&self) -> (r: Vec<ReferenceEntry>)
        ensures
            r@.len() == 0,
    {
        Vec::new()
    }

    /// The elements matching a selector: none without a document.
    pub fn find(&self, selector: &str) -> (r: Vec<Content>)
        ensures
            r@.len() == 0,
    {
        Vec::new()
    }

    /// Document metadata under `key`: none is set.
    pub fn meta(&self, key: &str) -> (r: Option<String>)
        ensures
            r is None,
    {
        None
    }

    /// The current section context: outside any section.
    pub fn here(&self) -> (r: SectionContext)
        ensures
            r.section_id is None,
            r.heading is None,
            r.level == 0,
    {
        SectionContext::default()
    }
}

impl Default for DocumentReflection {
    fn default() -> (r: Self) {
        DocumentReflection::new()
    }
}

} // verus!
