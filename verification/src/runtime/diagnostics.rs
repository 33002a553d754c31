//! Diagnostics and decorations emitted by live cells, and the collector
//! that keeps them in the order they were emitted.

use vstd::prelude::*;
use crate::runtime::abi::{Severity, Span};
use crate::util::strmap::StrMap;

verus! {

/// A diagnostic message.
#[derive(Debug)]
pub struct Diagnostic {
    pub severity: Severity,
    pub span: Span,
    pub message: String,
    pub source: Option<String>,
}

impl Diagnostic {
    /// A diagnostic without a source.
    pub fn new(severity: Severity, span: Span, message: String) -> (r: Self)
        ensures
            r == (Diagnostic { severity, span, message, source: None }),
    {
        Diagnostic { severity, span, message, source: None }
    }

    /// This diagnostic with its source set.
    pub fn with_source(self, source: String) -> (r: Self)
        ensures
            r == (Diagnostic { source: Some(source), ..self }),
    {
        let mut s = self;
        s.source = Some(source);
        s
    }

    /// An error diagnostic.
    pub fn error(span: Span, message: String) -> (r: Self)
        ensures
            r == (Diagnostic { severity: Severity::Error, span, message, source: None }),
    {
        Self::new(Severity::Error, span, message)
    }

    /// A warning diagnostic.
    pub fn warning(span: Span, message: String) -> (r: Self)
        ensures
            r == (Diagnostic { severity: Severity::Warning, span, message, source: None }),
    {
        Self::new(Severity::Warning, span, message)
    }

    /// An info diagnostic.
    pub fn info(span: Span, message: String) -> (r: Self)
        ensures
            r == (Diagnostic { severity: Severity::Info, span, message, source: None }),
    {
        Self::new(Severity::Info, span, message)
    }

    /// A hint diagnostic.
    pub fn hint(span: Span, message: String) -> (r: Self)
        ensures
            r == (Diagnostic { severity: Severity::Hint, span, message, source: None }),
    {
        Self::new(Severity::Hint, span, message)
    }
}

/// A decoration (visual annotation) of a span.
#[derive(Debug)]
pub struct Decoration {
    pub span: Span,
    pub class: String,
    pub attributes: StrMap<String>,
}

impl Decoration {
    /// A decoration of `span` with `class` and no attributes.
    pub fn new(span: Span, class: String) -> (r: Self)
        ensures
            r.span == span,
            r.class == class,
            r.attributes.size() == 0,
            forall|k: Seq<char>| !r.attributes.has(k),
    {
        Decoration { span, class, attributes: StrMap::new() }
    }

    /// This decoration with attribute `key` set to `value`.
    pub fn with_attribute(self, key: String, value: String) -> (r: Self)
        ensures
            r.span == self.span,
            r.class == self.class,
            r.attributes.has(key@),
            r.attributes.value_at(key@) == value,
            forall|k: Seq<char>| k != key@ ==> (r.attributes.has(k) == self.attributes.has(k)),
            forall|k: Seq<char>| k != key@ && self.attributes.has(k) ==> r.attributes.value_at(k) == self.attributes.value_at(k),
    {
        let mut s = self;
        s.attributes.insert(key, value);
        s
    }

    /// This decoration with its attributes replaced.
    pub fn with_attributes(self, attributes: StrMap<String>) -> (r: Self)
        ensures
            r == (Decoration { attributes, ..self }),
    {
        let mut s = self;
        s.attributes = attributes;
        s
    }
}

/// The diagnostics of `s` with severity `sev`, in order.
pub open spec fn of_severity(s: Seq<Diagnostic>, sev: Severity) -> Seq<Diagnostic>
    decreases s.len(),
{
    if s.len() == 0 {
        Seq::empty()
    } else if s.last().severity == sev {
        of_severity(s.drop_last(), sev).push(s.last())
    } else {
        of_severity(s.drop_last(), sev)
    }
}

/// Collector for diagnostics and decorations.
#[derive(Debug)]
pub struct DiagnosticCollector {
    diagnostics: Vec<Diagnostic>,
    decorations: Vec<Decoration>,
}

impl DiagnosticCollector {
    /// The diagnostics emitted, in order.
    pub closed spec fn diagnostic_seq(&self) -> Seq<Diagnostic> {
        self.diagnostics@
    }

    /// The decorations added, in order.
    pub closed spec fn decoration_seq(&self) -> Seq<Decoration> {
        self.decorations@
    }

    /// An empty collector.
    pub fn new() -> (r: Self)
        ensures
            r.diagnostic_seq().len() == 0,
            r.decoration_seq().len() == 0,
    {
        DiagnosticCollector { diagnostics: Vec::new(), decorations: Vec::new() }
    }

    /// Emit a diagnostic.
    pub fn emit_diagnostic(&mut self, diagnostic: Diagnostic)
        ensures
            final(self).diagnostic_seq() == old(self).diagnostic_seq().push(diagnostic),
            final(self).decoration_seq() == old(self).decoration_seq(),
    {
        self.diagnostics.push(diagnostic);
    }

    /// Emit a diagnostic with severity, span and message.
    pub fn emit(&mut self, severity: Severity, span: Span, message: String)
        ensures
            final(self).diagnostic_seq() == old(self).diagnostic_seq().push(Diagnostic { severity, span, message, source: None }),
            final(self).decoration_seq() == old(self).decoration_seq(),
    {
        self.emit_diagnostic(Diagnostic::new(severity, span, message));
    }

    /// Emit an error.
    pub fn error(&mut self, span: Span, message: String)
        ensures
            final(self).diagnostic_seq() == old(self).diagnostic_seq().push(Diagnostic { severity: Severity::Error, span, message, source: None }),
            final(self).decoration_seq() == old(self).decoration_seq(),
    {
        self.emit(Severity::Error, span, message);
    }

    /// Emit a warning.
    pub fn warning(&mut self, span: Span, message: String)
        ensures
            final(self).diagnostic_seq() == old(self).diagnostic_seq().push(Diagnostic { severity: Severity::Warning, span, message, source: None }),
            final(self).decoration_seq() == old(self).decoration_seq(),
    {
        self.emit(Severity::Warning, span, message);
    }

    /// Emit an info message.
    pub fn info(&mut self, span: Span, message: String)
        ensures
            final(self).diagnostic_seq() == old(self).diagnostic_seq().push(Diagnostic { severity: Severity::Info, span, message, source: None }),
            final(self).decoration_seq() == old(self).decoration_seq(),
    {
        self.emit(Severity::Info, span, message);
    }

    /// Emit a hint.
    pub fn hint(&mut self, span: Span, message: String)
        ensures
            final(self).diagnostic_seq() == old(self).diagnostic_seq().push(Diagnostic { severity: Severity::Hint, span, message, source: None }),
            final(self).decoration_seq() == old(self).decoration_seq(),
    {
        self.emit(Severity::Hint, span, message);
    }

    /// Add a decoration.
    pub fn add_decoration(&mut self, decoration: Decoration)
        ensures
            final(self).decoration_seq() == old(self).decoration_seq().push(decoration),
            final(self).diagnostic_seq() == old(self).diagnostic_seq(),
    {
        self.decorations.push(decoration);
    }

    /// Add a decoration of `span` with `class` and no attributes.
    pub fn decorate(&mut self, span: Span, class: String)
        ensures
            final(self).decoration_seq().len() == old(self).decoration_seq().len() + 1,
            final(self).decoration_seq().drop_last() == old(self).decoration_seq(),
            final(self).decoration_seq().last().span == span,
            final(self).decoration_seq().last().class == class,
            final(self).decoration_seq().last().attributes.size() == 0,
            final(self).diagnostic_seq() == old(self).diagnostic_seq(),
    {
        self.add_decoration(Decoration::new(span, class));
        assert(self.decorations@.drop_last() =~= old(self).decorations@);
    }

    /// All diagnostics, in order.
    pub fn diagnostics(&self) -> (r: &[Diagnostic])
        ensures
            r@ == self.diagnostic_seq(),
    {
        self.diagnostics.as_slice()
    }

    /// All decorations, in order.
    pub fn decorations(&self) -> (r: &[Decoration])
        ensures
            r@ == self.decoration_seq(),
    {
        self.decorations.as_slice()
    }

    /// The diagnostics with severity `severity`, in order.
    pub fn diagnostics_by_severity(&self, severity: Severity) -> (r: Vec<&Diagnostic>)
        ensures
            r@.len() == of_severity(self.diagnostic_seq(), severity).len(),
            forall|i: int| 0 <= i < r@.len() ==> *r@[i] == #[trigger] of_severity(self.diagnostic_seq(), severity)[i],
    {
        let mut out: Vec<&Diagnostic> = Vec::new();
        let mut i: usize = 0;
        while i < self.diagnostics.len()
            invariant
                0 <= i <= self.diagnostics@.len(),
                out@.len() == of_severity(self.diagnostics@.take(i as int), severity).len(),
                forall|j: int| 0 <= j < out@.len() ==> *out@[j] == #[trigger] of_severity(self.diagnostics@.take(i as int), severity)[j],
            decreases self.diagnostics@.len() - i,
        {
            assert(self.diagnostics@.take(i + 1).drop_last() =~= self.diagnostics@.take(i as int));
            if self.diagnostics[i].severity == severity {
                out.push(&self.diagnostics[i]);
            }
            i = i + 1;
        }
        assert(self.diagnostics@.take(self.diagnostics@.len() as int) =~= self.diagnostics@);
        out
    }

    /// The errors, in order.
    pub fn errors(&self) -> (r: Vec<&Diagnostic>)
        ensures
            r@.len() == of_severity(self.diagnostic_seq(), Severity::Error).len(),
            forall|i: int| 0 <= i < r@.len() ==> *r@[i] == #[trigger] of_severity(self.diagnostic_seq(), Severity::Error)[i],
    {
        self.diagnostics_by_severity(Severity::Error)
    }

    /// The warnings, in order.
    pub fn warnings(&self) -> (r: Vec<&Diagnostic>)
        ensures
            r@.len() == of_severity(self.diagnostic_seq(), Severity::Warning).len(),
            forall|i: int| 0 <= i < r@.len() ==> *r@[i] == #[trigger] of_severity(self.diagnostic_seq(), Severity::Warning)[i],
    {
        self.diagnostics_by_severity(Severity::Warning)
    }

    /// Whether some diagnostic is an error.
    pub fn has_errors(&self) -> (r: bool)
        ensures
            r == exists|i: int| 0 <= i < self.diagnostic_seq().len() && #[trigger] self.diagnostic_seq()[i].severity == Severity::Error,
    {
        let mut i: usize = 0;
        while i < self.diagnostics.len()
            invariant
                0 <= i <= self.diagnostics@.len(),
                forall|j: int| 0 <= j < i ==> #[trigger] self.diagnostics@[j].severity != Severity::Error,
            decreases self.diagnostics@.len() - i,
        {
            if self.diagnostics[i].severity == Severity::Error {
                return true;
            }
            i = i + 1;
        }
        false
    }

    /// Whether any diagnostic was emitted.
    pub fn has_diagnostics(&self) -> (r: bool)
        ensures
            r == (self.diagnostic_seq().len() > 0),
    {
        self.diagnostics.len() != 0
    }

    /// Whether any decoration was added.
    pub fn has_decorations(&self) -> (r: bool)
        ensures
            r == (self.decoration_seq().len() > 0),
    {
        self.decorations.len() != 0
    }

    /// Take all diagnostics, leaving none.
    pub fn take_diagnostics(&mut self) -> (r: Vec<Diagnostic>)
        ensures
            r@ == old(self).diagnostic_seq(),
            final(self).diagnostic_seq().len() == 0,
            final(self).decoration_seq() == old(self).decoration_seq(),
    {
        let mut taken: Vec<Diagnostic> = Vec::new();
        std::mem::swap(&mut taken, &mut self.diagnostics);
        taken
    }

    /// Take all decorations, leaving none.
    pub fn take_decorations(&mut self) -> (r: Vec<Decoration>)
        ensures
            r@ == old(self).decoration_seq(),
            final(self).decoration_seq().len() == 0,
            final(self).diagnostic_seq() == old(self).diagnostic_seq(),
    {
        let mut taken: Vec<Decoration> = Vec::new();
        std::mem::swap(&mut taken, &mut self.decorations);
        taken
    }

    /// Remove all diagnostics and decorations.
    pub fn clear(&mut self)
        ensures
            final(self).diagnostic_seq().len() == 0,
            final(self).decoration_seq().len() == 0,
    {
        self.diagnostics.clear();
        self.decorations.clear();
    }

    /// The number of diagnostics.
    pub fn diagnostic_count(&self) -> (r: usize)
        ensures
            r == self.diagnostic_seq().len(),
    {
        self.diagnostics.len()
    }

    /// The number of decorations.
    pub fn decoration_count(&self) -> (r: usize)
        ensures
            r == self.decoration_seq().len(),
    {
        self.decorations.len()
    }
}

impl Default for DiagnosticCollector {
    fn default() -> (r: Self)
        ensures
            r.diagnostic_seq().len() == 0,
            r.decoration_seq().len() == 0,
    {
        DiagnosticCollector::new()
    }
}

/// There are errors exactly when the errors listed by severity are not
/// empty.
pub proof fn lemma_has_errors_iff_errors(s: Seq<Diagnostic>)
    ensures
        (of_severity(s, Severity::Error).len() > 0) == exists|i: int| 0 <= i < s.len() && #[trigger] s[i].severity == Severity::Error,
    decreases s.len(),
{
    if s.len() > 0 {
        lemma_has_errors_iff_errors(s.drop_last());
        if exists|i: int| 0 <= i < s.drop_last().len() && #[trigger] s.drop_last()[i].severity == Severity::Error {
            let i = choose|i: int| 0 <= i < s.drop_last().len() && #[trigger] s.drop_last()[i].severity == Severity::Error;
            assert(s[i].severity == Severity::Error);
        }
        if exists|i: int| 0 <= i < s.len() && #[trigger] s[i].severity == Severity::Error {
            let i = choose|i: int| 0 <= i < s.len() && #[trigger] s[i].severity == Severity::Error;
            if i < s.len() - 1 {
                assert(s.drop_last()[i].severity == Severity::Error);
            }
        }
    }
}

} // verus!
