//! The messages exchanged through dataspaces: decorations, diagnostics,
//! evaluation requests and results, and plugin registrations.

use vstd::prelude::*;

verus! {

/// A decoration of a byte range.
#[derive(Debug, Clone, PartialEq)]
pub struct Decoration {
    pub start: usize,
    pub end: usize,
    pub class: String,
    pub tooltip: Option<String>,
}

impl Decoration {
    /// A decoration of `start..end` with `class` and no tooltip.
    pub fn new(start: usize, end: usize, class: String) -> (r: Self)
        ensures
            r == (Decoration { start, end, class, tooltip: None }),
    {
        Decoration { start, end, class, tooltip: None }
    }

    /// This decoration with a tooltip.
    pub fn with_tooltip(self, tooltip: String) -> (r: Self)
        ensures
            r == (Decoration { tooltip: Some(tooltip), ..self }),
    {
        let mut s = self;
        s.tooltip = Some(tooltip);
        s
    }
}

/// Diagnostic severity as it is exchanged.
#[derive(Debug, Clone, Copy, PartialEq, Eq, Structural)]
pub enum DiagnosticSeverity {
    Error,
    Warning,
    Info,
    Hint,
}

/// A diagnostic about a byte range.
#[derive(Debug, Clone, PartialEq)]
pub struct DiagnosticAssertion {
    pub start: usize,
    pub end: usize,
    pub severity: DiagnosticSeverity,
    pub message: String,
    pub source: Option<String>,
}

impl DiagnosticAssertion {
    /// A diagnostic without a source.
    pub fn new(start: usize, end: usize, severity: DiagnosticSeverity, message: String) -> (r: Self)
        ensures
            r == (DiagnosticAssertion { start, end, severity, message, source: None }),
    {
        DiagnosticAssertion { start, end, severity, message, source: None }
    }

    /// This diagnostic with its source set.
    pub fn with_source(self, source: String) -> (r: Self)
        ensures
            r == (DiagnosticAssertion { source: Some(source), ..self }),
    {
        let mut s = self;
        s.source = Some(source);
        s
    }
}

/// A request to evaluate a cell with a kernel.
#[derive(Debug, Clone, PartialEq)]
pub struct EvalRequest {
    pub kernel_id: String,
    pub cell_id: String,
    pub doc_id: String,
    pub payload: EvalPayload,
    pub seq: u64,
}

/// What is to be evaluated: WASM bytes or source text.
#[derive(Debug, Clone, PartialEq)]
pub enum EvalPayload {
    Wasm(Vec<u8>),
    Source(String),
}

impl EvalRequest {
    /// A request to run WASM bytes.
    pub fn wasm(kernel_id: String, cell_id: String, doc_id: String, wasm: Vec<u8>, seq: u64) -> (r: Self)
        ensures
            r == (EvalRequest { kernel_id, cell_id, doc_id, payload: EvalPayload::Wasm(wasm), seq }),
    {
        EvalRequest { kernel_id, cell_id, doc_id, payload: EvalPayload::Wasm(wasm), seq }
    }

    /// A request to evaluate source text.
    pub fn source(kernel_id: String, cell_id: String, doc_id: String, source: String, seq: u64) -> (r: Self)
        ensures
            r == (EvalRequest { kernel_id, cell_id, doc_id, payload: EvalPayload::Source(source), seq }),
    {
        EvalRequest { kernel_id, cell_id, doc_id, payload: EvalPayload::Source(source), seq }
    }
}

/// The result of an evaluation.
#[derive(Debug, Clone, PartialEq)]
pub struct EvalResult {
    pub cell_id: String,
    pub doc_id: String,
    pub seq: u64,
    pub result: EvalResultKind,
}

/// How an evaluation ended.
#[derive(Debug, Clone, PartialEq)]
pub enum EvalResultKind {
    Success(Vec<u8>),
    Error(String),
    Timeout,
}

impl EvalResult {
    /// A successful evaluation with its output.
    pub fn success(cell_id: String, doc_id: String, seq: u64, output: Vec<u8>) -> (r: Self)
        ensures
            r == (EvalResult { cell_id, doc_id, seq, result: EvalResultKind::Success(output) }),
    {
        EvalResult { cell_id, doc_id, seq, result: EvalResultKind::Success(output) }
    }

    /// A failed evaluation with its message.
    pub fn error(cell_id: String, doc_id: String, seq: u64, message: String) -> (r: Self)
        ensures
            r == (EvalResult { cell_id, doc_id, seq, result: EvalResultKind::Error(message) }),
    {
        EvalResult { cell_id, doc_id, seq, result: EvalResultKind::Error(message) }
    }

    /// An evaluation that ran out of time.
    pub fn timeout(cell_id: String, doc_id: String, seq: u64) -> (r: Self)
        ensures
            r == (EvalResult { cell_id, doc_id, seq, result: EvalResultKind::Timeout }),
    {
        EvalResult { cell_id, doc_id, seq, result: EvalResultKind::Timeout }
    }
}

/// A kernel's registration as a plugin.
#[derive(Debug, Clone, PartialEq)]
pub struct PluginRegistered {
    pub kernel_id: String,
    pub name: String,
    pub language: String,
    pub capabilities: Vec<String>,
}

impl PluginRegistered {
    /// A registration without capabilities.
    pub fn new(kernel_id: String, name: String, language: String) -> (r: Self)
        ensures
            r.kernel_id == kernel_id,
            r.name == name,
            r.language == language,
            r.capabilities@.len() == 0,
    {
        PluginRegistered { kernel_id, name, language, capabilities: Vec::new() }
    }

    /// This registration with its capabilities replaced.
    pub fn with_capabilities(self, caps: Vec<String>) -> (r: Self)
        ensures
            r == (PluginRegistered { capabilities: caps, ..self }),
    {
        let mut s = self;
        s.capabilities = caps;
        s
    }
}

} // verus!
