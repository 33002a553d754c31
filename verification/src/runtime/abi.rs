//! The interface between live cells and their host: source positions,
//! severities, HTTP exchanges, capabilities, limits and errors.

use vstd::prelude::*;
use crate::util::text::{push_str, to_owned_string, u64_to_text, decimal};

verus! {

/// Source position (line, column).
#[derive(Debug, Clone, Copy, PartialEq, Eq, Hash, Structural)]
pub struct Position {
    pub line: u32,
    pub column: u32,
}

impl Position {
    /// The position at `line`, `column`.
    pub fn new(line: u32, column: u32) -> (r: Self)
        ensures
            r.line == line,
            r.column == column,
    {
        Position { line, column }
    }
}

/// Source span, from a start line and column to an end line and column.
#[derive(Debug, Clone, Copy, PartialEq, Eq, Hash, Structural)]
pub struct Span {
    pub start_line: u32,
    pub start_col: u32,
    pub end_line: u32,
    pub end_col: u32,
}

impl Span {
    /// The span with these bounds.
    pub fn new(start_line: u32, start_col: u32, end_line: u32, end_col: u32) -> (r: Self)
        ensures
            r == (Span { start_line, start_col, end_line, end_col }),
    {
        Span { start_line, start_col, end_line, end_col }
    }

    /// The span from `start` to `end`.
    pub fn from_positions(start: Position, end: Position) -> (r: Self)
        ensures
            r == (Span { start_line: start.line, start_col: start.column, end_line: end.line, end_col: end.column }),
    {
        Span { start_line: start.line, start_col: start.column, end_line: end.line, end_col: end.column }
    }
}

/// Diagnostic severity.
#[derive(Debug, Clone, Copy, PartialEq, Eq, Hash, Structural)]
pub enum Severity {
    Error,
    Warning,
    Info,
    Hint,
}

/// An HTTP request a cell asks the host to make.
#[derive(Debug, Clone)]
pub struct HttpRequest {
    pub method: String,
    pub url: String,
    pub headers: Vec<(String, String)>,
    pub body: Option<Vec<u8>>,
}

/// The host's answer to an HTTP request.
#[derive(Debug, Clone)]
pub struct HttpResponse {
    pub status: u16,
    pub headers: Vec<(String, String)>,
    pub body: Vec<u8>,
}

/// A capability a cell may be granted.
#[derive(Debug, Clone, Copy, PartialEq, Eq, Hash, Structural)]
pub enum Capability {
    Read,
    Write,
    Network,
    Ui,
    Diagnostics,
    Dataspace,
}

/// The set of capabilities granted to a cell.
#[derive(Debug, Clone, Copy, PartialEq, Eq, Structural)]
pub struct Capabilities {
    pub read: bool,
    pub write: bool,
    pub network: bool,
    pub ui: bool,
    pub diagnostics: bool,
    pub dataspace: bool,
}

/// Whether capability `cap` is granted in `c`.
pub open spec fn grants(c: Capabilities, cap: Capability) -> bool {
    match cap {
        Capability::Read => c.read,
        Capability::Write => c.write,
        Capability::Network => c.network,
        Capability::Ui => c.ui,
        Capability::Diagnostics => c.diagnostics,
        Capability::Dataspace => c.dataspace,
    }
}

impl Default for Capabilities {
    /// No capability granted.
    fn default() -> (r: Self)
        ensures
            forall|cap: Capability| !grants(r, cap),
    {
        Capabilities { read: false, write: false, network: false, ui: false, diagnostics: false, dataspace: false }
    }
}

impl Capabilities {
    /// No capability granted.
    pub fn new() -> (r: Self)
        ensures
            forall|cap: Capability| !grants(r, cap),
    {
        Capabilities::default()
    }

    /// These capabilities and Read.
    pub fn with_read(self) -> (r: Self)
        ensures
            r == (Capabilities { read: true, ..self }),
    {
        let mut s = self;
        s.read = true;
        s
    }

    /// These capabilities and Write.
    pub fn with_write(self) -> (r: Self)
        ensures
            r == (Capabilities { write: true, ..self }),
    {
        let mut s = self;
        s.write = true;
        s
    }

    /// These capabilities and Network.
    pub fn with_network(self) -> (r: Self)
        ensures
            r == (Capabilities { network: true, ..self }),
    {
        let mut s = self;
        s.network = true;
        s
    }

    /// These capabilities and Ui.
    pub fn with_ui(self) -> (r: Self)
        ensures
            r == (Capabilities { ui: true, ..self }),
    {
        let mut s = self;
        s.ui = true;
        s
    }

    /// These capabilities and Diagnostics.
    pub fn with_diagnostics(self) -> (r: Self)
        ensures
            r == (Capabilities { diagnostics: true, ..self }),
    {
        let mut s = self;
        s.diagnostics = true;
        s
    }

    /// These capabilities and Dataspace.
    pub fn with_dataspace(self) -> (r: Self)
        ensures
            r == (Capabilities { dataspace: true, ..self }),
    {
        let mut s = self;
        s.dataspace = true;
        s
    }

    /// Whether `cap` is granted.
    pub fn has(&self, cap: Capability) -> (r: bool)
        ensures
            r == grants(*self, cap),
    {
        match cap {
            Capability::Read => self.read,
            Capability::Write => self.write,
            Capability::Network => self.network,
            Capability::Ui => self.ui,
            Capability::Diagnostics => self.diagnostics,
            Capability::Dataspace => self.dataspace,
        }
    }
}

/// Granting a capability grants exactly that one more: it is then held,
/// and every other capability is held exactly when it was held before.
pub proof fn lemma_grant_one(c: Capabilities, cap: Capability, other: Capability)
    ensures
        grants(grant(c, cap), cap),
        other != cap ==> grants(grant(c, cap), other) == grants(c, other),
{
}

/// `c` with `cap` granted.
pub open spec fn grant(c: Capabilities, cap: Capability) -> Capabilities {
    match cap {
        Capability::Read => Capabilities { read: true, ..c },
        Capability::Write => Capabilities { write: true, ..c },
        Capability::Network => Capabilities { network: true, ..c },
        Capability::Ui => Capabilities { ui: true, ..c },
        Capability::Diagnostics => Capabilities { diagnostics: true, ..c },
        Capability::Dataspace => Capabilities { dataspace: true, ..c },
    }
}

/// Resource limits of the runtime.
#[derive(Debug, Clone, Copy, PartialEq, Eq, Structural)]
pub struct RuntimeLimits {
    pub max_memory: usize,
    pub max_execution_time_ms: u64,
    pub max_signals: usize,
    pub max_widgets: usize,
}

impl Default for RuntimeLimits {
    /// 16 MiB of memory, 5 seconds, 1000 signals, 100 widgets.
    fn default() -> (r: Self)
        ensures
            r.max_memory == 16 * 1024 * 1024,
            r.max_execution_time_ms == 5000,
            r.max_signals == 1000,
            r.max_widgets == 100,
    {
        RuntimeLimits { max_memory: 16 * 1024 * 1024, max_execution_time_ms: 5000, max_signals: 1000, max_widgets: 100 }
    }
}

/// Runtime errors.
#[derive(Debug)]
pub enum RuntimeError {
    SignalNotFound(u64),
    WidgetNotFound(u64),
    CapabilityDenied(Capability),
    MemoryLimitExceeded { current: usize, limit: usize },
    ExecutionTimeout(u64),
    TooManySignals(usize),
    TooManyWidgets(usize),
    SerializationError(String),
    WasmError(String),
    HttpError(String),
    DataspaceError(String),
}

/// The name of a capability as `Debug` prints it.
pub open spec fn capability_name(c: Capability) -> Seq<char> {
    match c {
        Capability::Read => "Read"@,
        Capability::Write => "Write"@,
        Capability::Network => "Network"@,
        Capability::Ui => "Ui"@,
        Capability::Diagnostics => "Diagnostics"@,
        Capability::Dataspace => "Dataspace"@,
    }
}

/// The message of a runtime error.
pub open spec fn runtime_error_text(e: RuntimeError) -> Seq<char> {
    match e {
        RuntimeError::SignalNotFound(id) => "Signal not found: "@ + decimal(id as nat),
        RuntimeError::WidgetNotFound(id) => "Widget not found: "@ + decimal(id as nat),
        RuntimeError::CapabilityDenied(c) => "Capability denied: "@ + capability_name(c),
        RuntimeError::MemoryLimitExceeded { current, limit } =>
            "Memory limit exceeded: "@ + decimal(current as nat) + " > "@ + decimal(limit as nat),
        RuntimeError::ExecutionTimeout(ms) => "Execution timeout: "@ + decimal(ms as nat) + "ms"@,
        RuntimeError::TooManySignals(n) => "Too many signals: "@ + decimal(n as nat),
        RuntimeError::TooManyWidgets(n) => "Too many widgets: "@ + decimal(n as nat),
        RuntimeError::SerializationError(m) => "Serialization error: "@ + m@,
        RuntimeError::WasmError(m) => "WASM error: "@ + m@,
        RuntimeError::HttpError(m) => "HTTP error: "@ + m@,
        RuntimeError::DataspaceError(m) => "Dataspace error: "@ + m@,
    }
}

fn capability_label(c: Capability) -> (r: &'static str)
    ensures
        r@ == capability_name(c),
{
    match c {
        Capability::Read => "Read",
        Capability::Write => "Write",
        Capability::Network => "Network",
        Capability::Ui => "Ui",
        Capability::Diagnostics => "Diagnostics",
        Capability::Dataspace => "Dataspace",
    }
}

fn labelled_number(label: &str, n: u64) -> (r: String)
    ensures
        r@ == label@ + decimal(n as nat),
{
    let mut s = to_owned_string(label);
    let d = u64_to_text(n);
    push_str(&mut s, d.as_str());
    s
}

impl RuntimeError {
    /// The error's message, as it is displayed.
    pub fn message(&self) -> (r: String)
        ensures
            r@ == runtime_error_text(*self),
    {
        match self {
            RuntimeError::SignalNotFound(id) => labelled_number("Signal not found: ", *id),
            RuntimeError::WidgetNotFound(id) => labelled_number("Widget not found: ", *id),
            RuntimeError::CapabilityDenied(c) => {
                let mut s = to_owned_string("Capability denied: ");
                push_str(&mut s, capability_label(*c));
                s
            },
            RuntimeError::MemoryLimitExceeded { current, limit } => {
                let mut s = labelled_number("Memory limit exceeded: ", *current as u64);
                push_str(&mut s, " > ");
                let d = u64_to_text(*limit as u64);
                push_str(&mut s, d.as_str());
                s
            },
            RuntimeError::ExecutionTimeout(ms) => {
                let mut s = labelled_number("Execution timeout: ", *ms);
                push_str(&mut s, "ms");
                s
            },
            RuntimeError::TooManySignals(n) => labelled_number("Too many signals: ", *n as u64),
            RuntimeError::TooManyWidgets(n) => labelled_number("Too many widgets: ", *n as u64),
            RuntimeError::SerializationError(m) => {
                let mut s = to_owned_string("Serialization error: ");
                push_str(&mut s, m.as_str());
                s
            },
            RuntimeError::WasmError(m) => {
                let mut s = to_owned_string("WASM error: ");
                push_str(&mut s, m.as_str());
                s
            },
            RuntimeError::HttpError(m) => {
                let mut s = to_owned_string("HTTP error: ");
                push_str(&mut s, m.as_str());
                s
            },
            RuntimeError::DataspaceError(m) => {
                let mut s = to_owned_string("Dataspace error: ");
                push_str(&mut s, m.as_str());
                s
            },
        }
    }
}

} // verus!
