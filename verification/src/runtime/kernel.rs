//! Kernels: what answers an evaluation request addressed to a kernel.
//! Each kernel looks at the requests addressed to it and decides the
//! result; publishing it into the document's view space is the host's part.

use vstd::prelude::*;
use crate::runtime::schemas::{EvalPayload, EvalRequest, EvalResult, EvalResultKind};
use crate::util::text::{str_eq, push_str, to_owned_string};

verus! {

/// A kernel that evaluates source text, implemented by its users.
pub trait SourceKernel: Send + Sync {
    /// Evaluate source code and return output bytes or an error message.
    fn evaluate(&self, source: &str) -> Result<Vec<u8>, String>;

    /// The kernel's identifier.
    fn kernel_id(&self) -> &str;

    /// The language this kernel evaluates.
    fn language(&self) -> &str;
}

/// A source kernel as a participant in the dataspace.
pub struct SourceKernelEntity<K: SourceKernel> {
    inner: K,
}

impl<K: SourceKernel> SourceKernelEntity<K> {
    /// The kernel inside.
    pub closed spec fn kernel(&self) -> K {
        self.inner
    }

    /// An entity around `kernel`.
    pub fn new(kernel: K) -> (r: Self)
        ensures
            r.kernel() == kernel,
    {
        SourceKernelEntity { inner: kernel }
    }

    /// The answer to `request`: none unless it is addressed to this
    /// kernel; source text is evaluated by the kernel, WASM is refused.
    pub fn handle_request(&self, request: &EvalRequest) -> (r: Option<EvalResult>)
        ensures
            r matches Some(res) ==> res.cell_id == request.cell_id && res.doc_id == request.doc_id && res.seq == request.seq
                && (request.payload is Wasm ==> res.result is Error)
                && (request.payload is Source ==> !(res.result is Timeout)),
    {
        let id = self.inner.kernel_id();
        if !str_eq(request.kernel_id.as_str(), id) {
            return None;
        }
        let result = match &request.payload {
            EvalPayload::Source(source) => match self.inner.evaluate(source.as_str()) {
                Ok(output) => EvalResult::success(request.cell_id.clone(), request.doc_id.clone(), request.seq, output),
                Err(e) => EvalResult::error(request.cell_id.clone(), request.doc_id.clone(), request.seq, e),
            },
            EvalPayload::Wasm(_) => {
                let mut m = to_owned_string("Source kernel '");
                push_str(&mut m, id);
                push_str(&mut m, "' cannot execute WASM or MRL directly");
                EvalResult::error(request.cell_id.clone(), request.doc_id.clone(), request.seq, m)
            },
        };
        Some(result)
    }
}

/// The MRL kernel: evaluates MRL source.
#[derive(Debug)]
pub struct MrlKernel {
    kernel_id: String,
}

impl MrlKernel {
    /// The kernel's identifier.
    pub closed spec fn id(&self) -> Seq<char> {
        self.kernel_id@
    }

    /// The MRL kernel under the identifier `mrl`.
    pub fn new() -> (r: Self)
        ensures
            r.id() == "mrl"@,
    {
        MrlKernel { kernel_id: to_owned_string("mrl") }
    }

    /// The MRL kernel under another identifier.
    pub fn with_id(kernel_id: &str) -> (r: Self)
        ensures
            r.id() == kernel_id@,
    {
        MrlKernel { kernel_id: to_owned_string(kernel_id) }
    }

    /// The kernel's identifier.
    pub fn kernel_id(&self) -> (r: &str)
        ensures
            r@ == self.id(),
    {
        self.kernel_id.as_str()
    }
}

impl Default for MrlKernel {
    fn default() -> (r: Self)
        ensures
            r.id() == "mrl"@,
    {
        MrlKernel::new()
    }
}

/// The bytes an echo kernel answers a payload with: WASM bytes as they
/// are, source text as its UTF-8 bytes.
pub open spec fn echo_bytes(p: EvalPayload) -> Seq<u8> {
    match p {
        EvalPayload::Wasm(data) => data@,
        EvalPayload::Source(text) => vstd::utf8::encode_utf8(text@),
    }
}

/// A kernel that answers every request addressed to it with its payload:
/// WASM bytes as they are, source text as its UTF-8 bytes.
#[derive(Debug)]
pub struct EchoKernel {
    kernel_id: String,
}

impl EchoKernel {
    /// The kernel's identifier.
    pub closed spec fn id(&self) -> Seq<char> {
        self.kernel_id@
    }

    /// An echo kernel under `kernel_id`.
    pub fn new(kernel_id: &str) -> (r: Self)
        ensures
            r.id() == kernel_id@,
    {
        EchoKernel { kernel_id: to_owned_string(kernel_id) }
    }

    /// The answer to `request`: none unless it is addressed to this kernel,
    /// else success with the payload's bytes.
    pub fn handle_request(&self, request: &EvalRequest) -> (r: Option<EvalResult>)
        ensures
            request.kernel_id@ != self.id() ==> r is None,
            request.kernel_id@ == self.id() ==> (r matches Some(res)
                && res.cell_id == request.cell_id && res.doc_id == request.doc_id && res.seq == request.seq
                && (res.result matches EvalResultKind::Success(out)
                && out@ == echo_bytes(request.payload))),
    {
        if !str_eq(request.kernel_id.as_str(), self.kernel_id.as_str()) {
            return None;
        }
        let output: Vec<u8> = match &request.payload {
            EvalPayload::Wasm(data) => {
                let mut out: Vec<u8> = Vec::new();
                let mut i: usize = 0;
                while i < data.len()
                    invariant
                        0 <= i <= data@.len(),
                        out@ == data@.take(i as int),
                    decreases data@.len() - i,
                {
                    out.push(data[i]);
                    assert(out@ =~= data@.take(i + 1));
                    i = i + 1;
                }
                assert(data@.take(data@.len() as int) =~= data@);
                out
            },
            EvalPayload::Source(text) => text.as_str().as_bytes_vec(),
        };
        Some(EvalResult::success(request.cell_id.clone(), request.doc_id.clone(), request.seq, output))
    }
}

} // verus!
