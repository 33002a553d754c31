//! Code generation for live cells: the JSON evaluation request a cell
//! publishes, the WASM module that publishes it, and an emitter that adds
//! linear memory and data segments to a module.

use vstd::prelude::*;
use base64::Engine;
use vstd::string::StringSliceAdditionalSpecFns;
use crate::runtime::emitter::{
    count_bytes, encode_i32, encode_u32, module_bytes, module_sections, section, section_if, sleb, uleb, wasm_header,
    lemma_with_new_type, EmitterModel, ExportKind, FuncType, Instruction, ValType, WasmEmitter,
};
use crate::util::copy::push_bytes;
use crate::util::text::{decimal, push_str, to_owned_string, u64_to_text};

verus! {

/// Configuration for a live cell.
#[derive(Debug, Clone)]
pub struct LiveCellConfig {
    /// Cell identifier
    pub cell_id: String,
    /// Document identifier
    pub doc_id: String,
    /// Kernel to use for evaluation
    pub kernel_id: String,
    /// Sequence number for ordering
    pub seq: u64,
}

/// Unsigned LEB128 encoding of a 32-bit value.
pub fn encode_u32_leb(n: u32) -> (r: Vec<u8>)
    ensures
        r@ == uleb(n as nat),
{
    encode_u32(n)
}

/// Signed LEB128 encoding of a 32-bit value.
pub fn encode_i32_leb(n: i32) -> (r: Vec<u8>)
    ensures
        r@ == sleb(n as int),
{
    encode_i32(n)
}

// ===== Outside calls =====

/// The character of a six-bit group in the standard base64 alphabet:
/// `A`-`Z`, `a`-`z`, `0`-`9`, `+` and `/`.
pub open spec fn base64_char(n: nat) -> char {
    if n < 26 {
        (65 + n) as char
    } else if n < 52 {
        (97 + (n - 26)) as char
    } else if n < 62 {
        (48 + (n - 52)) as char
    } else if n == 62 {
        '+'
    } else {
        '/'
    }
}

/// The standard base64 encoding (RFC 4648 alphabet, with `=` padding) of
/// a byte sequence: each group of three bytes becomes four characters of
/// six bits each; a last group of one or two bytes is padded with `=`.
pub open spec fn base64_standard(bytes: Seq<u8>) -> Seq<char>
    decreases bytes.len(),
{
    if bytes.len() == 0 {
        Seq::empty()
    } else if bytes.len() == 1 {
        let b0 = bytes[0] as nat;
        seq![base64_char(b0 / 4), base64_char((b0 % 4) * 16), '=', '=']
    } else if bytes.len() == 2 {
        let b0 = bytes[0] as nat;
        let b1 = bytes[1] as nat;
        seq![base64_char(b0 / 4), base64_char((b0 % 4) * 16 + b1 / 16), base64_char((b1 % 16) * 4), '=']
    } else {
        let b0 = bytes[0] as nat;
        let b1 = bytes[1] as nat;
        let b2 = bytes[2] as nat;
        seq![base64_char(b0 / 4), base64_char((b0 % 4) * 16 + b1 / 16), base64_char((b1 % 16) * 4 + b2 / 64), base64_char(b2 % 64)]
            + base64_standard(bytes.subrange(3, bytes.len() as int))
    }
}

/// Encodes bytes with `base64::Engine::encode` on the `STANDARD` engine.
/// Claimed: the text is the standard base64 encoding of the bytes, a
/// function of the bytes alone. The engine panics when the encoded length
/// overflows `usize`, which no slice of at most `isize::MAX` bytes reaches.
#[verifier::external_body]
fn base64_encode(bytes: &[u8]) -> (r: String)
    requires
        bytes@.len() <= isize::MAX,
    ensures
        r@ == base64_standard(bytes@),
{
    base64::engine::general_purpose::STANDARD.encode(bytes)
}

/// Decodes UTF-8 with `String::from_utf8_lossy`, taking the text out of
/// the `Cow` it returns. Claimed: on valid UTF-8 the text is the decoded
/// characters (nothing is replaced).
#[verifier::external_body]
fn utf8_lossy(bytes: &[u8]) -> (r: String)
    requires
        vstd::utf8::valid_utf8(bytes@),
    ensures
        r@ == vstd::utf8::decode_utf8(bytes@),
{
    String::from_utf8_lossy(bytes).into_owned()
}

/// The error type of `serde_json`.
#[verifier::external_type_specification]
#[verifier::external_body]
pub struct ExJsonError(serde_json::Error);

/// The lower-case hexadecimal digit of a number below 16.
pub open spec fn hex_digit(n: nat) -> char {
    if n < 10 { (n + 48) as char } else { (n + 87) as char }
}

/// How a JSON string writes one character: `"` and `\` and the control
/// characters with a short form get a backslash escape, the other
/// characters below U+0020 become `\u00` and two hex digits, and all other
/// characters stand as they are.
pub open spec fn json_char(c: char) -> Seq<char> {
    if c == '"' {
        seq!['\\', '"']
    } else if c == '\\' {
        seq!['\\', '\\']
    } else if c == '\u{8}' {
        seq!['\\', 'b']
    } else if c == '\u{c}' {
        seq!['\\', 'f']
    } else if c == '\n' {
        seq!['\\', 'n']
    } else if c == '\r' {
        seq!['\\', 'r']
    } else if c == '\t' {
        seq!['\\', 't']
    } else if (c as nat) < 32 {
        seq!['\\', 'u', '0', '0', hex_digit((c as nat) / 16), hex_digit((c as nat) % 16)]
    } else {
        seq![c]
    }
}

/// The characters of a text, each written as a JSON string writes it.
pub open spec fn json_escaped(s: Seq<char>) -> Seq<char>
    decreases s.len(),
{
    if s.len() == 0 {
        Seq::empty()
    } else {
        json_escaped(s.drop_last()) + json_char(s.last())
    }
}

/// A text as a JSON string literal: quoted, with its characters escaped.
pub open spec fn json_quoted(s: Seq<char>) -> Seq<char> {
    seq!['"'] + json_escaped(s) + seq!['"']
}

/// Serializes a string slice with `serde_json::to_string`.
/// Claimed: the result is `Ok` with the slice as a JSON string literal
/// (the serializer writes into a vector, which cannot fail, and a string
/// has no map keys).
#[verifier::external_body]
fn json_string(s: &str) -> (r: Result<String, serde_json::Error>)
    ensures
        r is Ok,
        r->Ok_0@ == json_quoted(s@),
{
    serde_json::to_string(s)
}

// ===== The evaluation request =====

/// The JSON evaluation request of a cell: kernel, cell and document
/// identifiers as they are, the payload's type and data, and the sequence
/// number in decimal.
pub open spec fn request_json_text(
    kernel_id: Seq<char>,
    cell_id: Seq<char>,
    doc_id: Seq<char>,
    payload_type: Seq<char>,
    payload_data: Seq<char>,
    seq: u64,
) -> Seq<char> {
    "{\"kernel_id\":\""@ + kernel_id + "\",\"cell_id\":\""@ + cell_id + "\",\"doc_id\":\""@ + doc_id
        + "\",\"payload\":{\"type\":\""@ + payload_type + "\",\"data\":"@ + payload_data + "},\"seq\":"@
        + decimal(seq as nat) + "}"@
}

/// The JSON evaluation request for `config`, with a payload of type
/// `payload_type` whose JSON value is `payload_data`.
pub fn request_json(config: &LiveCellConfig, payload_type: &str, payload_data: &str) -> (r: String)
    ensures
        r@ == request_json_text(config.kernel_id@, config.cell_id@, config.doc_id@, payload_type@, payload_data@, config.seq),
{
    let mut s = to_owned_string("{\"kernel_id\":\"");
    push_str(&mut s, config.kernel_id.as_str());
    push_str(&mut s, "\",\"cell_id\":\"");
    push_str(&mut s, config.cell_id.as_str());
    push_str(&mut s, "\",\"doc_id\":\"");
    push_str(&mut s, config.doc_id.as_str());
    push_str(&mut s, "\",\"payload\":{\"type\":\"");
    push_str(&mut s, payload_type);
    push_str(&mut s, "\",\"data\":");
    push_str(&mut s, payload_data);
    push_str(&mut s, "},\"seq\":");
    let digits = u64_to_text(config.seq);
    push_str(&mut s, digits.as_str());
    push_str(&mut s, "}");
    s
}

/// The JSON value of a payload: source text as a JSON string, WASM bytes
/// as a quoted base64 string.
pub open spec fn payload_json(is_source: bool, payload: Seq<u8>) -> Seq<char> {
    if is_source {
        json_quoted(vstd::utf8::decode_utf8(payload))
    } else {
        seq!['"'] + base64_standard(payload) + seq!['"']
    }
}

/// The name of a payload's type in the request.
pub open spec fn payload_type_name(is_source: bool) -> Seq<char> {
    if is_source { "source"@ } else { "wasm"@ }
}

/// Generator of the WASM module of a live cell.
pub struct LiveCellCodeGen {
    config: LiveCellConfig,
    /// Payload to be evaluated (source text as UTF-8, or WASM bytes)
    payload: Vec<u8>,
    /// Whether the payload is source text
    is_source: bool,
}

impl LiveCellCodeGen {
    /// The cell's configuration.
    pub closed spec fn config(&self) -> LiveCellConfig {
        self.config
    }

    /// The payload's bytes.
    pub closed spec fn payload(&self) -> Seq<u8> {
        self.payload@
    }

    /// Whether the payload is source text.
    pub closed spec fn source_payload(&self) -> bool {
        self.is_source
    }

    /// A source payload is valid UTF-8, and the payload has at most
    /// `isize::MAX` bytes.
    pub open spec fn wf(&self) -> bool {
        &&& self.payload().len() <= isize::MAX
        &&& self.source_payload() ==> vstd::utf8::valid_utf8(self.payload())
    }

    /// A generator for a cell whose payload is source text.
    pub fn with_source(config: LiveCellConfig, source: &str) -> (r: Self)
        requires
            source.spec_bytes().len() <= isize::MAX,
        ensures
            r.wf(),
            r.config() == config,
            r.payload() == source.spec_bytes(),
            r.source_payload(),
    {
        let mut payload: Vec<u8> = Vec::new();
        push_bytes(&mut payload, source.as_bytes());
        proof {
            vstd::utf8::encode_utf8_valid_utf8(source@);
            assert(payload@ =~= source.spec_bytes());
        }
        LiveCellCodeGen { config, payload, is_source: true }
    }

    /// A generator for a cell whose payload is WASM bytes.
    pub fn with_wasm(config: LiveCellConfig, wasm: Vec<u8>) -> (r: Self)
        requires
            wasm@.len() <= isize::MAX,
        ensures
            r.wf(),
            r.config() == config,
            r.payload() == wasm@,
            !r.source_payload(),
    {
        LiveCellCodeGen { config, payload: wasm, is_source: false }
    }

    /// The JSON evaluation request this cell publishes.
    pub fn build_request_json(&self) -> (r: String)
        requires
            self.wf(),
        ensures
            r@ == request_json_text(
                self.config().kernel_id@,
                self.config().cell_id@,
                self.config().doc_id@,
                payload_type_name(self.source_payload()),
                payload_json(self.source_payload(), self.payload()),
                self.config().seq,
            ),
    {
        let payload_type = if self.is_source { "source" } else { "wasm" };
        proof {
            reveal_strlit("source");
            reveal_strlit("wasm");
        }
        let payload_data = if self.is_source {
            let text = utf8_lossy(self.payload.as_slice());
            match json_string(text.as_str()) {
                Ok(t) => t,
                Err(_) => String::new(),
            }
        } else {
            let mut quoted = to_owned_string("\"");
            let encoded = base64_encode(self.payload.as_slice());
            push_str(&mut quoted, encoded.as_str());
            push_str(&mut quoted, "\"");
            proof {
                reveal_strlit("\"");
                assert(quoted@ =~= seq!['"'] + base64_standard(self.payload@) + seq!['"']);
            }
            quoted
        };
        request_json(&self.config, payload_type, payload_data.as_str())
    }
}


/// The function types of a live cell module: `publish`, `subscribe`,
/// `show`, and the `run` function's `[] -> []`.
pub open spec fn live_cell_types() -> Seq<(Seq<ValType>, Seq<ValType>)> {
    seq![
        (seq![ValType::I32, ValType::I32, ValType::I32, ValType::I32], seq![ValType::I64]),
        (seq![ValType::I32, ValType::I32, ValType::I64], seq![ValType::I64]),
        (seq![ValType::I32, ValType::I32], Seq::<ValType>::empty()),
        (Seq::<ValType>::empty(), Seq::<ValType>::empty()),
    ]
}

/// The `run` function of a live cell module: publish the request (the
/// 11-byte pattern `EvalRequest` at 0, the JSON after it), then subscribe
/// to the cell's results (the result pattern after the JSON), with
/// callback 1.
pub open spec fn live_cell_run_body(json_len: nat, result_len: nat) -> Seq<Instruction> {
    seq![
        Instruction::I32Const(0),
        Instruction::I32Const(11),
        Instruction::I32Const(11),
        Instruction::I32Const(json_len as i32),
        Instruction::Call(0),
        Instruction::I64Const(0),
        Instruction::I64Const(0),
        Instruction::I32Const((11 + json_len) as i32),
        Instruction::I32Const(result_len as i32),
        Instruction::I64Const(1),
        Instruction::Call(1),
        Instruction::I64Const(0),
        Instruction::I64Const(0),
        Instruction::End,
    ]
}

/// The module of a live cell whose JSON request has `json_len` bytes and
/// whose result pattern has `result_len` bytes: it imports `publish` and
/// `subscribe` from the dataspace and `show` from the UI, and exports `run`.
pub open spec fn live_cell_model(json_len: nat, result_len: nat) -> EmitterModel {
    EmitterModel {
        types: live_cell_types(),
        imports: seq![
            ("monowiki:runtime/dataspace"@, "publish"@, 0u32),
            ("monowiki:runtime/dataspace"@, "subscribe"@, 1u32),
            ("monowiki:runtime/ui"@, "show"@, 2u32),
        ],
        functions: seq![3u32],
        exports: seq![("run"@, ExportKind::Func, 3u32)],
        bodies: seq![(Seq::<ValType>::empty(), live_cell_run_body(json_len, result_len))],
    }
}

/// The pattern under which the results for a cell are published.
pub open spec fn result_pattern(cell_id: Seq<char>, doc_id: Seq<char>) -> Seq<char> {
    "EvalResult."@ + cell_id + "."@ + doc_id
}

/// The module that shows a message of `msg_len` bytes: it imports `show`
/// from the UI and exports `run`, which shows the bytes at 0.
pub open spec fn show_model(msg_len: nat) -> EmitterModel {
    EmitterModel {
        types: seq![
            (seq![ValType::I32, ValType::I32], Seq::<ValType>::empty()),
            (Seq::<ValType>::empty(), Seq::<ValType>::empty()),
        ],
        imports: seq![("monowiki:runtime/ui"@, "show"@, 0u32)],
        functions: seq![1u32],
        exports: seq![("run"@, ExportKind::Func, 1u32)],
        bodies: seq![(Seq::<ValType>::empty(), seq![
            Instruction::I32Const(0),
            Instruction::I32Const(msg_len as i32),
            Instruction::Call(0),
            Instruction::End,
        ])],
    }
}

/// The byte length of a string's text, as a `usize`.
fn text_len(s: &String) -> (r: usize)
    ensures
        r == vstd::utf8::encode_utf8(s@).len() as usize,
{
    s.as_str().len()
}

impl LiveCellCodeGen {
    /// The WASM module of the cell: it imports the dataspace and UI
    /// functions and exports `run`, which publishes the cell's request and
    /// subscribes to its results.
    pub fn generate(&self) -> (r: Vec<u8>)
        requires
            self.wf(),
        ensures
            r@ == module_bytes(live_cell_model(
                (vstd::utf8::encode_utf8(request_json_text(
                    self.config().kernel_id@,
                    self.config().cell_id@,
                    self.config().doc_id@,
                    payload_type_name(self.source_payload()),
                    payload_json(self.source_payload(), self.payload()),
                    self.config().seq,
                )).len() as usize) as nat,
                (vstd::utf8::encode_utf8(result_pattern(self.config().cell_id@, self.config().doc_id@)).len() as usize) as nat,
            )),
    {
        let ghost t0 = (seq![ValType::I32, ValType::I32, ValType::I32, ValType::I32], seq![ValType::I64]);
        let ghost t1 = (seq![ValType::I32, ValType::I32, ValType::I64], seq![ValType::I64]);
        let ghost t2 = (seq![ValType::I32, ValType::I32], Seq::<ValType>::empty());
        let ghost t3 = (Seq::<ValType>::empty(), Seq::<ValType>::empty());
        let mut emitter = WasmEmitter::new();
        let publish_ty = FuncType { params: vec![ValType::I32, ValType::I32, ValType::I32, ValType::I32], results: vec![ValType::I64] };
        assert(publish_ty@.0 =~= t0.0 && publish_ty@.1 =~= t0.1);
        let publish_idx = emitter.add_import("monowiki:runtime/dataspace", "publish", publish_ty);
        proof {
            lemma_with_new_type(Seq::empty(), t0);
            assert(emitter@.types =~= seq![t0]);
            assert(emitter@.imports.last().2 == 0);
        }
        let subscribe_ty = FuncType { params: vec![ValType::I32, ValType::I32, ValType::I64], results: vec![ValType::I64] };
        assert(subscribe_ty@.0 =~= t1.0 && subscribe_ty@.1 =~= t1.1);
        let subscribe_idx = emitter.add_import("monowiki:runtime/dataspace", "subscribe", subscribe_ty);
        proof {
            assert(seq![t0][0].0.len() != t1.0.len());
            lemma_with_new_type(seq![t0], t1);
            assert(emitter@.types =~= seq![t0, t1]);
            assert(emitter@.imports.last().2 == 1);
        }
        let show_ty = FuncType { params: vec![ValType::I32, ValType::I32], results: vec![] };
        assert(show_ty@.0 =~= t2.0 && show_ty@.1 =~= t2.1);
        let _show_idx = emitter.add_import("monowiki:runtime/ui", "show", show_ty);
        proof {
            assert(seq![t0, t1][0].0.len() != t2.0.len());
            assert(seq![t0, t1][1].0.len() != t2.0.len());
            lemma_with_new_type(seq![t0, t1], t2);
            assert(emitter@.types =~= seq![t0, t1, t2]);
            assert(emitter@.imports.last().2 == 2);
            assert(emitter@.imports =~= seq![
                ("monowiki:runtime/dataspace"@, "publish"@, 0u32),
                ("monowiki:runtime/dataspace"@, "subscribe"@, 1u32),
                ("monowiki:runtime/ui"@, "show"@, 2u32),
            ]);
        }

        let request_json = self.build_request_json();
        let pattern = "EvalRequest";
        proof {
            reveal_strlit("EvalRequest");
            vstd::utf8::is_ascii_chars_encode_utf8(pattern@);
        }
        let pattern_len = pattern.len();
        let json_len = text_len(&request_json);
        let mut result_pattern_text = to_owned_string("EvalResult.");
        push_str(&mut result_pattern_text, self.config.cell_id.as_str());
        push_str(&mut result_pattern_text, ".");
        push_str(&mut result_pattern_text, self.config.doc_id.as_str());
        let result_pattern_len = text_len(&result_pattern_text);

        let p32 = pattern_len as i32;
        let j32 = json_len as i32;
        let end32 = (json_len as u32).wrapping_add(11) as i32;
        proof {
            assert(end32 == ((11 + json_len) as i32)) by (bit_vector)
                requires
                    end32 == (if (json_len as u32) + 11 > 0xFFFF_FFFFu32 { (json_len as u32) + 11 - 0x1_0000_0000 } else { (json_len as u32) + 11 }) as i32;
        }
        let run_body = vec![
            Instruction::I32Const(0),
            Instruction::I32Const(p32),
            Instruction::I32Const(p32),
            Instruction::I32Const(j32),
            Instruction::Call(publish_idx),
            Instruction::I64Const(0),
            Instruction::I64Const(0),
            Instruction::I32Const(end32),
            Instruction::I32Const(result_pattern_len as i32),
            Instruction::I64Const(1),
            Instruction::Call(subscribe_idx),
            Instruction::I64Const(0),
            Instruction::I64Const(0),
            Instruction::End,
        ];
        proof {
            assert(seq![t0, t1, t2][0].0.len() != t3.0.len());
            assert(seq![t0, t1, t2][1].0.len() != t3.0.len());
            assert(seq![t0, t1, t2][2].0.len() != t3.0.len());
            lemma_with_new_type(seq![t0, t1, t2], t3);
        }
        let no_types: [ValType; 0] = [];
        assert(no_types@ =~= Seq::<ValType>::empty());
        let run_idx = emitter.add_function(&no_types, &no_types, vec![], run_body);
        proof {
            assert(emitter@.types =~= seq![t0, t1, t2, t3]);
            assert(emitter@.functions.last() == 3);
        }
        emitter.add_export("run", run_idx);
        proof {
            reveal_strlit("monowiki:runtime/dataspace");
            reveal_strlit("monowiki:runtime/ui");
            reveal_strlit("publish");
            reveal_strlit("subscribe");
            reveal_strlit("show");
            reveal_strlit("run");
            reveal_strlit("EvalResult.");
            reveal_strlit(".");
            let m = emitter@;
            let ghost model = live_cell_model(json_len as nat, result_pattern_len as nat);
            assert(m.types =~= live_cell_types());
            assert(m.imports =~= model.imports);
            assert(m.functions =~= model.functions);
            assert(m.exports =~= model.exports);
            assert(m.bodies =~= model.bodies);
        }
        emitter.emit()
    }

    /// A module that shows `message`: it imports `show` and exports `run`,
    /// which shows the message's bytes at the start of memory.
    pub fn generate_show_module(message: &str) -> (r: Vec<u8>)
        ensures
            r@ == module_bytes(show_model((message.spec_bytes().len() as usize) as nat)),
    {
        let ghost t0 = (seq![ValType::I32, ValType::I32], Seq::<ValType>::empty());
        let ghost t1 = (Seq::<ValType>::empty(), Seq::<ValType>::empty());
        let mut emitter = WasmEmitter::new();
        let show_ty = FuncType { params: vec![ValType::I32, ValType::I32], results: vec![] };
        assert(show_ty@.0 =~= t0.0 && show_ty@.1 =~= t0.1);
        let show_idx = emitter.add_import("monowiki:runtime/ui", "show", show_ty);
        proof {
            lemma_with_new_type(Seq::empty(), t0);
            assert(emitter@.types =~= seq![t0]);
            assert(emitter@.imports.last().2 == 0);
            assert(seq![t0][0].0.len() != t1.0.len());
            lemma_with_new_type(seq![t0], t1);
        }
        let msg_len = message.len();
        let run_body = vec![
            Instruction::I32Const(0),
            Instruction::I32Const(msg_len as i32),
            Instruction::Call(show_idx),
            Instruction::End,
        ];
        let no_types: [ValType; 0] = [];
        assert(no_types@ =~= Seq::<ValType>::empty());
        let run_idx = emitter.add_function(&no_types, &no_types, vec![], run_body);
        proof {
            assert(emitter@.types =~= seq![t0, t1]);
            assert(emitter@.functions.last() == 1);
        }
        emitter.add_export("run", run_idx);
        proof {
            reveal_strlit("monowiki:runtime/ui");
            reveal_strlit("show");
            reveal_strlit("run");
            let m = emitter@;
            let ghost model = show_model(msg_len as nat);
            assert(m.types =~= model.types);
            assert(m.imports =~= model.imports);
            assert(m.functions =~= model.functions);
            assert(m.exports =~= model.exports);
            assert(m.bodies =~= model.bodies);
        }
        emitter.emit()
    }
}


/// A segment of data that initializes memory at an offset.
struct DataSegment {
    offset: u32,
    data: Vec<u8>,
}

impl View for DataSegment {
    type V = (u32, Seq<u8>);

    /// Offset and bytes.
    closed spec fn view(&self) -> (u32, Seq<u8>) {
        (self.offset, self.data@)
    }
}

/// The views of a sequence of data segments.
spec fn segment_views(s: Seq<DataSegment>) -> Seq<(u32, Seq<u8>)> {
    Seq::new(s.len(), |i: int| s[i]@)
}

/// What an emitter with memory holds: the module's other parts, the
/// number of memory pages, the data segments and the next free offset.
pub struct MemoryModel {
    pub inner: EmitterModel,
    pub pages: u32,
    pub segments: Seq<(u32, Seq<u8>)>,
    pub next_offset: u32,
}

/// The content of a memory section for one memory without maximum.
pub open spec fn memory_content(pages: u32) -> Seq<u8> {
    seq![1u8, 0u8] + uleb(pages as nat)
}

/// The bytes of an active data segment of memory 0: flags, the offset as
/// an `i32.const` expression, then the counted bytes.
pub open spec fn segment_bytes(seg: (u32, Seq<u8>)) -> Seq<u8> {
    seq![0x00u8, 0x41u8] + sleb((seg.0 as i32) as int) + seq![0x0Bu8] + count_bytes(seg.1.len()) + seg.1
}

/// The bytes of a sequence of data segments, one after another.
pub open spec fn segments_bytes(s: Seq<(u32, Seq<u8>)>) -> Seq<u8>
    decreases s.len(),
{
    if s.len() == 0 {
        Seq::empty()
    } else {
        segments_bytes(s.drop_last()) + segment_bytes(s.last())
    }
}

/// The bytes of a module with memory: the header, the memory section
/// (id 5), the other sections, and the data section (id 11) when there is
/// data.
pub open spec fn memory_module_bytes(m: MemoryModel) -> Seq<u8> {
    wasm_header() + section(5, memory_content(m.pages)) + module_sections(m.inner)
        + section_if(m.segments.len() > 0, 0x0B, count_bytes(m.segments.len()) + segments_bytes(m.segments))
}

/// A WASM emitter that also gives the module linear memory and data
/// segments that initialize it.
pub struct WasmEmitterWithMemory {
    inner: WasmEmitter,
    /// Memory pages (1 page = 64KB)
    memory_pages: u32,
    /// Data segments to initialize memory
    data_segments: Vec<DataSegment>,
    /// Current data offset
    data_offset: u32,
}

impl View for WasmEmitterWithMemory {
    type V = MemoryModel;

    /// The module's parts, pages, segments and next offset.
    closed spec fn view(&self) -> MemoryModel {
        MemoryModel {
            inner: self.inner@,
            pages: self.memory_pages,
            segments: segment_views(self.data_segments@),
            next_offset: self.data_offset,
        }
    }
}

/// The content of the memory section.
fn encode_memory_section(pages: u32) -> (r: Vec<u8>)
    ensures
        r@ == memory_content(pages),
{
    let mut section: Vec<u8> = Vec::new();
    section.push(1);
    section.push(0x00);
    let mut leb = encode_u32_leb(pages);
    section.append(&mut leb);
    assert(section@ =~= memory_content(pages));
    section
}

/// The content of the data section.
fn encode_data_section(segments: &Vec<DataSegment>) -> (r: Vec<u8>)
    ensures
        r@ == count_bytes(segments@.len()) + segments_bytes(segment_views(segments@)),
{
    let ghost sv = segment_views(segments@);
    let mut section = encode_u32_leb(segments.len() as u32);
    let ghost head = section@;
    let mut i: usize = 0;
    while i < segments.len()
        invariant
            0 <= i <= segments@.len(),
            sv == segment_views(segments@),
            section@ == head + segments_bytes(sv.take(i as int)),
        decreases segments@.len() - i,
    {
        let seg = &segments[i];
        section.push(0x00);
        section.push(0x41);
        let mut off = encode_i32_leb(seg.offset as i32);
        section.append(&mut off);
        section.push(0x0B);
        let mut len = encode_u32_leb(seg.data.len() as u32);
        section.append(&mut len);
        push_bytes(&mut section, seg.data.as_slice());
        assert(sv.take(i + 1).drop_last() =~= sv.take(i as int));
        assert(section@ =~= head + segments_bytes(sv.take(i + 1)));
        i = i + 1;
    }
    assert(sv.take(segments@.len() as int) =~= sv);
    section
}

/// Appends the bytes of `v` from `from` up to `to`.
fn push_range(out: &mut Vec<u8>, v: &Vec<u8>, from: usize, to: usize)
    requires
        from <= to <= v@.len(),
    ensures
        final(out)@ == old(out)@ + v@.subrange(from as int, to as int),
{
    let ghost start = out@;
    let mut i: usize = from;
    while i < to
        invariant
            from <= i <= to,
            to <= v@.len(),
            out@ == start + v@.subrange(from as int, i as int),
        decreases to - i,
    {
        out.push(v[i]);
        assert(out@ =~= start + v@.subrange(from as int, i + 1));
        i = i + 1;
    }
}

impl WasmEmitterWithMemory {
    /// The emitter's invariant: that of the inner emitter.
    pub closed spec fn wf(&self) -> bool {
        self.inner.wf()
    }

    /// An emitter with one page of memory, no data and nothing else.
    pub fn new() -> (r: Self)
        ensures
            r.wf(),
            r@.inner.types.len() == 0,
            r@.inner.imports.len() == 0,
            r@.inner.functions.len() == 0,
            r@.inner.exports.len() == 0,
            r@.inner.bodies.len() == 0,
            r@.pages == 1,
            r@.segments.len() == 0,
            r@.next_offset == 0,
    {
        let r = WasmEmitterWithMemory { inner: WasmEmitter::new(), memory_pages: 1, data_segments: Vec::new(), data_offset: 0 };
        assert(r@.segments =~= Seq::<(u32, Seq<u8>)>::empty());
        r
    }

    /// Add data to memory at the next free offset; that offset.
    pub fn add_data(&mut self, data: &[u8]) -> (r: u32)
        requires
            old(self)@.next_offset + (data@.len() as u32) <= u32::MAX,
        ensures
            r == old(self)@.next_offset,
            final(self)@ == (MemoryModel {
                segments: old(self)@.segments.push((r, data@)),
                next_offset: (old(self)@.next_offset + (data@.len() as u32)) as u32,
                ..old(self)@
            }),
            final(self).wf() == old(self).wf(),
    {
        let offset = self.data_offset;
        let mut bytes: Vec<u8> = Vec::new();
        push_bytes(&mut bytes, data);
        let ghost before = self@;
        self.data_segments.push(DataSegment { offset, data: bytes });
        self.data_offset = self.data_offset + data.len() as u32;
        assert(self@.segments =~= before.segments.push((offset, data@)));
        offset
    }

    /// Add a string's UTF-8 bytes to memory; their offset and length.
    pub fn add_string(&mut self, s: &str) -> (r: (u32, u32))
        requires
            old(self)@.next_offset + (s.spec_bytes().len() as u32) <= u32::MAX,
        ensures
            r.0 == old(self)@.next_offset,
            r.1 == s.spec_bytes().len() as u32,
            final(self)@ == (MemoryModel {
                segments: old(self)@.segments.push((r.0, s.spec_bytes())),
                next_offset: (old(self)@.next_offset + (s.spec_bytes().len() as u32)) as u32,
                ..old(self)@
            }),
            final(self).wf() == old(self).wf(),
    {
        let bytes = s.as_bytes();
        let offset = self.add_data(bytes);
        (offset, bytes.len() as u32)
    }

    /// The inner emitter, for adding functions and imports.
    pub fn emitter(&mut self) -> (r: &mut WasmEmitter)
        ensures
            *r == old(self).inner_emitter(),
            final(self).inner_emitter() == *final(r),
            final(self)@.pages == old(self)@.pages,
            final(self)@.segments == old(self)@.segments,
            final(self)@.next_offset == old(self)@.next_offset,
    {
        &mut self.inner
    }

    /// The inner emitter.
    pub closed spec fn inner_emitter(&self) -> WasmEmitter {
        self.inner
    }

    /// The bytes of the module: header, memory section, the inner
    /// emitter's sections, then the data section when there is data.
    pub fn emit(&self) -> (r: Vec<u8>)
        ensures
            r@ == memory_module_bytes(self@),
    {
        let base = self.inner.emit();
        let ghost m = self@;
        assert(base@.subrange(0, 8) =~= wasm_header());
        assert(base@.subrange(8, base@.len() as int) =~= module_sections(m.inner));
        let mut module: Vec<u8> = Vec::new();
        push_range(&mut module, &base, 0, 8);
        module.push(0x05);
        let mem_section = encode_memory_section(self.memory_pages);
        let mut size = encode_u32_leb(mem_section.len() as u32);
        module.append(&mut size);
        let mut mem = mem_section;
        module.append(&mut mem);
        let ghost a = module@;
        assert(a =~= wasm_header() + section(5, memory_content(m.pages)));
        push_range(&mut module, &base, 8, base.len());
        let ghost b = module@;
        if self.data_segments.len() > 0 {
            module.push(0x0B);
            let data_section = encode_data_section(&self.data_segments);
            let mut dsize = encode_u32_leb(data_section.len() as u32);
            module.append(&mut dsize);
            let mut ds = data_section;
            module.append(&mut ds);
            assert(module@ =~= b + section(0x0B, count_bytes(m.segments.len()) + segments_bytes(m.segments)));
        } else {
            assert(module@ =~= b + Seq::<u8>::empty());
        }
        assert(module@ =~= memory_module_bytes(m));
        module
    }
}

impl Default for WasmEmitterWithMemory {
    fn default() -> (r: Self)
        ensures
            r.wf(),
            r@.pages == 1,
            r@.segments.len() == 0,
            r@.next_offset == 0,
    {
        WasmEmitterWithMemory::new()
    }
}

} // verus!
