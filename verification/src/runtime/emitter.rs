//! WebAssembly encoding pieces: value types, function types, imports and
//! exports, and the LEB128 encodings of integers.

use vstd::prelude::*;
use crate::util::copy::{copy_slice, push_bytes};
use crate::util::text::to_owned_string;

verus! {

/// WASM value types.
#[derive(Debug, Clone, Copy, PartialEq, Eq, Hash, Structural)]
pub enum ValType {
    I32,
    I64,
    F32,
    F64,
}

/// The byte that encodes a value type.
pub open spec fn valtype_byte(v: ValType) -> u8 {
    match v {
        ValType::I32 => 0x7F,
        ValType::I64 => 0x7E,
        ValType::F32 => 0x7D,
        ValType::F64 => 0x7C,
    }
}

impl ValType {
    /// The byte that encodes this value type.
    pub fn to_byte(&self) -> (r: u8)
        ensures
            r == valtype_byte(*self),
    {
        match self {
            ValType::I32 => 0x7F,
            ValType::I64 => 0x7E,
            ValType::F32 => 0x7D,
            ValType::F64 => 0x7C,
        }
    }
}

/// A function type: parameter and result types.
#[derive(Debug, Clone, PartialEq, Eq, Hash)]
pub struct FuncType {
    pub params: Vec<ValType>,
    pub results: Vec<ValType>,
}

/// An import of a function.
#[derive(Debug, Clone)]
pub struct Import {
    pub module: String,
    pub name: String,
    pub type_idx: u32,
}

/// An export.
#[derive(Debug, Clone)]
pub struct Export {
    pub name: String,
    pub kind: ExportKind,
    pub index: u32,
}

/// What an export exports; a function export is encoded as the byte 0.
#[derive(Debug, Clone, Copy, PartialEq, Eq, Structural)]
pub enum ExportKind {
    Func,
}

/// The unsigned LEB128 encoding of `n`: seven bits per byte, low bits
/// first, the high bit set on every byte but the last.
pub open spec fn uleb(n: nat) -> Seq<u8>
    decreases n,
{
    if n < 128 {
        seq![n as u8]
    } else {
        seq![(n % 128 + 128) as u8] + uleb(n / 128)
    }
}

/// The magnitude used to show that signed encoding ends.
pub open spec fn magnitude(n: int) -> nat {
    if n >= 0 { n as nat } else { (-n) as nat }
}

/// Dividing by 128 brings every number but 0 and -1 closer to 0.
pub proof fn lemma_div_shrinks(n: int)
    requires
        n != 0,
        n != -1,
    ensures
        magnitude(n / 128) < magnitude(n),
{
    if n > 0 {
        assert(n / 128 < n) by (nonlinear_arith)
            requires
                n > 0;
        assert(n / 128 >= 0) by (nonlinear_arith)
            requires
                n > 0;
    } else {
        assert(n / 128 >= n / 2) by (nonlinear_arith)
            requires
                n < -1;
        assert(n / 128 < 0) by (nonlinear_arith)
            requires
                n < -1;
        assert(n / 2 > n) by (nonlinear_arith)
            requires
                n < -1;
    }
}

/// The signed LEB128 encoding of `n`: seven bits per byte, low bits
/// first, ending at the first byte whose remaining value is all sign
/// (0 with bit 6 clear, or -1 with bit 6 set); the high bit is set on every
/// byte but the last.
pub open spec fn sleb(n: int) -> Seq<u8>
    decreases magnitude(n),
{
    let byte = n % 128;
    let rest = n / 128;
    if (rest == 0 && byte < 64) || (rest == -1 && byte >= 64) {
        seq![byte as u8]
    } else {
        proof {
            if n == 0 || n == -1 {
                assert(false);
            } else {
                lemma_div_shrinks(n);
            }
        }
        seq![(byte + 128) as u8] + sleb(rest)
    }
}

/// The number an unsigned LEB128 byte sequence stands for.
pub open spec fn uleb_value(s: Seq<u8>) -> nat
    decreases s.len(),
{
    if s.len() == 0 {
        0
    } else {
        (s[0] % 128) as nat + 128 * uleb_value(s.drop_first())
    }
}

/// The number a signed LEB128 byte sequence stands for: the last byte's
/// bit 6 is the sign.
pub open spec fn sleb_value(s: Seq<u8>) -> int
    decreases s.len(),
{
    if s.len() == 0 {
        0
    } else if s.len() == 1 {
        if s[0] % 128 >= 64 { s[0] % 128 - 128 } else { (s[0] % 128) as int }
    } else {
        (s[0] % 128) as int + 128 * sleb_value(s.drop_first())
    }
}

/// Unsigned LEB128 encoding of a 32-bit value: one to five bytes, every
/// byte but the last with its high bit set (at least 128), the last with it
/// clear and not zero unless it is the only byte; decoding gives back `n`.
pub fn encode_u32(n: u32) -> (r: Vec<u8>)
    ensures
        r@ == uleb(n as nat),
        1 <= r@.len() <= 5,
        forall|i: int| 0 <= i < r@.len() - 1 ==> #[trigger] r@[i] >= 128,
        r@.last() < 128,
        r@.len() > 1 ==> r@.last() != 0,
        uleb_value(r@) == n,
{
    let mut result: Vec<u8> = Vec::new();
    let mut value: u32 = n;
    let mut more = true;
    while more
        invariant
            more ==> uleb(n as nat) == result@ + uleb(value as nat),
            !more ==> uleb(n as nat) == result@,
        decreases value as int + if more { 1int } else { 0int },
    {
        let v0 = value;
        let mut byte = (value & 0x7F) as u8;
        value = value >> 7;
        proof {
            assert((v0 & 0x7F) == v0 % 128) by (bit_vector);
            assert((v0 >> 7) == v0 / 128) by (bit_vector);
        }
        if value != 0 {
            assert(byte | 0x80 == byte + 128) by (bit_vector)
                requires
                    byte < 128;
            byte = byte | 0x80;
        } else {
            more = false;
        }
        let ghost before = result@;
        result.push(byte);
        proof {
            if more {
                assert(uleb(v0 as nat) == seq![byte] + uleb(value as nat));
                assert(result@ + uleb(value as nat) =~= before + (seq![byte] + uleb(value as nat)));
            } else {
                assert(uleb(v0 as nat) == seq![byte]);
            }
        }
    }
    proof {
        lemma_uleb_u32(n);
        lemma_uleb_roundtrip(n as nat);
    }
    result
}

/// Signed LEB128 encoding of a 32-bit value: one to five bytes, every
/// byte but the last with its high bit set, the last with it clear;
/// decoding (bit 6 of the last byte is the sign) gives back `n`.
pub fn encode_i32(n: i32) -> (r: Vec<u8>)
    ensures
        r@ == sleb(n as int),
        1 <= r@.len() <= 5,
        forall|i: int| 0 <= i < r@.len() - 1 ==> #[trigger] r@[i] >= 128,
        r@.last() < 128,
        sleb_value(r@) == n,
{
    let mut result: Vec<u8> = Vec::new();
    let mut value: i32 = n;
    let mut more = true;
    while more
        invariant
            more ==> sleb(n as int) == result@ + sleb(value as int),
            !more ==> sleb(n as int) == result@,
        decreases magnitude(value as int) + if more { 1int } else { 0int },
    {
        let v0 = value;
        let mut byte = (value & 0x7F) as u8;
        value = value >> 7;
        proof {
            assert((v0 & 0x7F) == v0 % 128) by (bit_vector);
            assert((v0 >> 7) == v0 / 128) by (bit_vector);
            assert((byte & 0x40 == 0) == (byte < 64)) by (bit_vector)
                requires
                    byte < 128;
        }
        if (value == 0 && (byte & 0x40) == 0) || (value == -1 && (byte & 0x40) != 0) {
            more = false;
        } else {
            assert(byte | 0x80 == byte + 128) by (bit_vector)
                requires
                    byte < 128;
            byte = byte | 0x80;
            proof {
                if v0 == 0 || v0 == -1 {
                    assert(false);
                } else {
                    lemma_div_shrinks(v0 as int);
                }
            }
        }
        let ghost before = result@;
        result.push(byte);
        proof {
            if more {
                assert(sleb(v0 as int) == seq![byte] + sleb(value as int));
                assert(result@ + sleb(value as int) =~= before + (seq![byte] + sleb(value as int)));
            } else {
                assert(sleb(v0 as int) == seq![byte]);
            }
        }
    }
    proof {
        lemma_sleb_i32(n);
        lemma_sleb_roundtrip(n as int);
    }
    result
}

/// Signed LEB128 encoding of a 64-bit value: one to ten bytes, delimited
/// by their high bits; decoding gives back `n`.
pub fn encode_i64(n: i64) -> (r: Vec<u8>)
    ensures
        r@ == sleb(n as int),
        1 <= r@.len() <= 10,
        forall|i: int| 0 <= i < r@.len() - 1 ==> #[trigger] r@[i] >= 128,
        r@.last() < 128,
        sleb_value(r@) == n,
{
    let mut result: Vec<u8> = Vec::new();
    let mut value: i64 = n;
    let mut more = true;
    while more
        invariant
            more ==> sleb(n as int) == result@ + sleb(value as int),
            !more ==> sleb(n as int) == result@,
        decreases magnitude(value as int) + if more { 1int } else { 0int },
    {
        let v0 = value;
        let mut byte = (value & 0x7F) as u8;
        value = value >> 7;
        proof {
            assert((v0 & 0x7F) == v0 % 128) by (bit_vector);
            assert((v0 >> 7) == v0 / 128) by (bit_vector);
            assert((byte & 0x40 == 0) == (byte < 64)) by (bit_vector)
                requires
                    byte < 128;
        }
        if (value == 0 && (byte & 0x40) == 0) || (value == -1 && (byte & 0x40) != 0) {
            more = false;
        } else {
            assert(byte | 0x80 == byte + 128) by (bit_vector)
                requires
                    byte < 128;
            byte = byte | 0x80;
            proof {
                if v0 == 0 || v0 == -1 {
                    assert(false);
                } else {
                    lemma_div_shrinks(v0 as int);
                }
            }
        }
        let ghost before = result@;
        result.push(byte);
        proof {
            if more {
                assert(sleb(v0 as int) == seq![byte] + sleb(value as int));
                assert(result@ + sleb(value as int) =~= before + (seq![byte] + sleb(value as int)));
            } else {
                assert(sleb(v0 as int) == seq![byte]);
            }
        }
    }
    proof {
        lemma_sleb_i64(n);
        lemma_sleb_roundtrip(n as int);
    }
    result
}


/// The `k` low bytes of `n`, least significant first.
pub open spec fn le_bytes(n: nat, k: nat) -> Seq<u8>
    decreases k,
{
    if k == 0 {
        Seq::empty()
    } else {
        seq![(n % 256) as u8] + le_bytes(n / 256, (k - 1) as nat)
    }
}

/// Appends the `k` low bytes of `n` to `out`, least significant first.
fn push_le_bytes(out: &mut Vec<u8>, n: u64, k: usize)
    ensures
        final(out)@ == old(out)@ + le_bytes(n as nat, k as nat),
{
    let ghost start = out@;
    let mut v: u64 = n;
    let mut i: usize = 0;
    while i < k
        invariant
            i <= k,
            start + le_bytes(n as nat, k as nat) == out@ + le_bytes(v as nat, (k - i) as nat),
        decreases k - i,
    {
        let v0 = v;
        let b = (v & 0xFF) as u8;
        v = v >> 8;
        proof {
            assert((v0 & 0xFF) == v0 % 256) by (bit_vector);
            assert((v0 >> 8) == v0 / 256) by (bit_vector);
        }
        let ghost before = out@;
        out.push(b);
        assert(le_bytes(v0 as nat, (k - i) as nat) == seq![b] + le_bytes(v as nat, (k - i - 1) as nat));
        assert(before + le_bytes(v0 as nat, (k - i) as nat) =~= out@ + le_bytes(v as nat, (k - i - 1) as nat));
        i = i + 1;
    }
    assert(le_bytes(v as nat, 0) =~= Seq::<u8>::empty());
    assert(out@ + Seq::<u8>::empty() =~= out@);
}

/// Appends the bytes of `v` to `out`.
fn append_bytes(out: &mut Vec<u8>, v: Vec<u8>)
    ensures
        final(out)@ == old(out)@ + v@,
{
    let mut w = v;
    out.append(&mut w);
}

/// A WASM instruction. A float constant is held as the bits of its IEEE
/// 754 value (`f32::to_bits`, `f64::to_bits`).
#[derive(Debug, Clone, Copy)]
pub enum Instruction {
    // Constants
    I32Const(i32),
    I64Const(i64),
    F32Const(u32),
    F64Const(u64),
    // Arithmetic
    I32Add,
    I32Sub,
    I32Mul,
    I32DivS,
    I32RemS,
    F64Add,
    F64Sub,
    F64Mul,
    F64Div,
    // Local variables
    LocalGet(u32),
    LocalSet(u32),
    LocalTee(u32),
    // Control flow
    Call(u32),
    Return,
    // Blocks
    Block(ValType),
    Loop(ValType),
    If(ValType),
    Else,
    End,
}

/// The bytes that encode an instruction: its opcode, then its immediate
/// (LEB128 for integers and indices, little-endian bits for floats).
pub open spec fn instr_bytes(i: Instruction) -> Seq<u8> {
    match i {
        Instruction::I32Const(n) => seq![0x41u8] + sleb(n as int),
        Instruction::I64Const(n) => seq![0x42u8] + sleb(n as int),
        Instruction::F32Const(b) => seq![0x43u8] + le_bytes(b as nat, 4),
        Instruction::F64Const(b) => seq![0x44u8] + le_bytes(b as nat, 8),
        Instruction::I32Add => seq![0x6Au8],
        Instruction::I32Sub => seq![0x6Bu8],
        Instruction::I32Mul => seq![0x6Cu8],
        Instruction::I32DivS => seq![0x6Du8],
        Instruction::I32RemS => seq![0x6Fu8],
        Instruction::F64Add => seq![0xA0u8],
        Instruction::F64Sub => seq![0xA1u8],
        Instruction::F64Mul => seq![0xA2u8],
        Instruction::F64Div => seq![0xA3u8],
        Instruction::LocalGet(x) => seq![0x20u8] + uleb(x as nat),
        Instruction::LocalSet(x) => seq![0x21u8] + uleb(x as nat),
        Instruction::LocalTee(x) => seq![0x22u8] + uleb(x as nat),
        Instruction::Call(x) => seq![0x10u8] + uleb(x as nat),
        Instruction::Return => seq![0x0Fu8],
        Instruction::Block(vt) => seq![0x02u8, valtype_byte(vt)],
        Instruction::Loop(vt) => seq![0x03u8, valtype_byte(vt)],
        Instruction::If(vt) => seq![0x04u8, valtype_byte(vt)],
        Instruction::Else => seq![0x05u8],
        Instruction::End => seq![0x0Bu8],
    }
}

/// An instruction without immediates.
pub open spec fn opcode_only(i: Instruction) -> bool {
    ||| i is I32Add || i is I32Sub || i is I32Mul || i is I32DivS || i is I32RemS
    ||| i is F64Add || i is F64Sub || i is F64Mul || i is F64Div
    ||| i is Return || i is Else || i is End
}

/// The instruction without immediates that a WebAssembly opcode names:
/// `i32.add` 0x6A, `i32.sub` 0x6B, `i32.mul` 0x6C, `i32.div_s` 0x6D,
/// `i32.rem_s` 0x6F, `f64.add` 0xA0, `f64.sub` 0xA1, `f64.mul` 0xA2,
/// `f64.div` 0xA3, `return` 0x0F, `else` 0x05, `end` 0x0B.
pub open spec fn opcode_instruction(b: u8) -> Option<Instruction> {
    if b == 0x6A { Some(Instruction::I32Add) }
    else if b == 0x6B { Some(Instruction::I32Sub) }
    else if b == 0x6C { Some(Instruction::I32Mul) }
    else if b == 0x6D { Some(Instruction::I32DivS) }
    else if b == 0x6F { Some(Instruction::I32RemS) }
    else if b == 0xA0 { Some(Instruction::F64Add) }
    else if b == 0xA1 { Some(Instruction::F64Sub) }
    else if b == 0xA2 { Some(Instruction::F64Mul) }
    else if b == 0xA3 { Some(Instruction::F64Div) }
    else if b == 0x0F { Some(Instruction::Return) }
    else if b == 0x05 { Some(Instruction::Else) }
    else if b == 0x0B { Some(Instruction::End) }
    else { None }
}

/// An instruction without immediates encodes as the one opcode byte that
/// names it, and no other instruction encodes to the same bytes.
pub proof fn lemma_opcode_encoding(i: Instruction, j: Instruction)
    requires
        opcode_only(i),
    ensures
        instr_bytes(i).len() == 1,
        opcode_instruction(instr_bytes(i)[0]) == Some(i),
        instr_bytes(j) == instr_bytes(i) ==> j == i,
{
    if instr_bytes(j) == instr_bytes(i) {
        assert(instr_bytes(j)[0] == instr_bytes(i)[0]);
        assert(instr_bytes(j).len() == 1);
        match j {
            Instruction::I32Const(n) => { lemma_sleb_delimited(n as int); },
            Instruction::I64Const(n) => { lemma_sleb_delimited(n as int); },
            Instruction::LocalGet(x) => { lemma_uleb_delimited(x as nat); },
            Instruction::LocalSet(x) => { lemma_uleb_delimited(x as nat); },
            Instruction::LocalTee(x) => { lemma_uleb_delimited(x as nat); },
            Instruction::Call(x) => { lemma_uleb_delimited(x as nat); },
            _ => {},
        }
    }
}

/// The integer and float arithmetic opcodes lie in WebAssembly's order:
/// subtraction, multiplication and signed division follow addition one by
/// one, the signed remainder two after signed division (the unsigned
/// division lies between), and the float operations likewise.
pub proof fn lemma_arith_opcode_order()
    ensures
        instr_bytes(Instruction::I32Sub)[0] == instr_bytes(Instruction::I32Add)[0] + 1,
        instr_bytes(Instruction::I32Mul)[0] == instr_bytes(Instruction::I32Add)[0] + 2,
        instr_bytes(Instruction::I32DivS)[0] == instr_bytes(Instruction::I32Add)[0] + 3,
        instr_bytes(Instruction::I32RemS)[0] == instr_bytes(Instruction::I32DivS)[0] + 2,
        instr_bytes(Instruction::F64Sub)[0] == instr_bytes(Instruction::F64Add)[0] + 1,
        instr_bytes(Instruction::F64Mul)[0] == instr_bytes(Instruction::F64Add)[0] + 2,
        instr_bytes(Instruction::F64Div)[0] == instr_bytes(Instruction::F64Add)[0] + 3,
{
}

/// Instructions with an integer immediate encode their opcode and then the
/// immediate in LEB128, which decodes back to it: constants signed, local
/// and function indices unsigned.
pub proof fn lemma_immediate_encoding(i: Instruction)
    ensures
        i matches Instruction::I32Const(n) ==> instr_bytes(i)[0] == 0x41 && sleb_value(instr_bytes(i).drop_first()) == n,
        i matches Instruction::I64Const(n) ==> instr_bytes(i)[0] == 0x42 && sleb_value(instr_bytes(i).drop_first()) == n,
        i matches Instruction::LocalGet(x) ==> instr_bytes(i)[0] == 0x20 && uleb_value(instr_bytes(i).drop_first()) == x,
        i matches Instruction::LocalSet(x) ==> instr_bytes(i)[0] == 0x21 && uleb_value(instr_bytes(i).drop_first()) == x,
        i matches Instruction::LocalTee(x) ==> instr_bytes(i)[0] == 0x22 && uleb_value(instr_bytes(i).drop_first()) == x,
        i matches Instruction::Call(x) ==> instr_bytes(i)[0] == 0x10 && uleb_value(instr_bytes(i).drop_first()) == x,
{
    match i {
        Instruction::I32Const(n) => {
            lemma_sleb_roundtrip(n as int);
            assert(instr_bytes(i).drop_first() =~= sleb(n as int));
        },
        Instruction::I64Const(n) => {
            lemma_sleb_roundtrip(n as int);
            assert(instr_bytes(i).drop_first() =~= sleb(n as int));
        },
        Instruction::LocalGet(x) => {
            lemma_uleb_roundtrip(x as nat);
            assert(instr_bytes(i).drop_first() =~= uleb(x as nat));
        },
        Instruction::LocalSet(x) => {
            lemma_uleb_roundtrip(x as nat);
            assert(instr_bytes(i).drop_first() =~= uleb(x as nat));
        },
        Instruction::LocalTee(x) => {
            lemma_uleb_roundtrip(x as nat);
            assert(instr_bytes(i).drop_first() =~= uleb(x as nat));
        },
        Instruction::Call(x) => {
            lemma_uleb_roundtrip(x as nat);
            assert(instr_bytes(i).drop_first() =~= uleb(x as nat));
        },
        _ => {},
    }
}

/// An opcode followed by the bytes of an immediate.
fn opcode_then(op: u8, imm: Vec<u8>) -> (r: Vec<u8>)
    ensures
        r@ == seq![op] + imm@,
{
    let mut bytes: Vec<u8> = Vec::new();
    bytes.push(op);
    append_bytes(&mut bytes, imm);
    bytes
}

impl Instruction {
    /// The bytes that encode this instruction.
    pub fn encode(&self) -> (r: Vec<u8>)
        ensures
            r@ == instr_bytes(*self),
    {
        match self {
            Instruction::I32Const(n) => opcode_then(0x41, encode_i32(*n)),
            Instruction::I64Const(n) => opcode_then(0x42, encode_i64(*n)),
            Instruction::F32Const(b) => {
                let mut bytes: Vec<u8> = Vec::new();
                bytes.push(0x43);
                push_le_bytes(&mut bytes, *b as u64, 4);
                bytes
            },
            Instruction::F64Const(b) => {
                let mut bytes: Vec<u8> = Vec::new();
                bytes.push(0x44);
                push_le_bytes(&mut bytes, *b, 8);
                bytes
            },
            Instruction::I32Add => vec![0x6A],
            Instruction::I32Sub => vec![0x6B],
            Instruction::I32Mul => vec![0x6C],
            Instruction::I32DivS => vec![0x6D],
            Instruction::I32RemS => vec![0x6F],
            Instruction::F64Add => vec![0xA0],
            Instruction::F64Sub => vec![0xA1],
            Instruction::F64Mul => vec![0xA2],
            Instruction::F64Div => vec![0xA3],
            Instruction::LocalGet(x) => opcode_then(0x20, encode_u32(*x)),
            Instruction::LocalSet(x) => opcode_then(0x21, encode_u32(*x)),
            Instruction::LocalTee(x) => opcode_then(0x22, encode_u32(*x)),
            Instruction::Call(x) => opcode_then(0x10, encode_u32(*x)),
            Instruction::Return => vec![0x0F],
            Instruction::Block(vt) => vec![0x02, vt.to_byte()],
            Instruction::Loop(vt) => vec![0x03, vt.to_byte()],
            Instruction::If(vt) => vec![0x04, vt.to_byte()],
            Instruction::Else => vec![0x05],
            Instruction::End => vec![0x0B],
        }
    }
}

/// A function body: its locals and its instructions.
#[derive(Debug, Clone)]
pub struct FuncBody {
    pub locals: Vec<ValType>,
    pub instructions: Vec<Instruction>,
}

impl View for FuncType {
    type V = (Seq<ValType>, Seq<ValType>);

    /// Parameter types and result types.
    open spec fn view(&self) -> (Seq<ValType>, Seq<ValType>) {
        (self.params@, self.results@)
    }
}

impl View for Import {
    type V = (Seq<char>, Seq<char>, u32);

    /// Module name, field name and type index.
    open spec fn view(&self) -> (Seq<char>, Seq<char>, u32) {
        (self.module@, self.name@, self.type_idx)
    }
}

impl View for Export {
    type V = (Seq<char>, ExportKind, u32);

    /// Name, kind and index.
    open spec fn view(&self) -> (Seq<char>, ExportKind, u32) {
        (self.name@, self.kind, self.index)
    }
}

impl View for FuncBody {
    type V = (Seq<ValType>, Seq<Instruction>);

    /// Locals and instructions.
    open spec fn view(&self) -> (Seq<ValType>, Seq<Instruction>) {
        (self.locals@, self.instructions@)
    }
}

/// The views of a sequence of function types.
pub open spec fn type_views(s: Seq<FuncType>) -> Seq<(Seq<ValType>, Seq<ValType>)> {
    Seq::new(s.len(), |i: int| s[i]@)
}

/// The views of a sequence of imports.
pub open spec fn import_views(s: Seq<Import>) -> Seq<(Seq<char>, Seq<char>, u32)> {
    Seq::new(s.len(), |i: int| s[i]@)
}

/// The views of a sequence of exports.
pub open spec fn export_views(s: Seq<Export>) -> Seq<(Seq<char>, ExportKind, u32)> {
    Seq::new(s.len(), |i: int| s[i]@)
}

/// The views of a sequence of function bodies.
pub open spec fn body_views(s: Seq<FuncBody>) -> Seq<(Seq<ValType>, Seq<Instruction>)> {
    Seq::new(s.len(), |i: int| s[i]@)
}

/// The LEB128 encoding of a count, taken as a 32-bit number.
pub open spec fn count_bytes(n: nat) -> Seq<u8> {
    uleb((n as u32) as nat)
}

/// The bytes of a sequence of value types, one byte each.
pub open spec fn valtypes_bytes(s: Seq<ValType>) -> Seq<u8>
    decreases s.len(),
{
    if s.len() == 0 {
        Seq::empty()
    } else {
        valtypes_bytes(s.drop_last()) + seq![valtype_byte(s.last())]
    }
}

/// The bytes of a function type: `0x60`, then the counted parameter types
/// and the counted result types.
pub open spec fn functype_bytes(t: (Seq<ValType>, Seq<ValType>)) -> Seq<u8> {
    seq![0x60u8] + count_bytes(t.0.len()) + valtypes_bytes(t.0) + count_bytes(t.1.len()) + valtypes_bytes(t.1)
}

/// The bytes of a sequence of function types, one after another.
pub open spec fn types_bytes(s: Seq<(Seq<ValType>, Seq<ValType>)>) -> Seq<u8>
    decreases s.len(),
{
    if s.len() == 0 {
        Seq::empty()
    } else {
        types_bytes(s.drop_last()) + functype_bytes(s.last())
    }
}

/// The bytes of a name: its UTF-8 length, then its UTF-8 bytes.
pub open spec fn name_bytes(s: Seq<char>) -> Seq<u8> {
    count_bytes(vstd::utf8::encode_utf8(s).len()) + vstd::utf8::encode_utf8(s)
}

/// The bytes of a function import: module name, field name, kind `0` and
/// the type index.
pub open spec fn import_bytes(im: (Seq<char>, Seq<char>, u32)) -> Seq<u8> {
    name_bytes(im.0) + name_bytes(im.1) + seq![0u8] + uleb(im.2 as nat)
}

/// The bytes of a sequence of imports, one after another.
pub open spec fn imports_bytes(s: Seq<(Seq<char>, Seq<char>, u32)>) -> Seq<u8>
    decreases s.len(),
{
    if s.len() == 0 {
        Seq::empty()
    } else {
        imports_bytes(s.drop_last()) + import_bytes(s.last())
    }
}

/// The bytes of a sequence of type indices, one LEB128 number each.
pub open spec fn indices_bytes(s: Seq<u32>) -> Seq<u8>
    decreases s.len(),
{
    if s.len() == 0 {
        Seq::empty()
    } else {
        indices_bytes(s.drop_last()) + uleb(s.last() as nat)
    }
}

/// The byte of an export kind.
pub open spec fn export_kind_byte(k: ExportKind) -> u8 {
    match k {
        ExportKind::Func => 0u8,
    }
}

/// The bytes of an export: its name, its kind and its index.
pub open spec fn export_bytes(ex: (Seq<char>, ExportKind, u32)) -> Seq<u8> {
    name_bytes(ex.0) + seq![export_kind_byte(ex.1)] + uleb(ex.2 as nat)
}

/// The bytes of a sequence of exports, one after another.
pub open spec fn exports_bytes(s: Seq<(Seq<char>, ExportKind, u32)>) -> Seq<u8>
    decreases s.len(),
{
    if s.len() == 0 {
        Seq::empty()
    } else {
        exports_bytes(s.drop_last()) + export_bytes(s.last())
    }
}

/// The bytes of a list of locals: each one is declared on its own, as a
/// count of 1 and its type.
pub open spec fn locals_bytes(s: Seq<ValType>) -> Seq<u8>
    decreases s.len(),
{
    if s.len() == 0 {
        Seq::empty()
    } else {
        locals_bytes(s.drop_last()) + seq![1u8, valtype_byte(s.last())]
    }
}

/// The bytes of a sequence of instructions, one after another.
pub open spec fn instrs_bytes(s: Seq<Instruction>) -> Seq<u8>
    decreases s.len(),
{
    if s.len() == 0 {
        Seq::empty()
    } else {
        instrs_bytes(s.drop_last()) + instr_bytes(s.last())
    }
}

/// The bytes inside a function body: the counted locals, then the
/// instructions.
pub open spec fn body_content(b: (Seq<ValType>, Seq<Instruction>)) -> Seq<u8> {
    count_bytes(b.0.len()) + locals_bytes(b.0) + instrs_bytes(b.1)
}

/// The bytes of a function body: its size, then its content.
pub open spec fn body_bytes(b: (Seq<ValType>, Seq<Instruction>)) -> Seq<u8> {
    count_bytes(body_content(b).len()) + body_content(b)
}

/// The bytes of a sequence of function bodies, one after another.
pub open spec fn bodies_bytes(s: Seq<(Seq<ValType>, Seq<Instruction>)>) -> Seq<u8>
    decreases s.len(),
{
    if s.len() == 0 {
        Seq::empty()
    } else {
        bodies_bytes(s.drop_last()) + body_bytes(s.last())
    }
}

/// A section: its id, the size of its content, and the content.
pub open spec fn section(id: u8, content: Seq<u8>) -> Seq<u8> {
    seq![id] + count_bytes(content.len()) + content
}

/// A section if `present`, else nothing.
pub open spec fn section_if(present: bool, id: u8, content: Seq<u8>) -> Seq<u8> {
    if present { section(id, content) } else { Seq::empty() }
}

/// The magic number `\0asm` and version 1.
pub open spec fn wasm_header() -> Seq<u8> {
    seq![0x00u8, 0x61u8, 0x73u8, 0x6Du8, 0x01u8, 0x00u8, 0x00u8, 0x00u8]
}

/// Appends a section with the given id and content to `out`.
fn push_section(out: &mut Vec<u8>, id: u8, content: Vec<u8>)
    ensures
        final(out)@ == old(out)@ + section(id, content@),
{
    let ghost start = out@;
    let ghost c = content@;
    out.push(id);
    append_bytes(out, encode_u32(content.len() as u32));
    append_bytes(out, content);
    assert(out@ =~= start + section(id, c));
}

/// The content of the type section.
fn encode_type_section(types: &Vec<FuncType>) -> (r: Vec<u8>)
    ensures
        r@ == count_bytes(types@.len()) + types_bytes(type_views(types@)),
{
    let ghost tv = type_views(types@);
    let mut section = encode_u32(types.len() as u32);
    let ghost head = section@;
    let mut i: usize = 0;
    while i < types.len()
        invariant
            0 <= i <= types@.len(),
            tv == type_views(types@),
            section@ == head + types_bytes(tv.take(i as int)),
        decreases types@.len() - i,
    {
        let ty = &types[i];
        let ghost before = section@;
        section.push(0x60);
        append_bytes(&mut section, encode_u32(ty.params.len() as u32));
        let mut j: usize = 0;
        while j < ty.params.len()
            invariant
                0 <= j <= ty.params@.len(),
                section@ == before + seq![0x60u8] + count_bytes(ty.params@.len()) + valtypes_bytes(ty.params@.take(j as int)),
            decreases ty.params@.len() - j,
        {
            section.push(ty.params[j].to_byte());
            assert(ty.params@.take(j + 1).drop_last() =~= ty.params@.take(j as int));
            j = j + 1;
        }
        assert(ty.params@.take(ty.params@.len() as int) =~= ty.params@);
        let ghost mid = section@;
        append_bytes(&mut section, encode_u32(ty.results.len() as u32));
        let mut k: usize = 0;
        while k < ty.results.len()
            invariant
                0 <= k <= ty.results@.len(),
                section@ == mid + count_bytes(ty.results@.len()) + valtypes_bytes(ty.results@.take(k as int)),
            decreases ty.results@.len() - k,
        {
            section.push(ty.results[k].to_byte());
            assert(ty.results@.take(k + 1).drop_last() =~= ty.results@.take(k as int));
            k = k + 1;
        }
        assert(ty.results@.take(ty.results@.len() as int) =~= ty.results@);
        assert(tv.take(i + 1).drop_last() =~= tv.take(i as int));
        assert(section@ =~= head + types_bytes(tv.take(i + 1)));
        i = i + 1;
    }
    assert(tv.take(types@.len() as int) =~= tv);
    section
}

/// Appends a name: its UTF-8 length and its UTF-8 bytes.
fn push_name(out: &mut Vec<u8>, s: &str)
    ensures
        final(out)@ == old(out)@ + name_bytes(s@),
{
    let ghost start = out@;
    let bytes = s.as_bytes();
    append_bytes(out, encode_u32(bytes.len() as u32));
    push_bytes(out, bytes);
    assert(out@ =~= start + name_bytes(s@));
}

/// The content of the import section.
fn encode_import_section(imports: &Vec<Import>) -> (r: Vec<u8>)
    ensures
        r@ == count_bytes(imports@.len()) + imports_bytes(import_views(imports@)),
{
    let ghost iv = import_views(imports@);
    let mut section = encode_u32(imports.len() as u32);
    let ghost head = section@;
    let mut i: usize = 0;
    while i < imports.len()
        invariant
            0 <= i <= imports@.len(),
            iv == import_views(imports@),
            section@ == head + imports_bytes(iv.take(i as int)),
        decreases imports@.len() - i,
    {
        let im = &imports[i];
        let ghost before = section@;
        push_name(&mut section, im.module.as_str());
        push_name(&mut section, im.name.as_str());
        section.push(0x00);
        append_bytes(&mut section, encode_u32(im.type_idx));
        assert(iv.take(i + 1).drop_last() =~= iv.take(i as int));
        assert(section@ =~= head + imports_bytes(iv.take(i + 1)));
        i = i + 1;
    }
    assert(iv.take(imports@.len() as int) =~= iv);
    section
}

/// The content of the function section.
fn encode_function_section(functions: &Vec<u32>) -> (r: Vec<u8>)
    ensures
        r@ == count_bytes(functions@.len()) + indices_bytes(functions@),
{
    let mut section = encode_u32(functions.len() as u32);
    let ghost head = section@;
    let mut i: usize = 0;
    while i < functions.len()
        invariant
            0 <= i <= functions@.len(),
            section@ == head + indices_bytes(functions@.take(i as int)),
        decreases functions@.len() - i,
    {
        append_bytes(&mut section, encode_u32(functions[i]));
        assert(functions@.take(i + 1).drop_last() =~= functions@.take(i as int));
        assert(section@ =~= head + indices_bytes(functions@.take(i + 1)));
        i = i + 1;
    }
    assert(functions@.take(functions@.len() as int) =~= functions@);
    section
}

/// The content of the export section.
fn encode_export_section(exports: &Vec<Export>) -> (r: Vec<u8>)
    ensures
        r@ == count_bytes(exports@.len()) + exports_bytes(export_views(exports@)),
{
    let ghost ev = export_views(exports@);
    let mut section = encode_u32(exports.len() as u32);
    let ghost head = section@;
    let mut i: usize = 0;
    while i < exports.len()
        invariant
            0 <= i <= exports@.len(),
            ev == export_views(exports@),
            section@ == head + exports_bytes(ev.take(i as int)),
        decreases exports@.len() - i,
    {
        let ex = &exports[i];
        push_name(&mut section, ex.name.as_str());
        let kind: u8 = match ex.kind {
            ExportKind::Func => 0,
        };
        section.push(kind);
        append_bytes(&mut section, encode_u32(ex.index));
        assert(ev.take(i + 1).drop_last() =~= ev.take(i as int));
        assert(section@ =~= head + exports_bytes(ev.take(i + 1)));
        i = i + 1;
    }
    assert(ev.take(exports@.len() as int) =~= ev);
    section
}

/// The bytes inside one function body.
fn encode_body_content(body: &FuncBody) -> (r: Vec<u8>)
    ensures
        r@ == body_content(body@),
{
    let mut out = encode_u32(body.locals.len() as u32);
    let ghost head = out@;
    let mut i: usize = 0;
    while i < body.locals.len()
        invariant
            0 <= i <= body.locals@.len(),
            out@ == head + locals_bytes(body.locals@.take(i as int)),
        decreases body.locals@.len() - i,
    {
        out.push(1);
        out.push(body.locals[i].to_byte());
        assert(body.locals@.take(i + 1).drop_last() =~= body.locals@.take(i as int));
        assert(out@ =~= head + locals_bytes(body.locals@.take(i + 1)));
        i = i + 1;
    }
    assert(body.locals@.take(body.locals@.len() as int) =~= body.locals@);
    let ghost mid = out@;
    let mut k: usize = 0;
    while k < body.instructions.len()
        invariant
            0 <= k <= body.instructions@.len(),
            out@ == mid + instrs_bytes(body.instructions@.take(k as int)),
        decreases body.instructions@.len() - k,
    {
        append_bytes(&mut out, body.instructions[k].encode());
        assert(body.instructions@.take(k + 1).drop_last() =~= body.instructions@.take(k as int));
        assert(out@ =~= mid + instrs_bytes(body.instructions@.take(k + 1)));
        k = k + 1;
    }
    assert(body.instructions@.take(body.instructions@.len() as int) =~= body.instructions@);
    assert(out@ =~= body_content(body@));
    out
}

/// The content of the code section.
fn encode_code_section(bodies: &Vec<FuncBody>) -> (r: Vec<u8>)
    ensures
        r@ == count_bytes(bodies@.len()) + bodies_bytes(body_views(bodies@)),
{
    let ghost bv = body_views(bodies@);
    let mut section = encode_u32(bodies.len() as u32);
    let ghost head = section@;
    let mut i: usize = 0;
    while i < bodies.len()
        invariant
            0 <= i <= bodies@.len(),
            bv == body_views(bodies@),
            section@ == head + bodies_bytes(bv.take(i as int)),
        decreases bodies@.len() - i,
    {
        let content = encode_body_content(&bodies[i]);
        let ghost c = content@;
        append_bytes(&mut section, encode_u32(content.len() as u32));
        append_bytes(&mut section, content);
        assert(bv.take(i + 1).drop_last() =~= bv.take(i as int));
        assert(section@ =~= head + bodies_bytes(bv.take(i + 1)));
        i = i + 1;
    }
    assert(bv.take(bodies@.len() as int) =~= bv);
    section
}

/// What a WASM emitter holds: function types, imports, the type index of
/// each defined function, exports, and the bodies of the defined functions.
pub struct EmitterModel {
    pub types: Seq<(Seq<ValType>, Seq<ValType>)>,
    pub imports: Seq<(Seq<char>, Seq<char>, u32)>,
    pub functions: Seq<u32>,
    pub exports: Seq<(Seq<char>, ExportKind, u32)>,
    pub bodies: Seq<(Seq<ValType>, Seq<Instruction>)>,
}

/// The type section (id 1), when there are types.
pub open spec fn type_section(m: EmitterModel) -> Seq<u8> {
    section_if(m.types.len() > 0, 1, count_bytes(m.types.len()) + types_bytes(m.types))
}

/// The import section (id 2), when there are imports.
pub open spec fn import_section(m: EmitterModel) -> Seq<u8> {
    section_if(m.imports.len() > 0, 2, count_bytes(m.imports.len()) + imports_bytes(m.imports))
}

/// The function section (id 3), when there are defined functions.
pub open spec fn function_section(m: EmitterModel) -> Seq<u8> {
    section_if(m.functions.len() > 0, 3, count_bytes(m.functions.len()) + indices_bytes(m.functions))
}

/// The export section (id 7), when there are exports.
pub open spec fn export_section(m: EmitterModel) -> Seq<u8> {
    section_if(m.exports.len() > 0, 7, count_bytes(m.exports.len()) + exports_bytes(m.exports))
}

/// The code section (id 10), when there are bodies.
pub open spec fn code_section(m: EmitterModel) -> Seq<u8> {
    section_if(m.bodies.len() > 0, 0x0A, count_bytes(m.bodies.len()) + bodies_bytes(m.bodies))
}

/// The module's sections after the header, in order.
pub open spec fn module_sections(m: EmitterModel) -> Seq<u8> {
    type_section(m) + import_section(m) + function_section(m) + export_section(m) + code_section(m)
}

/// The bytes of the module an emitter holds: the header, then its sections.
pub open spec fn module_bytes(m: EmitterModel) -> Seq<u8> {
    wasm_header() + module_sections(m)
}

/// No function type occurs twice.
pub open spec fn types_distinct(ts: Seq<(Seq<ValType>, Seq<ValType>)>) -> bool {
    forall|i: int, j: int| 0 <= i < j < ts.len() ==> ts[i] != ts[j]
}

/// The types after adding `t`: unchanged if it is there, else with `t` at the end.
pub open spec fn with_type(ts: Seq<(Seq<ValType>, Seq<ValType>)>, t: (Seq<ValType>, Seq<ValType>)) -> Seq<(Seq<ValType>, Seq<ValType>)> {
    if ts.contains(t) { ts } else { ts.push(t) }
}

/// Adding a function type that is already there changes nothing, and
/// adding keeps the types free of repeats.
pub proof fn lemma_with_type_idempotent(ts: Seq<(Seq<ValType>, Seq<ValType>)>, t: (Seq<ValType>, Seq<ValType>))
    requires
        types_distinct(ts),
    ensures
        with_type(with_type(ts, t), t) == with_type(ts, t),
        types_distinct(with_type(ts, t)),
        with_type(ts, t).contains(t),
{
    if !ts.contains(t) {
        let u = ts.push(t);
        assert(u[ts.len() as int] == t);
        assert forall|i: int, j: int| 0 <= i < j < u.len() implies u[i] != u[j] by {
            if j == ts.len() {
                assert(u[i] == ts[i]);
                if u[i] == u[j] {
                    assert(ts.contains(t));
                }
            }
        }
    }
}

/// Adding a function type different from all held ones appends it.
pub proof fn lemma_with_new_type(ts: Seq<(Seq<ValType>, Seq<ValType>)>, t: (Seq<ValType>, Seq<ValType>))
    requires
        forall|i: int| 0 <= i < ts.len() ==> #[trigger] ts[i] != t,
    ensures
        with_type(ts, t) == ts.push(t),
{
}

/// Simple WASM module emitter.
#[derive(Debug)]
pub struct WasmEmitter {
    types: Vec<FuncType>,
    imports: Vec<Import>,
    functions: Vec<u32>,
    exports: Vec<Export>,
    bodies: Vec<FuncBody>,
}

impl View for WasmEmitter {
    type V = EmitterModel;

    /// The types, imports, function type indices, exports and bodies held.
    closed spec fn view(&self) -> EmitterModel {
        EmitterModel {
            types: type_views(self.types@),
            imports: import_views(self.imports@),
            functions: self.functions@,
            exports: export_views(self.exports@),
            bodies: body_views(self.bodies@),
        }
    }
}

/// Whether two function types are the same.
fn same_type(a: &FuncType, b: &FuncType) -> (r: bool)
    ensures
        r == (a@ == b@),
{
    if a.params.len() != b.params.len() || a.results.len() != b.results.len() {
        return false;
    }
    let mut i: usize = 0;
    while i < a.params.len()
        invariant
            0 <= i <= a.params@.len(),
            a.params@.len() == b.params@.len(),
            forall|k: int| 0 <= k < i ==> a.params@[k] == b.params@[k],
        decreases a.params@.len() - i,
    {
        if a.params[i] != b.params[i] {
            return false;
        }
        i = i + 1;
    }
    assert(a.params@ =~= b.params@);
    let mut j: usize = 0;
    while j < a.results.len()
        invariant
            0 <= j <= a.results@.len(),
            a.results@.len() == b.results@.len(),
            a.params@ == b.params@,
            forall|k: int| 0 <= k < j ==> a.results@[k] == b.results@[k],
        decreases a.results@.len() - j,
    {
        if a.results[j] != b.results[j] {
            return false;
        }
        j = j + 1;
    }
    assert(a.results@ =~= b.results@);
    true
}

impl WasmEmitter {
    /// The emitter's invariant: no function type is held twice, and there
    /// is one body per defined function.
    pub closed spec fn wf(&self) -> bool {
        &&& types_distinct(self@.types)
        &&& self.functions@.len() == self.bodies@.len()
    }

    /// An empty emitter.
    pub fn new() -> (r: Self)
        ensures
            r.wf(),
            r@.types.len() == 0,
            r@.imports.len() == 0,
            r@.functions.len() == 0,
            r@.exports.len() == 0,
            r@.bodies.len() == 0,
    {
        WasmEmitter { types: Vec::new(), imports: Vec::new(), functions: Vec::new(), exports: Vec::new(), bodies: Vec::new() }
    }

    /// Add a function type, or find it if it is there; its index.
    pub fn add_type(&mut self, func_type: FuncType) -> (r: u32)
        requires
            old(self).wf(),
            old(self)@.types.len() < u32::MAX,
        ensures
            final(self).wf(),
            final(self)@ == (EmitterModel { types: with_type(old(self)@.types, func_type@), ..old(self)@ }),
            r < final(self)@.types.len(),
            final(self)@.types[r as int] == func_type@,
    {
        let ghost tv = self@.types;
        let mut i: usize = 0;
        while i < self.types.len()
            invariant
                0 <= i <= self.types@.len(),
                tv == self@.types,
                tv.len() == self.types@.len(),
                tv.len() < u32::MAX,
                self.wf(),
                self@ == old(self)@,
                forall|k: int| 0 <= k < i ==> tv[k] != func_type@,
            decreases self.types@.len() - i,
        {
            if same_type(&self.types[i], &func_type) {
                assert(tv[i as int] == func_type@);
                assert(tv.contains(func_type@));
                return i as u32;
            }
            i = i + 1;
        }
        assert(!tv.contains(func_type@));
        let idx = self.types.len() as u32;
        let ghost before = self@;
        self.types.push(func_type);
        proof {
            lemma_with_type_idempotent(tv, func_type@);
            assert(self@.types =~= tv.push(func_type@));
            assert(self@.imports =~= before.imports);
            assert(self@.exports =~= before.exports);
            assert(self@.bodies =~= before.bodies);
        }
        idx
    }

    /// Add an imported function with type `ty`; its index among the imports.
    pub fn add_import(&mut self, module: &str, name: &str, ty: FuncType) -> (r: u32)
        requires
            old(self).wf(),
            old(self)@.types.len() < u32::MAX,
            old(self)@.imports.len() <= u32::MAX,
        ensures
            final(self).wf(),
            final(self)@.types == with_type(old(self)@.types, ty@),
            r == old(self)@.imports.len(),
            final(self)@.imports.len() == old(self)@.imports.len() + 1,
            final(self)@.imports.drop_last() == old(self)@.imports,
            final(self)@.imports.last().0 == module@,
            final(self)@.imports.last().1 == name@,
            final(self)@.imports.last().2 < final(self)@.types.len(),
            final(self)@.types[final(self)@.imports.last().2 as int] == ty@,
            final(self)@.functions == old(self)@.functions,
            final(self)@.exports == old(self)@.exports,
            final(self)@.bodies == old(self)@.bodies,
    {
        let type_idx = self.add_type(ty);
        let import_idx = self.imports.len() as u32;
        let ghost before = self@;
        self.imports.push(Import { module: to_owned_string(module), name: to_owned_string(name), type_idx });
        proof {
            assert(self@.imports.drop_last() =~= before.imports);
            assert(self@.types =~= before.types);
            assert(self@.exports =~= before.exports);
            assert(self@.bodies =~= before.bodies);
        }
        import_idx
    }

    /// Add a defined function; its index, counted after the imports.
    pub fn add_function(&mut self, params: &[ValType], results: &[ValType], locals: Vec<ValType>, body: Vec<Instruction>) -> (r: u32)
        requires
            old(self).wf(),
            old(self)@.types.len() < u32::MAX,
            old(self)@.imports.len() + old(self)@.functions.len() <= u32::MAX,
        ensures
            final(self).wf(),
            final(self)@.types == with_type(old(self)@.types, (params@, results@)),
            r == old(self)@.imports.len() + old(self)@.functions.len(),
            final(self)@.functions.len() == old(self)@.functions.len() + 1,
            final(self)@.functions.drop_last() == old(self)@.functions,
            final(self)@.functions.last() < final(self)@.types.len(),
            final(self)@.types[final(self)@.functions.last() as int] == (params@, results@),
            final(self)@.bodies == old(self)@.bodies.push((locals@, body@)),
            final(self)@.imports == old(self)@.imports,
            final(self)@.exports == old(self)@.exports,
    {
        let func_type = FuncType { params: copy_slice(params), results: copy_slice(results) };
        let type_idx = self.add_type(func_type);
        let func_idx = self.imports.len() as u32 + self.functions.len() as u32;
        let ghost before = self@;
        self.functions.push(type_idx);
        self.bodies.push(FuncBody { locals, instructions: body });
        proof {
            assert(self@.bodies =~= before.bodies.push((locals@, body@)));
            assert(self@.types =~= before.types);
            assert(self@.imports =~= before.imports);
            assert(self@.exports =~= before.exports);
        }
        func_idx
    }

    /// Export the function with index `func_idx` under `name`.
    pub fn add_export(&mut self, name: &str, func_idx: u32)
        requires
            old(self).wf(),
        ensures
            final(self).wf(),
            final(self)@ == (EmitterModel { exports: old(self)@.exports.push((name@, ExportKind::Func, func_idx)), ..old(self)@ }),
    {
        let ghost before = self@;
        self.exports.push(Export { name: to_owned_string(name), kind: ExportKind::Func, index: func_idx });
        proof {
            assert(self@.exports =~= before.exports.push((name@, ExportKind::Func, func_idx)));
            assert(self@.types =~= before.types);
            assert(self@.imports =~= before.imports);
            assert(self@.bodies =~= before.bodies);
        }
    }

    /// Appends the type section, if there are types.
    fn push_type_section(&self, out: &mut Vec<u8>)
        ensures
            final(out)@ == old(out)@ + type_section(self@),
    {
        if self.types.len() > 0 {
            push_section(out, 0x01, encode_type_section(&self.types));
        } else {
            assert(out@ =~= out@ + Seq::<u8>::empty());
        }
    }

    /// Appends the import section, if there are imports.
    fn push_import_section(&self, out: &mut Vec<u8>)
        ensures
            final(out)@ == old(out)@ + import_section(self@),
    {
        if self.imports.len() > 0 {
            push_section(out, 0x02, encode_import_section(&self.imports));
        } else {
            assert(out@ =~= out@ + Seq::<u8>::empty());
        }
    }

    /// Appends the function section, if there are defined functions.
    fn push_function_section(&self, out: &mut Vec<u8>)
        ensures
            final(out)@ == old(out)@ + function_section(self@),
    {
        if self.functions.len() > 0 {
            push_section(out, 0x03, encode_function_section(&self.functions));
        } else {
            assert(out@ =~= out@ + Seq::<u8>::empty());
        }
    }

    /// Appends the export section, if there are exports.
    fn push_export_section(&self, out: &mut Vec<u8>)
        ensures
            final(out)@ == old(out)@ + export_section(self@),
    {
        if self.exports.len() > 0 {
            push_section(out, 0x07, encode_export_section(&self.exports));
        } else {
            assert(out@ =~= out@ + Seq::<u8>::empty());
        }
    }

    /// Appends the code section, if there are bodies.
    fn push_code_section(&self, out: &mut Vec<u8>)
        ensures
            final(out)@ == old(out)@ + code_section(self@),
    {
        if self.bodies.len() > 0 {
            push_section(out, 0x0A, encode_code_section(&self.bodies));
        } else {
            assert(out@ =~= out@ + Seq::<u8>::empty());
        }
    }

    /// The bytes of the module: header, then the sections that have entries.
    pub fn emit(&self) -> (r: Vec<u8>)
        ensures
            r@ == module_bytes(self@),
    {
        let mut module: Vec<u8> = vec![0x00, 0x61, 0x73, 0x6D, 0x01, 0x00, 0x00, 0x00];
        assert(module@ =~= wasm_header());
        let ghost m = self@;
        self.push_type_section(&mut module);
        self.push_import_section(&mut module);
        self.push_function_section(&mut module);
        self.push_export_section(&mut module);
        self.push_code_section(&mut module);
        assert(module@ =~= wasm_header() + (type_section(m) + import_section(m) + function_section(m) + export_section(m) + code_section(m)));
        module
    }
}

impl Default for WasmEmitter {
    fn default() -> (r: Self)
        ensures
            r.wf(),
            r@.types.len() == 0,
            r@.imports.len() == 0,
            r@.functions.len() == 0,
            r@.exports.len() == 0,
            r@.bodies.len() == 0,
    {
        WasmEmitter::new()
    }
}

/// Decoding an unsigned LEB128 encoding gives back the number.
pub proof fn lemma_uleb_roundtrip(n: nat)
    ensures
        uleb_value(uleb(n)) == n,
    decreases n,
{
    if n >= 128 {
        lemma_uleb_roundtrip(n / 128);
        let s = uleb(n);
        assert(s.drop_first() =~= uleb(n / 128));
        assert(s[0] == ((n % 128 + 128) as u8));
        assert(((n % 128 + 128) as u8) % 128 == n % 128);
        vstd::arithmetic::div_mod::lemma_fundamental_div_mod(n as int, 128);
        assert(uleb_value(s) == (s[0] % 128) as nat + 128 * uleb_value(s.drop_first()));
    } else {
        assert(uleb(n).drop_first() =~= Seq::<u8>::empty());
        assert(uleb_value(Seq::<u8>::empty()) == 0);
    }
}

/// Decoding a signed LEB128 encoding gives back the number.
pub proof fn lemma_sleb_roundtrip(n: int)
    ensures
        sleb_value(sleb(n)) == n,
    decreases magnitude(n),
{
    let byte = n % 128;
    let rest = n / 128;
    vstd::arithmetic::div_mod::lemma_fundamental_div_mod(n, 128);
    if (rest == 0 && byte < 64) || (rest == -1 && byte >= 64) {
    } else {
        if n == 0 || n == -1 {
            assert(false);
        } else {
            lemma_div_shrinks(n);
        }
        lemma_sleb_roundtrip(rest);
        let s = sleb(n);
        assert(s.drop_first() =~= sleb(rest));
        assert(sleb(rest).len() >= 1);
        assert(s[0] == ((byte + 128) as u8));
        assert(((byte + 128) as u8) % 128 == byte);
        assert(sleb_value(s) == (s[0] % 128) as int + 128 * sleb_value(s.drop_first()));
    }
}

/// Every byte of an unsigned LEB128 encoding but the last has its high bit
/// set, and the last has it clear: the encoding marks its own end.
pub proof fn lemma_uleb_delimited(n: nat)
    ensures
        uleb(n).len() >= 1,
        uleb(n).last() < 128,
        forall|i: int| 0 <= i < uleb(n).len() - 1 ==> uleb(n)[i] >= 128,
    decreases n,
{
    if n >= 128 {
        lemma_uleb_delimited(n / 128);
        let s = uleb(n);
        assert forall|i: int| 0 <= i < s.len() - 1 implies s[i] >= 128 by {
            if i > 0 {
                assert(s[i] == uleb(n / 128)[i - 1]);
            }
        }
    }
}

/// `128` to the power `k`.
pub open spec fn pow128(k: nat) -> nat
    decreases k,
{
    if k == 0 { 1 } else { 128 * pow128((k - 1) as nat) }
}

/// A number below `128^k` (for `k >= 1`) takes at most `k` unsigned bytes.
pub proof fn lemma_uleb_length(n: nat, k: nat)
    requires
        k >= 1,
        n < pow128(k),
    ensures
        uleb(n).len() <= k,
    decreases n,
{
    if n >= 128 {
        assert(pow128(1) == 128) by {
            reveal_with_fuel(pow128, 2);
        }
        assert(k >= 2);
        assert(n / 128 < pow128((k - 1) as nat));
        lemma_uleb_length(n / 128, (k - 1) as nat);
    }
}

/// The unsigned encoding is minimal: a number of more than one byte never
/// ends in a zero byte.
pub proof fn lemma_uleb_minimal(n: nat)
    ensures
        uleb(n).len() > 1 ==> uleb(n).last() != 0,
    decreases n,
{
    if n >= 128 {
        lemma_uleb_minimal(n / 128);
        assert(uleb(n).last() == uleb(n / 128).last());
    }
}

/// A 32-bit value takes one to five unsigned bytes, every byte but the last
/// with its high bit set, and the last not zero unless it is the only one;
/// decoding gives back the value.
pub proof fn lemma_uleb_u32(n: u32)
    ensures
        uleb_value(uleb(n as nat)) == n,
        1 <= uleb(n as nat).len() <= 5,
        forall|i: int| 0 <= i < uleb(n as nat).len() - 1 ==> uleb(n as nat)[i] >= 128,
        uleb(n as nat).last() < 128,
        uleb(n as nat).len() > 1 ==> uleb(n as nat).last() != 0,
{
    assert(pow128(5) == 34359738368) by {
        reveal_with_fuel(pow128, 6);
    }
    lemma_uleb_length(n as nat, 5);
    lemma_uleb_delimited(n as nat);
    lemma_uleb_minimal(n as nat);
    lemma_uleb_roundtrip(n as nat);
}

/// A number in `[-128^k / 2, 128^k / 2)` (for `k >= 1`) takes at most `k`
/// signed bytes.
#[verifier::spinoff_prover]
#[verifier::rlimit(40)]
pub proof fn lemma_sleb_length(n: int, k: nat)
    requires
        k >= 1,
        -(pow128(k) as int) <= 2 * n < pow128(k),
    ensures
        sleb(n).len() <= k,
    decreases magnitude(n),
{
    let byte = n % 128;
    let rest = n / 128;
    if !((rest == 0 && byte < 64) || (rest == -1 && byte >= 64)) {
        if n == 0 || n == -1 {
            assert(false);
        } else {
            lemma_div_shrinks(n);
        }
        assert(pow128(1) == 128) by {
            reveal_with_fuel(pow128, 2);
        }
        if k == 1 {
            if n >= 0 {
                assert(rest == 0 && byte == n);
            } else {
                assert(rest == -1 && byte == n + 128);
            }
        }
        assert(k >= 2);
        assert(-(pow128((k - 1) as nat) as int) <= 2 * rest < pow128((k - 1) as nat));
        lemma_sleb_length(rest, (k - 1) as nat);
    }
}

/// Every signed byte but the last has its high bit set, and the last has it
/// clear.
pub proof fn lemma_sleb_delimited(n: int)
    ensures
        sleb(n).len() >= 1,
        sleb(n).last() < 128,
        forall|i: int| 0 <= i < sleb(n).len() - 1 ==> sleb(n)[i] >= 128,
    decreases magnitude(n),
{
    let byte = n % 128;
    let rest = n / 128;
    if !((rest == 0 && byte < 64) || (rest == -1 && byte >= 64)) {
        if n == 0 || n == -1 {
            assert(false);
        } else {
            lemma_div_shrinks(n);
        }
        lemma_sleb_delimited(rest);
        let s = sleb(n);
        assert forall|i: int| 0 <= i < s.len() - 1 implies s[i] >= 128 by {
            if i > 0 {
                assert(s[i] == sleb(rest)[i - 1]);
            }
        }
    }
}

/// A 32-bit value takes one to five signed bytes, delimited by their high
/// bits; decoding gives back the value.
pub proof fn lemma_sleb_i32(n: i32)
    ensures
        sleb_value(sleb(n as int)) == n,
        1 <= sleb(n as int).len() <= 5,
        forall|i: int| 0 <= i < sleb(n as int).len() - 1 ==> sleb(n as int)[i] >= 128,
        sleb(n as int).last() < 128,
{
    assert(pow128(5) == 34359738368) by {
        reveal_with_fuel(pow128, 6);
    }
    lemma_sleb_length(n as int, 5);
    lemma_sleb_delimited(n as int);
    lemma_sleb_roundtrip(n as int);
}

/// A 64-bit value takes one to ten signed bytes, delimited by their high
/// bits; decoding gives back the value.
pub proof fn lemma_sleb_i64(n: i64)
    ensures
        sleb_value(sleb(n as int)) == n,
        1 <= sleb(n as int).len() <= 10,
        forall|i: int| 0 <= i < sleb(n as int).len() - 1 ==> sleb(n as int)[i] >= 128,
        sleb(n as int).last() < 128,
{
    assert(pow128(10) == 1180591620717411303424) by {
        reveal_with_fuel(pow128, 11);
    }
    lemma_sleb_length(n as int, 10);
    lemma_sleb_delimited(n as int);
    lemma_sleb_roundtrip(n as int);
}

} // verus!
