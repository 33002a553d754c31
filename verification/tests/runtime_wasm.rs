use monowiki::runtime::emitter::{encode_i32, encode_i64, encode_u32, FuncType, Instruction, ValType, WasmEmitter};
use monowiki::runtime::livecell_codegen::{
    encode_i32_leb, encode_u32_leb, request_json, LiveCellCodeGen, LiveCellConfig, WasmEmitterWithMemory,
};

fn config(kernel: &str, seq: u64) -> LiveCellConfig {
    LiveCellConfig { cell_id: "cell1".to_string(), doc_id: "doc1".to_string(), kernel_id: kernel.to_string(), seq }
}

#[test]
fn test_empty_module() {
    let emitter = WasmEmitter::new();
    let module = emitter.emit();

    assert_eq!(&module[0..4], &[0x00, 0x61, 0x73, 0x6D]);
    assert_eq!(&module[4..8], &[0x01, 0x00, 0x00, 0x00]);
}

#[test]
fn test_simple_function() {
    let mut emitter = WasmEmitter::new();

    let func_idx = emitter.add_function(&[], &[ValType::I32], vec![], vec![Instruction::I32Const(42), Instruction::End]);

    emitter.add_export("main", func_idx);

    let module = emitter.emit();

    assert_eq!(&module[0..4], &[0x00, 0x61, 0x73, 0x6D]);
}

#[test]
fn simple_function_module_bytes() {
    let mut emitter = WasmEmitter::new();
    let func_idx = emitter.add_function(&[], &[ValType::I32], vec![], vec![Instruction::I32Const(42), Instruction::End]);
    assert_eq!(func_idx, 0);
    emitter.add_export("main", func_idx);
    let module = emitter.emit();
    let expected: Vec<u8> = vec![
        0x00, 0x61, 0x73, 0x6D, 0x01, 0x00, 0x00, 0x00, // header
        0x01, 0x05, 0x01, 0x60, 0x00, 0x01, 0x7F, // type section: () -> i32
        0x03, 0x02, 0x01, 0x00, // function section
        0x07, 0x08, 0x01, 0x04, b'm', b'a', b'i', b'n', 0x00, 0x00, // export "main"
        0x0A, 0x06, 0x01, 0x04, 0x00, 0x41, 0x2A, 0x0B, // code
    ];
    assert_eq!(module, expected);
}

#[test]
fn test_function_with_import() {
    let mut emitter = WasmEmitter::new();

    emitter.add_import("env", "log", FuncType { params: vec![ValType::I32], results: vec![] });

    let func_idx = emitter.add_function(
        &[],
        &[],
        vec![],
        vec![Instruction::I32Const(42), Instruction::Call(0), Instruction::End],
    );

    emitter.add_export("main", func_idx);

    let module = emitter.emit();

    assert_eq!(&module[0..4], &[0x00, 0x61, 0x73, 0x6D]);
}

#[test]
fn function_types_are_shared() {
    let mut emitter = WasmEmitter::new();
    let a = emitter.add_type(FuncType { params: vec![ValType::I64], results: vec![ValType::F64] });
    let b = emitter.add_type(FuncType { params: vec![ValType::I32], results: vec![] });
    let c = emitter.add_type(FuncType { params: vec![ValType::I64], results: vec![ValType::F64] });
    assert_eq!((a, b, c), (0, 1, 0));
    let i = emitter.add_import("env", "f", FuncType { params: vec![ValType::I32], results: vec![] });
    assert_eq!(i, 0);
    let f = emitter.add_function(&[ValType::I32], &[], vec![ValType::I64], vec![Instruction::End]);
    assert_eq!(f, 1);
}

#[test]
fn instruction_encodings() {
    assert_eq!(Instruction::I32Const(-1).encode(), vec![0x41, 0x7F]);
    assert_eq!(Instruction::I64Const(128).encode(), vec![0x42, 0x80, 0x01]);
    assert_eq!(Instruction::F32Const(1.5f32.to_bits()).encode(), vec![0x43, 0x00, 0x00, 0xC0, 0x3F]);
    assert_eq!(
        Instruction::F64Const(1.0f64.to_bits()).encode(),
        vec![0x44, 0, 0, 0, 0, 0, 0, 0xF0, 0x3F]
    );
    assert_eq!(Instruction::LocalGet(300).encode(), vec![0x20, 0xAC, 0x02]);
    assert_eq!(Instruction::Block(ValType::F64).encode(), vec![0x02, 0x7C]);
    assert_eq!(Instruction::I32RemS.encode(), vec![0x6F]);
    assert_eq!(ValType::I64.to_byte(), 0x7E);
}

#[test]
fn test_encode_u32() {
    assert_eq!(encode_u32(0), vec![0x00]);
    assert_eq!(encode_u32(1), vec![0x01]);
    assert_eq!(encode_u32(127), vec![0x7F]);
    assert_eq!(encode_u32(128), vec![0x80, 0x01]);
}

#[test]
fn test_encode_i32() {
    assert_eq!(encode_i32(0), vec![0x00]);
    assert_eq!(encode_i32(1), vec![0x01]);
    assert_eq!(encode_i32(-1), vec![0x7F]);
    assert_eq!(encode_i32(42), vec![0x2A]);
}

#[test]
fn leb128_edge_values() {
    assert_eq!(encode_u32(u32::MAX), vec![0xFF, 0xFF, 0xFF, 0xFF, 0x0F]);
    assert_eq!(encode_i32(64), vec![0xC0, 0x00]);
    assert_eq!(encode_i32(-64), vec![0x40]);
    assert_eq!(encode_i32(-65), vec![0xBF, 0x7F]);
    assert_eq!(encode_i32(i32::MIN), vec![0x80, 0x80, 0x80, 0x80, 0x78]);
    assert_eq!(encode_i64(-123456), vec![0xC0, 0xBB, 0x78]);
    assert_eq!(encode_i32_leb(-1), vec![0x7F]);
}

#[test]
fn test_live_cell_config() {
    let config = LiveCellConfig {
        cell_id: "cell1".to_string(),
        doc_id: "doc1".to_string(),
        kernel_id: "wasm".to_string(),
        seq: 1,
    };
    assert_eq!(config.cell_id, "cell1");
}

#[test]
fn test_request_json_source() {
    let gen = LiveCellCodeGen::with_source(config("js", 42), "console.log('hi')");
    let json = gen.build_request_json();

    assert!(json.contains("\"kernel_id\":\"js\""));
    assert!(json.contains("\"cell_id\":\"cell1\""));
    assert!(json.contains("\"seq\":42"));
    assert!(json.contains("\"type\":\"source\""));
}

#[test]
fn request_json_escapes_source_text() {
    let gen = LiveCellCodeGen::with_source(config("js", 7), "a\"b\\c\nd\u{1}");
    assert_eq!(
        gen.build_request_json(),
        "{\"kernel_id\":\"js\",\"cell_id\":\"cell1\",\"doc_id\":\"doc1\",\"payload\":{\"type\":\"source\",\"data\":\"a\\\"b\\\\c\\nd\\u0001\"},\"seq\":7}"
    );
}

#[test]
fn request_json_encodes_wasm_in_base64() {
    let gen = LiveCellCodeGen::with_wasm(config("wasm", 3), vec![0x00, 0x61, 0x73, 0x6D, 0xFF]);
    assert_eq!(
        gen.build_request_json(),
        "{\"kernel_id\":\"wasm\",\"cell_id\":\"cell1\",\"doc_id\":\"doc1\",\"payload\":{\"type\":\"wasm\",\"data\":\"AGFzbf8=\"},\"seq\":3}"
    );
    assert_eq!(
        request_json(&config("k", 0), "t", "null"),
        "{\"kernel_id\":\"k\",\"cell_id\":\"cell1\",\"doc_id\":\"doc1\",\"payload\":{\"type\":\"t\",\"data\":null},\"seq\":0}"
    );
}

#[test]
fn test_leb128_encoding() {
    assert_eq!(encode_u32_leb(0), vec![0x00]);
    assert_eq!(encode_u32_leb(127), vec![0x7F]);
    assert_eq!(encode_u32_leb(128), vec![0x80, 0x01]);
    assert_eq!(encode_u32_leb(624485), vec![0xE5, 0x8E, 0x26]);
}

#[test]
fn test_emitter_with_memory() {
    let mut emitter = WasmEmitterWithMemory::new();

    let (offset, len) = emitter.add_string("hello");
    assert_eq!(offset, 0);
    assert_eq!(len, 5);

    let (offset2, len2) = emitter.add_string(" world");
    assert_eq!(offset2, 5);
    assert_eq!(len2, 6);
}

#[test]
fn memory_module_layout() {
    let mut emitter = WasmEmitterWithMemory::new();
    emitter.add_data(&[7, 8]);
    let module = emitter.emit();
    let expected: Vec<u8> = vec![
        0x00, 0x61, 0x73, 0x6D, 0x01, 0x00, 0x00, 0x00, // header
        0x05, 0x03, 0x01, 0x00, 0x01, // memory: one page
        0x0B, 0x08, 0x01, 0x00, 0x41, 0x00, 0x0B, 0x02, 7, 8, // data at 0
    ];
    assert_eq!(module, expected);
    let idx = emitter.emitter().add_function(&[], &[], vec![], vec![Instruction::End]);
    assert_eq!(idx, 0);
    assert!(emitter.emit().len() > expected.len());
}

#[test]
fn live_cell_module_starts_with_header() {
    let gen = LiveCellCodeGen::with_source(config("mrl", 1), "1 + 1");
    let module = gen.generate();
    assert_eq!(&module[0..8], &[0x00, 0x61, 0x73, 0x6D, 0x01, 0x00, 0x00, 0x00]);
    // type section: four types
    assert_eq!(module[8], 0x01);
    let show = LiveCellCodeGen::generate_show_module("hi");
    let tail: Vec<u8> = vec![0x0A, 0x0A, 0x01, 0x08, 0x00, 0x41, 0x00, 0x41, 0x02, 0x10, 0x00, 0x0B];
    assert_eq!(&show[show.len() - tail.len()..], &tail[..]);
}
