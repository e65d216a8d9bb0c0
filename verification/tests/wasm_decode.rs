use lib::wasm::exports::{Export, ExportDesc};
use lib::wasm::func::Func;
use lib::wasm::leb128::{List, VarInt32, VarUint32, VarUint8};
use lib::wasm::instance::ModuleInstanceRef;
use lib::wasm::module::Module;
use lib::wasm::ops::{Instruction, Instructions};
use lib::wasm::section::{CustomSection, Section};
use lib::wasm::types::{BlockType, FuncType, Type, ValueType};
use lib::wasm::{Cursor, Decoder, Error, Read};

fn uint32(buf: &[u8]) -> Option<u32> {
    VarUint32::decode(&mut Cursor::new(buf)).ok().map(|v| v.value())
}

#[test]
fn test_uint32() {
    assert_eq!(uint32(&[0x00]), Some(0));
    assert_eq!(uint32(&[0x04]), Some(4));
    assert_eq!(uint32(&[0x80, 0x7f]), Some(16256));
    assert_eq!(uint32(&[0xe5, 0x8e, 0x26]), Some(624485));
    assert_eq!(uint32(&[0x80, 0x80, 0x80, 0x4f]), Some(165675008));
    assert_eq!(uint32(&[0x83, 0x80, 0x80, 0x80, 0x80, 0x00]), None);
}

#[test]
fn test_int32() {
    let d = |b: &[u8]| VarInt32::decode(&mut Cursor::new(b)).ok().map(|v| v.value());
    assert_eq!(d(&[0x13]), Some(19));
    assert_eq!(d(&[0x00]), Some(0));
    assert_eq!(d(&[0xff, 0x00]), Some(127));
    assert_eq!(d(&[0x7f]), Some(-1));
    assert_eq!(d(&[0x81, 0x7f]), Some(-127));
}

#[test]
fn test_uint8() {
    let d = |b: &[u8]| VarUint8::decode(&mut Cursor::new(b)).ok().map(|v| v.value());
    assert_eq!(d(&[0x7f]), Some(127));
    assert_eq!(d(&[]), None);
}

#[test]
fn test_uint32_list() {
    let list = List::<VarUint32>::decode(&mut Cursor::new(&[0x03, 0x01, 0x02, 0x03])).unwrap();
    let values: Vec<u32> = list.into_inner().iter().map(|v| v.value()).collect();
    assert_eq!(values, vec![1, 2, 3]);
}

#[test]
fn test_value_type() {
    let d = |b: &[u8]| ValueType::decode(&mut Cursor::new(b)).ok();
    assert_eq!(d(&[0x7f]), Some(ValueType::Int32));
    assert_eq!(d(&[0x7e]), Some(ValueType::Int64));
    assert!(d(&[0x00]).is_none());
}

#[test]
fn test_func_type() {
    let ft = FuncType::decode(&mut Cursor::new(&[0x02, 0x7f, 0x7f, 0x01, 0x7e])).unwrap();
    assert_eq!(ft.params(), &[ValueType::Int32, ValueType::Int32]);
    assert_eq!(ft.results(), &[ValueType::Int64]);
}

#[test]
fn test_type_func() {
    let t = Type::decode(&mut Cursor::new(&[0x60, 0x01, 0x7f, 0x00])).unwrap();
    let ft = t.func_type().unwrap();
    assert_eq!(ft.params(), &[ValueType::Int32]);
    assert!(ft.results().is_empty());
    assert!(Type::decode(&mut Cursor::new(&[0x61, 0x00, 0x00])).is_err());
}

#[test]
fn test_decode_export() {
    let e = Export::decode(&mut Cursor::new(&[0x03, 0x66, 0x69, 0x62, 0x00, 0x00])).unwrap();
    assert_eq!(e.name(), "fib");
    assert_eq!(*e.desc(), ExportDesc::Func(0));
}

#[test]
fn test_decode_code_local() {
    let f = Func::decode(&mut Cursor::new(&[0x04, 0x01, 0x03, 0x7f, 0x0b])).unwrap();
    assert_eq!(f.locals().len(), 1);
    assert_eq!(f.locals()[0].n(), 3);
    assert_eq!(f.locals()[0].value_type(), ValueType::Int32);
}

#[test]
fn test_fib() {
    let buf: &[u8] = &[
        0x20, 0x00, 0x41, 0x02, 0x4f, 0x04, 0x40, 0x20, 0x00, 0x41, 0x7f, 0x6a, 0x21, 0x01, 0x41,
        0x01, 0x21, 0x00, 0x03, 0x40, 0x20, 0x00, 0x22, 0x03, 0x20, 0x02, 0x6a, 0x21, 0x00, 0x20,
        0x03, 0x21, 0x02, 0x20, 0x01, 0x41, 0x7f, 0x6a, 0x22, 0x01, 0x0d, 0x00, 0x0b, 0x0b, 0x20,
        0x00, 0x0b,
    ];
    let instructions = Instructions::decode(&mut Cursor::new(buf)).unwrap();
    assert_eq!(27usize, instructions.entries().len());
    assert_eq!(
        instructions.entries(),
        &[
            Instruction::LocalGet(0),
            Instruction::I32Const(2),
            Instruction::I32GeU,
            Instruction::If(BlockType::Empty),
            Instruction::LocalGet(0),
            Instruction::I32Const(-1),
            Instruction::I32Add,
            Instruction::LocalSet(1),
            Instruction::I32Const(1),
            Instruction::LocalSet(0),
            Instruction::Loop(BlockType::Empty),
            Instruction::LocalGet(0),
            Instruction::LocalTee(3),
            Instruction::LocalGet(2),
            Instruction::I32Add,
            Instruction::LocalSet(0),
            Instruction::LocalGet(3),
            Instruction::LocalSet(2),
            Instruction::LocalGet(1),
            Instruction::I32Const(-1),
            Instruction::I32Add,
            Instruction::LocalTee(1),
            Instruction::BrIf(0),
            Instruction::End,
            Instruction::End,
            Instruction::LocalGet(0),
            Instruction::End,
        ]
    );
}

const CUSTOM: [u8; 35] = [
    0x22, 0x04, 0x6e, 0x61, 0x6d, 0x65, 0x01, 0x06, 0x01, 0x00, 0x03, 0x66, 0x69, 0x62, 0x02, 0x13,
    0x01, 0x00, 0x04, 0x00, 0x02, 0x70, 0x30, 0x01, 0x02, 0x6c, 0x30, 0x02, 0x02, 0x6c, 0x31, 0x03,
    0x02, 0x6c, 0x32,
];

#[test]
fn test_decode_custom_hashmap() {
    let custom = CustomSection::decode(&mut Cursor::new(&CUSTOM)).unwrap();
    let names = custom.function_names().unwrap();
    assert_eq!(names.len(), 1);
    assert_eq!(names.get(&0).map(|s| s.as_str()), Some("fib"));
}

#[test]
fn module_rejects_bad_magic() {
    let bytes = [0x00, 0x61, 0x73, 0x6e, 0x01, 0x00, 0x00, 0x00];
    assert!(Module::decode(&mut Cursor::new(&bytes)).is_err());
}

#[test]
fn module_rejects_other_version() {
    let bytes = [0x00, 0x61, 0x73, 0x6d, 0x02, 0x00, 0x00, 0x00];
    assert!(Module::decode(&mut Cursor::new(&bytes)).is_err());
}

#[test]
fn module_empty_has_no_sections() {
    let bytes = [0x00, 0x61, 0x73, 0x6d, 0x01, 0x00, 0x00, 0x00];
    let m = Module::decode(&mut Cursor::new(&bytes)).unwrap();
    assert!(m.sections().is_empty());
    assert!(m.type_section().is_none());
}

/// A module with a type, function, export, code and name section for one
/// function `fib` (i32) -> i32, as the `fib.wasm` fixture holds it.
fn fib_module() -> Vec<u8> {
    let mut m = vec![0x00, 0x61, 0x73, 0x6d, 0x01, 0x00, 0x00, 0x00];
    m.extend_from_slice(&[0x01, 0x06, 0x01, 0x60, 0x01, 0x7f, 0x01, 0x7f]);
    m.extend_from_slice(&[0x03, 0x02, 0x01, 0x00]);
    m.extend_from_slice(&[0x07, 0x07, 0x01, 0x03, 0x66, 0x69, 0x62, 0x00, 0x00]);
    let body: [u8; 47] = [
        0x20, 0x00, 0x41, 0x02, 0x4f, 0x04, 0x40, 0x20, 0x00, 0x41, 0x7f, 0x6a, 0x21, 0x01, 0x41,
        0x01, 0x21, 0x00, 0x03, 0x40, 0x20, 0x00, 0x22, 0x03, 0x20, 0x02, 0x6a, 0x21, 0x00, 0x20,
        0x03, 0x21, 0x02, 0x20, 0x01, 0x41, 0x7f, 0x6a, 0x22, 0x01, 0x0d, 0x00, 0x0b, 0x0b, 0x20,
        0x00, 0x0b,
    ];
    m.extend_from_slice(&[0x0a, 0x34, 0x01, 0x32, 0x01, 0x03, 0x7f]);
    m.extend_from_slice(&body);
    m.push(0x00);
    m.extend_from_slice(&CUSTOM);
    m
}

#[test]
fn test_decode_file() {
    let bytes = fib_module();
    let module = Module::decode(&mut Cursor::new(&bytes)).expect("should be decoded");
    assert_eq!(5, module.sections().len());
    assert!(module.type_section().is_some());
    assert!(module.function_section().is_some());
    assert!(module.export_section().is_some());
    assert!(module.code_section().is_some());
}

#[test]
fn test_module_instance() {
    let bytes = fib_module();
    let module = Module::decode(&mut Cursor::new(&bytes)).expect("should be decoded");
    let instance = ModuleInstanceRef::instantiate(module);
    let func = instance.func_by_name("fib").expect("should be exists");
    assert_eq!("fib", func.name());
    assert_eq!(1, func.locals().len());
}

#[test]
fn error_invalid_uint32() {
    let r = VarUint32::decode(&mut Cursor::new(&[0x83, 0x80, 0x80, 0x80, 0x80, 0x00]));
    assert!(matches!(r, Err(Error::InvalidUint32)));
}

#[test]
fn error_invalid_int32() {
    let r = VarInt32::decode(&mut Cursor::new(&[0x80, 0x80, 0x80, 0x80, 0x80, 0x00]));
    assert!(matches!(r, Err(Error::InvalidInt32)));
}

#[test]
fn error_unexpected_eof() {
    assert!(matches!(VarUint8::decode(&mut Cursor::new(&[])), Err(Error::UnexpectedEOF)));
    assert!(matches!(Module::decode(&mut Cursor::new(&[0x00, 0x61])), Err(Error::UnexpectedEOF)));
}

#[test]
fn error_invalid_magic_and_version() {
    let bad_magic = [0x00, 0x61, 0x73, 0x6e, 0x01, 0x00, 0x00, 0x00];
    assert!(matches!(Module::decode(&mut Cursor::new(&bad_magic)), Err(Error::InvalidMagic)));
    let v2 = [0x00, 0x61, 0x73, 0x6d, 0x02, 0x00, 0x00, 0x00];
    assert!(matches!(Module::decode(&mut Cursor::new(&v2)), Err(Error::UnsupportedVersion(2))));
}

#[test]
fn error_invalid_section_id() {
    assert!(matches!(Section::decode(&mut Cursor::new(&[0x0c, 0x00])), Err(Error::InvalidSectionId(12))));
    assert!(matches!(Instruction::decode(&mut Cursor::new(&[0xff])), Err(Error::InvalidSectionId(0xff))));
}

#[test]
fn error_invalid_type_and_value_type() {
    assert!(matches!(Type::decode(&mut Cursor::new(&[0x61, 0x00, 0x00])), Err(Error::InvalidTypeSection(0x61))));
    assert!(matches!(ValueType::decode(&mut Cursor::new(&[0x00])), Err(Error::InvalidValueType(0))));
}

#[test]
fn error_invalid_export_desc() {
    assert!(matches!(ExportDesc::decode(&mut Cursor::new(&[0x04, 0x00])), Err(Error::InvalidExportDesc(4))));
}

#[test]
fn error_unknown_block_type() {
    assert!(matches!(BlockType::decode(&mut Cursor::new(&[0x7b])), Err(Error::UnknownBlockType(-5))));
    assert_eq!(BlockType::decode(&mut Cursor::new(&[0x40])).ok(), Some(BlockType::Empty));
}

#[test]
fn cursor_read_past_the_end_consumes_nothing() {
    let data = [1u8, 2, 3];
    let mut c = Cursor::new(&data);
    let mut one = [0u8; 1];
    assert!(c.read(&mut one).is_ok());
    assert_eq!(one, [1]);
    let mut three = [9u8; 3];
    assert!(matches!(c.read(&mut three), Err(Error::UnexpectedEOF)));
    assert_eq!(three, [9, 9, 9]);
    let mut two = [0u8; 2];
    assert!(c.read(&mut two).is_ok());
    assert_eq!(two, [2, 3]);
}

#[test]
fn unsupported_inputs_are_refused() {
    // the sign of a signed number would reach past 32 bits
    let r = VarInt32::decode(&mut Cursor::new(&[0x80, 0x80, 0x80, 0x80, 0x40]));
    assert!(matches!(r, Err(Error::Unsupported)));
    // reference types
    assert!(matches!(ValueType::decode(&mut Cursor::new(&[0x70])), Err(Error::Unsupported)));
    assert!(matches!(ValueType::decode(&mut Cursor::new(&[0x6f])), Err(Error::Unsupported)));
    assert!(matches!(ValueType::decode(&mut Cursor::new(&[0x60])), Err(Error::InvalidValueType(0x60))));
    // a module whose custom section holds a name that is not UTF-8
    let bytes = [0x00, 0x61, 0x73, 0x6d, 0x01, 0x00, 0x00, 0x00, 0x00, 0x02, 0x01, 0xff];
    assert!(matches!(Module::decode(&mut Cursor::new(&bytes)), Err(Error::Unsupported)));
}
