use wasm_reader::cursor::Cursor;
use wasm_reader::decode::{decode_code_section, decode_custom_section, decode_type_section};
use wasm_reader::validate::check_module;
use wasm_reader::error::{InvalidReason, ReadError};
use wasm_reader::fixtures;
use wasm_reader::reader::parse_module;
use wasm_reader::types::{ExportTarget, Function, ValueKind};

const I32: u8 = 0x7f;

fn header() -> Vec<u8> {
    vec![0x00, 0x61, 0x73, 0x6d, 0x01, 0x00, 0x00, 0x00]
}

fn section(out: &mut Vec<u8>, id: u8, payload: &[u8]) {
    assert!(payload.len() < 128);
    out.push(id);
    out.push(payload.len() as u8);
    out.extend_from_slice(payload);
}

fn sig(params: &[u8], results: &[u8]) -> Vec<u8> {
    let mut v = vec![0x60, params.len() as u8];
    v.extend_from_slice(params);
    v.push(results.len() as u8);
    v.extend_from_slice(results);
    v
}

fn export(name: &str, kind: u8, index: u8) -> Vec<u8> {
    let mut v = vec![name.len() as u8];
    v.extend_from_slice(name.as_bytes());
    v.push(kind);
    v.push(index);
    v
}

fn vector(items: &[Vec<u8>]) -> Vec<u8> {
    let mut v = vec![items.len() as u8];
    for it in items {
        v.extend_from_slice(it);
    }
    v
}

fn code_bodies(n: usize) -> Vec<u8> {
    // each body: no locals, `end`
    let items: Vec<Vec<u8>> = (0..n).map(|_| vec![0x02, 0x00, 0x0b]).collect();
    vector(&items)
}

/// Four functions add, sub, inc, show; sub is not exported.
fn four_function_module(exports: &[Vec<u8>]) -> Vec<u8> {
    let mut m = header();
    let types = vector(&[sig(&[I32, I32], &[I32]), sig(&[I32], &[I32]), sig(&[], &[])]);
    section(&mut m, 1, &types);
    section(&mut m, 3, &[4, 0, 0, 1, 2]);
    section(&mut m, 7, &vector(exports));
    section(&mut m, 10, &code_bodies(4));
    m
}

fn exports_add_inc_show() -> Vec<Vec<u8>> {
    vec![export("add", 0, 0), export("inc", 0, 2), export("show", 0, 3)]
}

#[test]
fn fixture_arithmetic() {
    assert_eq!(fixtures::add(2, 3), 5);
    assert_eq!(fixtures::sub(2, 3), -1);
    assert_eq!(fixtures::inc(41), 42);
    fixtures::show();
}

#[test]
fn varint_u32_single_and_multi_byte() {
    let b = [0x05u8];
    let mut c = Cursor::new(&b);
    assert_eq!(c.read_varint_u32(), Ok(5));
    assert!(c.is_empty());
    let b = [0xe5u8, 0x8e, 0x26, 0x99];
    let mut c = Cursor::new(&b);
    assert_eq!(c.read_varint_u32(), Ok(624485));
    assert_eq!(c.position(), 3);
    let b = [0xffu8, 0xff, 0xff, 0xff, 0x0f];
    let mut c = Cursor::new(&b);
    assert_eq!(c.read_varint_u32(), Ok(u32::MAX));
}

#[test]
fn varint_unending_is_malformed() {
    let b = [0x80u8, 0x80, 0x80, 0x80, 0x80, 0x00];
    let mut c = Cursor::new(&b);
    assert_eq!(c.read_varint_u32(), Err(ReadError::MalformedVarint));
    assert_eq!(c.position(), 0);
    let b = [0xffu8; 10];
    let mut c = Cursor::new(&b);
    assert_eq!(c.read_varint_u64(), Err(ReadError::MalformedVarint));
    assert_eq!(c.read_varint_i64(), Err(ReadError::MalformedVarint));
    let b = [0x80u8, 0x80];
    let mut c = Cursor::new(&b);
    assert_eq!(c.read_varint_i32(), Err(ReadError::MalformedVarint));
}

#[test]
fn varint_too_wide_is_malformed() {
    let b = [0xffu8, 0xff, 0xff, 0xff, 0x1f];
    let mut c = Cursor::new(&b);
    assert_eq!(c.read_varint_u32(), Err(ReadError::MalformedVarint));
    let b = [0xffu8, 0xff, 0xff, 0xff, 0xff, 0xff, 0xff, 0xff, 0xff, 0x02];
    let mut c = Cursor::new(&b);
    assert_eq!(c.read_varint_u64(), Err(ReadError::MalformedVarint));
}

#[test]
fn varint_empty_is_eof() {
    let b: [u8; 0] = [];
    let mut c = Cursor::new(&b);
    assert_eq!(c.read_varint_u32(), Err(ReadError::UnexpectedEof));
    assert_eq!(c.read_u8(), Err(ReadError::UnexpectedEof));
}

#[test]
fn varint_u64_max() {
    let b = [0xffu8, 0xff, 0xff, 0xff, 0xff, 0xff, 0xff, 0xff, 0xff, 0x01];
    let mut c = Cursor::new(&b);
    assert_eq!(c.read_varint_u64(), Ok(u64::MAX));
}

#[test]
fn varint_signed_values() {
    let b = [0x7fu8];
    assert_eq!(Cursor::new(&b).read_varint_i32(), Ok(-1));
    let b = [0xc0u8, 0xbb, 0x78];
    assert_eq!(Cursor::new(&b).read_varint_i32(), Ok(-123456));
    let b = [0x3fu8];
    assert_eq!(Cursor::new(&b).read_varint_i64(), Ok(63));
    let b = [0x80u8, 0x80, 0x80, 0x80, 0x78];
    assert_eq!(Cursor::new(&b).read_varint_i32(), Ok(i32::MIN));
    let b = [0x80u8, 0x80, 0x80, 0x80, 0x80, 0x80, 0x80, 0x80, 0x80, 0x7f];
    assert_eq!(Cursor::new(&b).read_varint_i64(), Ok(i64::MIN));
    let b = [0x80u8, 0x80, 0x80, 0x80, 0x08];
    assert_eq!(Cursor::new(&b).read_varint_i32(), Err(ReadError::MalformedVarint));
}

#[test]
fn fixed_and_take() {
    let b = [1u8, 2, 3, 4, 5];
    let mut c = Cursor::new(&b);
    assert_eq!(c.read_fixed(2), Ok(vec![1, 2]));
    assert_eq!(c.read_fixed(4), Err(ReadError::UnexpectedEof));
    let mut sub = c.take(2).unwrap();
    assert_eq!(sub.read_u8(), Ok(3));
    assert_eq!(sub.read_u8(), Ok(4));
    assert_eq!(sub.read_u8(), Err(ReadError::UnexpectedEof));
    assert_eq!(c.read_u8(), Ok(5));
    assert!(c.take(1).is_err());
}

#[test]
fn name_utf8() {
    let b = [3u8, b'a', b'd', b'd', 9];
    let mut c = Cursor::new(&b);
    assert_eq!(c.read_name(), Ok(b"add".to_vec()));
    assert_eq!(c.remaining(), 1);
    let b = [2u8, 0xc3, 0xa9];
    assert_eq!(Cursor::new(&b).read_name(), Ok(vec![0xc3, 0xa9]));
    let b = [2u8, 0xff, 0x41];
    let mut c = Cursor::new(&b);
    assert_eq!(c.read_name(), Err(ReadError::InvalidUtf8));
    assert_eq!(c.position(), 0);
    let b = [4u8, b'a'];
    assert_eq!(Cursor::new(&b).read_name(), Err(ReadError::UnexpectedEof));
}

#[test]
fn exports_distinguish_internal_functions() {
    let bytes = four_function_module(&exports_add_inc_show());
    let m = parse_module(&bytes).unwrap();
    assert_eq!(m.functions.len(), 4);
    assert_eq!(m.code.len(), 4);
    assert_eq!(m.exports.len(), 3);
    assert_eq!(m.find_export(b"add"), Some(ExportTarget::Function(0)));
    assert_eq!(m.find_export(b"inc"), Some(ExportTarget::Function(2)));
    assert_eq!(m.find_export(b"show"), Some(ExportTarget::Function(3)));
    assert_eq!(m.find_export(b"sub"), None);
    assert!(m.is_exported(0));
    assert!(!m.is_exported(1));
    assert!(m.is_exported(2));
    assert!(m.is_exported(3));
    let add = m.exported_function_type(b"add").unwrap();
    assert_eq!(add.params, vec![ValueKind::I32, ValueKind::I32]);
    assert_eq!(add.results, vec![ValueKind::I32]);
    let inc = m.exported_function_type(b"inc").unwrap();
    assert_eq!(inc.params, vec![ValueKind::I32]);
    assert_eq!(inc.results, vec![ValueKind::I32]);
    let show = m.exported_function_type(b"show").unwrap();
    assert!(show.params.is_empty());
    assert!(show.results.is_empty());
    assert_eq!(m.functions[1], Function { type_index: 0 });
}

#[test]
fn duplicate_export_name_is_invalid() {
    let bytes = four_function_module(&[export("add", 0, 0), export("add", 0, 1)]);
    assert_eq!(
        parse_module(&bytes),
        Err(ReadError::InvalidModule { reason: InvalidReason::DuplicateExport })
    );
}

#[test]
fn type_index_one_past_end_is_invalid() {
    let mut m = header();
    section(&mut m, 1, &vector(&[sig(&[I32], &[I32])]));
    section(&mut m, 3, &[1, 1]);
    section(&mut m, 10, &code_bodies(1));
    assert_eq!(
        parse_module(&m),
        Err(ReadError::InvalidModule { reason: InvalidReason::TypeIndexOutOfBounds })
    );
}

#[test]
fn minimal_module_round_trip() {
    let mut m = header();
    section(&mut m, 1, &vector(&[sig(&[I32, 0x7e], &[0x7d])]));
    section(&mut m, 3, &[1, 0]);
    section(&mut m, 7, &vector(&[export("f", 0, 0)]));
    section(&mut m, 10, &code_bodies(1));
    let module = parse_module(&m).unwrap();
    assert_eq!(module.exports.len(), 1);
    let t = module.exported_function_type(b"f").unwrap();
    assert_eq!(t.params, vec![ValueKind::I32, ValueKind::I64]);
    assert_eq!(t.results, vec![ValueKind::F32]);
}

#[test]
fn same_bytes_parse_equal() {
    let bytes = four_function_module(&exports_add_inc_show());
    let a = parse_module(&bytes);
    let b = parse_module(&bytes);
    assert!(a.is_ok());
    assert_eq!(a, b);
}

#[test]
fn section_longer_than_buffer_is_truncated() {
    let mut m = header();
    m.extend_from_slice(&[1, 10, 1, 0x60, 0, 0]);
    assert_eq!(parse_module(&m), Err(ReadError::TruncatedSection { section: 1 }));
    let mut m = four_function_module(&exports_add_inc_show());
    m.extend_from_slice(&[0, 5, 1]);
    assert_eq!(parse_module(&m), Err(ReadError::TruncatedSection { section: 0 }));
}

#[test]
fn header_errors() {
    assert_eq!(parse_module(&[0x00, 0x61, 0x73]), Err(ReadError::UnexpectedEof));
    assert_eq!(parse_module(&[0x00, 0x61, 0x73, 0x6e, 1, 0, 0, 0]), Err(ReadError::BadMagic));
    assert_eq!(parse_module(&[0x00, 0x61, 0x73, 0x6d, 1, 0]), Err(ReadError::UnexpectedEof));
    assert_eq!(parse_module(&[0x00, 0x61, 0x73, 0x6d, 2, 0, 0, 0]), Err(ReadError::UnsupportedVersion));
}

#[test]
fn empty_module_is_valid() {
    let m = parse_module(&header()).unwrap();
    assert!(m.types.is_empty());
    assert!(m.functions.is_empty());
    assert!(m.exports.is_empty());
    assert!(m.code.is_empty());
    assert!(m.customs.is_empty());
}

#[test]
fn unknown_value_kind() {
    let mut m = header();
    section(&mut m, 1, &vector(&[sig(&[0x55], &[])]));
    assert_eq!(parse_module(&m), Err(ReadError::UnknownValueKind { tag: 0x55 }));
    let mut m = header();
    section(&mut m, 1, &[1, 0x61, 0, 0]);
    assert_eq!(parse_module(&m), Err(ReadError::UnknownValueKind { tag: 0x61 }));
}

#[test]
fn unknown_export_kind() {
    let mut m = header();
    section(&mut m, 7, &vector(&[export("x", 9, 0)]));
    assert_eq!(parse_module(&m), Err(ReadError::UnknownExportKind { tag: 9 }));
}

#[test]
fn leftover_bytes_overrun_section() {
    let mut m = header();
    section(&mut m, 3, &[1, 0, 0]);
    assert_eq!(parse_module(&m), Err(ReadError::SectionOverrun { section: 3 }));
}

#[test]
fn function_code_count_mismatch() {
    let mut m = header();
    section(&mut m, 1, &vector(&[sig(&[], &[])]));
    section(&mut m, 3, &[2, 0, 0]);
    section(&mut m, 10, &code_bodies(1));
    assert_eq!(
        parse_module(&m),
        Err(ReadError::InvalidModule { reason: InvalidReason::FunctionCodeMismatch })
    );
}

#[test]
fn export_index_out_of_bounds() {
    let bytes = four_function_module(&[export("add", 0, 4)]);
    assert_eq!(
        parse_module(&bytes),
        Err(ReadError::InvalidModule { reason: InvalidReason::ExportIndexOutOfBounds })
    );
    // exports of other kinds are not bounds-checked
    let bytes = four_function_module(&[export("mem", 2, 7)]);
    let m = parse_module(&bytes).unwrap();
    assert_eq!(m.find_export(b"mem"), Some(ExportTarget::Memory(7)));
}

#[test]
fn invalid_utf8_export_name() {
    let mut m = header();
    section(&mut m, 7, &[1, 1, 0xff, 0, 0]);
    assert_eq!(parse_module(&m), Err(ReadError::InvalidUtf8));
}

#[test]
fn custom_and_unknown_sections_are_kept() {
    let mut m = header();
    section(&mut m, 0, &[4, b'n', b'a', b'm', b'e', 0xaa, 0xbb]);
    section(&mut m, 5, &[1, 0, 1]);
    section(&mut m, 0, &[9]);
    let module = parse_module(&m).unwrap();
    assert_eq!(module.customs.len(), 3);
    assert_eq!(module.customs[0].id, 0);
    assert_eq!(module.customs[0].name, b"name".to_vec());
    assert_eq!(module.customs[0].payload, vec![0xaa, 0xbb]);
    assert_eq!(module.customs[1].id, 5);
    assert!(module.customs[1].name.is_empty());
    assert_eq!(module.customs[1].payload, vec![1, 0, 1]);
    assert!(module.customs[2].name.is_empty());
    assert_eq!(module.customs[2].payload, vec![9]);
}

#[test]
fn export_before_function_section() {
    let mut m = header();
    section(&mut m, 7, &vector(&[export("g", 0, 0)]));
    section(&mut m, 10, &code_bodies(1));
    section(&mut m, 3, &[1, 0]);
    section(&mut m, 1, &vector(&[sig(&[], &[I32])]));
    let module = parse_module(&m).unwrap();
    let t = module.exported_function_type(b"g").unwrap();
    assert_eq!(t.results, vec![ValueKind::I32]);
    assert_eq!(module.code[0].bytes, vec![0x00, 0x0b]);
}

#[test]
fn section_decoders_on_windows() {
    let payload = vector(&[sig(&[I32], &[]), sig(&[], &[0x7c, 0x70])]);
    let types = decode_type_section(Cursor::new(&payload)).unwrap();
    assert_eq!(types.len(), 2);
    assert_eq!(types[0].params, vec![ValueKind::I32]);
    assert_eq!(types[1].results, vec![ValueKind::F64, ValueKind::FuncRef]);
    let mut longer = payload.clone();
    longer.push(0);
    assert_eq!(decode_type_section(Cursor::new(&longer)), Err(ReadError::SectionOverrun { section: 1 }));
    let code = [1u8, 3, 0, 0x41, 0x0b];
    let bodies = decode_code_section(Cursor::new(&code)).unwrap();
    assert_eq!(bodies[0].bytes, vec![0, 0x41, 0x0b]);
    let bad_name = [5u8, b'a'];
    let c = decode_custom_section(Cursor::new(&bad_name), 0);
    assert!(c.name.is_empty());
    assert_eq!(c.payload, vec![5, b'a']);
}

#[test]
fn window_reads_only_its_range() {
    let b = [9u8, 8, 7, 6];
    let mut c = Cursor::window(&b, 1, 2);
    assert_eq!(c.position(), 1);
    assert_eq!(c.remaining(), 2);
    assert_eq!(c.peek_at(1), 7);
    assert_eq!(c.read_fixed(2), Ok(vec![8, 7]));
    assert!(c.is_empty());
}

#[test]
fn check_module_reports_first_violation() {
    let bytes = four_function_module(&exports_add_inc_show());
    let mut m = parse_module(&bytes).unwrap();
    assert_eq!(check_module(&m), Ok(()));
    m.functions.push(Function { type_index: 9 });
    assert_eq!(check_module(&m), Err(InvalidReason::FunctionCodeMismatch));
}
