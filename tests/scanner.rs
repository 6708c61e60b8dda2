use hkx_mapper::call::{CallValues, OpDst, OpVal, REG_R8, REG_R9, REG_RCX, REG_RDX};
use hkx_mapper::decode::{decode_insns, Insn, Mnem, Operand};
use hkx_mapper::function::Function;
use hkx_mapper::header::{parse_header, ExeReader, ScanError, SectionHeader};
use hkx_mapper::path::GameDirectory;
use hkx_mapper::pointer::Pointer;
use hkx_mapper::scan::{scan_image, ExeScanner};
use hkx_mapper::section::SectionScanner;
use hkx_mapper::signature::{find_all, find_first, parse_signature};

const SIG: &str = "8B 44 24 30 89 41 14 48 8B 44 24";

fn put32(v: &mut [u8], o: usize, x: u32) {
    v[o..o + 4].copy_from_slice(&x.to_le_bytes());
}

/// Section data: a function at 2 holding the signature, and a caller at 18
/// that passes three arguments and calls it at 32.
fn text_data() -> Vec<u8> {
    let mut d = vec![0xCCu8; 0x40];
    let body = [0x8B, 0x44, 0x24, 0x30, 0x89, 0x41, 0x14, 0x48, 0x8B, 0x44, 0x24, 0x10, 0xC3];
    d[2..15].copy_from_slice(&body);
    d[15] = 0xC3;
    let caller = [
        0xB9, 0x05, 0x00, 0x00, 0x00, // mov ecx, 5
        0x31, 0xD2, // xor edx, edx
        0x4C, 0x8D, 0x05, 0x10, 0x00, 0x00, 0x00, // lea r8, [rip + 0x10]
        0xE8, 0xDD, 0xFF, 0xFF, 0xFF, // call 2
        0xC3, 0xC3,
    ];
    d[18..18 + caller.len()].copy_from_slice(&caller);
    d
}

/// A minimal PE image with one `.text` section whose raw data is `text`.
fn image_with(name: &[u8; 8], text: &[u8], raw_size: u32) -> Vec<u8> {
    let mut v = vec![0u8; 0x200];
    put32(&mut v, 0x3C, 0x40);
    v[0x40..0x44].copy_from_slice(b"PE\0\0");
    v[0x46..0x48].copy_from_slice(&1u16.to_le_bytes());
    v[0x54..0x56].copy_from_slice(&0x20u16.to_le_bytes());
    v[0x70..0x78].copy_from_slice(&0x1_4000_0000u64.to_le_bytes());
    let e = 0x78;
    v[e..e + 8].copy_from_slice(name);
    put32(&mut v, e + 0x08, 0x40);
    put32(&mut v, e + 0x0C, 0x1000);
    put32(&mut v, e + 0x10, raw_size);
    put32(&mut v, e + 0x14, 0x200);
    v.extend_from_slice(text);
    v
}

fn text_image() -> Vec<u8> {
    image_with(b".text\0\0\0", &text_data(), 0x40)
}

fn text_scanner() -> SectionScanner {
    let reader = ExeReader::open(text_image()).unwrap();
    SectionScanner::new(".text", &reader).ok().unwrap()
}

fn header(raw_ptr: u32, vaddr: u32) -> SectionHeader {
    SectionHeader {
        index: 0,
        name: ".text".to_string(),
        virtual_size: 0x100,
        virtual_addr: vaddr,
        raw_data_size: 0x100,
        raw_data_ptr: raw_ptr,
    }
}

fn insn(mnemonic: Mnem, op0: Operand, op1: Operand) -> Insn {
    Insn { mnemonic, op0, op1 }
}

#[test]
fn pointer_offsets() {
    let p = Pointer::new(0x10, &header(0x400, 0x1000));
    assert_eq!(p.raw_value(), 0x10);
    assert_eq!(p.file_offset(), 0x410);
    assert_eq!(p.virtual_offset(), 0x1010);
}

#[test]
fn signature_parses_literals_and_wildcards() {
    assert_eq!(parse_signature("8B 44 ?? 3f"), Some(vec![Some(0x8B), Some(0x44), None, Some(0x3F)]));
    assert_eq!(parse_signature("  e8\t?  "), Some(vec![Some(0xE8), None]));
    assert_eq!(parse_signature("8B 4"), None);
    assert_eq!(parse_signature("8B XY"), None);
    assert_eq!(parse_signature(""), Some(vec![]));
}

#[test]
fn literal_match_iff_equal_bytes() {
    let d = [1u8, 2, 3, 1, 2, 3, 1, 2];
    let p = parse_signature("01 02").unwrap();
    assert_eq!(find_first(&d, &p), Some(0));
    assert_eq!(find_all(&d, &p), vec![0, 3, 6]);
    let q = parse_signature("02 01").unwrap();
    assert_eq!(find_first(&d, &q), None);
    assert_eq!(find_all(&d, &q), Vec::<usize>::new());
}

#[test]
fn wildcard_matches_any_byte_and_overlaps() {
    let d = [0xAAu8, 0xAA, 0xAA, 0xBB];
    let p = parse_signature("AA ??").unwrap();
    assert_eq!(find_all(&d, &p), vec![0, 1, 2]);
    let q = parse_signature("?? BB").unwrap();
    assert_eq!(find_first(&d, &q), Some(2));
}

#[test]
fn boundary_recovers_padded_body() {
    let body = [0x48u8, 0x89, 0x5C, 0x24, 0x08, 0xC3];
    let mut d = vec![0xCC, 0xCC];
    d.extend_from_slice(&body);
    d.extend_from_slice(&[0xC3, 0xCC, 0xCC]);
    for j in 0..body.len() {
        assert_eq!(Function::bounds(&d, 2 + j), (2, 2 + body.len()));
        let mut needle = usize::MAX;
        let bytes = Function::get_bytes(&d, 2 + j, &mut needle);
        assert_eq!(bytes, body.to_vec());
        assert_eq!(needle, j);
    }
}

#[test]
fn boundary_stops_at_buffer_edges() {
    let d = [1u8, 2, 3, 4];
    assert_eq!(Function::bounds(&d, 2), (0, 3));
}

#[test]
fn xref_single_call_found() {
    let s = text_scanner();
    let f = s.find_func_sig(SIG).unwrap();
    assert_eq!(f.pointer.value, 2);
    let calls = s.find_func_calls(&f);
    assert_eq!(calls.len(), 1);
    assert_eq!(calls[0].pointer.value, 32);
    assert_eq!(calls[0].calling_func.pointer.value, 18);
    assert_eq!(calls[0].call_pos, 14);
}

#[test]
fn xref_non_matching_call_ignored() {
    let mut d = text_data();
    d[33] = 0x00;
    let image = image_with(b".text\0\0\0", &d, 0x40);
    let reader = ExeReader::open(image).unwrap();
    let s = SectionScanner::new(".text", &reader).ok().unwrap();
    let f = s.find_func_sig(SIG).unwrap();
    assert_eq!(s.find_func_calls(&f).len(), 0);
}

#[test]
fn get_args_constructor_idiom() {
    let mut state = CallValues::new();
    state.values.push((OpDst::Reg(REG_RDX), OpVal::Immediate(7)));
    let insns = vec![
        insn(Mnem::Mov, Operand::Register(REG_RCX), Operand::Immediate(5)),
        insn(Mnem::Mov, Operand::Register(REG_RDX), Operand::Register(REG_RDX)),
        insn(Mnem::Lea, Operand::Register(REG_R8), Operand::IpRelative(0x1234)),
    ];
    for i in &insns {
        state.set_val_op(i);
    }
    assert_eq!(state.get_args(3), vec![OpVal::Immediate(5), OpVal::Immediate(7), OpVal::Relative(0x1234)]);
}

#[test]
fn get_args_xor_zeroes_and_defaults() {
    let eax_full = iced_x86::Register::EAX.full_register() as u16;
    let insns = vec![
        insn(Mnem::Xor, Operand::Register(eax_full), Operand::Register(eax_full)),
        insn(Mnem::Mov, Operand::Register(REG_R9), Operand::Register(eax_full)),
        insn(Mnem::Mov, Operand::Memory { base: 57, displacement: 0x28 }, Operand::Immediate(9)),
        insn(Mnem::Lea, Operand::Register(REG_RDX), Operand::Memory { base: 99, displacement: 8 }),
    ];
    let state = CallValues::from_insns(&insns);
    assert_eq!(
        state.get_args(6),
        vec![
            OpVal::Immediate(0),
            OpVal::Unknown,
            OpVal::Immediate(0),
            OpVal::Immediate(0),
            OpVal::Immediate(0),
            OpVal::Immediate(9),
        ]
    );
}

#[test]
fn offset_value_wraps_and_keeps_unknown() {
    assert_eq!(OpVal::Immediate(10).add(u64::MAX), OpVal::Immediate(9));
    assert_eq!(OpVal::Relative(0x1000).add(0x20), OpVal::Relative(0x1020));
    assert_eq!(OpVal::Unknown.add(4), OpVal::Unknown);
}

#[test]
fn register_numbers_match_decoder() {
    assert_eq!(iced_x86::Register::RCX as u16, REG_RCX);
    assert_eq!(iced_x86::Register::RDX as u16, REG_RDX);
    assert_eq!(iced_x86::Register::R8 as u16, REG_R8);
    assert_eq!(iced_x86::Register::R9 as u16, REG_R9);
}

#[test]
fn decoded_call_site_arguments() {
    let s = text_scanner();
    let f = s.find_func_sig(SIG).unwrap();
    let calls = s.find_func_calls(&f);
    let values = calls[0].get_call_values();
    assert_eq!(
        values.get_args(3),
        vec![OpVal::Immediate(5), OpVal::Immediate(0), OpVal::Relative(0x1030)]
    );
}

#[test]
fn decode_models_operands() {
    // mov ecx, 5 ; lea r8, [rip + 0x10] ; mov [rsp + 0x20], rax
    let code = [0xB9, 0x05, 0, 0, 0, 0x4C, 0x8D, 0x05, 0x10, 0, 0, 0, 0x48, 0x89, 0x44, 0x24, 0x20];
    let insns = decode_insns(&code, 0x1000);
    assert_eq!(insns.len(), 3);
    assert_eq!(insns[0], insn(Mnem::Mov, Operand::Register(REG_RCX), Operand::Immediate(5)));
    assert_eq!(insns[1].op1, Operand::IpRelative(0x101C));
    assert_eq!(
        insns[2].op0,
        Operand::Memory { base: iced_x86::Register::RSP as u16, displacement: 0x20 }
    );
}

#[test]
fn end_to_end_pe_scan() {
    let rep = scan_image(text_image(), ".text", SIG).ok().unwrap();
    assert_eq!(rep.image_base, 0x1_4000_0000);
    assert_eq!(rep.signature.value, 2);
    assert_eq!(rep.signature.file_offset(), 2 + 0x200);
    assert_eq!(rep.signature.virtual_offset(), 2 + 0x1000);
    assert_eq!(rep.function.bytes.len(), 13);
    assert_eq!(rep.calls.len(), 1);
}

#[test]
fn repeated_scans_identical() {
    let s = text_scanner();
    let a = s.find_sig(SIG);
    let b = s.find_sig(SIG);
    assert!(a.is_some());
    assert_eq!(a, b);
}

#[test]
fn header_parse_reads_section_table() {
    let h = parse_header(&text_image()).ok().unwrap();
    assert_eq!(h.image_base, 0x1_4000_0000);
    assert_eq!(h.sections.len(), 1);
    let t = h.get_section(".text").unwrap();
    assert_eq!(t.name, ".text");
    assert_eq!((t.virtual_size, t.virtual_addr, t.raw_data_size, t.raw_data_ptr), (0x40, 0x1000, 0x40, 0x200));
    assert!(h.get_section(".data").is_none());
}

#[test]
fn error_format_on_short_image() {
    assert!(matches!(parse_header(&[0u8; 0x20]), Err(ScanError::Format)));
    assert!(matches!(scan_image(vec![0u8; 0x20], ".text", SIG), Err(ScanError::Format)));
}

#[test]
fn error_format_on_missing_section() {
    assert!(matches!(scan_image(text_image(), ".data", SIG), Err(ScanError::Format)));
}

#[test]
fn error_encoding_on_non_ascii_name() {
    let image = image_with(b".te\xFFt\0\0\0", &text_data(), 0x40);
    assert!(matches!(ExeReader::open(image), Err(ScanError::Encoding)));
}

#[test]
fn error_io_on_short_section() {
    let image = image_with(b".text\0\0\0", &text_data(), 0x80);
    assert!(matches!(scan_image(image, ".text", SIG), Err(ScanError::Io)));
}

#[test]
fn error_not_found_on_absent_signature() {
    assert!(matches!(scan_image(text_image(), ".text", "DE AD BE EF"), Err(ScanError::NotFound)));
}

#[test]
fn exe_path_under_game_dir() {
    let g = GameDirectory { path_buf: "C:/Games/FFXIV".to_string() };
    assert_eq!(g.get_exe_path(), "C:/Games/FFXIV/game/ffxiv_dx11.exe");
}

#[test]
fn exe_scanner_loads_text_section() {
    let g = GameDirectory { path_buf: "base".to_string() };
    let scanner = ExeScanner::new(g, text_image()).ok().unwrap();
    assert_eq!(scanner.get_header().image_base, 0x1_4000_0000);
    let text = scanner.section(".text").ok().unwrap();
    assert_eq!(text.name, ".text");
    assert_eq!(text.data, text_data());
    let p = text.find_sig(SIG).unwrap();
    assert_eq!(p.file_offset(), 0x202);
}

#[test]
fn exe_scanner_missing_section() {
    let g = GameDirectory { path_buf: "base".to_string() };
    let scanner = ExeScanner::new(g, text_image()).ok().unwrap();
    assert!(matches!(scanner.section(".rdata"), Err(ScanError::Format)));
}
