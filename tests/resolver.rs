use rcheat::address::{resolve_address, ImageKind};
use rcheat::elf::{match_sym_entry, ElfMgr, FormatError, MatchError, ResolveError, SectionLabel};
use rcheat::symbol::Denylist;

struct RawSymbol {
    name: &'static str,
    info: u8,
    shndx: u16,
    value: u64,
    size: u64,
}

const OBJECT_GLOBAL: u8 = 0x11;
const OBJECT_LOCAL: u8 = 0x01;
const FUNC_GLOBAL: u8 = 0x12;

fn push_u16(v: &mut Vec<u8>, x: u16) {
    v.extend_from_slice(&x.to_le_bytes());
}

fn push_u32(v: &mut Vec<u8>, x: u32) {
    v.extend_from_slice(&x.to_le_bytes());
}

fn push_u64(v: &mut Vec<u8>, x: u64) {
    v.extend_from_slice(&x.to_le_bytes());
}

fn table(names: &[&str]) -> (Vec<u8>, Vec<u32>) {
    let mut t = vec![0u8];
    let mut offs = Vec::new();
    for n in names {
        offs.push(t.len() as u32);
        t.extend_from_slice(n.as_bytes());
        t.push(0);
    }
    (t, offs)
}

fn pad8(v: &mut Vec<u8>) {
    while v.len() % 8 != 0 {
        v.push(0);
    }
}

/// A little-endian ELF64 image of header type `e_type` with sections
/// `.data`, `.bss`, `.symtab`, `.strtab`, `.shstrtab` and the given symbols.
fn build_elf(e_type: u16, syms: &[RawSymbol]) -> Vec<u8> {
    let (strtab, name_offs) = table(&syms.iter().map(|s| s.name).collect::<Vec<_>>());
    let (shstrtab, sh_offs) = table(&[".data", ".bss", ".symtab", ".strtab", ".shstrtab"]);
    let mut out = vec![0u8; 64];
    let data_off = out.len() as u64;
    out.extend_from_slice(&42i32.to_le_bytes());
    pad8(&mut out);
    let symtab_off = out.len() as u64;
    out.extend_from_slice(&[0u8; 24]);
    for (s, off) in syms.iter().zip(name_offs.iter()) {
        push_u32(&mut out, *off);
        out.push(s.info);
        out.push(0);
        push_u16(&mut out, s.shndx);
        push_u64(&mut out, s.value);
        push_u64(&mut out, s.size);
    }
    let symtab_size = out.len() as u64 - symtab_off;
    let strtab_off = out.len() as u64;
    out.extend_from_slice(&strtab);
    let shstrtab_off = out.len() as u64;
    out.extend_from_slice(&shstrtab);
    pad8(&mut out);
    let shoff = out.len() as u64;
    let mut sh = |name: u32, ty: u32, flags: u64, off: u64, size: u64, link: u32, entsize: u64| {
        push_u32(&mut out, name);
        push_u32(&mut out, ty);
        push_u64(&mut out, flags);
        push_u64(&mut out, 0);
        push_u64(&mut out, off);
        push_u64(&mut out, size);
        push_u32(&mut out, link);
        push_u32(&mut out, 1);
        push_u64(&mut out, 8);
        push_u64(&mut out, entsize);
    };
    sh(0, 0, 0, 0, 0, 0, 0);
    sh(sh_offs[0], 1, 3, data_off, 8, 0, 0);
    sh(sh_offs[1], 8, 3, data_off, 8, 0, 0);
    sh(sh_offs[2], 2, 0, symtab_off, symtab_size, 4, 24);
    sh(sh_offs[3], 3, 0, strtab_off, strtab.len() as u64, 0, 0);
    sh(sh_offs[4], 3, 0, shstrtab_off, shstrtab.len() as u64, 0, 0);
    let mut h = Vec::new();
    h.extend_from_slice(&[0x7f, b'E', b'L', b'F', 2, 1, 1, 0, 0, 0, 0, 0, 0, 0, 0, 0]);
    push_u16(&mut h, e_type);
    push_u16(&mut h, 62);
    push_u32(&mut h, 1);
    push_u64(&mut h, 0);
    push_u64(&mut h, 0);
    push_u64(&mut h, shoff);
    push_u32(&mut h, 0);
    push_u16(&mut h, 64);
    push_u16(&mut h, 56);
    push_u16(&mut h, 0);
    push_u16(&mut h, 64);
    push_u16(&mut h, 6);
    push_u16(&mut h, 5);
    out[..64].copy_from_slice(&h);
    out
}

fn sample_symbols(answer_at: u64) -> Vec<RawSymbol> {
    vec![
        RawSymbol { name: "answer", info: OBJECT_GLOBAL, shndx: 1, value: answer_at, size: 4 },
        RawSymbol { name: "completed.8061", info: OBJECT_LOCAL, shndx: 2, value: 0x4018, size: 1 },
        RawSymbol { name: "_ZN7simdutf12_GLOBAL__N_16tables13utf8_to_utf16L12utf8bigindexE", info: OBJECT_GLOBAL, shndx: 1, value: 0x4030, size: 8 },
        RawSymbol { name: "empty_marker", info: OBJECT_GLOBAL, shndx: 1, value: 0x4038, size: 0 },
        RawSymbol { name: "main", info: FUNC_GLOBAL, shndx: 1, value: 0x1000, size: 10 },
        RawSymbol { name: "answer_table", info: OBJECT_GLOBAL, shndx: 2, value: 0x4040, size: 16 },
        RawSymbol { name: "_ZL10sc_sig_arr", info: OBJECT_LOCAL, shndx: 1, value: 0x4050, size: 12 },
        RawSymbol { name: "absolute_thing", info: OBJECT_GLOBAL, shndx: 0xfff1, value: 0x10, size: 4 },
    ]
}

#[test]
fn fixed_image_resolves_unique_symbol() {
    let bytes = build_elf(2, &sample_symbols(0x4010));
    let mgr = ElfMgr::prase_from(&bytes).unwrap();
    assert_eq!(mgr.kind(), ImageKind::FixedAddress);
    assert!(mgr.is_exec_elf());
    assert!(!mgr.is_dyn_elf());
    let e = mgr.select_sym_entry("^answer$").unwrap();
    assert_eq!(e.obj_addr(), 0x4010);
    assert_eq!(e.obj_size(), 4);
    assert_eq!(e.origin_name(), "answer");
    assert_eq!(e.section(), ".data");
    assert!(!e.is_local_bind());
    assert_eq!(e.mangled_name(), None);
    assert_eq!(resolve_address(mgr.kind(), e.obj_addr(), "/bin/app", ""), Ok(0x4010));
}

#[test]
fn position_independent_image_translates_symbol() {
    let bytes = build_elf(3, &sample_symbols(0x2010));
    let mgr = ElfMgr::prase_from(&bytes).unwrap();
    assert_eq!(mgr.kind(), ImageKind::PositionIndependent);
    assert!(mgr.is_dyn_elf());
    let e = mgr.select_sym_entry("^answer$").unwrap();
    let maps = "7f0000000000-7f0000001000 r--p 00000000 08:02 5 /srv/app\n";
    assert_eq!(resolve_address(mgr.kind(), e.obj_addr(), "/srv/app", maps), Ok(0x7f0000002010));
}

#[test]
fn candidates_are_deterministic_and_ordered() {
    let bytes = build_elf(2, &sample_symbols(0x4010));
    let first = ElfMgr::prase_from(&bytes).unwrap().candidates("").unwrap();
    let again = ElfMgr::prase_from(&bytes.clone()).unwrap().candidates("").unwrap();
    let names: Vec<String> = first.iter().map(|e| e.origin_name().to_string()).collect();
    let names_again: Vec<String> = again.iter().map(|e| e.origin_name().to_string()).collect();
    assert_eq!(names, names_again);
    assert_eq!(names, vec!["answer", "answer_table", "sc_sig_arr"]);
}

#[test]
fn denylisted_names_are_never_candidates() {
    let bytes = build_elf(2, &sample_symbols(0x4010));
    let mgr = ElfMgr::prase_from(&bytes).unwrap();
    assert!(matches!(mgr.select_sym_entry("completed"), Err(ResolveError::NotFound)));
    assert!(matches!(mgr.select_sym_entry("utf8bigindex"), Err(ResolveError::NotFound)));
}

#[test]
fn several_matches_are_ambiguous() {
    let bytes = build_elf(2, &sample_symbols(0x4010));
    let mgr = ElfMgr::prase_from(&bytes).unwrap();
    match mgr.select_sym_entry("answer") {
        Err(ResolveError::Ambiguous(v)) => {
            assert_eq!(v.len(), 2);
            assert_eq!(v[0].origin_name(), "answer");
            assert_eq!(v[1].origin_name(), "answer_table");
            assert_eq!(v[1].section(), ".bss");
        }
        _ => panic!("expected two candidates"),
    }
}

#[test]
fn static_cpp_symbol_keeps_mangled_name() {
    let bytes = build_elf(2, &sample_symbols(0x4010));
    let mgr = ElfMgr::prase_from(&bytes).unwrap();
    let e = mgr.select_sym_entry("sc_sig").unwrap();
    assert_eq!(e.origin_name(), "sc_sig_arr");
    assert_eq!(e.mangled_name(), Some("_ZL10sc_sig_arr"));
    assert!(e.is_local_bind());
}

#[test]
fn invalid_keyword_matches_everything() {
    let bytes = build_elf(2, &sample_symbols(0x4010));
    let mgr = ElfMgr::prase_from(&bytes).unwrap();
    assert_eq!(mgr.candidates("(").unwrap().len(), 3);
}

#[test]
fn no_symbols_is_reported() {
    let bytes = build_elf(2, &[]);
    let mgr = ElfMgr::prase_from(&bytes).unwrap();
    assert!(matches!(mgr.select_sym_entry(""), Err(ResolveError::NotFound) | Err(ResolveError::NoSymbols)));
}

#[test]
fn section_labels() {
    let bytes = build_elf(2, &sample_symbols(0x4010));
    let mgr = ElfMgr::prase_from(&bytes).unwrap();
    assert_eq!(mgr.shndx_to_str(0), SectionLabel::Undefined);
    assert_eq!(mgr.shndx_to_str(1), SectionLabel::Named(".data".to_string()));
    assert_eq!(mgr.shndx_to_str(0xfff1), SectionLabel::Absolute);
    assert_eq!(mgr.shndx_to_str(77), SectionLabel::BadIndex(77));
}

#[test]
fn format_errors() {
    assert_eq!(ElfMgr::prase_from(&[0x7f, b'E']).err(), Some(FormatError::TooSmall));
    assert_eq!(ElfMgr::prase_from(&[0u8; 64]).err(), Some(FormatError::UnsupportedFormat));
    let mut truncated = vec![0x7f, b'E', b'L', b'F', 2, 1, 1, 0, 0, 0, 0, 0, 0, 0, 0, 0];
    truncated.extend_from_slice(&[2, 0, 62, 0]);
    assert_eq!(ElfMgr::prase_from(&truncated).err(), Some(FormatError::Malformed));
}

#[test]
fn check_regex_of_var() {
    let re_var = Denylist::new().unwrap();
    assert!(re_var.matches("completed.8061"));
    assert!(re_var.matches("._93"));
    assert!(re_var.matches("._anon_"));
    assert!(re_var.matches("..(anonymous namespace))abc"));
    assert!(re_var.matches("_IO_stdin_used"));
    assert!(re_var.matches("__gnu_@GLIBC"));
    assert!(re_var.matches("Cm::init()::__func__"));
    // empty keyword: every eligible symbol
    let bytes = build_elf(2, &sample_symbols(0x4010));
    let mgr = ElfMgr::prase_from(&bytes).unwrap();
    assert_eq!(mgr.candidates("").unwrap().len(), 3);
}

#[test]
fn denylist_keeps_ordinary_names() {
    let re_var = Denylist::new().unwrap();
    assert!(!re_var.matches("answer"));
    assert!(!re_var.matches("MaiData::statMemArray"));
    assert!(re_var.matches("std::cout"));
    assert!(re_var.matches("guard variable for foo"));
}

#[test]
fn demangle_and_detect_language() {
    // (mangled name, demangled name, whether the name is mangled)
    let tuple_arr = [
        ("_ZN7MaiData12statMemArrayE", "MaiData::statMemArray", true),
        ("simple_arr", "simple_arr", false),
        ("_ZL10sc_sig_arr", "sc_sig_arr", true),
    ];
    let syms: Vec<RawSymbol> = tuple_arr
        .iter()
        .enumerate()
        .map(|(i, t)| RawSymbol { name: t.0, info: OBJECT_GLOBAL, shndx: 1, value: 0x4000 + 8 * i as u64, size: 8 })
        .collect();
    let bytes = build_elf(2, &syms);
    let mgr = ElfMgr::prase_from(&bytes).unwrap();
    let found = mgr.candidates("").unwrap();
    assert_eq!(found.len(), tuple_arr.len());
    for (e, tup) in found.iter().zip(tuple_arr.iter()) {
        assert_eq!(e.origin_name(), tup.1);
        assert_eq!(e.mangled_name().is_some(), tup.2);
        if tup.2 {
            assert_eq!(e.mangled_name(), Some(tup.0));
        }
    }
}

#[test]
fn demangled_noise_is_dropped() {
    let names = [
        "_ZN7simdutf12_GLOBAL__N_16tables13utf8_to_utf16L12utf8bigindexE",
        "_Z11splitStringRKNSt7__cxx1112basic_stringIcSt11char_traitsIcESaIcEEEc.cold",
        "counter.42",
    ];
    let syms: Vec<RawSymbol> = names
        .iter()
        .map(|n| RawSymbol { name: n, info: OBJECT_GLOBAL, shndx: 1, value: 0x4000, size: 8 })
        .collect();
    let bytes = build_elf(2, &syms);
    let mgr = ElfMgr::prase_from(&bytes).unwrap();
    assert!(matches!(mgr.select_sym_entry(""), Err(ResolveError::NotFound)));
}

#[test]
fn plain_global_lookup() {
    let bytes = build_elf(2, &sample_symbols(0x4010));
    assert_eq!(match_sym_entry(&bytes, "answer_t"), Ok((0x4040, 16, 2)));
    assert_eq!(match_sym_entry(&bytes, "table"), Err(MatchError::Multiple(2)));
    assert_eq!(match_sym_entry(&bytes, "answer"), Err(MatchError::Multiple(2)));
    assert_eq!(match_sym_entry(&bytes, "sc_sig"), Err(MatchError::NotFound));
    assert_eq!(match_sym_entry(&bytes, "main"), Err(MatchError::NotFound));
    assert_eq!(match_sym_entry(&[1, 2, 3], "x"), Err(MatchError::Format(FormatError::TooSmall)));
}
