use dryad::auxv::{from_raw, str_of_idx, Auxv, AT_BASE, AT_ENTRY, AT_NULL, AT_PHDR, AT_SECURE, AUX_CNT};
use dryad::config::{split_paths, Config};
use dryad::kernel_block::KernelBlock;
use dryad::rela::{r_info, r_sym, r_type, reloc_kind, type_to_str, RelocKind, R_X86_64_IRELATIVE};

fn block(env: &[&str], aux: Vec<Auxv>) -> KernelBlock {
    KernelBlock::new(0, vec![], env.iter().map(|e| e.as_bytes().to_vec()).collect(), aux)
}

fn strings(v: &[Vec<u8>]) -> Vec<String> {
    v.iter().map(|s| String::from_utf8(s.clone()).unwrap()).collect()
}

#[test]
fn getenv_takes_value_after_equals() {
    let b = block(&["HOME=/root", "LD_BIND_NOW=1", "LD_LIBRARY_PATH=/a:/b", "NOEQUALS"], vec![]);
    assert_eq!(b.getenv(b"HOME"), Some(b"/root".to_vec()));
    assert_eq!(b.getenv(b"LD_BIND_NOW"), Some(b"1".to_vec()));
    assert_eq!(b.getenv(b"LD_PRELOAD"), None);
    assert_eq!(b.getenv(b"NOEQUALS"), None);
}

#[test]
fn getauxval_stops_at_null() {
    let b = block(&[], vec![
        Auxv { a_type: AT_BASE, a_val: 0x7000 },
        Auxv { a_type: AT_ENTRY, a_val: 0x401000 },
        Auxv { a_type: AT_NULL, a_val: 0 },
        Auxv { a_type: AT_PHDR, a_val: 0x40 },
    ]);
    assert_eq!(b.getauxval(AT_ENTRY), Some(0x401000));
    assert_eq!(b.getauxval(AT_BASE), Some(0x7000));
    assert_eq!(b.getauxval(AT_PHDR), None);
}

#[test]
fn config_reads_flags_and_paths() {
    let b = block(&["LD_BIND_NOW=1", "LD_SHOW_AUXV=", "LD_LIBRARY_PATH=/opt/a::/opt/b", "LD_DRYAD_DEBUG=0"], vec![Auxv { a_type: AT_NULL, a_val: 0 }]);
    let c = Config::new(&b);
    assert!(c.bind_now);
    assert!(!c.show_auxv);
    assert!(!c.debug);
    assert!(!c.secure);
    assert!(!c.verbose);
    assert_eq!(strings(&c.library_path), vec!["/opt/a", "", "/opt/b", "/usr/lib"]);
}

#[test]
fn config_secure_mode_ignores_library_path() {
    let b = block(&["LD_LIBRARY_PATH=/evil"], vec![Auxv { a_type: AT_SECURE, a_val: 1 }, Auxv { a_type: AT_NULL, a_val: 0 }]);
    let c = Config::new(&b);
    assert!(c.secure);
    assert!(c.debug);
    assert_eq!(strings(&c.library_path), vec!["/usr/lib"]);
    let plain = Config::new(&block(&[], vec![]));
    assert_eq!(strings(&plain.library_path), vec!["/usr/lib"]);
}

#[test]
fn split_keeps_empty_pieces() {
    assert_eq!(strings(&split_paths(&b"a::b".to_vec())), vec!["a", "", "b"]);
    assert_eq!(strings(&split_paths(&b"".to_vec())), vec![""]);
    assert_eq!(strings(&split_paths(&b"x:".to_vec())), vec!["x", ""]);
}

#[test]
fn aux_vector_by_type() {
    let v = from_raw(&vec![
        Auxv { a_type: AT_PHDR, a_val: 0x40 },
        Auxv { a_type: 99, a_val: 5 },
        Auxv { a_type: AT_ENTRY, a_val: 0x1000 },
        Auxv { a_type: AT_NULL, a_val: 0 },
        Auxv { a_type: AT_BASE, a_val: 0x9 },
    ]);
    assert_eq!(v.len(), AUX_CNT);
    assert_eq!(v[AT_PHDR as usize], 0x40);
    assert_eq!(v[AT_ENTRY as usize], 0x1000);
    assert_eq!(v[AT_BASE as usize], 0);
    assert_eq!(str_of_idx(AT_ENTRY), "AT_ENTRY");
    assert_eq!(str_of_idx(33), "AT_SYSINFO_EHDR");
    assert_eq!(str_of_idx(30), "UNKNOWN_AT_TYPE");
}

#[test]
fn relocation_info_fields() {
    let info = r_info(5, R_X86_64_IRELATIVE);
    assert_eq!(info, (5 << 32) + 37);
    assert_eq!(r_sym(info), 5);
    assert_eq!(r_type(info), 37);
    assert_eq!(type_to_str(37), "IRELATIVE");
    assert_eq!(type_to_str(8), "RELATIVE");
    assert_eq!(type_to_str(39), "UNKNOWN_RELA_TYPE");
    assert_eq!(reloc_kind(8), RelocKind::Relative);
    assert_eq!(reloc_kind(7), RelocKind::JumpSlot);
    assert_eq!(reloc_kind(5), RelocKind::Other);
}
