use dryad::elf::{parse_dynamic, parse_phdrs, parse_syms, read_u16, read_u32, read_u64, Dyn, PT_LOAD};
use dryad::gdb::insert_r_debug;
use dryad::image::compute_load_bias_wrapping;
use dryad::link_info::LinkInfo;
use dryad::loader::{compute_load_size, mprotect_phdrs, pflags_to_prot, plan_segments, reservation_bias, LoadError, SegmentMap};
use dryad::elf::ProgramHeader;

fn load_phdr(vaddr: u64, offset: u64, filesz: u64, memsz: u64, flags: u32) -> ProgramHeader {
    ProgramHeader { p_type: PT_LOAD, p_flags: flags, p_offset: offset, p_vaddr: vaddr, p_paddr: vaddr, p_filesz: filesz, p_memsz: memsz, p_align: 0x1000 }
}

#[test]
fn little_endian_reads() {
    let b = [0x01u8, 0x02, 0x03, 0x04, 0x05, 0x06, 0x07, 0x08];
    assert_eq!(read_u16(&b, 0), 0x0201);
    assert_eq!(read_u32(&b, 1), 0x05040302);
    assert_eq!(read_u64(&b, 0), 0x0807060504030201);
}

#[test]
fn program_headers_decode_fields() {
    let mut b = vec![0u8; 56 * 2];
    b[0] = 1;
    b[4] = 5;
    b[8] = 0x10;
    b[16] = 0x20;
    b[17] = 0x01;
    b[32] = 0x30;
    b[40] = 0x40;
    b[48] = 0x00;
    b[49] = 0x10;
    b[56] = 7;
    let p = parse_phdrs(&b, 0, 2).unwrap();
    assert_eq!(p[0].p_type, 1);
    assert_eq!(p[0].p_flags, 5);
    assert_eq!(p[0].p_offset, 0x10);
    assert_eq!(p[0].p_vaddr, 0x120);
    assert_eq!(p[0].p_filesz, 0x30);
    assert_eq!(p[0].p_memsz, 0x40);
    assert_eq!(p[0].p_align, 0x1000);
    assert_eq!(p[1].p_type, 7);
    assert!(parse_phdrs(&b, 8, 2).is_none());
}

#[test]
fn symbols_decode_fields() {
    let mut b = vec![0u8; 24];
    b[0] = 9;
    b[4] = 0x12;
    b[5] = 3;
    b[6] = 0x0b;
    b[8] = 0x44;
    b[16] = 0x08;
    let s = parse_syms(&b, 0, 1, 24).unwrap();
    assert_eq!(s[0].st_name, 9);
    assert_eq!(s[0].st_info, 0x12);
    assert_eq!(s[0].st_other, 3);
    assert_eq!(s[0].st_shndx, 0x0b);
    assert_eq!(s[0].st_value, 0x44);
    assert_eq!(s[0].st_size, 8);
    assert!(parse_syms(&b, 1, 1, 24).is_none());
}

#[test]
fn dynamic_array_stops_at_null() {
    let mut b = vec![0u8; 16 * 4];
    b[0] = 5;
    b[8] = 0x80;
    b[16] = 0;
    b[32] = 6;
    let d = parse_dynamic(&b, 0);
    assert_eq!(d, vec![Dyn { d_tag: 5, d_val: 0x80 }, Dyn { d_tag: 0, d_val: 0 }]);
    let tail = parse_dynamic(&b, 60);
    assert!(tail.is_empty());
}

#[test]
fn link_info_moves_addresses_by_bias() {
    let d = vec![
        Dyn { d_tag: 1, d_val: 3 },
        Dyn { d_tag: 5, d_val: 0x300 },
        Dyn { d_tag: 6, d_val: 0x200 },
        Dyn { d_tag: 10, d_val: 0x40 },
        Dyn { d_tag: 1, d_val: 9 },
        Dyn { d_tag: 30, d_val: 4 },
        Dyn { d_tag: 0x1234, d_val: 1 },
        Dyn { d_tag: 12, d_val: 0x10 },
    ];
    let li = LinkInfo::new(0x1000, &d);
    assert_eq!(li.strtab, 0x1300);
    assert_eq!(li.symtab, 0x1200);
    assert_eq!(li.strsz, 0x40);
    assert_eq!(li.needed_count, 2);
    assert_eq!(li.init, 0x1010);
    assert!(li.textrel);
    assert_eq!(li.flags, 4);
    let wrapped = LinkInfo::new(0x7fff_873f_1000, &[Dyn { d_tag: 5, d_val: 0xffff_ffff_ff70_0468 }]);
    assert_eq!(wrapped.strtab, 0x7fff_86af_1468);
}

#[test]
fn load_bias_wraps_for_overflowed_vaddrs() {
    let p = vec![load_phdr(0xffff_ffff_ff70_0000, 0, 0x1000, 0x1000, 5)];
    assert_eq!(compute_load_bias_wrapping(0x7fff_873f_1000, 64, &p), 0x7fff_87cf_1000);
    let plain = vec![load_phdr(0, 0, 0x1000, 0x1000, 5)];
    assert_eq!(compute_load_bias_wrapping(0x5000, 64, &plain), 0x5000);
    assert_eq!(compute_load_bias_wrapping(0x5000, 64, &vec![]), 0);
}

#[test]
fn load_span_and_segment_plan() {
    let p = vec![load_phdr(0x1000, 0x1000, 0x234, 0x234, 5), load_phdr(0x3e10, 0x2e10, 0x100, 0x400, 6)];
    let span = compute_load_size(&p).unwrap();
    assert_eq!(span.min_vaddr, 0x1000);
    assert_eq!(span.max_vaddr, 0x5000);
    assert_eq!(span.size, 0x4000);
    assert_eq!(compute_load_size(&vec![]).err(), Some(LoadError::NoLoadableSegments));
    assert_eq!(compute_load_size(&vec![load_phdr(u64::MAX - 8, 0, 0, 4, 5)]).err(), Some(LoadError::SpanOverflow));
    assert_eq!(reservation_bias(0x7000_0000, &span), 0x6fff_f000);
    let plan = plan_segments(&p, 0x7000_0000);
    assert_eq!(plan, vec![
        SegmentMap { addr: 0x7000_1000, len: 0x234, prot: 5, offset: 0x1000 },
        SegmentMap { addr: 0x7000_3000, len: 0xf10, prot: 3, offset: 0x2000 },
    ]);
    assert_eq!(pflags_to_prot(7), 7);
    assert_eq!(pflags_to_prot(4), 1);
    assert_eq!(pflags_to_prot(1), 4);
    let relax = mprotect_phdrs(&p, 0x7000_0000, true);
    assert_eq!(relax.len(), 1);
    assert_eq!((relax[0].start, relax[0].len, relax[0].prot), (0x7000_1000, 0x1000, 3));
    let restore = mprotect_phdrs(&p, 0x7000_0000, false);
    assert_eq!(restore.len(), 2);
    assert_eq!(restore[1].prot, 3);
}

#[test]
fn debug_slot_is_first_dt_debug() {
    let d = vec![Dyn { d_tag: 1, d_val: 0 }, Dyn { d_tag: 21, d_val: 0 }, Dyn { d_tag: 21, d_val: 0 }];
    assert_eq!(insert_r_debug(&d), Some(1));
    assert_eq!(insert_r_debug(&vec![Dyn { d_tag: 0, d_val: 0 }]), None);
}

#[test]
fn symbols_read_with_entry_stride() {
    let mut b = vec![0u8; 64];
    b[0] = 1;
    b[32] = 2;
    let s = parse_syms(&b, 0, 2, 32).unwrap();
    assert_eq!(s[0].st_name, 1);
    assert_eq!(s[1].st_name, 2);
    assert!(parse_syms(&b, 8, 2, 32).is_none());
}
