use dryad::elf::{ProgramHeader, PT_TLS};
use dryad::tls::{
    allocate_dtv, determine_offset, roundup, tls_fits_exec, DTV_SURPLUS, allocate_tls_init, Lachesis, SlotInfo, TlsInfo, TLS_STATIC_SURPLUS,
    TLS_TCB_SIZE,
};

fn tls_phdr(vaddr: u64, filesz: u64, memsz: u64, align: u64) -> ProgramHeader {
    ProgramHeader {
        p_type: PT_TLS,
        p_flags: 4,
        p_offset: vaddr,
        p_vaddr: vaddr,
        p_paddr: vaddr,
        p_filesz: filesz,
        p_memsz: memsz,
        p_align: align,
    }
}

fn slot(blocksize: u64, align: u64, modid: u32) -> SlotInfo {
    SlotInfo {
        generation: 1,
        info: TlsInfo {
            blocksize,
            align,
            offset: 0,
            modid,
            firstbyte_offset: 0,
            image: 0,
            image_size: 0,
        },
    }
}

fn layout(modules: &mut Vec<SlotInfo>) -> (u64, u64, u64) {
    let (mut align, mut used, mut size) = (0u64, 0u64, 0u64);
    determine_offset(&mut align, &mut used, &mut size, modules);
    (align, used, size)
}

#[test]
fn tls_two_modules_pack_without_overlap() {
    let mut modules = vec![slot(16, 8, 1), slot(8, 8, 2)];
    let (align, used, size) = layout(&mut modules);
    assert_eq!(used, 24);
    assert_eq!(modules[0].info.offset, 16);
    assert_eq!(modules[1].info.offset, 24);
    assert_eq!(align, 64);
    assert_eq!(size, roundup(24 + TLS_STATIC_SURPLUS, 64) + TLS_TCB_SIZE);
    assert_eq!(size, 4032);
    for m in &modules {
        assert_eq!(m.info.offset % 8, 0);
    }
}

#[test]
fn tls_single_module_fits_in_static_block() {
    let mut modules = vec![slot(120, 8, 1)];
    let (_align, used, size) = layout(&mut modules);
    let off = modules[0].info.offset;
    assert_eq!(off, 120);
    assert_eq!(used, 120);
    assert!(off + modules[0].info.blocksize <= size);
    assert!(off <= size - TLS_TCB_SIZE);
}

#[test]
fn tls_reuses_alignment_gap() {
    // A 4-byte block aligned to 64 leaves a gap that a later small block fills.
    let mut modules = vec![slot(4, 1, 1), slot(8, 64, 2), slot(4, 1, 3)];
    let (align, used, _size) = layout(&mut modules);
    assert_eq!(modules[0].info.offset, 4);
    assert_eq!(modules[1].info.offset, 64);
    assert_eq!(modules[2].info.offset, 8);
    assert_eq!(used, 64);
    assert_eq!(align, 64);
}

#[test]
fn tls_no_modules() {
    let mut modules: Vec<SlotInfo> = Vec::new();
    let (align, used, size) = layout(&mut modules);
    assert_eq!(used, 0);
    assert_eq!(align, 64);
    assert_eq!(size, roundup(TLS_STATIC_SURPLUS, 64) + TLS_TCB_SIZE);
}

#[test]
fn tls_info_from_phdr() {
    let t = TlsInfo::new(3, 0x1000, &tls_phdr(0x2004, 16, 40, 8));
    assert_eq!(t.blocksize, 40);
    assert_eq!(t.align, 8);
    assert_eq!(t.firstbyte_offset, 4);
    assert_eq!(t.image, 0x3004);
    assert_eq!(t.image_size, 16);
    assert_eq!(t.modid, 3);
    let z = TlsInfo::new(1, 0, &tls_phdr(0x2004, 0, 8, 0));
    assert_eq!(z.firstbyte_offset, 0);
}

#[test]
fn lachesis_assigns_ids_from_one() {
    let mut l = Lachesis::new(false);
    let a = l.push_module(0, &tls_phdr(0, 4, 8, 8));
    let b = l.push_module(0, &tls_phdr(0, 4, 8, 8));
    assert_eq!(a.modid, 1);
    assert_eq!(b.modid, 2);
    assert_eq!(l.modules.len(), 2);
    assert_eq!(l.current_modid, 2);
}

#[test]
fn static_area_holds_images_then_zeros() {
    let mut modules = vec![slot(16, 8, 1), slot(8, 8, 2)];
    modules[0].info.image_size = 3;
    modules[1].info.image_size = 2;
    let (_align, _used, size) = layout(&mut modules);
    let images = vec![vec![1u8, 2, 3], vec![9u8, 8]];
    let area = allocate_tls_init(&modules, &images, size);
    assert_eq!(area.len() as u64, size);
    let tp = (size - TLS_TCB_SIZE) as usize;
    let a = tp - 16;
    assert_eq!(&area[a..a + 16], &[1, 2, 3, 0, 0, 0, 0, 0, 0, 0, 0, 0, 0, 0, 0, 0]);
    let b = tp - 24;
    assert_eq!(&area[b..b + 8], &[9, 8, 0, 0, 0, 0, 0, 0]);
    assert!(area[tp..].iter().all(|&x| x == 0));
}

#[test]
fn layout_and_thread_vector() {
    let mut l = Lachesis::new(false);
    l.push_module(0, &tls_phdr(0, 4, 16, 8));
    l.push_module(0, &tls_phdr(0, 4, 8, 8));
    let t = l.layout().expect("fits");
    assert_eq!(t.static_used, 24);
    assert_eq!(t.static_size, 4032);
    assert_eq!(l.modules[0].info.offset, 16);
    let dtv = allocate_dtv(&l.modules, t.static_size);
    assert_eq!(dtv.len, 2 + DTV_SURPLUS as u64);
    assert_eq!(dtv.slots.len(), 3 + DTV_SURPLUS);
    let tp = t.static_size - TLS_TCB_SIZE;
    assert_eq!(dtv.slots[0], None);
    assert_eq!(dtv.slots[1], Some(tp - 16));
    assert_eq!(dtv.slots[2], Some(tp - 24));
    assert!(dtv.slots[3..].iter().all(|s| s.is_none()));
}

#[test]
fn layout_refuses_overflowing_blocks() {
    let mut l = Lachesis::new(false);
    l.push_module(0, &tls_phdr(0, 0, u64::MAX / 2, 8));
    assert!(!tls_fits_exec(&l.modules));
    assert!(l.layout().is_none());
    assert_eq!(l.modules[0].info.offset, 0);
}
