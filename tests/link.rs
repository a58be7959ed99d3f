use dryad::auxv::{Auxv, AT_NULL, AT_SECURE};
use dryad::config::Config;
use dryad::elf::{ProgramHeader, PT_DYNAMIC, PT_LOAD, PT_PHDR, PT_TLS};
use dryad::gdb::State;
use dryad::image::{ImageError, SharedObject};
use dryad::kernel_block::KernelBlock;
use dryad::linker::{init_plan, lazy_call, plt_entry, Action, InitStep, Linker, Phase, PltStep};
use dryad::rela::{r_info, R_X86_64_64, R_X86_64_GLOB_DAT, R_X86_64_IRELATIVE, R_X86_64_JUMP_SLOT, R_X86_64_RELATIVE, R_X86_64_TPOFF64};
use dryad::relocation::{find_symbol, relocation_plan, resolve_symbol, Patch, RelocError};
use dryad::strtab::hash;
use std::collections::HashMap;

const GLOBAL_FUNC: u8 = 0x12;
const LOCAL_FUNC: u8 = 0x02;

struct Obj {
    needed: Vec<&'static str>,
    soname: &'static str,
    syms: Vec<(&'static str, u64, u8)>,
    relas: Vec<(u64, u64, u64, i64)>,
    plt: Vec<(u64, u64, u64, i64)>,
    init: u64,
    textrel: bool,
    tls: bool,
    exe: bool,
    debug: bool,
}

fn obj(needed: Vec<&'static str>, soname: &'static str, syms: Vec<(&'static str, u64, u8)>) -> Obj {
    Obj { needed, soname, syms, relas: vec![], plt: vec![], init: 0, textrel: false, tls: false, exe: false, debug: false }
}

fn put(img: &mut [u8], off: usize, v: u64, n: usize) {
    for k in 0..n {
        img[off + k] = (v >> (8 * k)) as u8;
    }
}

const SYMTAB: usize = 0x280;
const DYNAMIC: usize = 0x120;
const GNU_HASH: usize = 0x480;
const RELA: usize = 0x500;
const JMPREL: usize = 0x600;
const PLTGOT: u64 = 0x700;

fn phdrs_of(o: &Obj) -> Vec<ProgramHeader> {
    let mut v = vec![
        ProgramHeader { p_type: PT_LOAD, p_flags: 5, p_offset: 0, p_vaddr: 0, p_paddr: 0, p_filesz: 0x800, p_memsz: 0x800, p_align: 0x1000 },
        ProgramHeader { p_type: PT_DYNAMIC, p_flags: 6, p_offset: DYNAMIC as u64, p_vaddr: DYNAMIC as u64, p_paddr: DYNAMIC as u64, p_filesz: 0x160, p_memsz: 0x160, p_align: 8 },
    ];
    if o.exe {
        v.insert(0, ProgramHeader { p_type: PT_PHDR, p_flags: 4, p_offset: 64, p_vaddr: 64, p_paddr: 64, p_filesz: 56 * 4, p_memsz: 56 * 4, p_align: 8 });
    }
    if o.tls {
        v.push(ProgramHeader { p_type: PT_TLS, p_flags: 4, p_offset: 0x7c0, p_vaddr: 0x7c0, p_paddr: 0x7c0, p_filesz: 8, p_memsz: 16, p_align: 8 });
    }
    v
}

fn build(o: &Obj) -> Vec<u8> {
    let mut img = vec![0u8; 0x800];
    let phdrs = phdrs_of(o);
    put(&mut img, 32, 64, 8);
    put(&mut img, 56, phdrs.len() as u64, 2);
    for (i, h) in phdrs.iter().enumerate() {
        let at = 64 + 56 * i;
        put(&mut img, at, h.p_type as u64, 4);
        put(&mut img, at + 4, h.p_flags as u64, 4);
        put(&mut img, at + 8, h.p_offset, 8);
        put(&mut img, at + 16, h.p_vaddr, 8);
        put(&mut img, at + 24, h.p_paddr, 8);
        put(&mut img, at + 32, h.p_filesz, 8);
        put(&mut img, at + 40, h.p_memsz, 8);
        put(&mut img, at + 48, h.p_align, 8);
    }
    // string table
    let mut strtab = vec![0u8];
    let mut add = |s: &str, strtab: &mut Vec<u8>| -> u64 {
        let off = strtab.len() as u64;
        strtab.extend_from_slice(s.as_bytes());
        strtab.push(0);
        off
    };
    let needed: Vec<u64> = o.needed.iter().map(|n| add(n, &mut strtab)).collect();
    let soname = add(o.soname, &mut strtab);
    let names: Vec<u64> = o.syms.iter().map(|s| add(s.0, &mut strtab)).collect();
    let nsyms = o.syms.len() + 1;
    for (i, s) in o.syms.iter().enumerate() {
        let at = SYMTAB + 24 * (i + 1);
        put(&mut img, at, names[i], 4);
        img[at + 4] = s.2;
        put(&mut img, at + 6, 1, 2);
        put(&mut img, at + 8, s.1, 8);
    }
    let strtab_at = SYMTAB + 24 * nsyms;
    img[strtab_at..strtab_at + strtab.len()].copy_from_slice(&strtab);
    // GNU hash: one bucket holding every symbol from index 1 on
    put(&mut img, GNU_HASH, 1, 4);
    put(&mut img, GNU_HASH + 4, 1, 4);
    put(&mut img, GNU_HASH + 8, 1, 4);
    put(&mut img, GNU_HASH + 12, 6, 4);
    put(&mut img, GNU_HASH + 16, u64::MAX, 8);
    put(&mut img, GNU_HASH + 24, if o.syms.is_empty() { 0 } else { 1 }, 4);
    for (i, s) in o.syms.iter().enumerate() {
        let mut h = hash(s.0.as_bytes()) & !1;
        if i + 1 == o.syms.len() {
            h |= 1;
        }
        put(&mut img, GNU_HASH + 28 + 4 * i, h as u64, 4);
    }
    for (i, r) in o.relas.iter().enumerate() {
        put(&mut img, RELA + 24 * i, r.0, 8);
        put(&mut img, RELA + 24 * i + 8, r_info(r.1, r.2), 8);
        put(&mut img, RELA + 24 * i + 16, r.3 as u64, 8);
    }
    for (i, r) in o.plt.iter().enumerate() {
        put(&mut img, JMPREL + 24 * i, r.0, 8);
        put(&mut img, JMPREL + 24 * i + 8, r_info(r.1, r.2), 8);
        put(&mut img, JMPREL + 24 * i + 16, r.3 as u64, 8);
    }
    // dynamic section
    let mut dyns: Vec<(u64, u64)> = needed.iter().map(|&n| (1u64, n)).collect();
    dyns.push((14, soname));
    dyns.push((6, SYMTAB as u64));
    dyns.push((5, strtab_at as u64));
    dyns.push((10, strtab.len() as u64));
    dyns.push((11, 24));
    dyns.push((0x6ffffef5, GNU_HASH as u64));
    dyns.push((7, RELA as u64));
    dyns.push((8, 24 * o.relas.len() as u64));
    dyns.push((9, 24));
    dyns.push((23, JMPREL as u64));
    dyns.push((2, 24 * o.plt.len() as u64));
    dyns.push((3, PLTGOT));
    if o.init != 0 {
        dyns.push((12, o.init));
    }
    if o.textrel {
        dyns.push((22, 0));
    }
    if o.debug {
        dyns.push((21, 0));
    }
    dyns.push((0, 0));
    for (i, d) in dyns.iter().enumerate() {
        put(&mut img, DYNAMIC + 16 * i, d.0, 8);
        put(&mut img, DYNAMIC + 16 * i + 8, d.1, 8);
    }
    img
}

fn load(o: &Obj, name: &str, base: u64) -> SharedObject {
    let img = build(o);
    SharedObject::from_image(name.as_bytes().to_vec(), &img, base, base, phdrs_of(o), Some(format!("/opt/libs/{}", name).into_bytes()), None)
        .expect("image parses")
}

fn block(env: Vec<&str>, secure: u64) -> KernelBlock {
    KernelBlock::new(
        1,
        vec![b"prog".to_vec()],
        env.iter().map(|e| e.as_bytes().to_vec()).collect(),
        vec![Auxv { a_type: AT_SECURE, a_val: secure }, Auxv { a_type: AT_NULL, a_val: 0 }],
    )
}

/// Runs the linker's steps against a table of files up to relocation,
/// counting how many times each file is opened.
fn run_link_env(env: Vec<&str>, exe: SharedObject, files: &HashMap<String, (Obj, u64)>, opened: &mut HashMap<String, u32>) -> Result<(Linker, Vec<Patch>), String> {
    let config = Config::new(&block(env, 0));
    let mut linker = new_linker(config, None);
    linker.start(exe);
    assert_eq!(linker.gdb.r_state, State::Add);
    loop {
        match linker.next_action() {
            Action::Load { name, paths } => {
                let mut found = None;
                for path in paths {
                    let p = String::from_utf8(path).unwrap();
                    if let Some((o, base)) = files.get(&p) {
                        *opened.entry(p.clone()).or_insert(0) += 1;
                        found = Some(load(o, std::str::from_utf8(&name).unwrap(), *base));
                        break;
                    }
                }
                match found {
                    Some(so) => linker.record_loaded(so),
                    None => return Err(String::from_utf8(linker.missing_library(&name)).unwrap()),
                }
            }
            Action::Relocate(plan) => return Ok((linker, plan)),
            Action::RelocFailed(e) => return Err(format!("{:?}", e)),
            _ => panic!("loading ends with relocation"),
        }
    }
}

fn run_link(exe: SharedObject, files: &HashMap<String, (Obj, u64)>, opened: &mut HashMap<String, u32>) -> Result<Linker, String> {
    run_link_env(vec!["LD_LIBRARY_PATH=/opt/libs"], exe, files, opened).map(|(l, _)| l)
}

/// A linker whose own image, mapped at 0x1000, holds one base-relative
/// relocation.
fn new_linker(config: Config, vdso: Option<SharedObject>) -> Linker {
    let mut me = obj(vec![], "ld-dryad.so", vec![]);
    me.relas = vec![(0x708, 0, R_X86_64_RELATIVE, 0x40)];
    let (linker, patches) = Linker::new(&build(&me), 0x1000, 0x2000, config, vdso).expect("linker image parses");
    assert_eq!(patches, vec![Patch::Word { addr: 0x1708, value: 0x1040 }]);
    linker
}

fn names(lm: &[SharedObject]) -> Vec<String> {
    lm.iter().map(|s| String::from_utf8(s.name.clone()).unwrap()).collect()
}

#[test]
fn image_parses_tables() {
    let mut o = obj(vec!["libB.so"], "libA.so", vec![("fa", 0x100, GLOBAL_FUNC), ("local", 0x140, LOCAL_FUNC)]);
    o.relas = vec![(0x710, 0, R_X86_64_RELATIVE, 0x30)];
    let so = load(&o, "libA.so", 0x20000);
    assert_eq!(so.libs, vec![b"libB.so".to_vec()]);
    assert_eq!(so.symtab.len(), 3);
    assert_eq!(so.relocations.len(), 1);
    assert_eq!(so.relocations[0].r_offset, 0x710);
    assert_eq!(so.relocations[0].r_addend, 0x30);
    assert_eq!(so.pltgot, 0x20000 + PLTGOT);
    assert_eq!(so.phdrs[0].p_memsz, 0x800);
    let fa = so.find(b"fa", hash(b"fa")).expect("fa is defined");
    assert_eq!(fa.st_value, 0x100);
    assert_eq!(fa.st_info, GLOBAL_FUNC);
    assert!(so.find(b"nothere", hash(b"nothere")).is_none());
}

#[test]
fn raw_image_is_named_by_soname() {
    let o = obj(vec![], "linux-vdso.so.1", vec![("__vdso_time", 0x300, GLOBAL_FUNC)]);
    let img = build(&o);
    let so = SharedObject::from_raw(&img, 0x7fff0000).expect("vdso parses");
    assert_eq!(so.name, b"linux-vdso.so.1".to_vec());
    assert_eq!(so.load_bias, 0x7fff0000);
    assert_eq!(so.phdrs.len(), 2);
    assert_eq!(so.phdrs[1].p_type, PT_DYNAMIC);
}

#[test]
fn image_errors() {
    let o = obj(vec![], "x.so", vec![]);
    let img = build(&o);
    let no_dyn = vec![phdrs_of(&o)[0]];
    assert_eq!(SharedObject::from_image(vec![], &img, 0, 0, no_dyn, None, None).err(), Some(ImageError::MissingDynamicSection));
    let no_load = vec![phdrs_of(&o)[1]];
    assert_eq!(SharedObject::from_image(vec![], &img, 0, 0, no_load, None, None).err(), Some(ImageError::MissingLoadSegment));
    assert_eq!(SharedObject::from_image(vec![], &img[..0x120], 0, 0, phdrs_of(&o), None, None).err(), Some(ImageError::OutOfImage));
    assert_eq!(SharedObject::from_raw(&img[..10], 0).err(), Some(ImageError::OutOfImage));
}

#[test]
fn chain_loads_in_order_and_runs_initializers_once() {
    let exe = load(&obj(vec!["libA.so"], "", vec![]), "prog", 0x10000);
    let mut a = obj(vec!["libB.so"], "libA.so", vec![("fa", 0x100, GLOBAL_FUNC)]);
    a.init = 0x180;
    let mut b = obj(vec![], "libB.so", vec![("fb", 0x200, GLOBAL_FUNC)]);
    b.init = 0x1c0;
    let mut files = HashMap::new();
    files.insert("/opt/libs/libA.so".to_string(), (a, 0x20000));
    files.insert("/opt/libs/libB.so".to_string(), (b, 0x30000));
    let mut opened = HashMap::new();
    let linker = run_link(exe, &files, &mut opened).expect("links");
    assert_eq!(names(&linker.link_map), vec!["prog", "libA.so", "libB.so"]);
    assert_eq!(linker.gdb.r_map.len(), 2);
    assert_eq!(linker.gdb.r_state, State::Consistent);
    assert_eq!(linker.gdb.r_map[0].l_name, b"/opt/libs/libA.so".to_vec());
    assert_eq!(linker.gdb.r_map[0].l_ld, 0x20120);
    let plan = relocation_plan(&linker.link_map, false).expect("relocates");
    let hooks: Vec<usize> = plan.iter().filter_map(|p| if let Patch::Hook { index, .. } = p { Some(*index) } else { None }).collect();
    assert_eq!(hooks, vec![0, 1, 2]);
    assert_eq!(init_plan(&linker.link_map), vec![InitStep::Call(0x20180), InitStep::Call(0x301c0)]);
}

#[test]
fn diamond_dependency_is_loaded_once() {
    let exe = load(&obj(vec!["libA.so", "libB.so"], "", vec![]), "prog", 0x10000);
    let mut files = HashMap::new();
    files.insert("/opt/libs/libA.so".to_string(), (obj(vec!["libC.so"], "libA.so", vec![]), 0x20000));
    files.insert("/opt/libs/libB.so".to_string(), (obj(vec!["libC.so"], "libB.so", vec![]), 0x30000));
    files.insert("/opt/libs/libC.so".to_string(), (obj(vec![], "libC.so", vec![]), 0x40000));
    let mut opened = HashMap::new();
    let linker = run_link(exe, &files, &mut opened).expect("links");
    assert_eq!(names(&linker.link_map), vec!["prog", "libA.so", "libB.so", "libC.so"]);
    assert_eq!(opened["/opt/libs/libC.so"], 1);
    let plan = relocation_plan(&linker.link_map, false).unwrap();
    let c_hooks = plan.iter().filter(|p| matches!(p, Patch::Hook { index: 3, .. })).count();
    assert_eq!(c_hooks, 1);
}

#[test]
fn breadth_first_order_across_levels() {
    let exe = load(&obj(vec!["libA.so", "libB.so"], "", vec![]), "prog", 0x10000);
    let mut files = HashMap::new();
    files.insert("/opt/libs/libA.so".to_string(), (obj(vec!["libC.so"], "libA.so", vec![]), 0x20000));
    files.insert("/opt/libs/libB.so".to_string(), (obj(vec!["libD.so"], "libB.so", vec![]), 0x30000));
    files.insert("/opt/libs/libC.so".to_string(), (obj(vec!["libE.so"], "libC.so", vec![]), 0x40000));
    files.insert("/opt/libs/libD.so".to_string(), (obj(vec![], "libD.so", vec![]), 0x50000));
    files.insert("/opt/libs/libE.so".to_string(), (obj(vec![], "libE.so", vec![]), 0x60000));
    let mut opened = HashMap::new();
    let linker = run_link(exe, &files, &mut opened).expect("links");
    assert_eq!(names(&linker.link_map), vec!["prog", "libA.so", "libB.so", "libC.so", "libD.so", "libE.so"]);
}

#[test]
fn missing_dependency_names_library_and_paths() {
    let exe = load(&obj(vec!["libA.so", "libZ.so"], "", vec![]), "prog", 0x10000);
    let mut files = HashMap::new();
    files.insert("/opt/libs/libA.so".to_string(), (obj(vec![], "libA.so", vec![]), 0x20000));
    let mut opened = HashMap::new();
    let err = run_link(exe, &files, &mut opened).err().expect("fails");
    assert_eq!(err, "could not find libZ.so in /opt/libs:/usr/lib");
}

#[test]
fn missing_dependency_leaves_registry_alone() {
    let config = Config::new(&block(vec![], 0));
    let mut linker = new_linker(config, None);
    linker.add_needed(&vec![b"libZ.so".to_vec()]);
    let name = linker.next_to_load().unwrap();
    let msg = linker.missing_library(&name);
    assert_eq!(msg, b"could not find libZ.so in /usr/lib".to_vec());
    assert_eq!(linker.gdb.r_map.len(), 0);
    assert_eq!(linker.working_set.len(), 0);
}

fn two_libs_same_symbol() -> Vec<SharedObject> {
    let mut exe_o = obj(vec!["libA.so", "libB.so"], "", vec![("dup", 0, 0x10), ("fb", 0, 0x10), ("fx", 0, 0x10)]);
    exe_o.relas = vec![
        (0x708, 0, R_X86_64_RELATIVE, 0x30),
        (0x710, 1, R_X86_64_GLOB_DAT, 0),
        (0x718, 2, R_X86_64_64, 4),
        (0x720, 3, R_X86_64_GLOB_DAT, 0),
    ];
    exe_o.plt = vec![(0x728, 2, R_X86_64_JUMP_SLOT, 0), (0x730, 0, R_X86_64_IRELATIVE, 0x50)];
    // the executable only imports these names: it exports nothing
    let mut exe = load(&exe_o, "prog", 0x10000);
    exe.gnu_hash = None;
    let a = load(&obj(vec![], "libA.so", vec![("dup", 0x100, GLOBAL_FUNC), ("fx", 0x110, LOCAL_FUNC)]), "libA.so", 0x20000);
    let b = load(&obj(vec![], "libB.so", vec![("dup", 0x200, GLOBAL_FUNC), ("fb", 0x210, GLOBAL_FUNC), ("fx", 0x220, GLOBAL_FUNC)]), "libB.so", 0x30000);
    vec![exe, a, b]
}

#[test]
fn earlier_object_wins_symbol_search() {
    let lm = two_libs_same_symbol();
    let (i, d) = find_symbol(&lm, b"dup").unwrap();
    assert_eq!(i, 1);
    assert_eq!(d.st_value, 0x100);
    let (k, x) = find_symbol(&lm, b"fx").unwrap();
    assert_eq!(k, 2, "a local definition does not satisfy the search");
    assert_eq!(x.st_value, 0x220);
    assert_eq!(find_symbol(&lm, b"fb").unwrap().0, 2);
    assert!(find_symbol(&lm, b"absent").is_none());
}

#[test]
fn relocation_patches() {
    let lm = two_libs_same_symbol();
    let plan = relocation_plan(&lm, false).expect("relocates");
    assert!(plan.contains(&Patch::Word { addr: 0x10708, value: 0x10030 }));
    assert!(plan.contains(&Patch::Word { addr: 0x10710, value: 0x20100 }));
    assert!(plan.contains(&Patch::Word { addr: 0x10718, value: 0x30214 }));
    assert!(plan.contains(&Patch::Word { addr: 0x10720, value: 0x30220 }));
    assert!(plan.contains(&Patch::Indirect { addr: 0x10730, resolver: 0x10050 }));
    assert!(!plan.iter().any(|p| matches!(p, Patch::Word { addr: 0x10728, .. })));
    let first_indirect = plan.iter().position(|p| matches!(p, Patch::Indirect { .. })).unwrap();
    let last_hook = plan.iter().rposition(|p| matches!(p, Patch::Hook { .. })).unwrap();
    assert!(last_hook < first_indirect, "every GOT pass comes before any PLT pass");
    let eager = relocation_plan(&lm, true).unwrap();
    assert!(eager.contains(&Patch::Word { addr: 0x10728, value: 0x30210 }));
}

#[test]
fn relative_relocation_with_negative_addend_wraps() {
    let mut o = obj(vec![], "x.so", vec![]);
    o.relas = vec![(0x708, 0, R_X86_64_RELATIVE, -0x10)];
    let lm = vec![load(&o, "x.so", 0x10000)];
    let plan = relocation_plan(&lm, false).unwrap();
    assert_eq!(plan[0], Patch::Word { addr: 0x10708, value: 0xfff0 });
    let again = relocation_plan(&lm, false).unwrap();
    assert_eq!(plan, again);
}

#[test]
fn thread_offset_needs_tls_provider() {
    let mut e = obj(vec!["libT.so"], "", vec![("tv", 0, 0x10)]);
    e.relas = vec![(0x708, 1, R_X86_64_TPOFF64, 8)];
    let mut exe = load(&e, "prog", 0x10000);
    exe.gnu_hash = None;
    let t = load(&obj(vec![], "libT.so", vec![("tv", 0x4, 0x16)]), "libT.so", 0x20000);
    let lm = vec![exe, t];
    assert_eq!(relocation_plan(&lm, false).err(), Some(RelocError::MissingTls { requester: 0, provider: 1 }));
    let mut with_tls = lm;
    let mut info = dryad::tls::TlsInfo::new(1, 0x20000, &phdrs_of(&{ let mut o = obj(vec![], "", vec![]); o.tls = true; o })[2]);
    info.offset = 0x40;
    with_tls[1].tls = Some(info);
    let plan = relocation_plan(&with_tls, false).unwrap();
    assert!(plan.contains(&Patch::Word { addr: 0x10708, value: 4u64.wrapping_add(8).wrapping_sub(0x40) }));
}

#[test]
fn textrel_pages_are_relaxed_then_restored() {
    let mut o = obj(vec![], "x.so", vec![]);
    o.textrel = true;
    o.relas = vec![(0x708, 0, R_X86_64_RELATIVE, 1)];
    let lm = vec![load(&o, "x.so", 0x10000)];
    let plan = relocation_plan(&lm, false).unwrap();
    assert!(matches!(plan.first(), Some(Patch::Protect(p)) if p.prot == 3 && p.start == 0x10000 && p.len == 0x1000));
    assert!(matches!(plan.last(), Some(Patch::Protect(p)) if p.prot == 5));
}

#[test]
fn lazy_binding_resolves_once() {
    let lm = two_libs_same_symbol();
    let stub = 0x10999;
    let mut got = vec![0u64, 0, 0, stub];
    let mut resolver_calls = 0;
    let mut targets = vec![];
    for _ in 0..2 {
        match plt_entry(&got, 3, stub) {
            PltStep::Resolve => {
                resolver_calls += 1;
                targets.push(lazy_call(&lm, 0, 0, &mut got, 3, stub).unwrap());
            }
            PltStep::Jump(t) => targets.push(t),
        }
    }
    assert_eq!(resolver_calls, 1);
    assert_eq!(targets[0], targets[1]);
    assert_eq!(got[3], targets[0]);
    assert_eq!(lazy_call(&lm, 0, 0, &mut got, 3, stub), Some(targets[0]));
}

#[test]
fn lazy_binding_of_missing_symbol_is_fatal() {
    let mut e = obj(vec![], "", vec![("nosuch", 0, 0x10)]);
    e.plt = vec![(0x728, 1, R_X86_64_JUMP_SLOT, 0)];
    let mut exe = load(&e, "prog", 0x10000);
    exe.gnu_hash = None;
    let lm = vec![exe];
    assert_eq!(resolve_symbol(&lm, 0, 0), None);
    let mut got = vec![0u64, 0, 0, 7];
    assert_eq!(lazy_call(&lm, 0, 0, &mut got, 3, 7), None);
    assert_eq!(got[3], 7);
    assert_eq!(resolve_symbol(&lm, 0, 5), None);
}

#[test]
fn vdso_comes_first_after_executable() {
    let vdso = load(&obj(vec![], "linux-vdso.so.1", vec![]), "linux-vdso.so.1", 0x7000_0000);
    let config = Config::new(&block(vec![], 0));
    let mut linker = new_linker(config, Some(vdso));
    let exe = load(&obj(vec![], "", vec![]), "prog", 0x10000);
    linker.add_needed(&exe.libs);
    assert!(linker.next_to_load().is_none());
    linker.finish(exe);
    assert_eq!(names(&linker.link_map), vec!["prog", "linux-vdso.so.1"]);
}

#[test]
fn executable_from_kernel_mapping() {
    let mut o = obj(vec!["libc.so.6"], "", vec![("main", 0x100, GLOBAL_FUNC)]);
    o.exe = true;
    o.tls = true;
    o.init = 0x140;
    let img = build(&o);
    let base = 0x55_0000;
    let mut lachesis = dryad::tls::Lachesis::new(false);
    let exe = SharedObject::from_executable(b"./prog".to_vec(), &img, base, base + 64, phdrs_of(&o).len(), &mut lachesis)
        .expect("executable parses");
    assert_eq!(exe.load_bias, base);
    assert_eq!(exe.libs, vec![b"libc.so.6".to_vec()]);
    assert_eq!(exe.load_path, Some(b"./prog".to_vec()));
    assert_eq!(exe.link_info.init, base + 0x140);
    let t = exe.tls.expect("has TLS");
    assert_eq!(t.modid, 1);
    assert_eq!(t.blocksize, 16);
    assert_eq!(t.image, base + 0x7c0);
    assert_eq!(lachesis.modules.len(), 1);
    let far = SharedObject::from_executable(b"./prog".to_vec(), &img, base, base + 0x10000, 3, &mut lachesis);
    assert_eq!(far.err(), Some(ImageError::OutOfImage));
    assert_eq!(lachesis.modules.len(), 1);
}

#[test]
fn registry_records_each_load_in_order() {
    let exe = load(&obj(vec!["libA.so", "libB.so"], "", vec![]), "prog", 0x10000);
    let mut files = HashMap::new();
    files.insert("/opt/libs/libA.so".to_string(), (obj(vec![], "libA.so", vec![]), 0x20000));
    files.insert("/opt/libs/libB.so".to_string(), (obj(vec![], "libB.so", vec![]), 0x30000));
    let mut opened = HashMap::new();
    let linker = run_link(exe, &files, &mut opened).expect("links");
    let entries: Vec<(u64, Vec<u8>, u64)> = linker.gdb.r_map.iter().map(|e| (e.l_addr, e.l_name.clone(), e.l_ld)).collect();
    assert_eq!(entries, vec![
        (0x20000, b"/opt/libs/libA.so".to_vec(), 0x20120),
        (0x30000, b"/opt/libs/libB.so".to_vec(), 0x30120),
    ]);
}

#[test]
fn link_steps_follow_the_protocol() {
    let exe = load(&obj(vec!["libA.so"], "", vec![]), "prog", 0x10000);
    let mut a = obj(vec![], "libA.so", vec![]);
    a.init = 0x180;
    let mut files = HashMap::new();
    files.insert("/opt/libs/libA.so".to_string(), (a, 0x20000));
    let mut opened = HashMap::new();
    let (mut linker, plan) = run_link_env(vec!["LD_LIBRARY_PATH=/opt/libs", "LD_SHOW_AUXV=1"], exe, &files, &mut opened).unwrap();
    assert_eq!(plan, relocation_plan(&linker.link_map, false).unwrap());
    assert_eq!(linker.gdb.r_state, State::Consistent);
    assert_eq!(linker.phase, Phase::Relocated);
    assert!(matches!(linker.next_action(), Action::ShowAuxv));
    match linker.next_action() {
        Action::Initialize(steps) => assert_eq!(steps, vec![InitStep::Call(0x20180)]),
        _ => panic!("initializers come next"),
    }
    assert!(matches!(linker.next_action(), Action::InstallTls));
    assert!(matches!(linker.next_action(), Action::Enter));
    assert!(matches!(linker.next_action(), Action::Enter));
}

#[test]
fn relocation_failure_stops_linking() {
    let mut e = obj(vec!["libT.so"], "", vec![("tv", 0, 0x10)]);
    e.relas = vec![(0x708, 1, R_X86_64_TPOFF64, 8)];
    let mut exe = load(&e, "prog", 0x10000);
    exe.gnu_hash = None;
    let mut files = HashMap::new();
    files.insert("/opt/libs/libT.so".to_string(), (obj(vec![], "libT.so", vec![("tv", 0x4, 0x16)]), 0x20000));
    let mut opened = HashMap::new();
    let err = run_link_env(vec!["LD_LIBRARY_PATH=/opt/libs"], exe, &files, &mut opened).err().unwrap();
    assert_eq!(err, format!("{:?}", RelocError::MissingTls { requester: 0, provider: 1 }));
}

#[test]
fn linker_relocates_itself_from_its_own_headers() {
    let mut me = obj(vec![], "ld-dryad.so", vec![]);
    me.relas = vec![(0x708, 0, R_X86_64_RELATIVE, 0x40), (0x710, 0, R_X86_64_JUMP_SLOT, 0), (0x718, 0, R_X86_64_RELATIVE, -8)];
    let config = Config::new(&block(vec!["LD_BIND_NOW=1"], 0));
    let (linker, patches) = Linker::new(&build(&me), 0x7f00_0000, 0x99, config, None).unwrap();
    assert_eq!(linker.load_bias, 0x7f00_0000);
    assert_eq!(linker.base, 0x7f00_0000);
    assert_eq!(patches, vec![
        Patch::Word { addr: 0x7f00_0708, value: 0x7f00_0040 },
        Patch::Word { addr: 0x7f00_0718, value: 0x7eff_fff8 },
    ]);
    assert!(linker.config.bind_now);
    assert_eq!(linker.gdb.r_ldbase, 0x7f00_0000);
    assert_eq!(linker.gdb.r_brk, 0x99);
    assert_eq!(linker.gdb.r_state, State::Consistent);
    assert_eq!(linker.lachesis.current_modid, 0);
    assert!(linker.lachesis.modules.is_empty());
    assert_eq!(linker.phase, Phase::Loading);
}

#[test]
fn linker_without_dynamic_section_fails() {
    let me = obj(vec![], "ld-dryad.so", vec![]);
    let mut img = build(&me);
    // turn the PT_DYNAMIC header into a PT_NULL one
    img[64 + 56] = 0;
    let config = Config::new(&block(vec![], 0));
    assert_eq!(Linker::new(&img, 0x1000, 0, config, None).err(), Some(ImageError::MissingDynamicSection));
    let config = Config::new(&block(vec![], 0));
    assert_eq!(Linker::new(&img[..8], 0x1000, 0, config, None).err(), Some(ImageError::OutOfImage));
}

#[test]
fn loaded_library_registers_its_tls_segment() {
    let mut o = obj(vec![], "libt.so", vec![]);
    o.tls = true;
    let img = build(&o);
    let mut lachesis = dryad::tls::Lachesis::new(false);
    let so = SharedObject::load(b"libt.so".to_vec(), &img, 0x20000, 0x20000, phdrs_of(&o), b"/opt/libs/libt.so".to_vec(), &mut lachesis).unwrap();
    let t = so.tls.unwrap();
    assert_eq!(t.modid, 1);
    assert_eq!(t.image, 0x207c0);
    assert_eq!(lachesis.modules.len(), 1);
    assert_eq!(lachesis.modules[0].info, t);
    let plain = obj(vec![], "libp.so", vec![]);
    let so2 = SharedObject::load(b"libp.so".to_vec(), &build(&plain), 0x30000, 0x30000, phdrs_of(&plain), b"/p".to_vec(), &mut lachesis).unwrap();
    assert!(so2.tls.is_none());
    assert_eq!(lachesis.current_modid, 1);
}

#[test]
fn symbol_count_uses_entry_size() {
    let o = obj(vec![], "x.so", vec![("a", 1, GLOBAL_FUNC), ("b", 2, GLOBAL_FUNC)]);
    let mut img = build(&o);
    // DT_SYMENT is the fifth entry (after DT_SONAME, DT_SYMTAB, DT_STRTAB, DT_STRSZ)
    let syment_at = DYNAMIC + 16 * 4 + 8;
    assert_eq!(img[syment_at - 8], 11);
    img[syment_at] = 12;
    assert_eq!(SharedObject::from_image(vec![], &img, 0, 0, phdrs_of(&o), None, None).err(), Some(ImageError::BadSymbolTable));
    img[syment_at] = 48;
    let so = SharedObject::from_image(vec![], &img, 0, 0, phdrs_of(&o), None, None).unwrap();
    assert_eq!(so.symtab.len(), 3 * 24 / 48);
}

#[test]
fn debug_slot_points_into_dynamic_section() {
    let mut o = obj(vec![], "", vec![]);
    o.debug = true;
    let so = load(&o, "prog", 0x10000);
    let i = so.dynamic.iter().position(|d| d.d_tag == 21).unwrap() as u64;
    assert_eq!(dryad::gdb::debug_slot(&so), Some(0x10000 + DYNAMIC as u64 + 16 * i + 8));
    let none = load(&obj(vec![], "", vec![]), "prog", 0x10000);
    assert_eq!(dryad::gdb::debug_slot(&none), None);
}

#[test]
fn executable_base_from_phdr_address() {
    let mut o = obj(vec![], "", vec![]);
    o.exe = true;
    let p = phdrs_of(&o);
    let span = dryad::loader::compute_load_size(&p).unwrap();
    assert_eq!(dryad::image::executable_base(0x55_0040, &p, &span), 0x55_0000);
}
