//! The 64-bit little-endian ELF records the linker reads, and how each is laid
//! out in a byte image.
use vstd::prelude::*;

verus! {

pub const PT_NULL: u32 = 0;
pub const PT_LOAD: u32 = 1;
pub const PT_DYNAMIC: u32 = 2;
pub const PT_INTERP: u32 = 3;
pub const PT_PHDR: u32 = 6;
pub const PT_TLS: u32 = 7;

pub const PF_X: u32 = 1;
pub const PF_W: u32 = 2;
pub const PF_R: u32 = 4;

pub const DT_NULL: u64 = 0;
pub const DT_NEEDED: u64 = 1;
pub const DT_PLTRELSZ: u64 = 2;
pub const DT_PLTGOT: u64 = 3;
pub const DT_HASH: u64 = 4;
pub const DT_STRTAB: u64 = 5;
pub const DT_SYMTAB: u64 = 6;
pub const DT_RELA: u64 = 7;
pub const DT_RELASZ: u64 = 8;
pub const DT_RELAENT: u64 = 9;
pub const DT_STRSZ: u64 = 10;
pub const DT_SYMENT: u64 = 11;
pub const DT_INIT: u64 = 12;
pub const DT_FINI: u64 = 13;
pub const DT_SONAME: u64 = 14;
pub const DT_PLTREL: u64 = 20;
pub const DT_DEBUG: u64 = 21;
pub const DT_TEXTREL: u64 = 22;
pub const DT_JMPREL: u64 = 23;
pub const DT_INIT_ARRAY: u64 = 25;
pub const DT_INIT_ARRAYSZ: u64 = 27;
pub const DT_FLAGS: u64 = 30;
pub const DT_GNU_HASH: u64 = 0x6ffffef5;
pub const DT_VERSYM: u64 = 0x6ffffff0;
pub const DT_RELACOUNT: u64 = 0x6ffffff9;
pub const DT_FLAGS_1: u64 = 0x6ffffffb;
pub const DT_VERNEED: u64 = 0x6ffffffe;
pub const DT_VERNEEDNUM: u64 = 0x6fffffff;

/// `DT_FLAGS` bit: relocations may write to a non-writable segment.
pub const DF_TEXTREL: u64 = 4;

pub const STB_LOCAL: u8 = 0;

pub const SIZEOF_EHDR: usize = 64;
pub const SIZEOF_PHDR: usize = 56;
pub const SIZEOF_DYN: usize = 16;
pub const SIZEOF_SYM: usize = 24;
pub const SIZEOF_RELA: usize = 24;

/// A program header.
#[derive(Clone, Copy, Debug, PartialEq, Eq, Structural)]
pub struct ProgramHeader {
    pub p_type: u32,
    pub p_flags: u32,
    pub p_offset: u64,
    pub p_vaddr: u64,
    pub p_paddr: u64,
    pub p_filesz: u64,
    pub p_memsz: u64,
    pub p_align: u64,
}

/// An entry of the dynamic section.
#[derive(Clone, Copy, Debug, PartialEq, Eq, Structural)]
pub struct Dyn {
    pub d_tag: u64,
    pub d_val: u64,
}

/// An entry of the symbol table.
#[derive(Clone, Copy, Debug, PartialEq, Eq, Structural)]
pub struct Sym {
    pub st_name: u32,
    pub st_info: u8,
    pub st_other: u8,
    pub st_shndx: u16,
    pub st_value: u64,
    pub st_size: u64,
}

/// The binding of a symbol: the high four bits of `st_info`.
pub open spec fn st_bind(info: u8) -> u8 {
    info / 16
}

pub fn sym_bind(info: u8) -> (r: u8)
    ensures
        r == st_bind(info),
{
    info / 16
}

/// The value of the `n` bytes of `b` from `off` on, least significant first.
pub open spec fn le_uint(b: Seq<u8>, off: int, n: nat) -> nat
    decreases n,
{
    if n == 0 {
        0
    } else {
        b[off] as nat + 256 * le_uint(b, off + 1, (n - 1) as nat)
    }
}

pub open spec fn pow256(n: nat) -> nat
    decreases n,
{
    if n == 0 {
        1
    } else {
        256 * pow256((n - 1) as nat)
    }
}

pub open spec fn le_u16_at(b: Seq<u8>, off: int) -> u16 {
    le_uint(b, off, 2) as u16
}

pub open spec fn le_u32_at(b: Seq<u8>, off: int) -> u32 {
    le_uint(b, off, 4) as u32
}

pub open spec fn le_u64_at(b: Seq<u8>, off: int) -> u64 {
    le_uint(b, off, 8) as u64
}

pub open spec fn phdr_at(b: Seq<u8>, off: int) -> ProgramHeader {
    ProgramHeader {
        p_type: le_u32_at(b, off),
        p_flags: le_u32_at(b, off + 4),
        p_offset: le_u64_at(b, off + 8),
        p_vaddr: le_u64_at(b, off + 16),
        p_paddr: le_u64_at(b, off + 24),
        p_filesz: le_u64_at(b, off + 32),
        p_memsz: le_u64_at(b, off + 40),
        p_align: le_u64_at(b, off + 48),
    }
}

pub open spec fn dyn_at(b: Seq<u8>, off: int) -> Dyn {
    Dyn { d_tag: le_u64_at(b, off), d_val: le_u64_at(b, off + 8) }
}

pub open spec fn sym_at(b: Seq<u8>, off: int) -> Sym {
    Sym {
        st_name: le_u32_at(b, off),
        st_info: b[off + 4],
        st_other: b[off + 5],
        st_shndx: le_u16_at(b, off + 6),
        st_value: le_u64_at(b, off + 8),
        st_size: le_u64_at(b, off + 16),
    }
}

proof fn lemma_le_uint_bound(b: Seq<u8>, off: int, n: nat)
    ensures
        le_uint(b, off, n) < pow256(n),
    decreases n,
{
    if n > 0 {
        lemma_le_uint_bound(b, off + 1, (n - 1) as nat);
        let rest = le_uint(b, off + 1, (n - 1) as nat);
        let p = pow256((n - 1) as nat);
        let byte = b[off] as nat;
        assert(byte < 256);
        assert(byte + 256 * rest < 256 * p) by (nonlinear_arith)
            requires
                byte < 256,
                rest < p,
        ;
    }
}

/// Reads the `n`-byte little-endian unsigned integer at `off`.
pub fn read_le(b: &[u8], off: usize, n: usize) -> (r: u64)
    requires
        n <= 8,
        off + n <= b@.len(),
    ensures
        r == le_uint(b@, off as int, n as nat),
{
    let mut v: u64 = 0;
    let mut i: usize = n;
    let len = b.len();
    proof {
        lemma_pow256_values();
    }
    while i > 0
        invariant
            n <= 8,
            off + n <= b@.len(),
            len == b@.len(),
            i <= n,
            v == le_uint(b@, off + i, (n - i) as nat),
            v < pow256((n - i) as nat),
            pow256(8) == 0x1_0000_0000_0000_0000,
        decreases i,
    {
        i = i - 1;
        let ghost k: nat = (n - i - 1) as nat;
        assert(pow256(k) <= pow256(7)) by {
            lemma_pow256_mono(k, 7);
        }
        assert(256 * pow256(7) == pow256(8));
        let byte = b[off + i];
        assert(v * 256 + byte < 256 * pow256(k)) by (nonlinear_arith)
            requires
                v < pow256(k),
                byte < 256,
        ;
        assert(256 * pow256(k) <= 256 * pow256(7)) by (nonlinear_arith)
            requires
                pow256(k) <= pow256(7),
        ;
        v = v * 256 + byte as u64;
        assert(le_uint(b@, off + i, (k + 1) as nat) == b@[off + i] as nat + 256 * le_uint(
            b@,
            off + i + 1,
            k,
        ));
    }
    v
}

proof fn lemma_pow256_values()
    ensures
        pow256(2) == 0x1_0000,
        pow256(4) == 0x1_0000_0000,
        pow256(8) == 0x1_0000_0000_0000_0000,
{
    assert(pow256(0) == 1);
    assert(pow256(1) == 0x100);
    assert(pow256(2) == 0x1_0000);
    assert(pow256(3) == 0x100_0000);
    assert(pow256(4) == 0x1_0000_0000);
    assert(pow256(5) == 0x100_0000_0000);
    assert(pow256(6) == 0x1_0000_0000_0000);
    assert(pow256(7) == 0x100_0000_0000_0000);
    assert(pow256(8) == 0x1_0000_0000_0000_0000);
}

proof fn lemma_pow256_mono(a: nat, b: nat)
    requires
        a <= b,
    ensures
        pow256(a) <= pow256(b),
    decreases b,
{
    if a < b {
        lemma_pow256_mono(a, (b - 1) as nat);
    }
}

pub fn read_u16(b: &[u8], off: usize) -> (r: u16)
    requires
        off + 2 <= b@.len(),
    ensures
        r == le_u16_at(b@, off as int),
{
    proof {
        lemma_le_uint_bound(b@, off as int, 2);
        lemma_pow256_values();
    }
    read_le(b, off, 2) as u16
}

pub fn read_u32(b: &[u8], off: usize) -> (r: u32)
    requires
        off + 4 <= b@.len(),
    ensures
        r == le_u32_at(b@, off as int),
{
    proof {
        lemma_le_uint_bound(b@, off as int, 4);
        lemma_pow256_values();
    }
    read_le(b, off, 4) as u32
}

pub fn read_u64(b: &[u8], off: usize) -> (r: u64)
    requires
        off + 8 <= b@.len(),
    ensures
        r == le_u64_at(b@, off as int),
{
    read_le(b, off, 8)
}

/// Relies on goblin's `elf64::program_header::ProgramHeader::parse`: given at
/// least one header's worth of bytes from `off`, it reads one header whose
/// fields, in declaration order, are little-endian integers.
#[verifier::external_body]
fn goblin_phdr(b: &[u8], off: usize) -> (r: ProgramHeader)
    requires
        off + SIZEOF_PHDR <= b@.len(),
    ensures
        r == phdr_at(b@, off as int),
{
    let v = goblin::elf64::program_header::ProgramHeader::parse(b, off, 1, goblin::container::Endian::Little).unwrap();
    ProgramHeader {
        p_type: v[0].p_type,
        p_flags: v[0].p_flags,
        p_offset: v[0].p_offset,
        p_vaddr: v[0].p_vaddr,
        p_paddr: v[0].p_paddr,
        p_filesz: v[0].p_filesz,
        p_memsz: v[0].p_memsz,
        p_align: v[0].p_align,
    }
}

/// Relies on goblin's `elf::sym::Sym::parse` with a 64-bit little-endian
/// context: given at least one symbol's worth of bytes from `off`, it reads the
/// `elf64` symbol record there, field by field, little-endian.
#[verifier::external_body]
fn goblin_sym(b: &[u8], off: usize) -> (r: Sym)
    requires
        off + SIZEOF_SYM <= b@.len(),
    ensures
        r == sym_at(b@, off as int),
{
    let ctx = goblin::container::Ctx::new(goblin::container::Container::Big, goblin::container::Endian::Little);
    let v = goblin::elf::sym::Sym::parse(b, off, 1, ctx).unwrap();
    Sym {
        st_name: v[0].st_name as u32,
        st_info: v[0].st_info,
        st_other: v[0].st_other,
        st_shndx: v[0].st_shndx as u16,
        st_value: v[0].st_value,
        st_size: v[0].st_size,
    }
}

/// The `count` program headers stored from `off` on.
pub open spec fn phdrs_at(b: Seq<u8>, off: int, count: int) -> Seq<ProgramHeader> {
    Seq::new(count as nat, |i: int| phdr_at(b, off + i * SIZEOF_PHDR))
}

/// Reads `count` program headers from `off`; `None` when they do not fit in `b`.
pub fn parse_phdrs(b: &[u8], off: usize, count: usize) -> (r: Option<Vec<ProgramHeader>>)
    ensures
        r is Some <==> off + count * SIZEOF_PHDR <= b@.len(),
        r matches Some(v) ==> v@ == phdrs_at(b@, off as int, count as int),
{
    if count > b.len() / SIZEOF_PHDR || off > b.len() - count * SIZEOF_PHDR {
        return None;
    }
    let mut v: Vec<ProgramHeader> = Vec::new();
    let mut i: usize = 0;
    let len = b.len();
    while i < count
        invariant
            off + count * SIZEOF_PHDR <= b@.len(),
            len == b@.len(),
            i <= count,
            v@ == phdrs_at(b@, off as int, i as int),
        decreases count - i,
    {
        assert(i * SIZEOF_PHDR + SIZEOF_PHDR <= count * SIZEOF_PHDR) by (nonlinear_arith)
            requires
                i < count,
        ;
        let h = goblin_phdr(b, off + i * SIZEOF_PHDR);
        v.push(h);
        i = i + 1;
        assert(v@ =~= phdrs_at(b@, off as int, i as int));
    }
    Some(v)
}

/// The `count` symbols stored from `off` on, one every `stride` bytes.
pub open spec fn syms_at(b: Seq<u8>, off: int, count: int, stride: int) -> Seq<Sym> {
    Seq::new(count as nat, |i: int| sym_at(b, off + i * stride))
}

/// Reads `count` symbols from `off`, one every `stride` bytes; `None` when
/// the table does not fit in `b`.
pub fn parse_syms(b: &[u8], off: usize, count: usize, stride: usize) -> (r: Option<Vec<Sym>>)
    requires
        SIZEOF_SYM <= stride,
    ensures
        r is Some <==> off + count * stride <= b@.len(),
        r matches Some(v) ==> v@ == syms_at(b@, off as int, count as int, stride as int),
{
    proof {
        vstd::arithmetic::div_mod::lemma_fundamental_div_mod(b.len() as int, stride as int);
    }
    if count > b.len() / stride {
        proof {
            assert(count * stride >= stride * (b.len() / stride) + stride) by (nonlinear_arith)
                requires
                    count >= b.len() / stride + 1,
                    stride > 0,
            ;
        }
        return None;
    }
    proof {
        assert(count * stride <= stride * (b.len() / stride)) by (nonlinear_arith)
            requires
                count <= b.len() / stride,
                stride > 0,
        ;
    }
    if off > b.len() - count * stride {
        return None;
    }
    let mut v: Vec<Sym> = Vec::new();
    let mut i: usize = 0;
    let len = b.len();
    while i < count
        invariant
            off + count * stride <= b@.len(),
            SIZEOF_SYM <= stride,
            len == b@.len(),
            i <= count,
            v@ == syms_at(b@, off as int, i as int, stride as int),
        decreases count - i,
    {
        assert(i * stride + SIZEOF_SYM <= count * stride) by (nonlinear_arith)
            requires
                i < count,
                SIZEOF_SYM <= stride,
        ;
        let s = goblin_sym(b, off + i * stride);
        v.push(s);
        i = i + 1;
        assert(v@ =~= syms_at(b@, off as int, i as int, stride as int));
    }
    Some(v)
}

/// The dynamic entries stored from `off` on, up to and including the first
/// `DT_NULL`, or up to the last whole entry that fits in `b`.
pub open spec fn dyns_from(b: Seq<u8>, off: int) -> Seq<Dyn>
    decreases b.len() - off,
{
    if off < 0 || off + SIZEOF_DYN > b.len() {
        Seq::empty()
    } else if dyn_at(b, off).d_tag == DT_NULL {
        seq![dyn_at(b, off)]
    } else {
        seq![dyn_at(b, off)] + dyns_from(b, off + SIZEOF_DYN)
    }
}

/// Reads the dynamic array that starts at `off`.
pub fn parse_dynamic(b: &[u8], off: usize) -> (r: Vec<Dyn>)
    ensures
        r@ == dyns_from(b@, off as int),
{
    let mut v: Vec<Dyn> = Vec::new();
    let mut pos: usize = off;
    while pos <= b.len() && SIZEOF_DYN <= b.len() - pos
        invariant
            off <= pos,
            v@ + dyns_from(b@, pos as int) == dyns_from(b@, off as int),
            v@.len() == 0 || v@.last().d_tag != DT_NULL,
        decreases b.len() - pos,
    {
        let d = Dyn { d_tag: read_u64(b, pos), d_val: read_u64(b, pos + 8) };
        assert(d == dyn_at(b@, pos as int));
        v.push(d);
        if d.d_tag == DT_NULL {
            assert(v@ =~= dyns_from(b@, off as int));
            return v;
        }
        assert(v@ + dyns_from(b@, pos + SIZEOF_DYN) =~= dyns_from(b@, off as int));
        pos = pos + SIZEOF_DYN;
    }
    assert(v@ =~= dyns_from(b@, off as int));
    v
}

} // verus!
