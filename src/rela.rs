//! Relocation entries and the relocation types of the target architecture.
use crate::elf::{le_u64_at, read_u64, SIZEOF_RELA};
use vstd::prelude::*;

verus! {

pub const R_X86_64_NONE: u64 = 0;
pub const R_X86_64_64: u64 = 1;
pub const R_X86_64_PC32: u64 = 2;
pub const R_X86_64_GOT32: u64 = 3;
pub const R_X86_64_PLT32: u64 = 4;
pub const R_X86_64_COPY: u64 = 5;
pub const R_X86_64_GLOB_DAT: u64 = 6;
pub const R_X86_64_JUMP_SLOT: u64 = 7;
pub const R_X86_64_RELATIVE: u64 = 8;
pub const R_X86_64_GOTPCREL: u64 = 9;
pub const R_X86_64_32: u64 = 10;
pub const R_X86_64_32S: u64 = 11;
pub const R_X86_64_16: u64 = 12;
pub const R_X86_64_PC16: u64 = 13;
pub const R_X86_64_8: u64 = 14;
pub const R_X86_64_PC8: u64 = 15;
pub const R_X86_64_DTPMOD64: u64 = 16;
pub const R_X86_64_DTPOFF64: u64 = 17;
pub const R_X86_64_TPOFF64: u64 = 18;
pub const R_X86_64_TLSGD: u64 = 19;
pub const R_X86_64_TLSLD: u64 = 20;
pub const R_X86_64_DTPOFF32: u64 = 21;
pub const R_X86_64_GOTTPOFF: u64 = 22;
pub const R_X86_64_TPOFF32: u64 = 23;
pub const R_X86_64_PC64: u64 = 24;
pub const R_X86_64_GOTOFF64: u64 = 25;
pub const R_X86_64_GOTPC32: u64 = 26;
pub const R_X86_64_GOT64: u64 = 27;
pub const R_X86_64_GOTPCREL64: u64 = 28;
pub const R_X86_64_GOTPC64: u64 = 29;
pub const R_X86_64_GOTPLT64: u64 = 30;
pub const R_X86_64_PLTOFF64: u64 = 31;
pub const R_X86_64_SIZE32: u64 = 32;
pub const R_X86_64_SIZE64: u64 = 33;
pub const R_X86_64_GOTPC32_TLSDESC: u64 = 34;
pub const R_X86_64_TLSDESC_CALL: u64 = 35;
pub const R_X86_64_TLSDESC: u64 = 36;
pub const R_X86_64_IRELATIVE: u64 = 37;
pub const R_X86_64_RELATIVE64: u64 = 38;
pub const R_X86_64_NUM: u64 = 39;

/// A relocation entry with an explicit addend.
#[derive(Clone, Copy, Debug, PartialEq, Eq, Structural)]
pub struct Rela {
    /// Where the relocation applies, relative to the load bias.
    pub r_offset: u64,
    /// Symbol index (high 32 bits) and relocation type (low 32 bits).
    pub r_info: u64,
    pub r_addend: i64,
}

pub const TWO_32: u64 = 0x1_0000_0000;

/// The symbol-table index of a relocation.
pub fn r_sym(info: u64) -> (r: u64)
    ensures
        r == info / TWO_32,
{
    info / TWO_32
}

/// The type of a relocation.
pub fn r_type(info: u64) -> (r: u64)
    ensures
        r == info % TWO_32,
{
    info % TWO_32
}

/// Packs a symbol index and a relocation type into `r_info`.
pub fn r_info(sym: u64, typ: u64) -> (r: u64)
    requires
        sym < TWO_32,
        typ < TWO_32,
    ensures
        r == sym * TWO_32 + typ,
        r_sym_spec(r) == sym,
        r_type_spec(r) == typ,
{
    proof {
        vstd::arithmetic::div_mod::lemma_fundamental_div_mod_converse(
            (sym * TWO_32 + typ) as int,
            TWO_32 as int,
            sym as int,
            typ as int,
        );
    }
    assert(sym * TWO_32 + typ <= (TWO_32 - 1) * TWO_32 + TWO_32 - 1) by (nonlinear_arith)
        requires
            sym < TWO_32,
            typ < TWO_32,
    ;
    sym * TWO_32 + typ
}

pub open spec fn r_sym_spec(info: u64) -> u64 {
    info / TWO_32
}

pub open spec fn r_type_spec(info: u64) -> u64 {
    info % TWO_32
}

/// The name of an x86_64 relocation type.
pub open spec fn reloc_type_name(typ: u64) -> Seq<char> {
    match typ {
        0 => "NONE"@,
        1 => "64"@,
        2 => "PC32"@,
        3 => "GOT32"@,
        4 => "PLT32"@,
        5 => "COPY"@,
        6 => "GLOB_DAT"@,
        7 => "JUMP_SLOT"@,
        8 => "RELATIVE"@,
        9 => "GOTPCREL"@,
        10 => "32"@,
        11 => "32S"@,
        12 => "16"@,
        13 => "PC16"@,
        14 => "8"@,
        15 => "PC8"@,
        16 => "DTPMOD64"@,
        17 => "DTPOFF64"@,
        18 => "TPOFF64"@,
        19 => "TLSGD"@,
        20 => "TLSLD"@,
        21 => "DTPOFF32"@,
        22 => "GOTTPOFF"@,
        23 => "TPOFF32"@,
        24 => "PC64"@,
        25 => "GOTOFF64"@,
        26 => "GOTPC32"@,
        27 => "GOT64"@,
        28 => "GOTPCREL64"@,
        29 => "GOTPC64"@,
        30 => "GOTPLT64"@,
        31 => "PLTOFF64"@,
        32 => "SIZE32"@,
        33 => "SIZE64"@,
        34 => "GOTPC32_TLSDESC"@,
        35 => "TLSDESC_CALL"@,
        36 => "TLSDESC"@,
        37 => "IRELATIVE"@,
        38 => "RELATIVE64"@,
        _ => "UNKNOWN_RELA_TYPE"@,
    }
}

/// The name of an x86_64 relocation type, `UNKNOWN_RELA_TYPE` past the last one.
pub fn type_to_str(typ: u64) -> (r: &'static str)
    ensures
        r@ == reloc_type_name(typ),
{
    match typ {
        R_X86_64_NONE => "NONE",
        R_X86_64_64 => "64",
        R_X86_64_PC32 => "PC32",
        R_X86_64_GOT32 => "GOT32",
        R_X86_64_PLT32 => "PLT32",
        R_X86_64_COPY => "COPY",
        R_X86_64_GLOB_DAT => "GLOB_DAT",
        R_X86_64_JUMP_SLOT => "JUMP_SLOT",
        R_X86_64_RELATIVE => "RELATIVE",
        R_X86_64_GOTPCREL => "GOTPCREL",
        R_X86_64_32 => "32",
        R_X86_64_32S => "32S",
        R_X86_64_16 => "16",
        R_X86_64_PC16 => "PC16",
        R_X86_64_8 => "8",
        R_X86_64_PC8 => "PC8",
        R_X86_64_DTPMOD64 => "DTPMOD64",
        R_X86_64_DTPOFF64 => "DTPOFF64",
        R_X86_64_TPOFF64 => "TPOFF64",
        R_X86_64_TLSGD => "TLSGD",
        R_X86_64_TLSLD => "TLSLD",
        R_X86_64_DTPOFF32 => "DTPOFF32",
        R_X86_64_GOTTPOFF => "GOTTPOFF",
        R_X86_64_TPOFF32 => "TPOFF32",
        R_X86_64_PC64 => "PC64",
        R_X86_64_GOTOFF64 => "GOTOFF64",
        R_X86_64_GOTPC32 => "GOTPC32",
        R_X86_64_GOT64 => "GOT64",
        R_X86_64_GOTPCREL64 => "GOTPCREL64",
        R_X86_64_GOTPC64 => "GOTPC64",
        R_X86_64_GOTPLT64 => "GOTPLT64",
        R_X86_64_PLTOFF64 => "PLTOFF64",
        R_X86_64_SIZE32 => "SIZE32",
        R_X86_64_SIZE64 => "SIZE64",
        R_X86_64_GOTPC32_TLSDESC => "GOTPC32_TLSDESC",
        R_X86_64_TLSDESC_CALL => "TLSDESC_CALL",
        R_X86_64_TLSDESC => "TLSDESC",
        R_X86_64_IRELATIVE => "IRELATIVE",
        R_X86_64_RELATIVE64 => "RELATIVE64",
        _ => "UNKNOWN_RELA_TYPE",
    }
}

/// What the relocation engine does with a relocation type.
#[derive(Clone, Copy, Debug, PartialEq, Eq, Structural)]
pub enum RelocKind {
    /// Load bias plus addend.
    Relative,
    /// Address of a symbol, found in search order.
    GlobalData,
    /// Address of a function, bound eagerly or on first call.
    JumpSlot,
    /// Result of calling the resolver function at load bias plus addend.
    Indirect,
    /// Symbol value plus addend, less the provider's TLS block offset.
    ThreadOffset,
    /// Address of a symbol plus addend.
    Absolute,
    /// Not handled; skipped.
    Other,
}

pub open spec fn kind_of(typ: u64) -> RelocKind {
    if typ == R_X86_64_RELATIVE {
        RelocKind::Relative
    } else if typ == R_X86_64_GLOB_DAT {
        RelocKind::GlobalData
    } else if typ == R_X86_64_JUMP_SLOT {
        RelocKind::JumpSlot
    } else if typ == R_X86_64_IRELATIVE {
        RelocKind::Indirect
    } else if typ == R_X86_64_TPOFF64 {
        RelocKind::ThreadOffset
    } else if typ == R_X86_64_64 {
        RelocKind::Absolute
    } else {
        RelocKind::Other
    }
}

/// The x86_64 table from relocation type to what the engine does with it.
pub fn reloc_kind(typ: u64) -> (r: RelocKind)
    ensures
        r == kind_of(typ),
{
    if typ == R_X86_64_RELATIVE {
        RelocKind::Relative
    } else if typ == R_X86_64_GLOB_DAT {
        RelocKind::GlobalData
    } else if typ == R_X86_64_JUMP_SLOT {
        RelocKind::JumpSlot
    } else if typ == R_X86_64_IRELATIVE {
        RelocKind::Indirect
    } else if typ == R_X86_64_TPOFF64 {
        RelocKind::ThreadOffset
    } else if typ == R_X86_64_64 {
        RelocKind::Absolute
    } else {
        RelocKind::Other
    }
}

pub open spec fn rela_at(b: Seq<u8>, off: int) -> Rela {
    Rela {
        r_offset: le_u64_at(b, off),
        r_info: le_u64_at(b, off + 8),
        r_addend: le_u64_at(b, off + 16) as i64,
    }
}

/// The `count` relocation entries stored from `off` on.
pub open spec fn relas_at(b: Seq<u8>, off: int, count: int) -> Seq<Rela> {
    Seq::new(count as nat, |i: int| rela_at(b, off + i * SIZEOF_RELA))
}

/// Reads `count` relocation entries from `off`; `None` when they do not fit in `b`.
pub fn parse_relas(b: &[u8], off: usize, count: usize) -> (r: Option<Vec<Rela>>)
    ensures
        r is Some <==> off + count * SIZEOF_RELA <= b@.len(),
        r matches Some(v) ==> v@ == relas_at(b@, off as int, count as int),
{
    if count > b.len() / SIZEOF_RELA || off > b.len() - count * SIZEOF_RELA {
        return None;
    }
    let mut v: Vec<Rela> = Vec::new();
    let mut i: usize = 0;
    let len = b.len();
    while i < count
        invariant
            off + count * SIZEOF_RELA <= b@.len(),
            len == b@.len(),
            i <= count,
            v@ == relas_at(b@, off as int, i as int),
        decreases count - i,
    {
        assert(i * SIZEOF_RELA + SIZEOF_RELA <= count * SIZEOF_RELA) by (nonlinear_arith)
            requires
                i < count,
        ;
        let at = off + i * SIZEOF_RELA;
        let e = Rela {
            r_offset: read_u64(b, at),
            r_info: read_u64(b, at + 8),
            r_addend: read_u64(b, at + 16) as i64,
        };
        v.push(e);
        i = i + 1;
        assert(v@ =~= relas_at(b@, off as int, i as int));
    }
    Some(v)
}

} // verus!
