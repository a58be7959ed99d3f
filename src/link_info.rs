//! The link information an object's dynamic section describes.
use crate::elf::{
    Dyn, DF_TEXTREL, DT_FLAGS, DT_FLAGS_1, DT_FINI, DT_GNU_HASH, DT_HASH, DT_INIT, DT_INIT_ARRAY,
    DT_INIT_ARRAYSZ, DT_JMPREL, DT_NEEDED, DT_PLTGOT, DT_PLTREL, DT_PLTRELSZ, DT_RELA, DT_RELACOUNT,
    DT_RELAENT, DT_RELASZ, DT_SONAME, DT_STRSZ, DT_STRTAB, DT_SYMENT, DT_SYMTAB, DT_TEXTREL,
    DT_VERNEED, DT_VERNEEDNUM, DT_VERSYM,
};
use vstd::prelude::*;

verus! {

/// `a + b` modulo 2^64, as addresses are computed from load biases.
pub open spec fn wrap_add(a: u64, b: u64) -> u64 {
    vstd::wrapping::u64_specs::wrapping_add(a, b)
}

/// What the dynamic section says: table addresses (already moved by the load
/// bias), sizes, flags, and how many libraries it needs.
#[derive(Clone, Copy, Debug, PartialEq, Eq, Structural)]
pub struct LinkInfo {
    pub rela: u64,
    pub gnu_hash: u64,
    pub hash: u64,
    pub strtab: u64,
    pub symtab: u64,
    pub pltgot: u64,
    pub jmprel: u64,
    pub verneed: u64,
    pub versym: u64,
    pub init: u64,
    pub fini: u64,
    pub init_array: u64,
    pub relasz: u64,
    pub relaent: u64,
    pub relacount: u64,
    pub strsz: u64,
    pub syment: u64,
    pub pltrelsz: u64,
    pub pltrel: u64,
    pub verneednum: u64,
    pub init_arraysz: u64,
    pub flags_1: u64,
    pub soname: u64,
    pub flags: u64,
    /// Relocations may write to read-only segments.
    pub textrel: bool,
    pub needed_count: usize,
}

pub open spec fn empty_link_info() -> LinkInfo {
    LinkInfo {
            rela: 0,
            gnu_hash: 0,
            hash: 0,
            strtab: 0,
            symtab: 0,
            pltgot: 0,
            jmprel: 0,
            verneed: 0,
            versym: 0,
            init: 0,
            fini: 0,
            init_array: 0,
            relasz: 0,
            relaent: 0,
            relacount: 0,
            strsz: 0,
            syment: 0,
            pltrelsz: 0,
            pltrel: 0,
            verneednum: 0,
            init_arraysz: 0,
            flags_1: 0,
            soname: 0,
        flags: 0,
        textrel: false,
        needed_count: 0,
    }
}

/// The effect of one dynamic entry: an address tag sets its field to the
/// value moved by `bias`, a size or flag tag sets it to the value, and each
/// `DT_NEEDED` counts one library. Other tags change nothing.
pub open spec fn apply_dyn(li: LinkInfo, d: Dyn, bias: u64) -> LinkInfo {
    if d.d_tag == DT_RELA {
        LinkInfo { rela: wrap_add(d.d_val, bias), ..li }
    } else if d.d_tag == DT_GNU_HASH {
        LinkInfo { gnu_hash: wrap_add(d.d_val, bias), ..li }
    } else if d.d_tag == DT_HASH {
        LinkInfo { hash: wrap_add(d.d_val, bias), ..li }
    } else if d.d_tag == DT_STRTAB {
        LinkInfo { strtab: wrap_add(d.d_val, bias), ..li }
    } else if d.d_tag == DT_SYMTAB {
        LinkInfo { symtab: wrap_add(d.d_val, bias), ..li }
    } else if d.d_tag == DT_PLTGOT {
        LinkInfo { pltgot: wrap_add(d.d_val, bias), ..li }
    } else if d.d_tag == DT_JMPREL {
        LinkInfo { jmprel: wrap_add(d.d_val, bias), ..li }
    } else if d.d_tag == DT_VERNEED {
        LinkInfo { verneed: wrap_add(d.d_val, bias), ..li }
    } else if d.d_tag == DT_VERSYM {
        LinkInfo { versym: wrap_add(d.d_val, bias), ..li }
    } else if d.d_tag == DT_INIT {
        LinkInfo { init: wrap_add(d.d_val, bias), ..li }
    } else if d.d_tag == DT_FINI {
        LinkInfo { fini: wrap_add(d.d_val, bias), ..li }
    } else if d.d_tag == DT_INIT_ARRAY {
        LinkInfo { init_array: wrap_add(d.d_val, bias), ..li }
    } else if d.d_tag == DT_RELASZ {
        LinkInfo { relasz: d.d_val, ..li }
    } else if d.d_tag == DT_RELAENT {
        LinkInfo { relaent: d.d_val, ..li }
    } else if d.d_tag == DT_RELACOUNT {
        LinkInfo { relacount: d.d_val, ..li }
    } else if d.d_tag == DT_STRSZ {
        LinkInfo { strsz: d.d_val, ..li }
    } else if d.d_tag == DT_SYMENT {
        LinkInfo { syment: d.d_val, ..li }
    } else if d.d_tag == DT_PLTRELSZ {
        LinkInfo { pltrelsz: d.d_val, ..li }
    } else if d.d_tag == DT_PLTREL {
        LinkInfo { pltrel: d.d_val, ..li }
    } else if d.d_tag == DT_VERNEEDNUM {
        LinkInfo { verneednum: d.d_val, ..li }
    } else if d.d_tag == DT_INIT_ARRAYSZ {
        LinkInfo { init_arraysz: d.d_val, ..li }
    } else if d.d_tag == DT_FLAGS_1 {
        LinkInfo { flags_1: d.d_val, ..li }
    } else if d.d_tag == DT_SONAME {
        LinkInfo { soname: d.d_val, ..li }
    } else if d.d_tag == DT_FLAGS {
        LinkInfo { flags: d.d_val, textrel: li.textrel || (d.d_val / DF_TEXTREL) % 2 == 1, ..li }
    } else if d.d_tag == DT_TEXTREL {
        LinkInfo { textrel: true, ..li }
    } else if d.d_tag == DT_NEEDED {
        LinkInfo { needed_count: (li.needed_count + 1) as usize, ..li }
    } else {
        li
    }
}

/// The link information of a dynamic array: its entries applied in order, so
/// that a later entry with the same tag wins.
pub open spec fn link_info_of(bias: u64, d: Seq<Dyn>) -> LinkInfo
    decreases d.len(),
{
    if d.len() == 0 {
        empty_link_info()
    } else {
        apply_dyn(link_info_of(bias, d.drop_last()), d.last(), bias)
    }
}

/// Number of `DT_NEEDED` entries.
pub open spec fn needed_in(d: Seq<Dyn>) -> nat
    decreases d.len(),
{
    if d.len() == 0 {
        0
    } else {
        needed_in(d.drop_last()) + if d.last().d_tag == DT_NEEDED {
            1nat
        } else {
            0nat
        }
    }
}

proof fn lemma_needed_count(bias: u64, d: Seq<Dyn>)
    requires
        d.len() <= usize::MAX,
    ensures
        link_info_of(bias, d).needed_count == needed_in(d),
        needed_in(d) <= d.len(),
    decreases d.len(),
{
    if d.len() > 0 {
        lemma_needed_count(bias, d.drop_last());
    }
}

fn apply_dyn_exec(li: LinkInfo, d: Dyn, bias: u64) -> (r: LinkInfo)
    requires
        li.needed_count < usize::MAX,
    ensures
        r == apply_dyn(li, d, bias),
{
    if d.d_tag == DT_RELA {
        LinkInfo { rela: d.d_val.wrapping_add(bias), ..li }
    } else if d.d_tag == DT_GNU_HASH {
        LinkInfo { gnu_hash: d.d_val.wrapping_add(bias), ..li }
    } else if d.d_tag == DT_HASH {
        LinkInfo { hash: d.d_val.wrapping_add(bias), ..li }
    } else if d.d_tag == DT_STRTAB {
        LinkInfo { strtab: d.d_val.wrapping_add(bias), ..li }
    } else if d.d_tag == DT_SYMTAB {
        LinkInfo { symtab: d.d_val.wrapping_add(bias), ..li }
    } else if d.d_tag == DT_PLTGOT {
        LinkInfo { pltgot: d.d_val.wrapping_add(bias), ..li }
    } else if d.d_tag == DT_JMPREL {
        LinkInfo { jmprel: d.d_val.wrapping_add(bias), ..li }
    } else if d.d_tag == DT_VERNEED {
        LinkInfo { verneed: d.d_val.wrapping_add(bias), ..li }
    } else if d.d_tag == DT_VERSYM {
        LinkInfo { versym: d.d_val.wrapping_add(bias), ..li }
    } else if d.d_tag == DT_INIT {
        LinkInfo { init: d.d_val.wrapping_add(bias), ..li }
    } else if d.d_tag == DT_FINI {
        LinkInfo { fini: d.d_val.wrapping_add(bias), ..li }
    } else if d.d_tag == DT_INIT_ARRAY {
        LinkInfo { init_array: d.d_val.wrapping_add(bias), ..li }
    } else if d.d_tag == DT_RELASZ {
        LinkInfo { relasz: d.d_val, ..li }
    } else if d.d_tag == DT_RELAENT {
        LinkInfo { relaent: d.d_val, ..li }
    } else if d.d_tag == DT_RELACOUNT {
        LinkInfo { relacount: d.d_val, ..li }
    } else if d.d_tag == DT_STRSZ {
        LinkInfo { strsz: d.d_val, ..li }
    } else if d.d_tag == DT_SYMENT {
        LinkInfo { syment: d.d_val, ..li }
    } else if d.d_tag == DT_PLTRELSZ {
        LinkInfo { pltrelsz: d.d_val, ..li }
    } else if d.d_tag == DT_PLTREL {
        LinkInfo { pltrel: d.d_val, ..li }
    } else if d.d_tag == DT_VERNEEDNUM {
        LinkInfo { verneednum: d.d_val, ..li }
    } else if d.d_tag == DT_INIT_ARRAYSZ {
        LinkInfo { init_arraysz: d.d_val, ..li }
    } else if d.d_tag == DT_FLAGS_1 {
        LinkInfo { flags_1: d.d_val, ..li }
    } else if d.d_tag == DT_SONAME {
        LinkInfo { soname: d.d_val, ..li }
    } else if d.d_tag == DT_FLAGS {
        LinkInfo { flags: d.d_val, textrel: li.textrel || (d.d_val / DF_TEXTREL) % 2 == 1, ..li }
    } else if d.d_tag == DT_TEXTREL {
        LinkInfo { textrel: true, ..li }
    } else if d.d_tag == DT_NEEDED {
        LinkInfo { needed_count: li.needed_count + 1, ..li }
    } else {
        li
    }
}

impl LinkInfo {
    /// Reads the link information from the dynamic array of an object loaded at `bias`.
    pub fn new(bias: u64, dynamic: &[Dyn]) -> (r: LinkInfo)
        ensures
            r == link_info_of(bias, dynamic@),
            r.needed_count == needed_in(dynamic@),
    {
        let mut li = LinkInfo {
            rela: 0,
            gnu_hash: 0,
            hash: 0,
            strtab: 0,
            symtab: 0,
            pltgot: 0,
            jmprel: 0,
            verneed: 0,
            versym: 0,
            init: 0,
            fini: 0,
            init_array: 0,
            relasz: 0,
            relaent: 0,
            relacount: 0,
            strsz: 0,
            syment: 0,
            pltrelsz: 0,
            pltrel: 0,
            verneednum: 0,
            init_arraysz: 0,
            flags_1: 0,
            soname: 0,
            flags: 0,
            textrel: false,
            needed_count: 0,
        };
        let mut i: usize = 0;
        let len = dynamic.len();
        while i < len
            invariant
                len == dynamic@.len(),
                i <= len,
                li == link_info_of(bias, dynamic@.take(i as int)),
            decreases len - i,
        {
            proof {
                lemma_needed_count(bias, dynamic@.take(i as int));
                assert(dynamic@.take(i + 1).drop_last() =~= dynamic@.take(i as int));
            }
            li = apply_dyn_exec(li, dynamic[i], bias);
            i = i + 1;
        }
        proof {
            assert(dynamic@.take(len as int) =~= dynamic@);
            lemma_needed_count(bias, dynamic@);
        }
        li
    }
}

} // verus!
