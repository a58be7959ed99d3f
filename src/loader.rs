//! What loading an object into the address space takes: the span to reserve,
//! the file ranges to map with their protections, and the page protections
//! to relax or restore around relocation.
use crate::elf::{ProgramHeader, PF_R, PF_W, PF_X, PT_LOAD};
use crate::link_info::wrap_add;
use vstd::prelude::*;

verus! {

pub const PROT_NONE: u64 = 0;
pub const PROT_READ: u64 = 1;
pub const PROT_WRITE: u64 = 2;
pub const PROT_EXEC: u64 = 4;

pub const PAGE: u64 = 4096;

/// Bit `b` (a power of two) is set in `x`.
pub open spec fn has_flag(x: u32, b: u32) -> bool {
    (x / b) % 2 == 1
}

/// The memory protection for segment flags `x`.
pub open spec fn prot_of(x: u32) -> u64 {
    ((if has_flag(x, PF_X) {
        PROT_EXEC
    } else {
        0
    }) + (if has_flag(x, PF_R) {
        PROT_READ
    } else {
        0
    }) + (if has_flag(x, PF_W) {
        PROT_WRITE
    } else {
        0
    })) as u64
}

/// The memory protection for segment flags `x`: executable, readable,
/// writable as the flags say.
pub fn pflags_to_prot(x: u32) -> (r: u64)
    ensures
        r == prot_of(x),
        r < 8,
{
    let e: u64 = if (x / PF_X) % 2 == 1 {
        PROT_EXEC
    } else {
        0
    };
    let rd: u64 = if (x / PF_R) % 2 == 1 {
        PROT_READ
    } else {
        0
    };
    let w: u64 = if (x / PF_W) % 2 == 1 {
        PROT_WRITE
    } else {
        0
    };
    e + rd + w
}

pub open spec fn page_down(x: u64) -> u64 {
    (x - x % PAGE) as u64
}

/// `x` rounded up to a page boundary, modulo 2^64.
pub open spec fn page_up(x: u64) -> u64 {
    if x % PAGE == 0 {
        x
    } else {
        wrap_add(page_down(x), PAGE)
    }
}

fn page_down_exec(x: u64) -> (r: u64)
    ensures
        r == page_down(x),
{
    x - x % PAGE
}

fn page_up_exec(x: u64) -> (r: u64)
    ensures
        r == page_up(x),
{
    if x % PAGE == 0 {
        x
    } else {
        (x - x % PAGE).wrapping_add(PAGE)
    }
}

/// A change of protection of the pages `[start, start + len)`.
#[derive(Clone, Copy, Debug, PartialEq, Eq, Structural)]
pub struct Protect {
    pub start: u64,
    pub len: u64,
    pub prot: u64,
}

/// The protection change for one segment of an object loaded at `bias`:
/// with `writable`, its pages become writable and lose execute permission
/// (never both at once), unless they are writable already; without it they
/// get back the protection their flags give. Only `PT_LOAD` segments count.
pub open spec fn seg_protect(h: ProgramHeader, bias: u64, writable: bool) -> Option<Protect> {
    if h.p_type != PT_LOAD {
        None
    } else {
        let start = wrap_add(page_down(h.p_vaddr), bias);
        let end = wrap_add(page_up(wrap_add(h.p_vaddr, h.p_memsz)), bias);
        let prot = prot_of(h.p_flags);
        if writable && has_flag(h.p_flags, PF_W) {
            None
        } else {
            Some(
                Protect {
                    start,
                    len: vstd::wrapping::u64_specs::wrapping_sub(end, start),
                    prot: if writable {
                        ((if has_flag(h.p_flags, PF_R) {
                            PROT_READ
                        } else {
                            0
                        }) + PROT_WRITE) as u64
                    } else {
                        prot
                    },
                },
            )
        }
    }
}

/// The protection changes for all segments, in program-header order.
pub open spec fn protect_plan(p: Seq<ProgramHeader>, bias: u64, writable: bool) -> Seq<Protect>
    decreases p.len(),
{
    if p.len() == 0 {
        Seq::empty()
    } else {
        let rest = protect_plan(p.drop_last(), bias, writable);
        match seg_protect(p.last(), bias, writable) {
            Some(c) => rest.push(c),
            None => rest,
        }
    }
}

/// The protection changes that make an object's segments writable for
/// relocation (`writable`), or give them back their own protection.
pub fn mprotect_phdrs(phdrs: &Vec<ProgramHeader>, bias: u64, writable: bool) -> (r: Vec<Protect>)
    ensures
        r@ == protect_plan(phdrs@, bias, writable),
{
    let mut r: Vec<Protect> = Vec::new();
    let mut i: usize = 0;
    while i < phdrs.len()
        invariant
            i <= phdrs@.len(),
            r@ == protect_plan(phdrs@.take(i as int), bias, writable),
        decreases phdrs@.len() - i,
    {
        assert(phdrs@.take(i + 1).drop_last() =~= phdrs@.take(i as int));
        let h = phdrs[i];
        if h.p_type == PT_LOAD && !(writable && (h.p_flags / PF_W) % 2 == 1) {
            let start = page_down_exec(h.p_vaddr).wrapping_add(bias);
            let end = page_up_exec(h.p_vaddr.wrapping_add(h.p_memsz)).wrapping_add(bias);
            let prot = if writable {
                (if (h.p_flags / PF_R) % 2 == 1 {
                    PROT_READ
                } else {
                    0
                }) + PROT_WRITE
            } else {
                pflags_to_prot(h.p_flags)
            };
            r.push(Protect { start, len: end.wrapping_sub(start), prot });
        }
        i = i + 1;
    }
    assert(phdrs@.take(i as int) =~= phdrs@);
    r
}

/// The span of the `PT_LOAD` segments: lowest `p_vaddr` rounded down and
/// highest `p_vaddr + p_memsz` rounded up to pages.
#[derive(Clone, Copy, Debug, PartialEq, Eq, Structural)]
pub struct LoadSpan {
    pub size: u64,
    pub min_vaddr: u64,
    pub max_vaddr: u64,
}

/// The lowest start and highest end of the `PT_LOAD` segments of `p`, if any.
pub open spec fn load_bounds(p: Seq<ProgramHeader>) -> Option<(int, int)>
    decreases p.len(),
{
    if p.len() == 0 {
        None
    } else {
        let h = p.last();
        let rest = load_bounds(p.drop_last());
        if h.p_type != PT_LOAD {
            rest
        } else {
            let lo = h.p_vaddr as int;
            let hi = h.p_vaddr + h.p_memsz;
            match rest {
                None => Some((lo, hi)),
                Some((l, e)) => Some((if lo < l {
                    lo
                } else {
                    l
                }, if hi > e {
                    hi
                } else {
                    e
                })),
            }
        }
    }
}

pub open spec fn round_down_page(x: int) -> int {
    x - x % PAGE as int
}

pub open spec fn round_up_page(x: int) -> int {
    if x % PAGE as int == 0 {
        x
    } else {
        x - x % PAGE as int + PAGE
    }
}

proof fn lemma_bounds_grow(p: Seq<ProgramHeader>, i: int)
    requires
        0 <= i <= p.len(),
    ensures
        load_bounds(p.take(i)) matches Some((l, h)) ==> load_bounds(p) matches Some((l2, h2)) && h2 >= h,
    decreases p.len() - i,
{
    if i < p.len() {
        lemma_bounds_grow(p, i + 1);
        assert(p.take(i + 1).drop_last() =~= p.take(i));
    } else {
        assert(p.take(i) =~= p);
    }
}

/// Why an object cannot be given address space.
#[derive(Clone, Copy, Debug, PartialEq, Eq, Structural)]
pub enum LoadError {
    /// It has no `PT_LOAD` segment.
    NoLoadableSegments,
    /// A segment runs past the end of the address space.
    SpanOverflow,
}

/// The load bias of an object whose span was reserved at `start`.
pub fn reservation_bias(start: u64, span: &LoadSpan) -> (r: u64)
    ensures
        r == vstd::wrapping::u64_specs::wrapping_sub(start, span.min_vaddr),
{
    start.wrapping_sub(span.min_vaddr)
}

/// How much address space the object needs, and where its lowest segment
/// starts; `None` when it has no `PT_LOAD` segment or a segment runs past
/// the end of the address space.
pub fn compute_load_size(phdrs: &Vec<ProgramHeader>) -> (r: Result<LoadSpan, LoadError>)
    ensures
        r matches Ok(s) ==> load_bounds(phdrs@) matches Some((lo, hi)) && s.min_vaddr
            == round_down_page(lo) && s.max_vaddr == round_up_page(hi) && s.size == s.max_vaddr
            - s.min_vaddr,
        r == Err::<LoadSpan, LoadError>(LoadError::NoLoadableSegments) <==> load_bounds(phdrs@) is None,
        r == Err::<LoadSpan, LoadError>(LoadError::SpanOverflow) ==> (load_bounds(phdrs@) matches Some((lo, hi)) && round_up_page(hi) > u64::MAX),
{
    let mut lo: u64 = 0;
    let mut hi: u64 = 0;
    let mut any = false;
    let mut i: usize = 0;
    while i < phdrs.len()
        invariant
            i <= phdrs@.len(),
            any <==> load_bounds(phdrs@.take(i as int)) is Some,
            any ==> load_bounds(phdrs@.take(i as int)) == Some((lo as int, hi as int)),
            lo <= hi,
        decreases phdrs@.len() - i,
    {
        assert(phdrs@.take(i + 1).drop_last() =~= phdrs@.take(i as int));
        let h = phdrs[i];
        if h.p_type == PT_LOAD {
            if h.p_memsz > u64::MAX - h.p_vaddr {
                proof {
                    lemma_bounds_grow(phdrs@, i + 1);
                }
                return Err(LoadError::SpanOverflow);
            }
            let end = h.p_vaddr + h.p_memsz;
            if !any {
                lo = h.p_vaddr;
                hi = end;
                any = true;
            } else {
                if h.p_vaddr < lo {
                    lo = h.p_vaddr;
                }
                if end > hi {
                    hi = end;
                }
            }
        }
        i = i + 1;
    }
    assert(phdrs@.take(i as int) =~= phdrs@);
    if !any {
        return Err(LoadError::NoLoadableSegments);
    }
    let min_vaddr = lo - lo % PAGE;
    if hi % PAGE != 0 && hi - hi % PAGE > u64::MAX - PAGE {
        return Err(LoadError::SpanOverflow);
    }
    let max_vaddr = if hi % PAGE == 0 {
        hi
    } else {
        hi - hi % PAGE + PAGE
    };
    Ok(LoadSpan { size: max_vaddr - min_vaddr, min_vaddr, max_vaddr })
}

/// One file range to map at a fixed address inside the reserved span.
#[derive(Clone, Copy, Debug, PartialEq, Eq, Structural)]
pub struct SegmentMap {
    /// Page-aligned address to map at.
    pub addr: u64,
    /// Bytes of the file to map.
    pub len: u64,
    pub prot: u64,
    /// Page-aligned file offset to map from.
    pub offset: u64,
}

/// The mapping of one segment of an object loaded at `bias`: its file bytes,
/// from the page holding `p_offset`, at the page holding its address.
pub open spec fn seg_map(h: ProgramHeader, bias: u64) -> Option<SegmentMap> {
    let file_page_start = page_down(h.p_offset);
    let file_end = wrap_add(h.p_offset, h.p_filesz);
    let len = vstd::wrapping::u64_specs::wrapping_sub(file_end, file_page_start);
    if h.p_type != PT_LOAD || len == 0 {
        None
    } else {
        Some(
            SegmentMap {
                addr: page_down(wrap_add(h.p_vaddr, bias)),
                len,
                prot: prot_of(h.p_flags),
                offset: file_page_start,
            },
        )
    }
}

pub open spec fn map_plan(p: Seq<ProgramHeader>, bias: u64) -> Seq<SegmentMap>
    decreases p.len(),
{
    if p.len() == 0 {
        Seq::empty()
    } else {
        let rest = map_plan(p.drop_last(), bias);
        match seg_map(p.last(), bias) {
            Some(m) => rest.push(m),
            None => rest,
        }
    }
}

/// The file ranges to map for an object loaded at `bias`, in program-header order.
pub fn plan_segments(phdrs: &Vec<ProgramHeader>, bias: u64) -> (r: Vec<SegmentMap>)
    ensures
        r@ == map_plan(phdrs@, bias),
{
    let mut r: Vec<SegmentMap> = Vec::new();
    let mut i: usize = 0;
    while i < phdrs.len()
        invariant
            i <= phdrs@.len(),
            r@ == map_plan(phdrs@.take(i as int), bias),
        decreases phdrs@.len() - i,
    {
        assert(phdrs@.take(i + 1).drop_last() =~= phdrs@.take(i as int));
        let h = phdrs[i];
        let file_page_start = page_down_exec(h.p_offset);
        let len = h.p_offset.wrapping_add(h.p_filesz).wrapping_sub(file_page_start);
        if h.p_type == PT_LOAD && len != 0 {
            r.push(
                SegmentMap {
                    addr: page_down_exec(h.p_vaddr.wrapping_add(bias)),
                    len,
                    prot: pflags_to_prot(h.p_flags),
                    offset: file_page_start,
                },
            );
        }
        i = i + 1;
    }
    assert(phdrs@.take(i as int) =~= phdrs@);
    r
}

} // verus!
