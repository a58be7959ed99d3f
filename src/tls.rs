//! Static thread-local storage: module registration, the offset-packing
//! layout (thread control block after the TLS blocks, as on x86_64) and the
//! initial contents of the static block.
use crate::elf::ProgramHeader;
use vstd::prelude::*;

verus! {

/// Size of the thread control block that follows the static TLS blocks.
pub const TLS_TCB_SIZE: u64 = 0x900;

/// Entries the dynamic thread vector keeps free for later modules.
pub const DTV_SURPLUS: usize = 14;

/// Alignment of the thread control block.
pub const TLS_TCB_ALIGN: u64 = 64;

/// Number of link namespaces the static surplus is sized for.
pub const DL_NNS: u64 = 16;

/// Bytes of static TLS kept free for modules loaded later.
pub const TLS_STATIC_SURPLUS: u64 = 64 + DL_NNS * 100;

/// The TLS segment of one module.
#[derive(Clone, Copy, Debug, PartialEq, Eq, Structural)]
pub struct TlsInfo {
    /// Size of the block in memory (`p_memsz`).
    pub blocksize: u64,
    pub align: u64,
    /// Distance from the thread pointer down to the start of the block, once placed.
    pub offset: u64,
    pub modid: u32,
    /// Where the block starts relative to its alignment.
    pub firstbyte_offset: u64,
    /// Address of the initialisation image.
    pub image: u64,
    /// Size of the initialisation image (`p_filesz`).
    pub image_size: u64,
}

/// The description of the `PT_TLS` segment `h` of module `modid` loaded at
/// `bias`: its memory and file sizes, its alignment, where the block starts
/// within its alignment, and the address of its initialisation image.
pub open spec fn tls_of(modid: u32, bias: u64, h: ProgramHeader) -> TlsInfo {
    TlsInfo {
        blocksize: h.p_memsz,
        align: h.p_align,
        offset: 0,
        modid,
        firstbyte_offset: if h.p_align == 0 {
            0
        } else {
            h.p_vaddr % h.p_align
        },
        image: vstd::wrapping::u64_specs::wrapping_add(h.p_vaddr, bias),
        image_size: h.p_filesz,
    }
}

impl TlsInfo {
    /// Describes the `PT_TLS` segment `phdr` of module `modid` loaded at `bias`.
    pub fn new(modid: u32, bias: u64, phdr: &ProgramHeader) -> (r: TlsInfo)
        ensures
            r == tls_of(modid, bias, *phdr),
    {
        let firstbyte_offset = if phdr.p_align == 0 {
            0
        } else {
            phdr.p_vaddr % phdr.p_align
        };
        TlsInfo {
            blocksize: phdr.p_memsz,
            align: phdr.p_align,
            offset: 0,
            modid,
            firstbyte_offset,
            image: phdr.p_vaddr.wrapping_add(bias),
            image_size: phdr.p_filesz,
        }
    }
}

/// A registered TLS module.
#[derive(Clone, Copy, Debug, PartialEq, Eq, Structural)]
pub struct SlotInfo {
    pub generation: u32,
    pub info: TlsInfo,
}

/// The alignment a block is placed with: an alignment of 0 means none.
pub open spec fn eff_align(a: u64) -> int {
    if a == 0 {
        1
    } else {
        a as int
    }
}

/// The remainder modulo the alignment that the distance from the thread
/// pointer to the block start must have, so that the block start itself sits
/// at `firstbyte_offset` modulo the alignment.
pub open spec fn first_byte(t: TlsInfo) -> int {
    (eff_align(t.align) - (t.firstbyte_offset as int) % eff_align(t.align)) % eff_align(t.align)
}

/// The least value at or above `lo` that is `fb` modulo `al`.
pub open spec fn place_from(lo: int, fb: int, al: int) -> int {
    lo + (fb + al - lo % al) % al
}

/// Module `t` is placed: its block lies below the thread pointer and is aligned.
pub open spec fn placed(t: TlsInfo, used: int) -> bool {
    &&& t.blocksize <= t.offset
    &&& t.offset <= used
    &&& t.offset as int % eff_align(t.align) == first_byte(t)
}

/// The blocks of `a` and `b` do not overlap: each occupies
/// `[offset - blocksize, offset)` below the thread pointer.
pub open spec fn apart(a: TlsInfo, b: TlsInfo) -> bool {
    a.offset <= b.offset - b.blocksize || b.offset <= a.offset - a.blocksize
}

/// Every module of `m` is placed within `used` bytes and no two overlap.
pub open spec fn layout_ok(m: Seq<SlotInfo>, used: int) -> bool {
    &&& forall|i: int| 0 <= i < m.len() ==> placed(#[trigger] m[i].info, used)
    &&& forall|i: int, j: int|
        0 <= i < m.len() && 0 <= j < m.len() && i != j ==> apart(
            #[trigger] m[i].info,
            #[trigger] m[j].info,
        )
}

/// `b` is `a` with only the block offsets changed.
pub open spec fn same_but_offsets(a: Seq<SlotInfo>, b: Seq<SlotInfo>) -> bool {
    &&& a.len() == b.len()
    &&& forall|i: int|
        0 <= i < a.len() ==> (#[trigger] b[i]) == (SlotInfo {
            info: TlsInfo { offset: b[i].info.offset, ..a[i].info },
            ..a[i]
        })
}

/// Places block `t` given the packing so far, `(offset, freetop,
/// freebottom)`: the end of the used space and the free gap alignment left
/// below it. The block goes in the gap when it fits there, else past
/// `offset`, and the gap is replaced when the new padding is larger.
/// Returns the block's offset and the new packing.
pub open spec fn place_one(st: (int, int, int), t: TlsInfo) -> (int, (int, int, int)) {
    let (offset, ft, fb) = st;
    let al = eff_align(t.align);
    let f = first_byte(t);
    let bs = t.blocksize as int;
    if fb - ft >= bs && place_from(ft + bs, f, al) <= fb {
        (place_from(ft + bs, f, al), (offset, place_from(ft + bs, f, al), fb))
    } else {
        let off = place_from(offset + bs, f, al);
        if off > offset + bs + (fb - ft) {
            (off, (off, offset, off - bs))
        } else {
            (off, (off, ft, fb))
        }
    }
}

/// The packing after placing the blocks of `m` in order.
pub open spec fn pack_state(m: Seq<SlotInfo>) -> (int, int, int)
    decreases m.len(),
{
    if m.len() == 0 {
        (0, 0, 0)
    } else {
        place_one(pack_state(m.drop_last()), m.last().info).1
    }
}

/// The offset first-fit packing gives block `i` of `m`.
pub open spec fn packed_offset(m: Seq<SlotInfo>, i: int) -> int {
    place_one(pack_state(m.take(i)), m[i].info).0
}

/// The most space the modules can take: each block plus its alignment.
pub open spec fn tls_demand(m: Seq<SlotInfo>) -> int
    decreases m.len(),
{
    if m.len() == 0 {
        0
    } else {
        tls_demand(m.drop_last()) + m.last().info.blocksize + eff_align(m.last().info.align)
    }
}

/// The largest alignment among the modules, and that of the thread control block.
pub open spec fn max_align_of(m: Seq<SlotInfo>) -> int
    decreases m.len(),
{
    if m.len() == 0 {
        TLS_TCB_ALIGN as int
    } else {
        let rest = max_align_of(m.drop_last());
        let a = eff_align(m.last().info.align);
        if a > rest {
            a
        } else {
            rest
        }
    }
}

/// `x` rounded up to a multiple of `y`.
pub open spec fn round_up(x: int, y: int) -> int {
    ((x + (y - 1)) / y) * y
}

proof fn lemma_place_from(lo: int, fb: int, al: int)
    requires
        0 <= lo,
        0 <= fb < al,
    ensures
        lo <= place_from(lo, fb, al) < lo + al,
        place_from(lo, fb, al) % al == fb,
{
    let q = lo / al;
    let r = lo % al;
    vstd::arithmetic::div_mod::lemma_fundamental_div_mod(lo, al);
    assert(lo == q * al + r) by (nonlinear_arith)
        requires
            lo == al * q + r,
    ;
    if fb >= r {
        vstd::arithmetic::div_mod::lemma_fundamental_div_mod_converse(fb + al - r, al, 1, fb - r);
        vstd::arithmetic::div_mod::lemma_fundamental_div_mod_converse(lo + fb - r, al, q, fb);
    } else {
        assert((q + 1) * al == q * al + al) by (nonlinear_arith);
        vstd::arithmetic::div_mod::lemma_fundamental_div_mod_converse(
            fb + al - r,
            al,
            0,
            fb + al - r,
        );
        vstd::arithmetic::div_mod::lemma_fundamental_div_mod_converse(
            lo + fb + al - r,
            al,
            q + 1,
            fb,
        );
    }
}

proof fn lemma_demand_step(m: Seq<SlotInfo>, i: int)
    requires
        0 <= i < m.len(),
    ensures
        tls_demand(m.take(i + 1)) == tls_demand(m.take(i)) + m[i].info.blocksize + eff_align(
            m[i].info.align,
        ),
        max_align_of(m.take(i + 1)) == (if eff_align(m[i].info.align) > max_align_of(m.take(i)) {
            eff_align(m[i].info.align)
        } else {
            max_align_of(m.take(i))
        }),
{
    assert(m.take(i + 1).drop_last() =~= m.take(i));
}

proof fn lemma_demand_prefix(m: Seq<SlotInfo>, i: int)
    requires
        0 <= i <= m.len(),
    ensures
        tls_demand(m.take(i)) <= tls_demand(m),
        max_align_of(m.take(i)) <= TLS_TCB_ALIGN + tls_demand(m.take(i)),
        max_align_of(m.take(i)) >= TLS_TCB_ALIGN,
    decreases m.len() - i,
{
    lemma_max_align_bound(m.take(i));
    if i < m.len() {
        lemma_demand_prefix(m, i + 1);
        lemma_demand_step(m, i);
    } else {
        assert(m.take(i) =~= m);
    }
}

proof fn lemma_max_align_bound(m: Seq<SlotInfo>)
    ensures
        TLS_TCB_ALIGN <= max_align_of(m) <= TLS_TCB_ALIGN + tls_demand(m),
    decreases m.len(),
{
    if m.len() > 0 {
        lemma_max_align_bound(m.drop_last());
    }
}

fn align_of(a: u64) -> (r: u64)
    ensures
        r == eff_align(a),
        r >= 1,
{
    if a == 0 {
        1
    } else {
        a
    }
}

/// Assigns each module its offset below the thread pointer and computes the
/// static block: `static_used` bytes of blocks, `static_size` bytes in all
/// (blocks, surplus for later modules, thread control block), aligned to
/// `static_align`. A module is placed in the gap that alignment padding left
/// below an earlier module when it fits there, else past every earlier one.
pub fn determine_offset(
    static_align: &mut u64,
    static_used: &mut u64,
    static_size: &mut u64,
    modules: &mut Vec<SlotInfo>,
)
    requires
        2 * tls_demand(old(modules)@) + TLS_STATIC_SURPLUS + TLS_TCB_ALIGN + TLS_TCB_SIZE
            <= u64::MAX,
    ensures
        same_but_offsets(old(modules)@, final(modules)@),
        forall|i: int|
            0 <= i < old(modules)@.len() ==> (#[trigger] final(modules)@[i]).info.offset == packed_offset(
                old(modules)@,
                i,
            ),
        *final(static_used) == pack_state(old(modules)@).0,
        layout_ok(final(modules)@, *final(static_used) as int),
        *final(static_used) <= tls_demand(old(modules)@),
        *final(static_align) == max_align_of(old(modules)@),
        *final(static_size) == round_up(
            *final(static_used) + TLS_STATIC_SURPLUS,
            *final(static_align) as int,
        ) + TLS_TCB_SIZE,
        *final(static_size) >= *final(static_used) + TLS_STATIC_SURPLUS + TLS_TCB_SIZE,
{
    let ghost m0 = modules@;
    let mut max_align: u64 = TLS_TCB_ALIGN;
    let mut freetop: u64 = 0;
    let mut freebottom: u64 = 0;
    let mut offset: u64 = 0;
    let n = modules.len();
    let mut i: usize = 0;
    proof {
        lemma_demand_prefix(m0, 0);
        lemma_demand_prefix(m0, n as int);
        assert(m0.take(0) =~= Seq::<SlotInfo>::empty());
    }
    while i < n
        invariant
            n == m0.len(),
            i <= n,
            2 * tls_demand(m0) + TLS_STATIC_SURPLUS + TLS_TCB_ALIGN + TLS_TCB_SIZE <= u64::MAX,
            same_but_offsets(m0, modules@),
            forall|j: int| i <= j < n ==> (#[trigger] modules@[j]) == m0[j],
            freetop <= freebottom <= offset,
            (offset as int, freetop as int, freebottom as int) == pack_state(m0.take(i as int)),
            forall|j: int| 0 <= j < i ==> (#[trigger] modules@[j]).info.offset == packed_offset(m0, j),
            offset <= tls_demand(m0.take(i as int)),
            tls_demand(m0.take(i as int)) <= tls_demand(m0),
            max_align == max_align_of(m0.take(i as int)),
            layout_ok(modules@.take(i as int), offset as int),
            forall|j: int|
                0 <= j < i ==> (#[trigger] modules@[j]).info.offset <= freetop
                    || modules@[j].info.offset - modules@[j].info.blocksize >= freebottom,
        decreases n - i,
    {
        proof {
            lemma_demand_step(m0, i as int);
            lemma_demand_prefix(m0, i as int + 1);
        }
        let slot = modules[i];
        let info = slot.info;
        let al = align_of(info.align);
        let fb = (al - info.firstbyte_offset % al) % al;
        assert(fb as int == first_byte(info));
        if al > max_align {
            max_align = al;
        }
        let bs = info.blocksize;
        let ghost pre = modules@;
        let ghost ft0 = freetop;
        let ghost fb0 = freebottom;
        let ghost off0 = offset;
        let mut off: u64 = 0;
        let mut in_gap = false;
        if freebottom - freetop >= bs {
            let lo = freetop + bs;
            proof {
                lemma_place_from(lo as int, fb as int, al as int);
            }
            off = lo + (fb + al - lo % al) % al;
            in_gap = off <= freebottom;
        }
        if in_gap {
            freetop = off;
        } else {
            let lo = offset + bs;
            proof {
                lemma_place_from(lo as int, fb as int, al as int);
            }
            off = lo + (fb + al - lo % al) % al;
            if off > offset + bs + (freebottom - freetop) {
                freetop = offset;
                freebottom = off - bs;
            }
            offset = off;
        }
        let mut s = slot;
        s.info.offset = off;
        modules.set(i, s);
        proof {
            assert(m0.take(i + 1).drop_last() =~= m0.take(i as int));
            assert(info == m0[i as int].info);
            assert(place_one(pack_state(m0.take(i as int)), info) == (
                off as int,
                (offset as int, freetop as int, freebottom as int),
            ));
            assert forall|j: int| 0 <= j < i + 1 implies (#[trigger] modules@[j]).info.offset
                == packed_offset(m0, j) by {
                if j < i {
                    assert(modules@[j] == pre[j]);
                }
            }
            let t = s.info;
            assert(modules@ == pre.update(i as int, s));
            assert(placed(t, offset as int));
            assert forall|j: int| 0 <= j < i implies apart(#[trigger] modules@[j].info, t) && apart(
                t,
                modules@[j].info,
            ) && (modules@[j].info.offset <= freetop || modules@[j].info.offset
                - modules@[j].info.blocksize >= freebottom) by {
                assert(modules@[j] == pre[j]);
                assert(pre.take(i as int)[j] == pre[j]);
                assert(placed(pre[j].info, off0 as int));
            }
            let tk = modules@.take(i + 1);
            let tp = pre.take(i as int);
            assert forall|j: int| 0 <= j < i + 1 implies placed(
                #[trigger] tk[j].info,
                offset as int,
            ) by {
                if j < i {
                    assert(tk[j] == tp[j]);
                }
            }
            assert forall|j: int, k: int|
                0 <= j < i + 1 && 0 <= k < i + 1 && j != k implies apart(
                #[trigger] tk[j].info,
                #[trigger] tk[k].info,
            ) by {
                if j < i && k < i {
                    assert(tk[j] == tp[j]);
                    assert(tk[k] == tp[k]);
                } else if j < i {
                    assert(tk[j] == modules@[j]);
                } else {
                    assert(tk[k] == modules@[k]);
                }
            }
            assert(layout_ok(tk, offset as int));
            assert forall|j: int| i + 1 <= j < n implies (#[trigger] modules@[j]) == m0[j] by {
                assert(modules@[j] == pre[j]);
            }
        }
        i = i + 1;
    }
    proof {
        assert(m0.take(n as int) =~= m0);
        assert(modules@.take(n as int) =~= modules@);
        lemma_round_up(offset + TLS_STATIC_SURPLUS, max_align as int);
    }
    *static_used = offset;
    let total = offset + TLS_STATIC_SURPLUS;
    *static_size = roundup(total, max_align) + TLS_TCB_SIZE;
    *static_align = max_align;
}

/// `x` rounded up to a multiple of `y`.
pub fn roundup(x: u64, y: u64) -> (r: u64)
    requires
        1 <= y,
        x + y - 1 <= u64::MAX,
    ensures
        r == round_up(x as int, y as int),
        x <= r <= x + y - 1,
{
    proof {
        lemma_round_up(x as int, y as int);
    }
    ((x + (y - 1)) / y) * y
}

proof fn lemma_round_up(x: int, m: int)
    requires
        0 <= x,
        1 <= m,
    ensures
        x <= round_up(x, m) <= x + m - 1,
{
    let q = (x + (m - 1)) / m;
    let r = (x + (m - 1)) % m;
    vstd::arithmetic::div_mod::lemma_fundamental_div_mod(x + (m - 1), m);
    assert(q * m == x + (m - 1) - r) by (nonlinear_arith)
        requires
            x + (m - 1) == m * q + r,
    ;
}

/// Position `x` of the static area lies in the block of `t`, with the thread
/// pointer at `tp`.
pub open spec fn in_block(t: TlsInfo, tp: int, x: int) -> bool {
    tp - t.offset <= x < tp - t.offset + t.blocksize
}

/// Byte `k` of the block of module `i`: its image, then zeros.
pub open spec fn block_byte(images: Seq<Seq<u8>>, i: int, k: int) -> u8 {
    if k < images[i].len() {
        images[i][k]
    } else {
        0
    }
}

/// The initial contents of the static TLS area of `size` bytes whose thread
/// pointer is `size - TLS_TCB_SIZE` bytes in: each module's block holds its
/// initialisation image followed by zeros, and every other byte, the thread
/// control block included, is zero.
pub open spec fn static_area_ok(
    r: Seq<u8>,
    m: Seq<SlotInfo>,
    images: Seq<Seq<u8>>,
    size: int,
) -> bool {
    let tp = size - TLS_TCB_SIZE;
    &&& r.len() == size
    &&& forall|i: int, k: int|
        0 <= i < m.len() && 0 <= k < m[i].info.blocksize ==> r[tp - m[i].info.offset + k]
            == #[trigger] block_byte(images, i, k)
    &&& forall|x: int|
        0 <= x < size && (forall|i: int| 0 <= i < m.len() ==> !in_block(#[trigger] m[i].info, tp, x))
            ==> r[x] == 0
}

/// Builds the initial static TLS area for modules laid out by
/// `determine_offset`, copying each module's initialisation image to its block.
pub fn allocate_tls_init(modules: &Vec<SlotInfo>, images: &Vec<Vec<u8>>, static_size: u64) -> (r: Vec<
    u8,
>)
    requires
        modules@.len() == images@.len(),
        TLS_TCB_SIZE <= static_size <= usize::MAX,
        layout_ok(modules@, static_size - TLS_TCB_SIZE),
        forall|i: int| 0 <= i < images@.len() ==> images@[i]@.len() <= modules@[i].info.blocksize,
    ensures
        static_area_ok(r@, modules@, images@.map_values(|v: Vec<u8>| v@), static_size as int),
{
    let size = static_size as usize;
    let tp = (static_size - TLS_TCB_SIZE) as usize;
    let ghost m = modules@;
    let ghost imgs = images@.map_values(|v: Vec<u8>| v@);
    let mut r: Vec<u8> = Vec::new();
    while r.len() < size
        invariant
            size == static_size,
            r@.len() <= size,
            forall|x: int| 0 <= x < r@.len() ==> r@[x] == 0,
        decreases size - r@.len(),
    {
        r.push(0);
    }
    let mut i: usize = 0;
    while i < modules.len()
        invariant
            m == modules@,
            imgs == images@.map_values(|v: Vec<u8>| v@),
            m.len() == images@.len(),
            imgs.len() == m.len(),
            size == static_size,
            tp == static_size - TLS_TCB_SIZE,
            layout_ok(m, tp as int),
            forall|j: int| 0 <= j < images@.len() ==> images@[j]@.len() <= m[j].info.blocksize,
            i <= m.len(),
            r@.len() == size,
            forall|j: int, k: int|
                0 <= j < i && 0 <= k < m[j].info.blocksize ==> r@[tp - m[j].info.offset + k]
                    == #[trigger] block_byte(imgs, j, k),
            forall|x: int|
                0 <= x < size && (forall|j: int| 0 <= j < i ==> !in_block(#[trigger] m[j].info, tp as int, x))
                    ==> r@[x] == 0,
        decreases m.len() - i,
    {
        let t = modules[i].info;
        assert(placed(m[i as int].info, tp as int));
        let start = tp - t.offset as usize;
        let img = &images[i];
        let ghost r0 = r@;
        let mut k: usize = 0;
        while k < img.len()
            invariant
                r@.len() == r0.len(),
                (i as int) < imgs.len(),
                img@ == imgs[i as int],
                img@.len() <= t.blocksize,
                start + t.blocksize <= tp,
                tp <= size,
                r0.len() == size,
                k <= img@.len(),
                forall|x: int| 0 <= x < k ==> r@[start + x] == img@[x],
                forall|x: int| 0 <= x < size && !(start <= x < start + k) ==> r@[x] == r0[x],
            decreases img@.len() - k,
        {
            r.set(start + k, img[k]);
            k = k + 1;
        }
        proof {
            assert forall|j: int, kk: int|
                0 <= j < i + 1 && 0 <= kk < m[j].info.blocksize implies r@[tp - m[j].info.offset
                + kk] == #[trigger] block_byte(imgs, j, kk) by {
                let x = tp - m[j].info.offset + kk;
                if j < i {
                    assert(apart(m[j].info, m[i as int].info));
                    assert(placed(m[j].info, tp as int));
                    assert(!(start <= x < start + k));
                    assert(r@[x] == r0[x]);
                } else {
                    if kk >= imgs[j].len() {
                        assert(r@[x] == r0[x]);
                        assert forall|jj: int| 0 <= jj < i implies !in_block(
                            #[trigger] m[jj].info,
                            tp as int,
                            x,
                        ) by {
                            assert(apart(m[jj].info, m[i as int].info));
                            assert(placed(m[jj].info, tp as int));
                        }
                        assert(r0[x] == 0);
                    }
                }
            }
            assert forall|x: int|
                0 <= x < size && (forall|j: int|
                    0 <= j < i + 1 ==> !in_block(#[trigger] m[j].info, tp as int, x)) implies r@[x]
                == 0 by {
                assert(!in_block(m[i as int].info, tp as int, x));
                assert(!(start <= x < start + k));
                assert(r@[x] == r0[x]);
                assert forall|j: int| 0 <= j < i implies !in_block(#[trigger] m[j].info, tp as int, x) by {
                    assert(!in_block(m[j].info, tp as int, x));
                }
            }
        }
        i = i + 1;
    }
    r
}

/// The largest TLS demand a static layout can be computed for without
/// overflow.
pub const TLS_DEMAND_LIMIT: u64 = (0xffff_ffff_ffff_ffff - TLS_STATIC_SURPLUS - TLS_TCB_ALIGN - TLS_TCB_SIZE) / 2;

/// The modules' blocks are small enough for their layout to be computed.
pub open spec fn tls_fits(m: Seq<SlotInfo>) -> bool {
    2 * tls_demand(m) + TLS_STATIC_SURPLUS + TLS_TCB_ALIGN + TLS_TCB_SIZE <= u64::MAX
}

/// Whether the layout of `modules` can be computed without overflow.
pub fn tls_fits_exec(modules: &Vec<SlotInfo>) -> (r: bool)
    ensures
        r == tls_fits(modules@),
{
    let mut d: u64 = 0;
    let mut i: usize = 0;
    proof {
        assert(modules@.take(0) =~= Seq::<SlotInfo>::empty());
    }
    while i < modules.len()
        invariant
            i <= modules@.len(),
            d == tls_demand(modules@.take(i as int)),
            d <= TLS_DEMAND_LIMIT,
        decreases modules@.len() - i,
    {
        proof {
            lemma_demand_step(modules@, i as int);
            lemma_demand_prefix(modules@, i as int + 1);
        }
        let t = modules[i].info;
        if t.blocksize > TLS_DEMAND_LIMIT - d {
            return false;
        }
        let d2 = d + t.blocksize;
        let a = align_of(t.align);
        if a > TLS_DEMAND_LIMIT - d2 {
            return false;
        }
        d = d2 + a;
        i = i + 1;
    }
    proof {
        assert(modules@.take(i as int) =~= modules@);
    }
    true
}

/// A computed static TLS layout.
#[derive(Clone, Copy, Debug, PartialEq, Eq, Structural)]
pub struct TlsLayout {
    pub static_align: u64,
    pub static_used: u64,
    pub static_size: u64,
}

/// The dynamic thread vector: `len` module slots, and for each module id
/// the position of its block in the static area.
pub struct Dtv {
    /// The last module id plus the slots kept free for later modules.
    pub len: u64,
    /// Indexed by module id; slot 0 is the header and holds nothing.
    pub slots: Vec<Option<u64>>,
}

/// Lays out the dynamic thread vector for modules with ids 1, 2, ... in
/// order, placed in a static area of `static_size` bytes: each module's slot
/// holds where its block starts in the area, the slots past the last id are
/// empty.
pub fn allocate_dtv(modules: &Vec<SlotInfo>, static_size: u64) -> (r: Dtv)
    requires
        TLS_TCB_SIZE <= static_size,
        layout_ok(modules@, static_size - TLS_TCB_SIZE),
        forall|i: int| 0 <= i < modules@.len() ==> (#[trigger] modules@[i]).info.modid == i + 1,
        modules@.len() + DTV_SURPLUS + 1 <= usize::MAX,
    ensures
        r.len == modules@.len() + DTV_SURPLUS,
        r.slots@.len() == r.len + 1,
        r.slots@[0] is None,
        forall|i: int|
            0 <= i < modules@.len() ==> r.slots@[(#[trigger] modules@[i]).info.modid as int] == Some(
                (static_size - TLS_TCB_SIZE - modules@[i].info.offset) as u64,
            ),
        forall|k: int| modules@.len() < k < r.slots@.len() ==> r.slots@[k] is None,
{
    let tp = static_size - TLS_TCB_SIZE;
    let n = modules.len();
    let mut slots: Vec<Option<u64>> = Vec::new();
    slots.push(None);
    let mut i: usize = 0;
    while i < n
        invariant
            n == modules@.len(),
            tp == static_size - TLS_TCB_SIZE,
            layout_ok(modules@, tp as int),
            i <= n,
            slots@.len() == i + 1,
            slots@[0] is None,
            forall|j: int| 0 <= j < i ==> slots@[j + 1] == Some((tp - modules@[j].info.offset) as u64),
        decreases n - i,
    {
        assert(placed(modules@[i as int].info, tp as int));
        slots.push(Some(tp - modules[i].info.offset));
        i = i + 1;
    }
    let mut k: usize = 0;
    while k < DTV_SURPLUS
        invariant
            n == modules@.len(),
            n + DTV_SURPLUS + 1 <= usize::MAX,
            k <= DTV_SURPLUS,
            slots@.len() == n + 1 + k,
            slots@[0] is None,
            forall|j: int| 0 <= j < n ==> slots@[j + 1] == Some((tp - modules@[j].info.offset) as u64),
            forall|j: int| n < j < slots@.len() ==> slots@[j] is None,
        decreases DTV_SURPLUS - k,
    {
        slots.push(None);
        k = k + 1;
    }
    Dtv { len: (n + DTV_SURPLUS) as u64, slots }
}

/// The registry of TLS modules, in the order they were found.
pub struct Lachesis {
    pub modules: Vec<SlotInfo>,
    /// The id given to the last module registered; ids start at 1.
    pub current_modid: u32,
    pub debug: bool,
}

impl Lachesis {
    /// Module ids are 1, 2, ... in registration order, and the counter is
    /// the last id given.
    pub open spec fn wf(&self) -> bool {
        &&& self.current_modid == self.modules@.len()
        &&& forall|i: int| 0 <= i < self.modules@.len() ==> (#[trigger] self.modules@[i]).info.modid == i + 1
    }

    pub fn new(debug: bool) -> (r: Lachesis)
        ensures
            r.wf(),
            r.modules@.len() == 0,
            r.current_modid == 0,
            r.debug == debug,
    {
        Lachesis { modules: Vec::new(), current_modid: 0, debug }
    }

    /// Computes the static TLS layout of the registered modules, setting
    /// each module's offset; `None`, with nothing changed, when their blocks
    /// are too large for it to be computed.
    pub fn layout(&mut self) -> (r: Option<TlsLayout>)
        ensures
            r is None <==> !tls_fits(old(self).modules@),
            r is None ==> *final(self) == *old(self),
            final(self).current_modid == old(self).current_modid,
            final(self).debug == old(self).debug,
            old(self).wf() ==> final(self).wf(),
            r matches Some(t) ==> {
                &&& same_but_offsets(old(self).modules@, final(self).modules@)
                &&& (forall|i: int| 0 <= i < old(self).modules@.len() ==> (#[trigger] final(self).modules@[i]).info.offset == packed_offset(old(self).modules@, i))
                &&& t.static_used == pack_state(old(self).modules@).0
                &&& layout_ok(final(self).modules@, t.static_used as int)
                &&& t.static_align == max_align_of(old(self).modules@)
                &&& t.static_size == round_up(t.static_used + TLS_STATIC_SURPLUS, t.static_align as int) + TLS_TCB_SIZE
                &&& t.static_size >= t.static_used + TLS_STATIC_SURPLUS + TLS_TCB_SIZE
            },
    {
        if !tls_fits_exec(&self.modules) {
            return None;
        }
        let (mut a, mut u, mut z) = (0u64, 0u64, 0u64);
        determine_offset(&mut a, &mut u, &mut z, &mut self.modules);
        proof {
            if old(self).wf() {
                assert forall|i: int| 0 <= i < self.modules@.len() implies (#[trigger] self.modules@[i]).info.modid == i + 1 by {
                    assert(self.modules@[i].info.modid == old(self).modules@[i].info.modid);
                }
            }
        }
        Some(TlsLayout { static_align: a, static_used: u, static_size: z })
    }

    /// Registers the `PT_TLS` segment `phdr` of an object loaded at `bias`
    /// under the next module id, and returns its description.
    pub fn push_module(&mut self, bias: u64, phdr: &ProgramHeader) -> (r: TlsInfo)
        requires
            old(self).current_modid < u32::MAX,
        ensures
            final(self).current_modid == old(self).current_modid + 1,
            r == tls_of(final(self).current_modid, bias, *phdr),
            final(self).modules@ == old(self).modules@.push(SlotInfo { generation: 1, info: r }),
            final(self).debug == old(self).debug,
            old(self).wf() ==> final(self).wf(),
    {
        self.current_modid = self.current_modid + 1;
        let tls = TlsInfo::new(self.current_modid, bias, phdr);
        self.modules.push(SlotInfo { generation: 1, info: tls });
        tls
    }
}

/// With the layout `determine_offset` computes, every module's block lies
/// inside the static area, below the thread pointer (the area's last
/// `TLS_TCB_SIZE` bytes are the thread control block), aligned, and apart
/// from every other block. A single module whose block is no larger than the
/// surplus and the thread control block together also has its offset plus its
/// block size within the static size.
pub proof fn lemma_tls_blocks_fit(m: Seq<SlotInfo>, static_used: u64, static_size: u64)
    requires
        layout_ok(m, static_used as int),
        static_size >= static_used + TLS_STATIC_SURPLUS + TLS_TCB_SIZE,
    ensures
        forall|i: int|
            0 <= i < m.len() ==> #[trigger] m[i].info.blocksize <= m[i].info.offset && m[i].info.offset
                <= static_size - TLS_TCB_SIZE && m[i].info.offset as int % eff_align(m[i].info.align)
                == first_byte(m[i].info),
        forall|i: int, j: int|
            0 <= i < m.len() && 0 <= j < m.len() && i != j ==> apart(#[trigger] m[i].info, #[trigger] m[j].info),
        m.len() == 1 && m[0].info.blocksize <= TLS_STATIC_SURPLUS + TLS_TCB_SIZE ==> m[0].info.offset
            + m[0].info.blocksize <= static_size,
{
    assert forall|i: int| 0 <= i < m.len() implies #[trigger] m[i].info.blocksize <= m[i].info.offset
        && m[i].info.offset <= static_size - TLS_TCB_SIZE && m[i].info.offset as int % eff_align(
        m[i].info.align,
    ) == first_byte(m[i].info) by {
        assert(placed(m[i].info, static_used as int));
    }
    if m.len() == 1 {
        assert(placed(m[0].info, static_used as int));
    }
}

} // verus!
