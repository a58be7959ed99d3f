//! The in-memory model of one loaded ELF object, built from its mapped image
//! through bounds-checked table views.
use crate::elf::{
    dyns_from, le_u16_at, le_u32_at, le_u64_at, parse_dynamic, parse_phdrs, parse_syms, phdrs_at,
    read_u16, read_u32, read_u64, syms_at, Dyn, ProgramHeader, Sym, DT_NEEDED, PT_DYNAMIC, PT_LOAD,
    PT_PHDR, PT_TLS, SIZEOF_DYN, SIZEOF_EHDR, SIZEOF_PHDR, SIZEOF_RELA, SIZEOF_SYM,
};
use crate::link_info::{link_info_of, wrap_add, LinkInfo};
use crate::loader::LoadSpan;
use crate::rela::{parse_relas, relas_at, Rela};
use crate::strtab::{bytes_eq, cstr_at, str_at};
use crate::tls::{tls_of, Lachesis, SlotInfo, TlsInfo};
use vstd::prelude::*;

verus! {

/// Why an object could not be built from its image.
#[derive(Clone, Copy, Debug, PartialEq, Eq, Structural)]
pub enum ImageError {
    /// No `PT_DYNAMIC` program header.
    MissingDynamicSection,
    /// No `PT_LOAD` program header.
    MissingLoadSegment,
    /// A table the dynamic section names lies outside the mapped image.
    OutOfImage,
    /// The string table does not follow the symbol table.
    BadSymbolTable,
}

/// The GNU hash table of an object.
pub struct GnuHash {
    /// Index of the first symbol the table covers.
    pub symindex: u32,
    pub shift2: u32,
    pub bloom: Vec<u64>,
    pub buckets: Vec<u32>,
    /// One hash per covered symbol; the low bit marks the end of a chain.
    pub chains: Vec<u32>,
}

/// The `count` 32-bit words stored from `off` on.
pub open spec fn u32s_at(b: Seq<u8>, off: int, count: int) -> Seq<u32> {
    Seq::new(count as nat, |i: int| le_u32_at(b, off + i * 4))
}

/// The `count` 64-bit words stored from `off` on.
pub open spec fn u64s_at(b: Seq<u8>, off: int, count: int) -> Seq<u64> {
    Seq::new(count as nat, |i: int| le_u64_at(b, off + i * 8))
}

fn parse_u32s(b: &[u8], off: usize, count: usize) -> (r: Option<Vec<u32>>)
    ensures
        r is Some <==> off + count * 4 <= b@.len(),
        r matches Some(v) ==> v@ == u32s_at(b@, off as int, count as int),
{
    if count > b.len() / 4 || off > b.len() - count * 4 {
        return None;
    }
    let mut v: Vec<u32> = Vec::new();
    let mut i: usize = 0;
    let len = b.len();
    while i < count
        invariant
            off + count * 4 <= b@.len(),
            len == b@.len(),
            i <= count,
            v@ == u32s_at(b@, off as int, i as int),
        decreases count - i,
    {
        let x = read_u32(b, off + i * 4);
        v.push(x);
        i = i + 1;
        assert(v@ =~= u32s_at(b@, off as int, i as int));
    }
    Some(v)
}

fn parse_u64s(b: &[u8], off: usize, count: usize) -> (r: Option<Vec<u64>>)
    ensures
        r is Some <==> off + count * 8 <= b@.len(),
        r matches Some(v) ==> v@ == u64s_at(b@, off as int, count as int),
{
    if count > b.len() / 8 || off > b.len() - count * 8 {
        return None;
    }
    let mut v: Vec<u64> = Vec::new();
    let mut i: usize = 0;
    let len = b.len();
    while i < count
        invariant
            off + count * 8 <= b@.len(),
            len == b@.len(),
            i <= count,
            v@ == u64s_at(b@, off as int, i as int),
        decreases count - i,
    {
        let x = read_u64(b, off + i * 8);
        v.push(x);
        i = i + 1;
        assert(v@ =~= u64s_at(b@, off as int, i as int));
    }
    Some(v)
}

/// Where the parts of the GNU hash table at `off` start: bloom words,
/// buckets, chains; and how many chain words cover `nsyms` symbols.
pub open spec fn gnu_layout(b: Seq<u8>, off: int, nsyms: int) -> (int, int, int, int) {
    let nbuckets = le_u32_at(b, off) as int;
    let symindex = le_u32_at(b, off + 4) as int;
    let maskwords = le_u32_at(b, off + 8) as int;
    let buckets_at = off + 16 + 8 * maskwords;
    let chains_at = buckets_at + 4 * nbuckets;
    let nchains = if symindex <= nsyms {
        nsyms - symindex
    } else {
        0
    };
    (buckets_at, chains_at, nchains, nbuckets)
}

/// The GNU hash table at `off` for a symbol table of `nsyms` entries fits in `b`.
pub open spec fn gnu_fits(b: Seq<u8>, off: int, nsyms: int) -> bool {
    let (buckets_at, chains_at, nchains, nbuckets) = gnu_layout(b, off, nsyms);
    off + 16 <= b.len() && chains_at + 4 * nchains <= b.len()
}

/// Reads the GNU hash table at `off` of an object with `nsyms` symbols.
pub fn parse_gnu_hash(b: &[u8], off: usize, nsyms: usize) -> (r: Option<GnuHash>)
    ensures
        r is Some <==> gnu_fits(b@, off as int, nsyms as int),
        r matches Some(g) ==> {
            let (buckets_at, chains_at, nchains, nbuckets) = gnu_layout(b@, off as int, nsyms as int);
            &&& g.symindex == le_u32_at(b@, off + 4)
            &&& g.shift2 == le_u32_at(b@, off + 12)
            &&& g.bloom@ == u64s_at(b@, off + 16, le_u32_at(b@, off + 8) as int)
            &&& g.buckets@ == u32s_at(b@, buckets_at, nbuckets)
            &&& g.chains@ == u32s_at(b@, chains_at, nchains)
        },
{
    if off > b.len() || b.len() - off < 16 {
        return None;
    }
    let nbuckets = read_u32(b, off) as usize;
    let symindex = read_u32(b, off + 4);
    let maskwords = read_u32(b, off + 8) as usize;
    let shift2 = read_u32(b, off + 12);
    let nchains: usize = if symindex as usize <= nsyms {
        nsyms - symindex as usize
    } else {
        0
    };
    if maskwords > (b.len() - off - 16) / 8 {
        return None;
    }
    let buckets_at = off + 16 + 8 * maskwords;
    if nbuckets > (b.len() - buckets_at) / 4 {
        return None;
    }
    let chains_at = buckets_at + 4 * nbuckets;
    if nchains > (b.len() - chains_at) / 4 {
        return None;
    }
    let bloom = parse_u64s(b, off + 16, maskwords).unwrap();
    let buckets = parse_u32s(b, buckets_at, nbuckets).unwrap();
    let chains = parse_u32s(b, chains_at, nchains).unwrap();
    Some(GnuHash { symindex, shift2, bloom, buckets, chains })
}

/// The symbol the GNU hash chain from symbol `i` on yields for `name` with
/// hash `h`: the first whose chain hash equals `h` but for the low bit and
/// whose name is `name`, before the chain ends.
pub open spec fn chain_find(
    g: GnuHash,
    syms: Seq<Sym>,
    strtab: Seq<u8>,
    name: Seq<u8>,
    h: u32,
    i: int,
) -> Option<int>
    decreases syms.len() - i,
{
    let ci = i - g.symindex;
    if i < g.symindex || i >= syms.len() || ci >= g.chains@.len() {
        None
    } else {
        let h2 = g.chains@[ci];
        if h / 2 == h2 / 2 && cstr_at(strtab, syms[i].st_name as int) == name {
            Some(i)
        } else if h2 % 2 == 1 {
            None
        } else {
            chain_find(g, syms, strtab, name, h, i + 1)
        }
    }
}

/// The index of the symbol a GNU hash lookup of `name` with hash `h` finds:
/// the chain of the bucket `h` falls in is walked. The bloom filter only
/// answers some misses early, so it decides nothing here.
pub open spec fn gnu_lookup(g: GnuHash, syms: Seq<Sym>, strtab: Seq<u8>, name: Seq<u8>, h: u32) -> Option<
    int,
> {
    if g.buckets@.len() == 0 {
        None
    } else {
        let bucket = g.buckets@[h as int % g.buckets@.len() as int];
        chain_find(g, syms, strtab, name, h, bucket as int)
    }
}

proof fn lemma_chain_find_sound(
    g: GnuHash,
    syms: Seq<Sym>,
    strtab: Seq<u8>,
    name: Seq<u8>,
    h: u32,
    i: int,
)
    ensures
        chain_find(g, syms, strtab, name, h, i) matches Some(k) ==> 0 <= k < syms.len()
            && cstr_at(strtab, syms[k].st_name as int) == name,
    decreases syms.len() - i,
{
    let ci = i - g.symindex;
    if !(i < g.symindex || i >= syms.len() || ci >= g.chains@.len()) {
        lemma_chain_find_sound(g, syms, strtab, name, h, i + 1);
    }
}

impl GnuHash {
    /// Looks `name`, whose GNU hash is `h`, up in this table over the symbols
    /// `syms` named in `strtab`, and returns the symbol's index.
    pub fn lookup(&self, syms: &Vec<Sym>, strtab: &Vec<u8>, name: &[u8], h: u32) -> (r: Option<usize>)
        ensures
            r matches Some(k) ==> gnu_lookup(*self, syms@, strtab@, name@, h) == Some(k as int),
            r is None ==> gnu_lookup(*self, syms@, strtab@, name@, h) is None,
    {
        if self.buckets.len() == 0 {
            return None;
        }
        let bucket = self.buckets[(h as usize) % self.buckets.len()];
        let mut i: usize = bucket as usize;
        while i < syms.len()
            invariant
                chain_find(*self, syms@, strtab@, name@, h, i as int) == gnu_lookup(
                    *self,
                    syms@,
                    strtab@,
                    name@,
                    h,
                ),
            decreases syms@.len() - i,
        {
            if i < self.symindex as usize || i - (self.symindex as usize) >= self.chains.len() {
                return None;
            }
            let h2 = self.chains[i - self.symindex as usize];
            if h / 2 == h2 / 2 {
                let s = str_at(strtab.as_slice(), syms[i].st_name as usize);
                if bytes_eq(s.as_slice(), name) {
                    return Some(i);
                }
            }
            if h2 % 2 == 1 {
                return None;
            }
            i = i + 1;
        }
        None
    }
}

/// One loaded ELF object: the executable, a shared library or the vDSO.
pub struct SharedObject {
    /// The name the object was asked for by (its `DT_NEEDED` entry), or its soname.
    pub name: Vec<u8>,
    pub load_bias: u64,
    pub map_begin: u64,
    pub map_end: u64,
    /// The libraries it needs, in `DT_NEEDED` order.
    pub libs: Vec<Vec<u8>>,
    pub phdrs: Vec<ProgramHeader>,
    pub dynamic: Vec<Dyn>,
    pub strtab: Vec<u8>,
    pub symtab: Vec<Sym>,
    pub relocations: Vec<Rela>,
    pub pltrelocations: Vec<Rela>,
    /// Address of the global offset table, or 0.
    pub pltgot: u64,
    pub gnu_hash: Option<GnuHash>,
    pub load_path: Option<Vec<u8>>,
    pub flags: u64,
    pub state_flags: u64,
    pub tls: Option<TlsInfo>,
    pub link_info: LinkInfo,
}

/// The index of the symbol `name` (hash `h`) of `so`, by its GNU hash table.
pub open spec fn find_index(so: SharedObject, name: Seq<u8>, h: u32) -> Option<int> {
    match so.gnu_hash {
        Some(g) => gnu_lookup(g, so.symtab@, so.strtab@, name, h),
        None => None,
    }
}

/// The symbol `name` (hash `h`) of `so`.
pub open spec fn find_spec(so: SharedObject, name: Seq<u8>, h: u32) -> Option<Sym> {
    match find_index(so, name, h) {
        Some(i) => Some(so.symtab@[i]),
        None => None,
    }
}

impl SharedObject {
    pub fn name(&self) -> (r: &Vec<u8>)
        ensures
            r == &self.name,
    {
        &self.name
    }

    /// Looks up `name`, whose GNU hash is `h`, in this object's hash table;
    /// `None` when it has no such table or no such symbol.
    pub fn find(&self, name: &[u8], h: u32) -> (r: Option<Sym>)
        ensures
            r == find_spec(*self, name@, h),
            r matches Some(s) ==> cstr_at(self.strtab@, s.st_name as int) == name@,
    {
        match &self.gnu_hash {
            Some(g) => {
                proof {
                    let bucket = if g.buckets@.len() == 0 {
                        0
                    } else {
                        g.buckets@[h as int % g.buckets@.len() as int] as int
                    };
                    lemma_chain_find_sound(*g, self.symtab@, self.strtab@, name@, h, bucket);
                }
                match g.lookup(&self.symtab, &self.strtab, name, h) {
                    Some(i) => Some(self.symtab[i]),
                    None => None,
                }
            },
            None => None,
        }
    }
}

/// The `p_vaddr` of the first `PT_DYNAMIC` header.
pub open spec fn first_dynamic(p: Seq<ProgramHeader>) -> Option<u64>
    decreases p.len(),
{
    if p.len() == 0 {
        None
    } else if p[0].p_type == PT_DYNAMIC {
        Some(p[0].p_vaddr)
    } else {
        first_dynamic(p.drop_first())
    }
}

pub open spec fn has_load(p: Seq<ProgramHeader>) -> bool {
    exists|i: int| 0 <= i < p.len() && (#[trigger] p[i]).p_type == PT_LOAD
}

/// Where, in an image of `len` bytes mapped at `base`, the `size` bytes at
/// address `addr` start; `None` when they do not all lie in the image.
pub open spec fn view_off(base: u64, len: int, addr: u64, size: int) -> Option<int> {
    if base <= addr && addr - base + size <= len {
        Some(addr - base)
    } else {
        None
    }
}

/// The names of the libraries that the `DT_NEEDED` entries of `d` give, in order.
pub open spec fn needed_names(d: Seq<Dyn>, strtab: Seq<u8>) -> Seq<Seq<u8>>
    decreases d.len(),
{
    if d.len() == 0 {
        Seq::empty()
    } else if d.last().d_tag == DT_NEEDED {
        needed_names(d.drop_last(), strtab).push(cstr_at(strtab, d.last().d_val as int))
    } else {
        needed_names(d.drop_last(), strtab)
    }
}

/// The size of a symbol-table entry: `DT_SYMENT`, or the ELF64 size when
/// the dynamic section does not give one.
pub open spec fn sym_ent(li: LinkInfo) -> int {
    if li.syment == 0 {
        SIZEOF_SYM as int
    } else {
        li.syment as int
    }
}

/// Number of symbols: the symbol table is taken to run up to the string
/// table, as link editors lay them out, divided by the entry size.
pub open spec fn nsyms_of(li: LinkInfo) -> int {
    (li.strtab - li.symtab) / sym_ent(li)
}

/// The relocation table of the object.
pub open spec fn image_relas(img: Seq<u8>, base: u64, bias: u64, p: Seq<ProgramHeader>) -> Seq<Rela> {
    let li = link_info_of(bias, dynamic_of(img, base, bias, p));
    relas_at(img, rela_view(base, img.len() as int, li.rela, li.relasz)->0, (li.relasz / SIZEOF_RELA as u64) as int)
}

/// Where a relocation table of `size` bytes at `addr` starts in the image; an
/// empty table needs no place.
pub open spec fn rela_view(base: u64, len: int, addr: u64, size: u64) -> Option<int> {
    if size / SIZEOF_RELA as u64 == 0 {
        Some(0)
    } else {
        view_off(base, len, addr, (size / SIZEOF_RELA as u64) * SIZEOF_RELA)
    }
}

/// The dynamic array of the object, and its link information.
pub open spec fn dynamic_of(img: Seq<u8>, base: u64, bias: u64, p: Seq<ProgramHeader>) -> Seq<Dyn> {
    dyns_from(img, view_off(base, img.len() as int, wrap_add(first_dynamic(p)->0, bias), SIZEOF_DYN as int)->0)
}

/// Why the image `img` mapped at `base`, with load bias `bias` and program
/// headers `p`, does not make an object; `None` when it does.
pub open spec fn image_error(img: Seq<u8>, base: u64, bias: u64, p: Seq<ProgramHeader>) -> Option<ImageError> {
    let len = img.len() as int;
    if first_dynamic(p) is None {
        Some(ImageError::MissingDynamicSection)
    } else if !has_load(p) {
        Some(ImageError::MissingLoadSegment)
    } else if view_off(base, len, wrap_add(first_dynamic(p)->0, bias), SIZEOF_DYN as int) is None {
        Some(ImageError::OutOfImage)
    } else {
        let li = link_info_of(bias, dynamic_of(img, base, bias, p));
        if li.strtab < li.symtab || (li.syment != 0 && li.syment < SIZEOF_SYM) {
            Some(ImageError::BadSymbolTable)
        } else if view_off(base, len, li.symtab, nsyms_of(li) * sym_ent(li)) is None
            || view_off(base, len, li.strtab, li.strsz as int) is None
            || rela_view(base, len, li.rela, li.relasz) is None
            || rela_view(base, len, li.jmprel, li.pltrelsz) is None
            || (li.gnu_hash != 0 && (view_off(base, len, li.gnu_hash, 0) is None
                || !gnu_fits(img, view_off(base, len, li.gnu_hash, 0)->0, nsyms_of(li)))) {
            Some(ImageError::OutOfImage)
        } else {
            None
        }
    }
}

/// `so` is the object that the image `img` mapped at `base` makes.
pub open spec fn object_of(
    so: SharedObject,
    img: Seq<u8>,
    base: u64,
    bias: u64,
    p: Seq<ProgramHeader>,
) -> bool {
    let len = img.len() as int;
    let dynamic = dynamic_of(img, base, bias, p);
    let li = link_info_of(bias, dynamic);
    let str_off = view_off(base, len, li.strtab, li.strsz as int)->0;
    &&& so.load_bias == bias
    &&& so.map_begin == base
    &&& so.phdrs@ == p
    &&& so.dynamic@ == dynamic
    &&& so.link_info == li
    &&& so.symtab@ == syms_at(img, view_off(base, len, li.symtab, nsyms_of(li) * sym_ent(li))->0, nsyms_of(li), sym_ent(li))
    &&& so.strtab@ == img.subrange(str_off, str_off + li.strsz)
    &&& so.relocations@ == image_relas(img, base, bias, p)
    &&& so.pltrelocations@ == relas_at(img, rela_view(base, len, li.jmprel, li.pltrelsz)->0, (li.pltrelsz / SIZEOF_RELA as u64) as int)
    &&& so.libs@.map_values(|v: Vec<u8>| v@) == needed_names(dynamic, so.strtab@)
    &&& so.pltgot == li.pltgot
    &&& so.flags == li.flags
    &&& so.state_flags == li.flags_1
    &&& (li.gnu_hash == 0 <==> so.gnu_hash is None)
    &&& so.gnu_hash matches Some(g) ==> {
        let (buckets_at, chains_at, nchains, nbuckets) = gnu_layout(img, view_off(base, len, li.gnu_hash, 0)->0, nsyms_of(li));
        &&& g.buckets@ == u32s_at(img, buckets_at, nbuckets)
        &&& g.chains@ == u32s_at(img, chains_at, nchains)
        &&& g.symindex == le_u32_at(img, view_off(base, len, li.gnu_hash, 0)->0 + 4)
    }
}

pub fn find_dynamic(p: &Vec<ProgramHeader>) -> (r: Option<u64>)
    ensures
        r == first_dynamic(p@),
{
    let mut i: usize = 0;
    assert(p@.skip(0) =~= p@);
    while i < p.len()
        invariant
            i <= p@.len(),
            first_dynamic(p@) == first_dynamic(p@.skip(i as int)),
        decreases p@.len() - i,
    {
        assert(p@.skip(i as int).drop_first() =~= p@.skip(i + 1));
        if p[i].p_type == PT_DYNAMIC {
            return Some(p[i].p_vaddr);
        }
        i = i + 1;
    }
    None
}

fn find_load(p: &Vec<ProgramHeader>) -> (r: bool)
    ensures
        r == has_load(p@),
{
    let mut i: usize = 0;
    while i < p.len()
        invariant
            i <= p@.len(),
            forall|k: int| 0 <= k < i ==> (#[trigger] p@[k]).p_type != PT_LOAD,
        decreases p@.len() - i,
    {
        if p[i].p_type == PT_LOAD {
            return true;
        }
        i = i + 1;
    }
    false
}

fn view(base: u64, len: usize, addr: u64, size: u64) -> (r: Option<usize>)
    ensures
        r matches Some(o) ==> view_off(base, len as int, addr, size as int) == Some(o as int),
        r is None ==> view_off(base, len as int, addr, size as int) is None,
{
    if base <= addr && addr - base <= len as u64 && size <= len as u64 - (addr - base) {
        Some((addr - base) as usize)
    } else {
        None
    }
}

fn relas_view(base: u64, len: usize, addr: u64, size: u64) -> (r: Option<usize>)
    ensures
        r matches Some(o) ==> rela_view(base, len as int, addr, size) == Some(o as int),
        r is None ==> rela_view(base, len as int, addr, size) is None,
{
    let count = size / SIZEOF_RELA as u64;
    proof {
        vstd::arithmetic::div_mod::lemma_fundamental_div_mod(size as int, SIZEOF_RELA as int);
    }
    if count == 0 {
        Some(0)
    } else {
        view(base, len, addr, count * SIZEOF_RELA as u64)
    }
}

fn needed(dynamic: &Vec<Dyn>, strtab: &Vec<u8>) -> (r: Vec<Vec<u8>>)
    ensures
        r@.map_values(|v: Vec<u8>| v@) == needed_names(dynamic@, strtab@),
{
    let mut r: Vec<Vec<u8>> = Vec::new();
    let mut i: usize = 0;
    while i < dynamic.len()
        invariant
            i <= dynamic@.len(),
            r@.map_values(|v: Vec<u8>| v@) == needed_names(dynamic@.take(i as int), strtab@),
        decreases dynamic@.len() - i,
    {
        assert(dynamic@.take(i + 1).drop_last() =~= dynamic@.take(i as int));
        let d = dynamic[i];
        if d.d_tag == DT_NEEDED {
            let s = if d.d_val < strtab.len() as u64 {
                str_at(strtab.as_slice(), d.d_val as usize)
            } else {
                Vec::new()
            };
            proof {
                if d.d_val >= strtab@.len() {
                    assert(cstr_at(strtab@, d.d_val as int) =~= Seq::<u8>::empty());
                }
            }
            let ghost before = r@;
            r.push(s);
            assert(r@.map_values(|v: Vec<u8>| v@) =~= before.map_values(|v: Vec<u8>| v@).push(s@));
        }
        i = i + 1;
    }
    assert(dynamic@.take(i as int) =~= dynamic@);
    r
}

impl SharedObject {
    /// Builds the object whose image `image` is mapped at `base`, with load
    /// bias `bias` and program headers `phdrs`: its dynamic section, symbol
    /// and string tables, relocation tables and GNU hash table are read from
    /// the image, each checked to lie inside it.
    pub fn from_image(
        name: Vec<u8>,
        image: &[u8],
        base: u64,
        bias: u64,
        phdrs: Vec<ProgramHeader>,
        load_path: Option<Vec<u8>>,
        tls: Option<TlsInfo>,
    ) -> (r: Result<SharedObject, ImageError>)
        ensures
            r is Err <==> image_error(image@, base, bias, phdrs@) is Some,
            r matches Err(e) ==> image_error(image@, base, bias, phdrs@) == Some(e),
            r matches Ok(so) ==> object_of(so, image@, base, bias, phdrs@) && so.name@ == name@
                && so.load_path == load_path && so.tls == tls,
    {
        let len = image.len();
        let dv = match find_dynamic(&phdrs) {
            Some(v) => v,
            None => return Err(ImageError::MissingDynamicSection),
        };
        if !find_load(&phdrs) {
            return Err(ImageError::MissingLoadSegment);
        }
        let dyn_off = match view(base, len, dv.wrapping_add(bias), 16) {
            Some(o) => o,
            None => return Err(ImageError::OutOfImage),
        };
        let dynamic = parse_dynamic(image, dyn_off);
        let li = LinkInfo::new(bias, dynamic.as_slice());
        if li.strtab < li.symtab || (li.syment != 0 && li.syment < SIZEOF_SYM as u64) {
            return Err(ImageError::BadSymbolTable);
        }
        let ent: u64 = if li.syment == 0 {
            SIZEOF_SYM as u64
        } else {
            li.syment
        };
        let nsyms = (li.strtab - li.symtab) / ent;
        proof {
            vstd::arithmetic::div_mod::lemma_fundamental_div_mod((li.strtab - li.symtab) as int, ent as int);
            assert(nsyms * ent <= li.strtab - li.symtab) by (nonlinear_arith)
                requires
                    li.strtab - li.symtab == ent * nsyms + (li.strtab - li.symtab) % (ent as int),
                    (li.strtab - li.symtab) % (ent as int) >= 0,
            ;
        }
        let sym_off = match view(base, len, li.symtab, nsyms * ent) {
            Some(o) => o,
            None => return Err(ImageError::OutOfImage),
        };
        let str_off = match view(base, len, li.strtab, li.strsz) {
            Some(o) => o,
            None => return Err(ImageError::OutOfImage),
        };
        let rela_off = match relas_view(base, len, li.rela, li.relasz) {
            Some(o) => o,
            None => return Err(ImageError::OutOfImage),
        };
        let plt_off = match relas_view(base, len, li.jmprel, li.pltrelsz) {
            Some(o) => o,
            None => return Err(ImageError::OutOfImage),
        };
        let nsyms = nsyms as usize;
        let gnu_hash = if li.gnu_hash == 0 {
            None
        } else {
            let off = match view(base, len, li.gnu_hash, 0) {
                Some(o) => o,
                None => return Err(ImageError::OutOfImage),
            };
            match parse_gnu_hash(image, off, nsyms) {
                Some(g) => Some(g),
                None => return Err(ImageError::OutOfImage),
            }
        };
        let stride: usize = if nsyms == 0 {
            SIZEOF_SYM
        } else {
            proof {
                assert(ent <= nsyms * ent) by (nonlinear_arith)
                    requires
                        nsyms >= 1,
            ;
            }
            ent as usize
        };
        let symtab = parse_syms(image, sym_off, nsyms, stride).unwrap();
        proof {
            assert(syms_at(image@, sym_off as int, nsyms as int, stride as int) =~= syms_at(
                image@,
                sym_off as int,
                nsyms as int,
                ent as int,
            ));
        }
        let mut strtab: Vec<u8> = Vec::new();
        let str_end = str_off + li.strsz as usize;
        let mut k: usize = str_off;
        while k < str_end
            invariant
                str_off <= k <= str_end,
                str_end <= image@.len(),
                strtab@ == image@.subrange(str_off as int, k as int),
            decreases str_end - k,
        {
            strtab.push(image[k]);
            k = k + 1;
            assert(strtab@ =~= image@.subrange(str_off as int, k as int));
        }
        let relocations = parse_relas(image, rela_off, (li.relasz / SIZEOF_RELA as u64) as usize).unwrap();
        let pltrelocations = parse_relas(image, plt_off, (li.pltrelsz / SIZEOF_RELA as u64) as usize).unwrap();
        let libs = needed(&dynamic, &strtab);
        Ok(SharedObject {
            name,
            load_bias: bias,
            map_begin: base,
            map_end: base.wrapping_add(len as u64),
            libs,
            phdrs,
            dynamic,
            strtab,
            symtab,
            relocations,
            pltrelocations,
            pltgot: li.pltgot,
            gnu_hash,
            load_path,
            flags: li.flags,
            state_flags: li.flags_1,
            tls,
            link_info: li,
        })
    }
}

/// The first header of type `t`.
pub open spec fn first_of_type(p: Seq<ProgramHeader>, t: u32) -> Option<ProgramHeader>
    decreases p.len(),
{
    if p.len() == 0 {
        None
    } else if p[0].p_type == t {
        Some(p[0])
    } else {
        first_of_type(p.drop_first(), t)
    }
}

fn find_type(p: &Vec<ProgramHeader>, t: u32) -> (r: Option<ProgramHeader>)
    ensures
        r == first_of_type(p@, t),
{
    let mut i: usize = 0;
    assert(p@.skip(0) =~= p@);
    while i < p.len()
        invariant
            i <= p@.len(),
            first_of_type(p@, t) == first_of_type(p@.skip(i as int), t),
        decreases p@.len() - i,
    {
        assert(p@.skip(i as int).drop_first() =~= p@.skip(i + 1));
        if p[i].p_type == t {
            return Some(p[i]);
        }
        i = i + 1;
    }
    None
}

/// The first `PT_LOAD` header whose file range holds the program-header
/// table at file offset `phoff`.
pub open spec fn phdr_segment(p: Seq<ProgramHeader>, phoff: u64) -> Option<ProgramHeader>
    decreases p.len(),
{
    if p.len() == 0 {
        None
    } else if p[0].p_type == PT_LOAD && p[0].p_offset <= phoff && phoff - p[0].p_offset
        < p[0].p_filesz {
        Some(p[0])
    } else {
        phdr_segment(p.drop_first(), phoff)
    }
}

/// The load bias of an image mapped at `base`: `base - (p_vaddr + p_offset)`
/// of the segment holding the program headers, modulo 2^64, so that the
/// overflowed addresses some kernels report for the vDSO still come out
/// right; 0 when no segment holds them.
pub open spec fn load_bias_of(base: u64, phoff: u64, p: Seq<ProgramHeader>) -> u64 {
    match phdr_segment(p, phoff) {
        Some(h) => vstd::wrapping::u64_specs::wrapping_sub(base, wrap_add(h.p_vaddr, h.p_offset)),
        None => 0,
    }
}

/// Computes the load bias of an image mapped at `base` whose program headers
/// `phdrs` sit at file offset `phoff`.
pub fn compute_load_bias_wrapping(base: u64, phoff: u64, phdrs: &Vec<ProgramHeader>) -> (r: u64)
    ensures
        r == load_bias_of(base, phoff, phdrs@),
{
    let mut i: usize = 0;
    assert(phdrs@.skip(0) =~= phdrs@);
    while i < phdrs.len()
        invariant
            i <= phdrs@.len(),
            phdr_segment(phdrs@, phoff) == phdr_segment(phdrs@.skip(i as int), phoff),
        decreases phdrs@.len() - i,
    {
        assert(phdrs@.skip(i as int).drop_first() =~= phdrs@.skip(i + 1));
        let h = phdrs[i];
        if h.p_type == PT_LOAD && h.p_offset <= phoff && phoff - h.p_offset < h.p_filesz {
            return base.wrapping_sub(h.p_vaddr.wrapping_add(h.p_offset));
        }
        i = i + 1;
    }
    0
}

/// The program headers of an image that starts with its ELF header.
pub open spec fn raw_phdrs(img: Seq<u8>) -> Seq<ProgramHeader> {
    phdrs_at(img, le_u64_at(img, 32) as int, le_u16_at(img, 56) as int)
}

/// The program headers of an image that starts with its ELF header fit in it.
pub open spec fn raw_fits(img: Seq<u8>) -> bool {
    SIZEOF_EHDR <= img.len() && le_u64_at(img, 32) + le_u16_at(img, 56) * SIZEOF_PHDR
        <= img.len()
}

/// The load bias of an executable whose program headers sit at `phdr_addr`:
/// that address less the `PT_PHDR` header's `p_vaddr`, or 0 without one.
pub open spec fn exec_bias_of(phdr_addr: u64, p: Seq<ProgramHeader>) -> u64 {
    match first_of_type(p, PT_PHDR) {
        Some(h) => vstd::wrapping::u64_specs::wrapping_sub(phdr_addr, h.p_vaddr),
        None => 0,
    }
}

/// The TLS description an object with program headers `p` loaded at `bias`
/// gets from `l`: its first `PT_TLS` segment under the next module id.
pub open spec fn tls_for(l: Lachesis, p: Seq<ProgramHeader>, bias: u64) -> Option<TlsInfo> {
    match first_of_type(p, PT_TLS) {
        Some(h) => Some(tls_of((l.current_modid + 1) as u32, bias, h)),
        None => None,
    }
}

/// `l2` is `l1` with the TLS segment of `p`, if any, registered.
pub open spec fn tls_registered(l1: Lachesis, l2: Lachesis, p: Seq<ProgramHeader>, bias: u64) -> bool {
    match tls_for(l1, p, bias) {
        Some(t) => l2.current_modid == l1.current_modid + 1 && l2.modules@ == l1.modules@.push(
            SlotInfo { generation: 1, info: t },
        ) && l2.debug == l1.debug && (l1.wf() ==> l2.wf()),
        None => l2 == l1,
    }
}

fn register_tls(phdrs: &Vec<ProgramHeader>, bias: u64, lachesis: &mut Lachesis) -> (r: Option<TlsInfo>)
    requires
        old(lachesis).current_modid < u32::MAX,
    ensures
        r == tls_for(*old(lachesis), phdrs@, bias),
        tls_registered(*old(lachesis), *final(lachesis), phdrs@, bias),
{
    match find_type(phdrs, PT_TLS) {
        Some(h) => Some(lachesis.push_module(bias, &h)),
        None => None,
    }
}

impl SharedObject {
    /// Builds a library just mapped at `start` with load bias `bias` from
    /// its image and program headers, registering its TLS segment, if it
    /// has one, with `lachesis` under the next module id.
    pub fn load(
        name: Vec<u8>,
        image: &[u8],
        start: u64,
        bias: u64,
        phdrs: Vec<ProgramHeader>,
        load_path: Vec<u8>,
        lachesis: &mut Lachesis,
    ) -> (r: Result<SharedObject, ImageError>)
        requires
            old(lachesis).current_modid < u32::MAX,
        ensures
            tls_registered(*old(lachesis), *final(lachesis), phdrs@, bias),
            r is Err <==> image_error(image@, start, bias, phdrs@) is Some,
            r matches Err(e) ==> image_error(image@, start, bias, phdrs@) == Some(e),
            r matches Ok(so) ==> object_of(so, image@, start, bias, phdrs@) && so.name@ == name@
                && (so.load_path matches Some(lp) && lp@ == load_path@) && so.tls == tls_for(
                *old(lachesis),
                phdrs@,
                bias,
            ),
    {
        let tls = register_tls(&phdrs, bias, lachesis);
        SharedObject::from_image(name, image, start, bias, phdrs, Some(load_path), tls)
    }

    /// Builds the object whose whole image, ELF header first, is mapped at
    /// `base` (the vDSO, or the linker itself); it is named by its soname.
    pub fn from_raw(image: &[u8], base: u64) -> (r: Result<SharedObject, ImageError>)
        ensures
            !raw_fits(image@) ==> r == Err::<SharedObject, ImageError>(ImageError::OutOfImage),
            raw_fits(image@) ==> {
                let p = raw_phdrs(image@);
                let bias = load_bias_of(base, le_u64_at(image@, 32), p);
                &&& (r is Err <==> image_error(image@, base, bias, p) is Some)
                &&& (r matches Err(e) ==> image_error(image@, base, bias, p) == Some(e))
                &&& (r matches Ok(so) ==> object_of(so, image@, base, bias, p) && so.name@
                    == cstr_at(so.strtab@, so.link_info.soname as int) && so.load_path is None
                    && so.tls is None)
            },
    {
        if image.len() < SIZEOF_EHDR {
            return Err(ImageError::OutOfImage);
        }
        let phoff = read_u64(image, 32);
        let phnum = read_u16(image, 56) as usize;
        if phoff > image.len() as u64 {
            return Err(ImageError::OutOfImage);
        }
        let phdrs = match parse_phdrs(image, phoff as usize, phnum) {
            Some(p) => p,
            None => return Err(ImageError::OutOfImage),
        };
        let bias = compute_load_bias_wrapping(base, phoff, &phdrs);
        let mut so = SharedObject::from_image(Vec::new(), image, base, bias, phdrs, None, None)?;
        let soname = so.link_info.soname;
        so.name = if soname < so.strtab.len() as u64 {
            str_at(so.strtab.as_slice(), soname as usize)
        } else {
            Vec::new()
        };
        proof {
            if soname >= so.strtab@.len() {
                assert(cstr_at(so.strtab@, soname as int) =~= Seq::<u8>::empty());
            }
        }
        Ok(so)
    }

    /// Builds the executable the kernel mapped: its image `image` starts at
    /// `base`, and its `phnum` program headers sit at address `phdr_addr`. A
    /// `PT_TLS` segment is registered with `lachesis`.
    pub fn from_executable(
        name: Vec<u8>,
        image: &[u8],
        base: u64,
        phdr_addr: u64,
        phnum: usize,
        lachesis: &mut Lachesis,
    ) -> (r: Result<SharedObject, ImageError>)
        requires
            old(lachesis).current_modid < u32::MAX,
        ensures
            view_off(base, image@.len() as int, phdr_addr, phnum * SIZEOF_PHDR) is None ==> r
                == Err::<SharedObject, ImageError>(ImageError::OutOfImage) && *final(lachesis)
                == *old(lachesis),
            view_off(base, image@.len() as int, phdr_addr, phnum * SIZEOF_PHDR) matches Some(
                off,
            ) ==> {
                let p = phdrs_at(image@, off, phnum as int);
                let bias = exec_bias_of(phdr_addr, p);
                &&& tls_registered(*old(lachesis), *final(lachesis), p, bias)
                &&& (r is Err <==> image_error(image@, base, bias, p) is Some)
                &&& (r matches Err(e) ==> image_error(image@, base, bias, p) == Some(e))
                &&& (r matches Ok(so) ==> object_of(so, image@, base, bias, p) && so.name@
                    == name@ && (so.load_path matches Some(lp) && lp@ == name@)
                    && so.tls == tls_for(*old(lachesis), p, bias))
            },
    {
        if phnum > image.len() / SIZEOF_PHDR {
            return Err(ImageError::OutOfImage);
        }
        let off = match view(base, image.len(), phdr_addr, phnum as u64 * 56) {
            Some(o) => o,
            None => return Err(ImageError::OutOfImage),
        };
        let phdrs = parse_phdrs(image, off, phnum).unwrap();
        let bias = match find_type(&phdrs, PT_PHDR) {
            Some(h) => phdr_addr.wrapping_sub(h.p_vaddr),
            None => 0,
        };
        let tls = register_tls(&phdrs, bias, lachesis);
        let path = name.clone();
        SharedObject::from_image(name, image, base, bias, phdrs, Some(path), tls)
    }
}

/// Where the kernel mapped the executable whose program headers `phdrs` it
/// placed at `phdr_addr`: its load bias moved to the start of its span.
pub fn executable_base(phdr_addr: u64, phdrs: &Vec<ProgramHeader>, span: &LoadSpan) -> (r: u64)
    ensures
        r == wrap_add(exec_bias_of(phdr_addr, phdrs@), span.min_vaddr),
{
    let bias = match find_type(phdrs, PT_PHDR) {
        Some(h) => phdr_addr.wrapping_sub(h.p_vaddr),
        None => 0,
    };
    bias.wrapping_add(span.min_vaddr)
}

} // verus!
