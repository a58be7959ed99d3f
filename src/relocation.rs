//! The relocation engine: symbol search over the link map, the two
//! relocation passes as ordered lists of memory patches, and the resolver
//! behind lazily bound calls.
use crate::elf::{st_bind, sym_bind, Sym, STB_LOCAL};
use crate::image::{find_spec, SharedObject};
use crate::link_info::wrap_add;
use crate::loader::{mprotect_phdrs, protect_plan, Protect};
use crate::rela::{kind_of, r_sym, r_sym_spec, r_type, r_type_spec, reloc_kind, Rela, RelocKind};
use crate::strtab::{cstr_at, gnu_hash, hash, str_at};
use vstd::prelude::*;

verus! {

/// A change to the process's memory that relocation calls for.
#[derive(Clone, Copy, Debug, PartialEq, Eq, Structural)]
pub enum Patch {
    /// Store `value` in the word at `addr`.
    Word { addr: u64, value: u64 },
    /// Call the function at `resolver` with no arguments and store what it
    /// returns in the word at `addr`.
    Indirect { addr: u64, resolver: u64 },
    /// Install the lazy-binding hook of link-map object `index`, whose global
    /// offset table is at `got`: slot 1 its rendezvous record, slot 2 the
    /// resolver trampoline.
    Hook { got: u64, index: usize },
    /// Change the protection of a range of pages.
    Protect(Protect),
}

/// A relocation that cannot be carried out.
#[derive(Clone, Copy, Debug, PartialEq, Eq, Structural)]
pub enum RelocError {
    /// A thread-offset relocation of link-map object `requester` resolved to
    /// object `provider`, which has no TLS segment.
    MissingTls { requester: usize, provider: usize },
}

/// `so` defines `name`, with a binding other than local.
pub open spec fn provides(so: SharedObject, name: Seq<u8>) -> bool {
    find_spec(so, name, gnu_hash(name)) matches Some(s) && st_bind(s.st_info) != STB_LOCAL
}

/// The first object of `lm`, from index `i` on, that provides `name`.
pub open spec fn provider_from(lm: Seq<SharedObject>, name: Seq<u8>, i: int) -> Option<int>
    decreases lm.len() - i,
{
    if i < 0 || i >= lm.len() {
        None
    } else if provides(lm[i], name) {
        Some(i)
    } else {
        provider_from(lm, name, i + 1)
    }
}

/// The object that provides `name`: the first in search order that defines it.
pub open spec fn provider(lm: Seq<SharedObject>, name: Seq<u8>) -> Option<int> {
    provider_from(lm, name, 0)
}

/// The symbol `name` in `so`.
pub open spec fn sym_of(so: SharedObject, name: Seq<u8>) -> Sym {
    find_spec(so, name, gnu_hash(name))->0
}

/// The run-time address of `name` in `so`: its value moved by the load bias.
pub open spec fn sym_addr(so: SharedObject, name: Seq<u8>) -> u64 {
    wrap_add(sym_of(so, name).st_value, so.load_bias)
}

proof fn lemma_provider_from(lm: Seq<SharedObject>, name: Seq<u8>, i: int)
    requires
        0 <= i,
    ensures
        provider_from(lm, name, i) matches Some(j) ==> i <= j < lm.len() && provides(lm[j], name)
            && forall|k: int| i <= k < j ==> !provides(#[trigger] lm[k], name),
        provider_from(lm, name, i) is None ==> forall|k: int|
            i <= k < lm.len() ==> !provides(#[trigger] lm[k], name),
    decreases lm.len() - i,
{
    if i < lm.len() && !provides(lm[i], name) {
        lemma_provider_from(lm, name, i + 1);
    }
}

/// Searches the link map in order for the first object that defines `name`
/// with a binding other than local, and returns its index and the symbol.
pub fn find_symbol(link_map: &Vec<SharedObject>, name: &[u8]) -> (r: Option<(usize, Sym)>)
    ensures
        r matches Some((j, s)) ==> provider(link_map@, name@) == Some(j as int) && s == sym_of(
            link_map@[j as int],
            name@,
        ),
        r is None ==> provider(link_map@, name@) is None,
{
    let h = hash(name);
    let mut i: usize = 0;
    while i < link_map.len()
        invariant
            h == gnu_hash(name@),
            i <= link_map@.len(),
            provider(link_map@, name@) == provider_from(link_map@, name@, i as int),
        decreases link_map@.len() - i,
    {
        match link_map[i].find(name, h) {
            Some(s) => {
                if sym_bind(s.st_info) != STB_LOCAL {
                    return Some((i, s));
                }
            },
            None => {},
        }
        i = i + 1;
    }
    None
}

/// The name of the symbol relocation `r` of `so` refers to.
pub open spec fn reloc_name(so: SharedObject, r: Rela) -> Option<Seq<u8>> {
    let k = r_sym_spec(r.r_info);
    if k < so.symtab@.len() {
        Some(cstr_at(so.strtab@, so.symtab@[k as int].st_name as int))
    } else {
        None
    }
}

/// The provider of the symbol relocation `r` of `so` refers to.
pub open spec fn reloc_provider(lm: Seq<SharedObject>, so: SharedObject, r: Rela) -> Option<int> {
    match reloc_name(so, r) {
        Some(n) => provider(lm, n),
        None => None,
    }
}

/// The address relocation `r` of `so` applies to.
pub open spec fn reloc_addr(so: SharedObject, r: Rela) -> u64 {
    wrap_add(r.r_offset, so.load_bias)
}

/// The value of a base-relative relocation: addend plus load bias, modulo 2^64.
pub open spec fn relative_value(addend: i64, bias: u64) -> u64 {
    wrap_add(addend as u64, bias)
}

/// What the GOT pass does with relocation `r` of link-map object `idx`.
pub open spec fn got_step(lm: Seq<SharedObject>, idx: int, r: Rela) -> Result<Option<Patch>, RelocError> {
    let so = lm[idx];
    let addr = reloc_addr(so, r);
    match kind_of(r_type_spec(r.r_info)) {
        RelocKind::Relative => Ok(
            Some(Patch::Word { addr, value: relative_value(r.r_addend, so.load_bias) }),
        ),
        RelocKind::GlobalData => match reloc_provider(lm, so, r) {
            Some(j) => Ok(Some(Patch::Word { addr, value: sym_addr(lm[j], reloc_name(so, r)->0) })),
            None => Ok(None),
        },
        RelocKind::Absolute => match reloc_provider(lm, so, r) {
            Some(j) => Ok(
                Some(
                    Patch::Word {
                        addr,
                        value: wrap_add(r.r_addend as u64, sym_addr(lm[j], reloc_name(so, r)->0)),
                    },
                ),
            ),
            None => Ok(None),
        },
        RelocKind::ThreadOffset => match reloc_provider(lm, so, r) {
            Some(j) => match lm[j].tls {
                Some(t) => Ok(
                    Some(
                        Patch::Word {
                            addr,
                            value: vstd::wrapping::u64_specs::wrapping_sub(
                                wrap_add(sym_of(lm[j], reloc_name(so, r)->0).st_value, r.r_addend as u64),
                                t.offset,
                            ),
                        },
                    ),
                ),
                None => Err(RelocError::MissingTls { requester: idx as usize, provider: j as usize }),
            },
            None => Ok(None),
        },
        _ => Ok(None),
    }
}

/// What the PLT pass does with relocation `r` of object `so`.
pub open spec fn plt_step(lm: Seq<SharedObject>, so: SharedObject, r: Rela, bind_now: bool) -> Option<Patch> {
    let addr = reloc_addr(so, r);
    match kind_of(r_type_spec(r.r_info)) {
        RelocKind::JumpSlot => if bind_now {
            match reloc_provider(lm, so, r) {
                Some(j) => Some(Patch::Word { addr, value: sym_addr(lm[j], reloc_name(so, r)->0) }),
                None => None,
            }
        } else {
            None
        },
        RelocKind::Indirect => Some(
            Patch::Indirect { addr, resolver: relative_value(r.r_addend, so.load_bias) },
        ),
        _ => None,
    }
}

/// The patches of the GOT pass over the relocations `rs` of object `idx`, in
/// order; the first failing relocation fails the pass.
pub open spec fn got_patches(lm: Seq<SharedObject>, idx: int, rs: Seq<Rela>) -> Result<Seq<Patch>, RelocError>
    decreases rs.len(),
{
    if rs.len() == 0 {
        Ok(Seq::empty())
    } else {
        match got_patches(lm, idx, rs.drop_last()) {
            Err(e) => Err(e),
            Ok(ps) => match got_step(lm, idx, rs.last()) {
                Err(e) => Err(e),
                Ok(Some(p)) => Ok(ps.push(p)),
                Ok(None) => Ok(ps),
            },
        }
    }
}

/// The patches of the PLT pass over the relocations `rs` of `so`, in order.
pub open spec fn plt_patches(lm: Seq<SharedObject>, so: SharedObject, rs: Seq<Rela>, bind_now: bool) -> Seq<Patch>
    decreases rs.len(),
{
    if rs.len() == 0 {
        Seq::empty()
    } else {
        let ps = plt_patches(lm, so, rs.drop_last(), bind_now);
        match plt_step(lm, so, rs.last(), bind_now) {
            Some(p) => ps.push(p),
            None => ps,
        }
    }
}

pub open spec fn protect_patches(c: Seq<Protect>) -> Seq<Patch> {
    c.map_values(|p: Protect| Patch::Protect(p))
}

/// The GOT pass over object `idx`: its pages made writable first when its
/// relocations write to read-only segments, its relocations, then its lazy-binding hook.
pub open spec fn got_pass(lm: Seq<SharedObject>, idx: int) -> Result<Seq<Patch>, RelocError> {
    let so = lm[idx];
    let pre = if so.link_info.textrel {
        protect_patches(protect_plan(so.phdrs@, so.load_bias, true))
    } else {
        Seq::empty()
    };
    let hook = if so.pltgot != 0 {
        seq![Patch::Hook { got: so.pltgot, index: idx as usize }]
    } else {
        Seq::empty()
    };
    match got_patches(lm, idx, so.relocations@) {
        Ok(ps) => Ok(pre + ps + hook),
        Err(e) => Err(e),
    }
}

/// The PLT pass over object `idx`: its jump-slot and indirect relocations,
/// then its pages given back their own protection when they were relaxed.
pub open spec fn plt_pass(lm: Seq<SharedObject>, idx: int, bind_now: bool) -> Seq<Patch> {
    let so = lm[idx];
    let post = if so.link_info.textrel {
        protect_patches(protect_plan(so.phdrs@, so.load_bias, false))
    } else {
        Seq::empty()
    };
    plt_patches(lm, so, so.pltrelocations@, bind_now) + post
}

fn push_protects(out: &mut Vec<Patch>, c: Vec<Protect>)
    ensures
        final(out)@ == old(out)@ + protect_patches(c@),
{
    let mut i: usize = 0;
    let ghost start = out@;
    while i < c.len()
        invariant
            i <= c@.len(),
            out@ == start + protect_patches(c@.take(i as int)),
        decreases c@.len() - i,
    {
        out.push(Patch::Protect(c[i]));
        i = i + 1;
        assert(protect_patches(c@.take(i as int)) =~= protect_patches(c@.take(i - 1)).push(
            Patch::Protect(c@[i - 1]),
        ));
    }
    assert(c@.take(i as int) =~= c@);
}

fn reloc_symbol_name(so: &SharedObject, r: &Rela) -> (n: Option<Vec<u8>>)
    ensures
        n matches Some(v) ==> reloc_name(*so, *r) == Some(v@),
        n is None ==> reloc_name(*so, *r) is None,
{
    let k = r_sym(r.r_info);
    if k < so.symtab.len() as u64 {
        let st = so.symtab[k as usize].st_name;
        if (st as usize) < so.strtab.len() {
            Some(str_at(so.strtab.as_slice(), st as usize))
        } else {
            proof {
                assert(cstr_at(so.strtab@, st as int) =~= Seq::<u8>::empty());
            }
            Some(Vec::new())
        }
    } else {
        None
    }
}

fn resolve_reloc(link_map: &Vec<SharedObject>, so: &SharedObject, r: &Rela) -> (res: Option<(usize, Vec<u8>, Sym)>)
    ensures
        res matches Some((j, n, s)) ==> reloc_provider(link_map@, *so, *r) == Some(j as int)
            && reloc_name(*so, *r) == Some(n@) && s == sym_of(link_map@[j as int], n@) && j
            < link_map@.len(),
        res is None ==> reloc_provider(link_map@, *so, *r) is None,
{
    match reloc_symbol_name(so, r) {
        Some(n) => match find_symbol(link_map, n.as_slice()) {
            Some((j, s)) => {
                proof {
                    lemma_provider_from(link_map@, n@, 0);
                }
                Some((j, n, s))
            },
            None => None,
        },
        None => None,
    }
}

fn got_step_exec(link_map: &Vec<SharedObject>, idx: usize, r: &Rela) -> (res: Result<Option<Patch>, RelocError>)
    requires
        idx < link_map@.len(),
    ensures
        res == got_step(link_map@, idx as int, *r),
{
    let so = &link_map[idx];
    let addr = r.r_offset.wrapping_add(so.load_bias);
    match reloc_kind(r_type(r.r_info)) {
        RelocKind::Relative => Ok(
            Some(Patch::Word { addr, value: (r.r_addend as u64).wrapping_add(so.load_bias) }),
        ),
        RelocKind::GlobalData => match resolve_reloc(link_map, so, r) {
            Some((j, _n, s)) => Ok(
                Some(Patch::Word { addr, value: s.st_value.wrapping_add(link_map[j].load_bias) }),
            ),
            None => Ok(None),
        },
        RelocKind::Absolute => match resolve_reloc(link_map, so, r) {
            Some((j, _n, s)) => Ok(
                Some(
                    Patch::Word {
                        addr,
                        value: (r.r_addend as u64).wrapping_add(
                            s.st_value.wrapping_add(link_map[j].load_bias),
                        ),
                    },
                ),
            ),
            None => Ok(None),
        },
        RelocKind::ThreadOffset => match resolve_reloc(link_map, so, r) {
            Some((j, _n, s)) => match link_map[j].tls {
                Some(t) => Ok(
                    Some(
                        Patch::Word {
                            addr,
                            value: s.st_value.wrapping_add(r.r_addend as u64).wrapping_sub(t.offset),
                        },
                    ),
                ),
                None => Err(RelocError::MissingTls { requester: idx, provider: j }),
            },
            None => Ok(None),
        },
        _ => Ok(None),
    }
}

fn plt_step_exec(link_map: &Vec<SharedObject>, so: &SharedObject, r: &Rela, bind_now: bool) -> (res: Option<Patch>)
    ensures
        res == plt_step(link_map@, *so, *r, bind_now),
{
    let addr = r.r_offset.wrapping_add(so.load_bias);
    match reloc_kind(r_type(r.r_info)) {
        RelocKind::JumpSlot => {
            if bind_now {
                match resolve_reloc(link_map, so, r) {
                    Some((j, _n, s)) => Some(
                        Patch::Word { addr, value: s.st_value.wrapping_add(link_map[j].load_bias) },
                    ),
                    None => None,
                }
            } else {
                None
            }
        },
        RelocKind::Indirect => Some(
            Patch::Indirect { addr, resolver: (r.r_addend as u64).wrapping_add(so.load_bias) },
        ),
        _ => None,
    }
}

/// The GOT pass over link-map object `idx`: base-relative, global-data,
/// absolute and thread-offset relocations, framed by the protection changes
/// the object needs, and followed by its lazy-binding hook. A global-data
/// symbol that no object provides is left as it is.
pub fn relocate_got(link_map: &Vec<SharedObject>, idx: usize) -> (r: Result<Vec<Patch>, RelocError>)
    requires
        idx < link_map@.len(),
    ensures
        r matches Ok(v) ==> got_pass(link_map@, idx as int) == Ok::<Seq<Patch>, RelocError>(v@),
        r matches Err(e) ==> got_pass(link_map@, idx as int) == Err::<Seq<Patch>, RelocError>(e),
{
    let so = &link_map[idx];
    let mut out: Vec<Patch> = Vec::new();
    if so.link_info.textrel {
        push_protects(&mut out, mprotect_phdrs(&so.phdrs, so.load_bias, true));
    }
    let ghost pre = out@;
    let rs = &so.relocations;
    let mut i: usize = 0;
    while i < rs.len()
        invariant
            idx < link_map@.len(),
            so == link_map@[idx as int],
            rs == so.relocations,
            i <= rs@.len(),
            got_patches(link_map@, idx as int, rs@.take(i as int)) matches Ok(ps) && out@ == pre + ps,
        decreases rs@.len() - i,
    {
        assert(rs@.take(i + 1).drop_last() =~= rs@.take(i as int));
        match got_step_exec(link_map, idx, &rs[i]) {
            Err(e) => {
                proof {
                    lemma_got_err_sticks(link_map@, idx as int, rs@, i as int + 1);
                }
                return Err(e);
            },
            Ok(Some(p)) => {
                out.push(p);
            },
            Ok(None) => {},
        }
        i = i + 1;
    }
    assert(rs@.take(i as int) =~= rs@);
    if so.pltgot != 0 {
        out.push(Patch::Hook { got: so.pltgot, index: idx });
    }
    proof {
        let ps = got_patches(link_map@, idx as int, rs@)->Ok_0;
        if so.pltgot != 0 {
            assert(out@ =~= pre + ps + seq![Patch::Hook { got: so.pltgot, index: idx }]);
        } else {
            assert(out@ =~= pre + ps + Seq::empty());
        }
    }
    Ok(out)
}

proof fn lemma_got_err_sticks(lm: Seq<SharedObject>, idx: int, rs: Seq<Rela>, i: int)
    requires
        0 <= i <= rs.len(),
        got_patches(lm, idx, rs.take(i)) is Err,
    ensures
        got_patches(lm, idx, rs) == got_patches(lm, idx, rs.take(i)),
    decreases rs.len() - i,
{
    if i < rs.len() {
        assert(rs.take(i + 1).drop_last() =~= rs.take(i));
        lemma_got_err_sticks(lm, idx, rs, i + 1);
    } else {
        assert(rs.take(i) =~= rs);
    }
}

/// The PLT pass over link-map object `idx`: jump slots bound now when
/// `bind_now` (and left for lazy binding otherwise), indirect relocations
/// handed to their resolver functions, then the object's own page
/// protections restored when they were relaxed.
pub fn relocate_plt(link_map: &Vec<SharedObject>, idx: usize, bind_now: bool) -> (r: Vec<Patch>)
    requires
        idx < link_map@.len(),
    ensures
        r@ == plt_pass(link_map@, idx as int, bind_now),
{
    let so = &link_map[idx];
    let mut out: Vec<Patch> = Vec::new();
    let rs = &so.pltrelocations;
    let mut i: usize = 0;
    while i < rs.len()
        invariant
            so == link_map@[idx as int],
            rs == so.pltrelocations,
            i <= rs@.len(),
            out@ == plt_patches(link_map@, *so, rs@.take(i as int), bind_now),
        decreases rs@.len() - i,
    {
        assert(rs@.take(i + 1).drop_last() =~= rs@.take(i as int));
        match plt_step_exec(link_map, so, &rs[i], bind_now) {
            Some(p) => {
                out.push(p);
            },
            None => {},
        }
        i = i + 1;
    }
    assert(rs@.take(i as int) =~= rs@);
    if so.link_info.textrel {
        push_protects(&mut out, mprotect_phdrs(&so.phdrs, so.load_bias, false));
    } else {
        assert(out@ =~= out@ + Seq::empty());
    }
    out
}

/// The GOT passes over the first `n` objects, in link-map order.
pub open spec fn got_all(lm: Seq<SharedObject>, n: int) -> Result<Seq<Patch>, RelocError>
    decreases n,
{
    if n <= 0 {
        Ok(Seq::empty())
    } else {
        match got_all(lm, n - 1) {
            Err(e) => Err(e),
            Ok(ps) => match got_pass(lm, n - 1) {
                Err(e) => Err(e),
                Ok(qs) => Ok(ps + qs),
            },
        }
    }
}

/// The PLT passes over the first `n` objects, in link-map order.
pub open spec fn plt_all(lm: Seq<SharedObject>, n: int, bind_now: bool) -> Seq<Patch>
    decreases n,
{
    if n <= 0 {
        Seq::empty()
    } else {
        plt_all(lm, n - 1, bind_now) + plt_pass(lm, n - 1, bind_now)
    }
}

/// Everything relocation does to the link map: the GOT pass over every
/// object, in link-map order, then the PLT pass over every object, in
/// link-map order.
pub open spec fn relocation_plan_spec(lm: Seq<SharedObject>, bind_now: bool) -> Result<Seq<Patch>, RelocError> {
    match got_all(lm, lm.len() as int) {
        Ok(ps) => Ok(ps + plt_all(lm, lm.len() as int, bind_now)),
        Err(e) => Err(e),
    }
}

proof fn lemma_got_all_err(lm: Seq<SharedObject>, i: int, n: int)
    requires
        0 <= i <= n,
        got_all(lm, i) is Err,
    ensures
        got_all(lm, n) == got_all(lm, i),
    decreases n - i,
{
    if i < n {
        lemma_got_all_err(lm, i, n - 1);
    }
}

/// Relocates the whole link map: every GOT pass before any PLT pass, since
/// the resolver functions of indirect relocations may call through entries
/// the GOT passes fill.
pub fn relocation_plan(link_map: &Vec<SharedObject>, bind_now: bool) -> (r: Result<Vec<Patch>, RelocError>)
    ensures
        r matches Ok(v) ==> relocation_plan_spec(link_map@, bind_now) == Ok::<Seq<Patch>, RelocError>(v@),
        r matches Err(e) ==> relocation_plan_spec(link_map@, bind_now) == Err::<Seq<Patch>, RelocError>(e),
{
    let n = link_map.len();
    let mut out: Vec<Patch> = Vec::new();
    let mut i: usize = 0;
    while i < n
        invariant
            n == link_map@.len(),
            i <= n,
            got_all(link_map@, i as int) == Ok::<Seq<Patch>, RelocError>(out@),
        decreases n - i,
    {
        match relocate_got(link_map, i) {
            Ok(mut v) => {
                out.append(&mut v);
            },
            Err(e) => {
                proof {
                    lemma_got_all_err(link_map@, i as int + 1, n as int);
                }
                return Err(e);
            },
        }
        i = i + 1;
    }
    let ghost got = out@;
    let mut k: usize = 0;
    while k < n
        invariant
            n == link_map@.len(),
            k <= n,
            got_all(link_map@, n as int) == Ok::<Seq<Patch>, RelocError>(got),
            out@ == got + plt_all(link_map@, k as int, bind_now),
        decreases n - k,
    {
        let mut v = relocate_plt(link_map, k, bind_now);
        out.append(&mut v);
        k = k + 1;
        assert(out@ =~= got + plt_all(link_map@, k as int, bind_now));
    }
    Ok(out)
}

/// The base-relative relocations the linker applies to itself before
/// anything else runs; it holds no others.
pub open spec fn self_patches(bias: u64, rs: Seq<Rela>) -> Seq<Patch>
    decreases rs.len(),
{
    if rs.len() == 0 {
        Seq::empty()
    } else {
        let ps = self_patches(bias, rs.drop_last());
        let r = rs.last();
        if kind_of(r_type_spec(r.r_info)) == RelocKind::Relative {
            ps.push(Patch::Word { addr: wrap_add(r.r_offset, bias), value: relative_value(r.r_addend, bias) })
        } else {
            ps
        }
    }
}

/// The patches that relocate the linker, loaded at `bias`, by its own
/// relocation table.
pub fn relocate_linker(bias: u64, relas: &Vec<Rela>) -> (r: Vec<Patch>)
    ensures
        r@ == self_patches(bias, relas@),
{
    let mut out: Vec<Patch> = Vec::new();
    let mut i: usize = 0;
    while i < relas.len()
        invariant
            i <= relas@.len(),
            out@ == self_patches(bias, relas@.take(i as int)),
        decreases relas@.len() - i,
    {
        assert(relas@.take(i + 1).drop_last() =~= relas@.take(i as int));
        let r = relas[i];
        if reloc_kind(r_type(r.r_info)) == RelocKind::Relative {
            out.push(
                Patch::Word {
                    addr: r.r_offset.wrapping_add(bias),
                    value: (r.r_addend as u64).wrapping_add(bias),
                },
            );
        }
        i = i + 1;
    }
    assert(relas@.take(i as int) =~= relas@);
    out
}

/// The address a lazily bound call from object `idx` through its PLT
/// relocation `rela_idx` goes to: the symbol's address in its provider.
pub open spec fn lazy_target(lm: Seq<SharedObject>, idx: int, rela_idx: int) -> Option<u64> {
    let so = lm[idx];
    if rela_idx < 0 || rela_idx >= so.pltrelocations@.len() {
        None
    } else {
        let r = so.pltrelocations@[rela_idx];
        match reloc_provider(lm, so, r) {
            Some(j) => Some(sym_addr(lm[j], reloc_name(so, r)->0)),
            None => None,
        }
    }
}

/// Resolves the function a lazily bound call asks for: object `idx` of the
/// link map called through its PLT relocation `rela_idx`. `None` when no
/// object provides the symbol, which is fatal to the process.
pub fn resolve_symbol(link_map: &Vec<SharedObject>, idx: usize, rela_idx: usize) -> (r: Option<u64>)
    requires
        idx < link_map@.len(),
    ensures
        r == lazy_target(link_map@, idx as int, rela_idx as int),
{
    let so = &link_map[idx];
    if rela_idx >= so.pltrelocations.len() {
        return None;
    }
    let r = &so.pltrelocations[rela_idx];
    match resolve_reloc(link_map, so, r) {
        Some((j, _n, s)) => Some(s.st_value.wrapping_add(link_map[j].load_bias)),
        None => None,
    }
}

/// Memory, word by word, after storing patch `p`; patches other than word
/// stores leave it as it is.
pub open spec fn apply_word(mem: Map<u64, u64>, p: Patch) -> Map<u64, u64> {
    match p {
        Patch::Word { addr, value } => mem.insert(addr, value),
        _ => mem,
    }
}

/// A base-relative relocation stores exactly its addend (as a 64-bit word)
/// plus the load bias, modulo 2^64, at its target, whatever memory held before; storing it a
/// second time changes nothing.
pub proof fn lemma_relative_reloc(lm: Seq<SharedObject>, idx: int, r: Rela, mem: Map<u64, u64>)
    requires
        0 <= idx < lm.len(),
        kind_of(r_type_spec(r.r_info)) == RelocKind::Relative,
    ensures
        got_step(lm, idx, r) == Ok::<Option<Patch>, RelocError>(
            Some(
                Patch::Word {
                    addr: reloc_addr(lm[idx], r),
                    value: (((r.r_addend as u64) as int + lm[idx].load_bias as int)
                        % 0x1_0000_0000_0000_0000) as u64,
                },
            ),
        ),
        ({
            let p = got_step(lm, idx, r)->Ok_0->Some_0;
            &&& apply_word(mem, p)[reloc_addr(lm[idx], r)] == relative_value(r.r_addend, lm[idx].load_bias)
            &&& apply_word(apply_word(mem, p), p) == apply_word(mem, p)
        }),
{
    let a = (r.r_addend as u64) as int;
    let b = lm[idx].load_bias as int;
    let m = 0x1_0000_0000_0000_0000int;
    if a + b > u64::MAX {
        vstd::arithmetic::div_mod::lemma_fundamental_div_mod_converse(a + b, m, 1, a + b - m);
    } else {
        vstd::arithmetic::div_mod::lemma_fundamental_div_mod_converse(a + b, m, 0, a + b);
    }
    let p = got_step(lm, idx, r)->Ok_0->Some_0;
    assert(apply_word(apply_word(mem, p), p) =~= apply_word(mem, p));
}

/// Symbols are searched in link-map order: when objects `i < j` both provide
/// `name`, the lookup settles on an object no later than `i`, never on `j`.
pub proof fn lemma_search_order(lm: Seq<SharedObject>, name: Seq<u8>, i: int, j: int)
    requires
        0 <= i < j < lm.len(),
        provides(lm[i], name),
        provides(lm[j], name),
    ensures
        provider(lm, name) matches Some(k) && k <= i && k != j,
{
    lemma_provider_from(lm, name, 0);
}

/// Memory, word by word, after carrying out the word stores of `ps` in order.
pub open spec fn apply_all(mem: Map<u64, u64>, ps: Seq<Patch>) -> Map<u64, u64>
    decreases ps.len(),
{
    if ps.len() == 0 {
        mem
    } else {
        apply_word(apply_all(mem, ps.drop_last()), ps.last())
    }
}

/// The words `ps` stores, each with the value stored last.
pub open spec fn writes(ps: Seq<Patch>) -> Map<u64, u64> {
    apply_all(Map::empty(), ps)
}

proof fn lemma_apply_all_union(mem: Map<u64, u64>, ps: Seq<Patch>)
    ensures
        apply_all(mem, ps) == mem.union_prefer_right(writes(ps)),
    decreases ps.len(),
{
    if ps.len() == 0 {
        assert(mem.union_prefer_right(Map::<u64, u64>::empty()) =~= mem);
    } else {
        lemma_apply_all_union(mem, ps.drop_last());
        lemma_apply_all_union(Map::empty(), ps.drop_last());
        assert(Map::<u64, u64>::empty().union_prefer_right(writes(ps.drop_last())) =~= writes(ps.drop_last()));
        match ps.last() {
            Patch::Word { addr, value } => {
                assert(apply_all(mem, ps) =~= mem.union_prefer_right(writes(ps)));
            },
            _ => {},
        }
    }
}

/// Carrying out a list of patches a second time leaves memory as the first
/// time left it, and the words it stores end up the same whatever memory
/// held before: each is fixed by the patches alone.
pub proof fn lemma_patches_idempotent(m1: Map<u64, u64>, m2: Map<u64, u64>, ps: Seq<Patch>)
    ensures
        apply_all(apply_all(m1, ps), ps) == apply_all(m1, ps),
        forall|a: u64| #[trigger] writes(ps).contains_key(a) ==> apply_all(m1, ps).contains_key(a)
            && apply_all(m1, ps)[a] == writes(ps)[a] && apply_all(m2, ps)[a] == writes(ps)[a],
{
    lemma_apply_all_union(m1, ps);
    lemma_apply_all_union(m2, ps);
    lemma_apply_all_union(apply_all(m1, ps), ps);
    assert(m1.union_prefer_right(writes(ps)).union_prefer_right(writes(ps)) =~= m1.union_prefer_right(
        writes(ps),
    ));
}

/// Relocating the whole link map again, with the same load biases, leaves
/// every word as the first run left it; and every word relocation stores,
/// base-relative ones included, comes out the same whatever the word held
/// before.
pub proof fn lemma_relocation_rerun(lm: Seq<SharedObject>, bind_now: bool, m1: Map<u64, u64>, m2: Map<u64, u64>)
    requires
        relocation_plan_spec(lm, bind_now) is Ok,
    ensures
        ({
            let ps = relocation_plan_spec(lm, bind_now)->Ok_0;
            &&& apply_all(apply_all(m1, ps), ps) == apply_all(m1, ps)
            &&& forall|a: u64| #[trigger] writes(ps).contains_key(a) ==> apply_all(m1, ps)[a] == apply_all(m2, ps)[a]
        }),
{
    lemma_patches_idempotent(m1, m2, relocation_plan_spec(lm, bind_now)->Ok_0);
}

/// Every base-relative entry of an object's relocation table shows up in
/// its GOT pass as a store of its addend plus the load bias at its target.
pub proof fn lemma_relative_in_pass(lm: Seq<SharedObject>, idx: int, rs: Seq<Rela>, k: int)
    requires
        0 <= idx < lm.len(),
        0 <= k < rs.len(),
        kind_of(r_type_spec(rs[k].r_info)) == RelocKind::Relative,
        got_patches(lm, idx, rs) is Ok,
    ensures
        got_patches(lm, idx, rs)->Ok_0.contains(
            Patch::Word {
                addr: reloc_addr(lm[idx], rs[k]),
                value: relative_value(rs[k].r_addend, lm[idx].load_bias),
            },
        ),
    decreases rs.len(),
{
    let p = Patch::Word {
        addr: reloc_addr(lm[idx], rs[k]),
        value: relative_value(rs[k].r_addend, lm[idx].load_bias),
    };
    let init = rs.drop_last();
    if got_patches(lm, idx, init) is Err {
        assert(got_patches(lm, idx, rs) is Err);
    }
    let ps = got_patches(lm, idx, init)->Ok_0;
    if k == rs.len() - 1 {
        assert(got_patches(lm, idx, rs)->Ok_0 == ps.push(p));
        assert(ps.push(p)[ps.len() as int] == p);
    } else {
        assert(init[k] == rs[k]);
        lemma_relative_in_pass(lm, idx, init, k);
        let j = choose|j: int| 0 <= j < ps.len() && ps[j] == p;
        let full = got_patches(lm, idx, rs)->Ok_0;
        match got_step(lm, idx, rs.last()) {
            Ok(Some(q)) => {
                assert(full == ps.push(q));
                assert(full[j] == p);
            },
            _ => {
                assert(full[j] == p);
            },
        }
    }
}

} // verus!
