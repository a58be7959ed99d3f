//! The debugger's view of the loaded objects: the list of modules a
//! debugger walks, and the state flag bracketing each change to it.
use crate::elf::{Dyn, DT_DEBUG};
use crate::image::{find_dynamic, first_dynamic, SharedObject};
use crate::link_info::wrap_add;
use crate::strtab::copy_bytes;
use vstd::prelude::*;

verus! {

/// What the module list is going through.
#[derive(Clone, Copy, Debug, PartialEq, Eq, Structural)]
pub enum State {
    /// The list is complete.
    Consistent,
    /// An object is being added.
    Add,
    /// An object is being removed.
    Delete,
}

/// `lm` is the debugger's entry for `so`.
pub open spec fn entry_of(lm: LinkMap, so: SharedObject) -> bool {
    &&& lm.l_addr == so.load_bias
    &&& (so.load_path matches Some(p) ==> lm.l_name@ == p@)
    &&& (so.load_path is None ==> lm.l_name@.len() == 0)
    &&& lm.l_ld == match first_dynamic(so.phdrs@) {
        Some(v) => wrap_add(v, so.load_bias),
        None => 0,
    }
}

/// One loaded module as a debugger sees it.
#[derive(Debug)]
pub struct LinkMap {
    /// The module's load bias.
    pub l_addr: u64,
    /// The path it was loaded from; empty when unknown.
    pub l_name: Vec<u8>,
    /// Address of its dynamic section.
    pub l_ld: u64,
}

impl LinkMap {
    pub fn new(addr: u64, path: Vec<u8>, dynamic: u64) -> (r: LinkMap)
        ensures
            r.l_addr == addr,
            r.l_name@ == path@,
            r.l_ld == dynamic,
    {
        LinkMap { l_addr: addr, l_name: path, l_ld: dynamic }
    }

    /// The entry for a loaded object: its load bias, its path (empty when
    /// unknown) and the address of its dynamic section (0 without one).
    pub fn from_so(so: &SharedObject) -> (r: LinkMap)
        ensures
            entry_of(r, *so),
    {
        let path = match &so.load_path {
            Some(p) => copy_bytes(p.as_slice()),
            None => Vec::new(),
        };
        let ld = match find_dynamic(&so.phdrs) {
            Some(v) => v.wrapping_add(so.load_bias),
            None => 0,
        };
        LinkMap { l_addr: so.load_bias, l_name: path, l_ld: ld }
    }
}

/// The registry a debugger reads: the modules in load order and the state flag.
#[derive(Debug)]
pub struct Debug {
    pub r_version: u32,
    pub r_map: Vec<LinkMap>,
    /// Address of the function a debugger breaks on to see changes.
    pub r_brk: u64,
    pub r_state: State,
    /// Where the linker itself is loaded.
    pub r_ldbase: u64,
}

impl Debug {
    /// An empty registry for a linker loaded at `base` whose breakpoint
    /// function is at `brk`.
    pub fn relocated_init(base: u64, brk: u64) -> (r: Debug)
        ensures
            r.r_version == 1,
            r.r_map@.len() == 0,
            r.r_brk == brk,
            r.r_state == State::Consistent,
            r.r_ldbase == base,
    {
        Debug { r_version: 1, r_map: Vec::new(), r_brk: brk, r_state: State::Consistent, r_ldbase: base }
    }

    /// Sets the state flag.
    pub fn update(&mut self, state: State)
        ensures
            final(self).r_state == state,
            final(self).r_map@ == old(self).r_map@,
            final(self).r_version == old(self).r_version,
            final(self).r_brk == old(self).r_brk,
            final(self).r_ldbase == old(self).r_ldbase,
    {
        self.r_state = state;
    }

    /// Appends a loaded object to the end of the list.
    pub fn add_so(&mut self, so: &SharedObject)
        ensures
            final(self).r_map@.len() == old(self).r_map@.len() + 1,
            final(self).r_map@.drop_last() == old(self).r_map@,
            entry_of(final(self).r_map@.last(), *so),
            final(self).r_state == old(self).r_state,
            final(self).r_version == old(self).r_version,
            final(self).r_brk == old(self).r_brk,
            final(self).r_ldbase == old(self).r_ldbase,
    {
        self.r_map.push(LinkMap::from_so(so));
        assert(self.r_map@.drop_last() =~= old(self).r_map@);
    }
}

/// The index of the first `DT_DEBUG` entry of a dynamic array: the slot
/// where a debugger looks for the registry's address.
pub fn insert_r_debug(dynamic: &Vec<Dyn>) -> (r: Option<usize>)
    ensures
        r matches Some(i) ==> i < dynamic@.len() && dynamic@[i as int].d_tag == DT_DEBUG && forall|
            k: int,
        | 0 <= k < i ==> (#[trigger] dynamic@[k]).d_tag != DT_DEBUG,
        r is None ==> forall|k: int| 0 <= k < dynamic@.len() ==> (#[trigger] dynamic@[k]).d_tag != DT_DEBUG,
{
    let mut i: usize = 0;
    while i < dynamic.len()
        invariant
            i <= dynamic@.len(),
            forall|k: int| 0 <= k < i ==> (#[trigger] dynamic@[k]).d_tag != DT_DEBUG,
        decreases dynamic@.len() - i,
    {
        if dynamic[i].d_tag == DT_DEBUG {
            return Some(i);
        }
        i = i + 1;
    }
    None
}

/// The address of the word a debugger reads the registry's address from:
/// the value of the first `DT_DEBUG` entry of the object's dynamic section,
/// as mapped.
pub fn debug_slot(so: &SharedObject) -> (r: Option<u64>)
    ensures
        r is None ==> first_dynamic(so.phdrs@) is None || forall|k: int|
            0 <= k < so.dynamic@.len() ==> (#[trigger] so.dynamic@[k]).d_tag != DT_DEBUG,
        r matches Some(a) ==> first_dynamic(so.phdrs@) is Some && exists|i: int|
            0 <= i < so.dynamic@.len() && so.dynamic@[i].d_tag == DT_DEBUG && (forall|k: int|
                0 <= k < i ==> (#[trigger] so.dynamic@[k]).d_tag != DT_DEBUG) && a == wrap_add(
                wrap_add(first_dynamic(so.phdrs@)->0, so.load_bias),
                wrap_add(vstd::wrapping::u64_specs::wrapping_mul(i as u64, 16), 8),
            ),
{
    let dv = match find_dynamic(&so.phdrs) {
        Some(v) => v,
        None => return None,
    };
    match insert_r_debug(&so.dynamic) {
        Some(i) => Some(dv.wrapping_add(so.load_bias).wrapping_add((i as u64).wrapping_mul(16).wrapping_add(8))),
        None => None,
    }
}

} // verus!
