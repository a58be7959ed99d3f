//! The orchestrator: breadth-first discovery of dependencies, each loaded
//! once; the debugger registry; the link map in search order; initializer
//! order; and the dispatch of calls through lazily bound PLT slots.
use crate::config::Config;
use crate::gdb::{entry_of, State};
use crate::elf::le_u64_at;
use crate::image::{image_error, image_relas, load_bias_of, raw_fits, raw_phdrs, ImageError, SharedObject};
use crate::relocation::{
    lazy_target, relocate_linker, relocation_plan, relocation_plan_spec, resolve_symbol, self_patches,
    Patch, RelocError,
};
use crate::strtab::{bytes_eq, copy_bytes};
use crate::tls::Lachesis;
use vstd::prelude::*;

verus! {

pub const SLASH: u8 = 47;

/// The byte strings of `v`.
pub open spec fn views(v: Seq<Vec<u8>>) -> Seq<Seq<u8>> {
    v.map_values(|x: Vec<u8>| x@)
}

/// No name occurs twice in `s`.
pub open spec fn no_dups(s: Seq<Seq<u8>>) -> bool {
    forall|i: int, j: int| 0 <= i < s.len() && 0 <= j < s.len() && i != j ==> s[i] != s[j]
}

/// `order` extended by each name of `libs` it does not hold yet, in the
/// order `libs` gives them.
pub open spec fn discover(order: Seq<Seq<u8>>, libs: Seq<Seq<u8>>) -> Seq<Seq<u8>>
    decreases libs.len(),
{
    if libs.len() == 0 {
        order
    } else {
        let o = discover(order, libs.drop_last());
        if o.contains(libs.last()) {
            o
        } else {
            o.push(libs.last())
        }
    }
}

/// Discovery keeps what was there, in place, adds every library, and adds
/// no name twice.
pub proof fn lemma_discover(order: Seq<Seq<u8>>, libs: Seq<Seq<u8>>)
    requires
        no_dups(order),
    ensures
        no_dups(discover(order, libs)),
        order.len() <= discover(order, libs).len(),
        forall|i: int| 0 <= i < order.len() ==> discover(order, libs)[i] == order[i],
        forall|i: int| 0 <= i < libs.len() ==> discover(order, libs).contains(#[trigger] libs[i]),
        forall|x: Seq<u8>| #[trigger] discover(order, libs).contains(x) ==> order.contains(x)
            || libs.contains(x),
    decreases libs.len(),
{
    if libs.len() > 0 {
        let prev = libs.drop_last();
        lemma_discover(order, prev);
        let o = discover(order, prev);
        assert forall|i: int| 0 <= i < libs.len() implies discover(order, libs).contains(
            #[trigger] libs[i],
        ) by {
            if i < libs.len() - 1 {
                assert(prev[i] == libs[i]);
                let k = choose|k: int| 0 <= k < o.len() && o[k] == prev[i];
                if !o.contains(libs.last()) {
                    assert(o.push(libs.last())[k] == libs[i]);
                }
            } else {
                if !o.contains(libs.last()) {
                    assert(o.push(libs.last())[o.len() as int] == libs[i]);
                }
            }
        }
        assert forall|x: Seq<u8>| #[trigger] discover(order, libs).contains(x) implies order.contains(x)
            || libs.contains(x) by {
            if o.contains(x) {
                if !order.contains(x) {
                    let k = choose|k: int| 0 <= k < prev.len() && prev[k] == x;
                    assert(libs[k] == x);
                }
            } else {
                let k = choose|k: int| 0 <= k < discover(order, libs).len() && discover(order, libs)[k] == x;
                assert(k == o.len());
                assert(libs[libs.len() - 1] == x);
            }
        }
    }
}

/// The directory-joined candidate path of `name` in `dir`.
pub open spec fn join_path(dir: Seq<u8>, name: Seq<u8>) -> Seq<u8> {
    dir.push(SLASH) + name
}

/// The directories of `dirs` joined by colons.
pub open spec fn join_dirs(dirs: Seq<Seq<u8>>) -> Seq<u8>
    decreases dirs.len(),
{
    if dirs.len() == 0 {
        Seq::empty()
    } else if dirs.len() == 1 {
        dirs[0]
    } else {
        join_dirs(dirs.drop_last()).push(58u8) + dirs.last()
    }
}

/// The message for a library found in no search directory.
pub open spec fn missing_message(name: Seq<u8>, dirs: Seq<Seq<u8>>) -> Seq<u8> {
    missing_prefix() + name + missing_middle() + join_dirs(dirs)
}

/// `could not find `
pub open spec fn missing_prefix() -> Seq<u8> {
    seq![99u8, 111u8, 117u8, 108u8, 100u8, 32u8, 110u8, 111u8, 116u8, 32u8, 102u8, 105u8, 110u8, 100u8, 32u8]
}

/// ` in `
pub open spec fn missing_middle() -> Seq<u8> {
    seq![32u8, 105u8, 110u8, 32u8]
}

/// What an initializer step runs.
#[derive(Clone, Copy, Debug, PartialEq, Eq, Structural)]
pub enum InitStep {
    /// Call the initializer function at this address.
    Call(u64),
    /// Call, in order, each of the `count` function addresses stored from `addr` on.
    Array { addr: u64, count: u64 },
}

/// The initializer steps of one object: its initializer function, then its
/// initializer array.
pub open spec fn init_steps(so: SharedObject) -> Seq<InitStep> {
    let li = so.link_info;
    let call = if li.init != 0 {
        seq![InitStep::Call(li.init)]
    } else {
        Seq::empty()
    };
    let arr = if li.init_array != 0 && li.init_arraysz / 8 != 0 {
        seq![InitStep::Array { addr: li.init_array, count: li.init_arraysz / 8 }]
    } else {
        Seq::empty()
    };
    call + arr
}

/// The initializer steps of the first `n` objects, in link-map order.
pub open spec fn init_order(lm: Seq<SharedObject>, n: int) -> Seq<InitStep>
    decreases n,
{
    if n <= 0 {
        Seq::empty()
    } else {
        init_order(lm, n - 1) + init_steps(lm[n - 1])
    }
}

/// The initializers to run, each object's in link-map order.
pub fn init_plan(link_map: &Vec<SharedObject>) -> (r: Vec<InitStep>)
    ensures
        r@ == init_order(link_map@, link_map@.len() as int),
{
    let mut r: Vec<InitStep> = Vec::new();
    let mut i: usize = 0;
    while i < link_map.len()
        invariant
            i <= link_map@.len(),
            r@ == init_order(link_map@, i as int),
        decreases link_map@.len() - i,
    {
        let li = link_map[i].link_info;
        let ghost before = r@;
        if li.init != 0 {
            r.push(InitStep::Call(li.init));
        }
        if li.init_array != 0 && li.init_arraysz / 8 != 0 {
            r.push(InitStep::Array { addr: li.init_array, count: li.init_arraysz / 8 });
        }
        assert(r@ =~= before + init_steps(link_map@[i as int]));
        i = i + 1;
    }
    r
}

/// What a call through a PLT slot does.
#[derive(Clone, Copy, Debug, PartialEq, Eq, Structural)]
pub enum PltStep {
    /// The slot still holds the stub: go to the resolver.
    Resolve,
    /// The slot is bound: jump straight to this address.
    Jump(u64),
}

/// What a call through slot `slot` of `got` does, `stub` being the address
/// an unbound slot holds.
pub open spec fn plt_dispatch(got: Seq<u64>, slot: int, stub: u64) -> PltStep {
    if got[slot] == stub {
        PltStep::Resolve
    } else {
        PltStep::Jump(got[slot])
    }
}

/// What a call through slot `slot` of `got` does.
pub fn plt_entry(got: &Vec<u64>, slot: usize, stub: u64) -> (r: PltStep)
    requires
        slot < got@.len(),
    ensures
        r == plt_dispatch(got@, slot as int, stub),
{
    if got[slot] == stub {
        PltStep::Resolve
    } else {
        PltStep::Jump(got[slot])
    }
}

/// The record a lazily bound object's GOT slot 1 points to: which object of
/// the link map is calling.
#[derive(Clone, Copy, Debug, PartialEq, Eq, Structural)]
pub struct Rendezvous {
    pub idx: usize,
    pub debug: bool,
}

/// Calls through slot `slot` of the global offset table `got`, whose slot
/// holds `stub` until bound. The first call goes to the resolver (object
/// `idx` of the link map, PLT relocation `rela_idx`), which binds the slot to
/// what it finds; later calls jump straight there. `None` when the resolver
/// finds nothing: the process must then end.
pub fn lazy_call(
    link_map: &Vec<SharedObject>,
    idx: usize,
    rela_idx: usize,
    got: &mut Vec<u64>,
    slot: usize,
    stub: u64,
) -> (r: Option<u64>)
    requires
        idx < link_map@.len(),
        slot < old(got)@.len(),
    ensures
        plt_dispatch(old(got)@, slot as int, stub) matches PltStep::Jump(t) ==> (r == Some(t)
            && final(got)@ == old(got)@),
        plt_dispatch(old(got)@, slot as int, stub) == PltStep::Resolve ==> r == lazy_target(
            link_map@,
            idx as int,
            rela_idx as int,
        ) && (r matches Some(t) ==> final(got)@ == old(got)@.update(slot as int, t)) && (r is None
            ==> final(got)@ == old(got)@),
{
    if got[slot] != stub {
        return Some(got[slot]);
    }
    match resolve_symbol(link_map, idx, rela_idx) {
        Some(t) => {
            got.set(slot, t);
            Some(t)
        },
        None => None,
    }
}

/// Once a call has bound a slot to an address other than the stub, the next
/// call through it jumps there and does not reach the resolver again.
pub proof fn lemma_lazy_bind_once(got: Seq<u64>, slot: int, stub: u64, target: u64)
    requires
        0 <= slot < got.len(),
        target != stub,
    ensures
        plt_dispatch(got.update(slot, target), slot, stub) == PltStep::Jump(target),
{
}

/// Every library is loaded once: in a well-formed linker no two loaded
/// objects carry the same name, and every name discovered is either loaded
/// or still to load, never both twice.
pub proof fn lemma_loaded_once(l: Linker)
    requires
        l.wf(),
    ensures
        forall|i: int, j: int|
            0 <= i < l.working_set@.len() && 0 <= j < l.working_set@.len() && i != j ==> (#[trigger] l.working_set@[i]).name@
                != (#[trigger] l.working_set@[j]).name@,
        no_dups(l.names()),
{
}

/// How far linking has come.
#[derive(Clone, Copy, Debug, PartialEq, Eq, Structural)]
pub enum Phase {
    /// Loading the dependencies of the executable.
    Loading,
    /// The link map is relocated.
    Relocated,
    /// The auxiliary vector has been shown.
    AuxvShown,
    /// The initializers have run.
    Initialized,
    /// Thread-local storage is installed; the program may start.
    TlsInstalled,
    /// Linking failed with this error.
    Failed(RelocError),
}

/// What the linker asks the process to do next.
pub enum Action {
    /// Open the first of `paths` that exists and report the object loaded
    /// from it as library `name`, or that none exists.
    Load { name: Vec<u8>, paths: Vec<Vec<u8>> },
    /// Carry out these patches, in order.
    Relocate(Vec<Patch>),
    /// Print the auxiliary vector.
    ShowAuxv,
    /// Run these initializers, in order.
    Initialize(Vec<InitStep>),
    /// Lay out, fill and install the static TLS block.
    InstallTls,
    /// Jump to the program's entry point.
    Enter,
    /// Relocation failed.
    RelocFailed(RelocError),
}

/// Once every discovered library is loaded, the load is closed under
/// dependency: every library the executable or a loaded object needs is
/// loaded, under its name, exactly once.
pub proof fn lemma_loaded_closed(l: Linker)
    requires
        l.wf(),
        l.needs_known(),
        l.working_set@.len() == l.names().len(),
    ensures
        forall|i: int, x: Seq<u8>|
            l.seeded <= i < l.working_set@.len() && #[trigger] views(l.working_set@[i].libs@).contains(x)
                ==> exists|j: int| 0 <= j < l.working_set@.len() && (#[trigger] l.working_set@[j]).name@ == x,
        l.exe matches Some(e) ==> forall|x: Seq<u8>|
            #[trigger] views(e.libs@).contains(x) ==> exists|j: int|
                0 <= j < l.working_set@.len() && (#[trigger] l.working_set@[j]).name@ == x,
        forall|i: int, j: int|
            0 <= i < l.working_set@.len() && 0 <= j < l.working_set@.len() && i != j ==> (#[trigger] l.working_set@[i]).name@
                != (#[trigger] l.working_set@[j]).name@,
{
    assert forall|x: Seq<u8>| #[trigger] l.names().contains(x) implies exists|j: int|
        0 <= j < l.working_set@.len() && (#[trigger] l.working_set@[j]).name@ == x by {
        let k = choose|k: int| 0 <= k < l.names().len() && l.names()[k] == x;
        assert(l.working_set@[k].name@ == x);
    }
}

/// The linker's state while it loads the dependencies of the executable.
pub struct Linker {
    pub phase: Phase,
    /// The executable, from the start of loading until the link map is built.
    pub exe: Option<SharedObject>,
    pub base: u64,
    pub load_bias: u64,
    pub config: Config,
    /// Names of the objects to load, in breadth-first discovery order.
    pub link_map_order: Vec<Vec<u8>>,
    /// The objects loaded so far: the i-th is the one named i-th in `link_map_order`.
    pub working_set: Vec<SharedObject>,
    /// The executable followed by the loaded objects, once all are loaded.
    pub link_map: Vec<SharedObject>,
    pub gdb: crate::gdb::Debug,
    /// How many objects were there before loading began (the vDSO).
    pub seeded: usize,
    pub lachesis: Lachesis,
}

impl Linker {
    pub open spec fn names(&self) -> Seq<Seq<u8>> {
        self.link_map_order@.map_values(|v: Vec<u8>| v@)
    }

    /// Every name is discovered once; the loaded objects are the first
    /// names, in order; and the debugger knows of exactly the objects loaded
    /// since loading began.
    pub open spec fn wf(&self) -> bool {
        &&& no_dups(self.names())
        &&& self.working_set@.len() <= self.names().len()
        &&& forall|i: int| 0 <= i < self.working_set@.len() ==> (#[trigger] self.working_set@[i]).name@ == self.names()[i]
        &&& self.seeded <= self.working_set@.len()
        &&& self.gdb.r_map@.len() + self.seeded == self.working_set@.len()
    }

    /// Every library a loaded object (the vDSO aside) or the executable needs
    /// has been discovered.
    pub open spec fn needs_known(&self) -> bool {
        &&& forall|i: int, x: Seq<u8>|
            self.seeded <= i < self.working_set@.len() && #[trigger] views(self.working_set@[i].libs@).contains(x) ==> self.names().contains(x)
        &&& (self.exe matches Some(e) ==> forall|x: Seq<u8>| #[trigger] views(e.libs@).contains(x) ==> self.names().contains(x))
    }

    /// The linker, whose own image (ELF header first) is mapped at `base`:
    /// its headers give its load bias and its relocations, which come back as
    /// the patches that relocate it and must be carried out before anything
    /// else runs. It fails when its image does not make an object (no
    /// dynamic section, most notably). The vDSO, when the kernel maps one,
    /// comes first among the objects after the executable; `brk` is the
    /// address of the function a debugger breaks on.
    pub fn new(image: &[u8], base: u64, brk: u64, config: Config, vdso: Option<SharedObject>) -> (r: Result<
        (Linker, Vec<Patch>),
        ImageError,
    >)
        ensures
            !raw_fits(image@) ==> r is Err && r->Err_0 == ImageError::OutOfImage,
            raw_fits(image@) ==> {
                let p = raw_phdrs(image@);
                let bias = load_bias_of(base, le_u64_at(image@, 32), p);
                &&& (r is Err <==> image_error(image@, base, bias, p) is Some)
                &&& (r matches Err(e) ==> image_error(image@, base, bias, p) == Some(e))
                &&& (r matches Ok((l, patches)) ==> {
                    &&& l.load_bias == bias
                    &&& patches@ == self_patches(bias, image_relas(image@, base, bias, p))
                    &&& l.wf()
                    &&& l.needs_known()
                    &&& l.phase == Phase::Loading
                    &&& l.exe is None
                    &&& l.base == base
                    &&& l.link_map@.len() == 0
                    &&& l.config == config
                    &&& l.lachesis.wf()
                    &&& l.lachesis.modules@.len() == 0
                    &&& l.lachesis.current_modid == 0
                    &&& l.gdb.r_version == 1
                    &&& l.gdb.r_map@.len() == 0
                    &&& l.gdb.r_brk == brk
                    &&& l.gdb.r_ldbase == base
                    &&& l.gdb.r_state == State::Consistent
                    &&& (vdso is None ==> l.names().len() == 0 && l.working_set@.len() == 0)
                    &&& (vdso matches Some(v) ==> l.names() == seq![v.name@] && l.working_set@ == seq![v])
                })
            },
    {
        let me = match SharedObject::from_raw(image, base) {
            Ok(so) => so,
            Err(e) => return Err(e),
        };
        let load_bias = me.load_bias;
        let patches = relocate_linker(load_bias, &me.relocations);
        let gdb = crate::gdb::Debug::relocated_init(base, brk);
        let mut link_map_order: Vec<Vec<u8>> = Vec::new();
        let mut working_set: Vec<SharedObject> = Vec::new();
        let debug = config.debug;
        let seeded: usize = if vdso.is_some() {
            1
        } else {
            0
        };
        match vdso {
            Some(v) => {
                link_map_order.push(copy_bytes(v.name.as_slice()));
                working_set.push(v);
                assert(link_map_order@.map_values(|v: Vec<u8>| v@) =~= seq![working_set@[0].name@]);
            },
            None => {
                assert(link_map_order@.map_values(|v: Vec<u8>| v@) =~= Seq::<Seq<u8>>::empty());
            },
        }
        let l = Linker {
            phase: Phase::Loading,
            exe: None,
            base,
            load_bias,
            config,
            link_map_order,
            working_set,
            link_map: Vec::new(),
            gdb,
            seeded,
            lachesis: Lachesis::new(debug),
        };
        Ok((l, patches))
    }

    fn contains_name(&self, name: &[u8]) -> (r: bool)
        ensures
            r == self.names().contains(name@),
    {
        let mut i: usize = 0;
        while i < self.link_map_order.len()
            invariant
                i <= self.link_map_order@.len(),
                forall|k: int| 0 <= k < i ==> self.names()[k] != name@,
            decreases self.link_map_order@.len() - i,
        {
            if bytes_eq(self.link_map_order[i].as_slice(), name) {
                assert(self.names()[i as int] == name@);
                return true;
            }
            i = i + 1;
        }
        false
    }

    /// Appends to the discovery order each of `libs` not discovered yet.
    pub fn add_needed(&mut self, libs: &Vec<Vec<u8>>)
        requires
            old(self).wf(),
        ensures
            final(self).wf(),
            final(self).names() == discover(old(self).names(), libs@.map_values(|v: Vec<u8>| v@)),
            final(self).working_set@ == old(self).working_set@,
            final(self).gdb == old(self).gdb,
            final(self).link_map@ == old(self).link_map@,
            final(self).config == old(self).config,
            final(self).seeded == old(self).seeded,
            final(self).phase == old(self).phase,
            final(self).exe == old(self).exe,
            old(self).needs_known() ==> final(self).needs_known(),
            forall|x: Seq<u8>| #[trigger] views(libs@).contains(x) ==> final(self).names().contains(x),
            forall|x: Seq<u8>| #[trigger] old(self).names().contains(x) ==> final(self).names().contains(x),
    {
        let ghost start = self.names();
        let ghost lv = libs@.map_values(|v: Vec<u8>| v@);
        let mut i: usize = 0;
        while i < libs.len()
            invariant
                i <= libs@.len(),
                lv == libs@.map_values(|v: Vec<u8>| v@),
                no_dups(start),
                self.names() == discover(start, lv.take(i as int)),
                self.wf(),
                self.working_set@ == old(self).working_set@,
                self.gdb == old(self).gdb,
                self.link_map@ == old(self).link_map@,
                self.config == old(self).config,
                self.seeded == old(self).seeded,
                self.phase == old(self).phase,
                self.exe == old(self).exe,
                start == old(self).names(),
            decreases libs@.len() - i,
        {
            assert(lv.take(i + 1).drop_last() =~= lv.take(i as int));
            assert(lv.take(i + 1).last() == libs@[i as int]@);
            let present = self.contains_name(libs[i].as_slice());
            if !present {
                let ghost before = self.names();
                self.link_map_order.push(copy_bytes(libs[i].as_slice()));
                assert(self.names() =~= before.push(libs@[i as int]@));
                assert forall|a: int, b: int|
                    0 <= a < self.names().len() && 0 <= b < self.names().len() && a != b implies self.names()[a]
                    != self.names()[b] by {
                    if a == before.len() as int {
                        assert(before[b] == self.names()[b]);
                    } else if b == before.len() as int {
                        assert(before[a] == self.names()[a]);
                    }
                }
            }
            i = i + 1;
        }
        assert(lv.take(i as int) =~= lv);
        proof {
            lemma_discover(start, lv);
            assert forall|x: Seq<u8>| #[trigger] start.contains(x) implies self.names().contains(x) by {
                let k = choose|k: int| 0 <= k < start.len() && start[k] == x;
                assert(self.names()[k] == start[k]);
            }
        }
    }

    /// The name to load next, if any is left.
    pub fn next_to_load(&self) -> (r: Option<Vec<u8>>)
        requires
            self.wf(),
        ensures
            self.working_set@.len() < self.names().len() ==> (r matches Some(n) && n@ == self.names()[self.working_set@.len() as int]),
            self.working_set@.len() >= self.names().len() ==> r is None,
    {
        let k = self.working_set.len();
        if k < self.link_map_order.len() {
            Some(copy_bytes(self.link_map_order[k].as_slice()))
        } else {
            None
        }
    }

    /// The paths tried for library `name`, one per search directory, in order.
    pub fn library_candidates(&self, name: &[u8]) -> (r: Vec<Vec<u8>>)
        ensures
            r@.len() == self.config.library_path@.len(),
            forall|i: int| 0 <= i < r@.len() ==> (#[trigger] r@[i])@ == join_path(self.config.library_path@[i]@, name@),
    {
        let dirs = &self.config.library_path;
        let mut r: Vec<Vec<u8>> = Vec::new();
        let mut i: usize = 0;
        while i < dirs.len()
            invariant
                dirs == &self.config.library_path,
                i <= dirs@.len(),
                r@.len() == i,
                forall|k: int| 0 <= k < i ==> (#[trigger] r@[k])@ == join_path(dirs@[k]@, name@),
            decreases dirs@.len() - i,
        {
            let mut p = copy_bytes(dirs[i].as_slice());
            p.push(SLASH);
            let mut j: usize = 0;
            let ghost head = p@;
            while j < name.len()
                invariant
                    j <= name@.len(),
                    p@ == head + name@.take(j as int),
                decreases name@.len() - j,
            {
                p.push(name[j]);
                j = j + 1;
                assert(p@ =~= head + name@.take(j as int));
            }
            assert(name@.take(j as int) =~= name@);
            r.push(p);
            i = i + 1;
        }
        r
    }

    /// The error for a library found in no search directory: it names the
    /// library and the directories searched.
    pub fn missing_library(&self, name: &[u8]) -> (r: Vec<u8>)
        ensures
            r@ == missing_message(name@, self.config.library_path@.map_values(|v: Vec<u8>| v@)),
    {
        let mut r: Vec<u8> = vec![99u8, 111u8, 117u8, 108u8, 100u8, 32u8, 110u8, 111u8, 116u8, 32u8, 102u8, 105u8, 110u8, 100u8, 32u8];
        assert(r@ =~= missing_prefix());
        append_bytes(&mut r, name);
        append_bytes(&mut r, &[32u8, 105u8, 110u8, 32u8]);
        assert(r@ =~= missing_prefix() + name@ + missing_middle());
        let ghost head = r@;
        let dirs = &self.config.library_path;
        let ghost dv = dirs@.map_values(|v: Vec<u8>| v@);
        let mut i: usize = 0;
        while i < dirs.len()
            invariant
                dirs == &self.config.library_path,
                dv == dirs@.map_values(|v: Vec<u8>| v@),
                i <= dirs@.len(),
                r@ == head + join_dirs(dv.take(i as int)),
            decreases dirs@.len() - i,
        {
            assert(dv.take(i + 1).drop_last() =~= dv.take(i as int));
            if i > 0 {
                r.push(58u8);
            }
            append_bytes(&mut r, dirs[i].as_slice());
            proof {
                if i == 0 {
                    assert(dv.take(1) =~= seq![dirs@[0]@]);
                    assert(r@ =~= head + join_dirs(dv.take(1)));
                } else {
                    assert(r@ =~= head + join_dirs(dv.take(i + 1)));
                }
            }
            i = i + 1;
        }
        assert(dv.take(i as int) =~= dv);
        r
    }

    /// Records that the next object to load has been loaded: the debugger
    /// learns of it, and the libraries it needs join the discovery order.
    pub fn record_loaded(&mut self, so: SharedObject)
        requires
            old(self).wf(),
            old(self).working_set@.len() < old(self).names().len(),
            so.name@ == old(self).names()[old(self).working_set@.len() as int],
        ensures
            final(self).wf(),
            final(self).working_set@ == old(self).working_set@.push(so),
            final(self).names() == discover(old(self).names(), so.libs@.map_values(|v: Vec<u8>| v@)),
            final(self).gdb.r_map@.drop_last() == old(self).gdb.r_map@,
            final(self).gdb.r_map@.len() == old(self).gdb.r_map@.len() + 1,
            entry_of(final(self).gdb.r_map@.last(), so),
            final(self).gdb.r_state == old(self).gdb.r_state,
            final(self).link_map@ == old(self).link_map@,
            final(self).config == old(self).config,
            final(self).phase == old(self).phase,
            final(self).exe == old(self).exe,
            old(self).needs_known() ==> final(self).needs_known(),
    {
        let libs = copy_names(&so.libs);
        self.gdb.add_so(&so);
        let ghost ws0 = self.working_set@;
        self.working_set.push(so);
        assert forall|i: int| 0 <= i < self.working_set@.len() implies (#[trigger] self.working_set@[i]).name@
            == self.names()[i] by {
            if i < ws0.len() {
                assert(self.working_set@[i] == ws0[i]);
            }
        }
        self.add_needed(&libs);
        proof {
            lemma_discover(old(self).names(), libs@.map_values(|v: Vec<u8>| v@));
            assert forall|i: int| 0 <= i < self.working_set@.len() implies (#[trigger] self.working_set@[i]).name@
                == self.names()[i] by {
            }
            if old(self).needs_known() {
                assert forall|i: int, x: Seq<u8>|
                    self.seeded <= i < self.working_set@.len() && #[trigger] views(self.working_set@[i].libs@).contains(x) implies self.names().contains(x) by {
                    if i < ws0.len() {
                        assert(self.working_set@[i] == ws0[i]);
                        assert(old(self).names().contains(x));
                    } else {
                        assert(self.working_set@[i] == so);
                        assert(views(libs@).contains(x));
                    }
                }
                if self.exe is Some {
                    let e = self.exe->0;
                    assert forall|x: Seq<u8>| #[trigger] views(e.libs@).contains(x) implies self.names().contains(x) by {
                        assert(old(self).names().contains(x));
                    }
                }
            }
        }
    }

    /// Sets the state flag the debugger reads.
    pub fn set_debug_state(&mut self, state: State)
        requires
            old(self).wf(),
        ensures
            final(self).wf(),
            final(self).gdb.r_state == state,
            final(self).working_set@ == old(self).working_set@,
            final(self).names() == old(self).names(),
            final(self).link_map@ == old(self).link_map@,
            final(self).phase == old(self).phase,
            final(self).exe == old(self).exe,
            final(self).config == old(self).config,
            final(self).seeded == old(self).seeded,
    {
        self.gdb.update(state);
    }

    /// Assembles the link map once every discovered object is loaded: the
    /// executable, then the objects in discovery order.
    pub fn finish(&mut self, exe: SharedObject)
        requires
            old(self).wf(),
            old(self).working_set@.len() == old(self).names().len(),
        ensures
            final(self).link_map@ == seq![exe] + old(self).working_set@,
            final(self).working_set@.len() == 0,
            final(self).gdb == old(self).gdb,
            final(self).names() == old(self).names(),
            final(self).phase == old(self).phase,
            final(self).exe == old(self).exe,
            final(self).config == old(self).config,
    {
        let mut lm: Vec<SharedObject> = Vec::new();
        lm.push(exe);
        lm.append(&mut self.working_set);
        self.link_map = lm;
    }
}

impl Linker {
    /// Begins loading for the executable `exe`: its libraries are the first
    /// discovered, and the debugger is told objects are being added.
    pub fn start(&mut self, exe: SharedObject)
        requires
            old(self).wf(),
            old(self).phase == Phase::Loading,
            old(self).exe is None,
        ensures
            final(self).wf(),
            final(self).phase == Phase::Loading,
            final(self).exe == Some(exe),
            final(self).names() == discover(old(self).names(), exe.libs@.map_values(|v: Vec<u8>| v@)),
            final(self).working_set@ == old(self).working_set@,
            final(self).gdb.r_state == State::Add,
            final(self).config == old(self).config,
            old(self).needs_known() ==> final(self).needs_known(),
    {
        self.add_needed(&exe.libs);
        self.set_debug_state(State::Add);
        let ghost el = views(exe.libs@);
        self.exe = Some(exe);
        proof {
            if old(self).needs_known() {
                assert forall|x: Seq<u8>| #[trigger] views((self.exe->0).libs@).contains(x) implies self.names().contains(x) by {
                    assert(el.contains(x));
                }
            }
        }
    }

    /// Decides what the process does next. While libraries remain to load it
    /// asks for the next one; once all are loaded it builds the link map,
    /// tells the debugger the list is consistent, and hands out the whole
    /// relocation; then, in turn, the auxiliary-vector dump (when asked for
    /// and not in secure mode), the initializers in link-map order, the TLS
    /// installation, and the jump to the program.
    pub fn next_action(&mut self) -> (r: Action)
        requires
            old(self).phase == Phase::Loading ==> old(self).wf() && old(self).exe is Some,
        ensures
            final(self).phase == Phase::Loading ==> final(self).wf() && final(self).exe is Some,
            final(self).config == old(self).config,
            old(self).phase == Phase::Loading && old(self).working_set@.len() < old(self).names().len()
                ==> (r matches Action::Load { name, paths } && name@ == old(self).names()[old(self).working_set@.len() as int]
                && paths@.len() == old(self).config.library_path@.len()
                && (forall|i: int| 0 <= i < paths@.len() ==> (#[trigger] paths@[i])@ == join_path(old(self).config.library_path@[i]@, name@))
                && final(self).phase == Phase::Loading && final(self).working_set@ == old(self).working_set@
                && final(self).names() == old(self).names() && final(self).gdb == old(self).gdb
                && final(self).needs_known() == old(self).needs_known()),
            old(self).phase == Phase::Loading && old(self).working_set@.len() >= old(self).names().len() ==> {
                &&& final(self).link_map@ == seq![old(self).exe->0] + old(self).working_set@
                &&& final(self).gdb.r_state == State::Consistent
                &&& (relocation_plan_spec(final(self).link_map@, old(self).config.bind_now) matches Ok(p) ==> (r matches Action::Relocate(v) && v@ == p && final(self).phase == Phase::Relocated))
                &&& (relocation_plan_spec(final(self).link_map@, old(self).config.bind_now) matches Err(e) ==> (r matches Action::RelocFailed(x) && x == e && final(self).phase == Phase::Failed(e)))
            },
            old(self).phase == Phase::Relocated && old(self).config.show_auxv && !old(self).config.secure ==> (r is ShowAuxv && final(self).phase == Phase::AuxvShown),
            (old(self).phase == Phase::AuxvShown || (old(self).phase == Phase::Relocated && !(old(self).config.show_auxv && !old(self).config.secure)))
                ==> (r matches Action::Initialize(steps) && steps@ == init_order(old(self).link_map@, old(self).link_map@.len() as int) && final(self).phase == Phase::Initialized),
            old(self).phase == Phase::Initialized ==> (r is InstallTls && final(self).phase == Phase::TlsInstalled),
            old(self).phase == Phase::TlsInstalled ==> (r is Enter && final(self).phase == Phase::TlsInstalled),
            old(self).phase matches Phase::Failed(e) ==> (r matches Action::RelocFailed(x) && x == e && final(self).phase == old(self).phase),
            old(self).phase != Phase::Loading ==> final(self).link_map@ == old(self).link_map@,
    {
        match self.phase {
            Phase::Loading => {
                match self.next_to_load() {
                    Some(name) => {
                        let paths = self.library_candidates(name.as_slice());
                        Action::Load { name, paths }
                    },
                    None => {
                        let exe = self.exe.take().unwrap();
                        self.set_debug_state(State::Consistent);
                        self.finish(exe);
                        match relocation_plan(&self.link_map, self.config.bind_now) {
                            Ok(p) => {
                                self.phase = Phase::Relocated;
                                Action::Relocate(p)
                            },
                            Err(e) => {
                                self.phase = Phase::Failed(e);
                                Action::RelocFailed(e)
                            },
                        }
                    },
                }
            },
            Phase::Relocated => {
                if self.config.show_auxv && !self.config.secure {
                    self.phase = Phase::AuxvShown;
                    Action::ShowAuxv
                } else {
                    self.phase = Phase::Initialized;
                    Action::Initialize(init_plan(&self.link_map))
                }
            },
            Phase::AuxvShown => {
                self.phase = Phase::Initialized;
                Action::Initialize(init_plan(&self.link_map))
            },
            Phase::Initialized => {
                self.phase = Phase::TlsInstalled;
                Action::InstallTls
            },
            Phase::TlsInstalled => Action::Enter,
            Phase::Failed(e) => Action::RelocFailed(e),
        }
    }
}

fn copy_names(v: &Vec<Vec<u8>>) -> (r: Vec<Vec<u8>>)
    ensures
        r@.map_values(|x: Vec<u8>| x@) == v@.map_values(|x: Vec<u8>| x@),
{
    let mut r: Vec<Vec<u8>> = Vec::new();
    let mut i: usize = 0;
    while i < v.len()
        invariant
            i <= v@.len(),
            r@.map_values(|x: Vec<u8>| x@) == v@.take(i as int).map_values(|x: Vec<u8>| x@),
        decreases v@.len() - i,
    {
        let ghost before = r@;
        let c = copy_bytes(v[i].as_slice());
        let ghost cv = c@;
        r.push(c);
        assert(r@.map_values(|x: Vec<u8>| x@) =~= before.map_values(|x: Vec<u8>| x@).push(cv));
        assert(v@.take(i + 1).map_values(|x: Vec<u8>| x@) =~= v@.take(i as int).map_values(
            |x: Vec<u8>| x@,
        ).push(v@[i as int]@));
        i = i + 1;
    }
    assert(v@.take(i as int) =~= v@);
    r
}

fn append_bytes(r: &mut Vec<u8>, s: &[u8])
    ensures
        final(r)@ == old(r)@ + s@,
{
    let mut j: usize = 0;
    let ghost head = r@;
    while j < s.len()
        invariant
            j <= s@.len(),
            r@ == head + s@.take(j as int),
        decreases s@.len() - j,
    {
        r.push(s[j]);
        j = j + 1;
        assert(r@ =~= head + s@.take(j as int));
    }
    assert(s@.take(j as int) =~= s@);
}

} // verus!
