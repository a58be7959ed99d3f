//! The linker's settings, read from the environment and auxiliary vector.
use crate::auxv::{auxval, AT_SECURE};
use crate::kernel_block::{env_lookup, KernelBlock};
use vstd::prelude::*;
use vstd::string::StringSliceAdditionalSpecFns;

verus! {

pub const COLON: u8 = 58;

/// The pieces of `s` between colons, as they stand so far: the finished
/// pieces and the one being read.
pub open spec fn split_state(s: Seq<u8>) -> (Seq<Seq<u8>>, Seq<u8>)
    decreases s.len(),
{
    if s.len() == 0 {
        (Seq::empty(), Seq::empty())
    } else {
        let (done, cur) = split_state(s.drop_last());
        if s.last() == COLON {
            (done.push(cur), Seq::empty())
        } else {
            (done, cur.push(s.last()))
        }
    }
}

/// The pieces of `s` between colons, empty ones included: `a::b` gives
/// `a`, an empty piece and `b`; the empty string gives one empty piece.
pub open spec fn split_colon(s: Seq<u8>) -> Seq<Seq<u8>> {
    split_state(s).0.push(split_state(s).1)
}

/// Splits a colon-separated list.
pub fn split_paths(s: &Vec<u8>) -> (r: Vec<Vec<u8>>)
    ensures
        r@.map_values(|v: Vec<u8>| v@) == split_colon(s@),
{
    let mut done: Vec<Vec<u8>> = Vec::new();
    let mut cur: Vec<u8> = Vec::new();
    let mut i: usize = 0;
    while i < s.len()
        invariant
            i <= s@.len(),
            (done@.map_values(|v: Vec<u8>| v@), cur@) == split_state(s@.take(i as int)),
        decreases s@.len() - i,
    {
        assert(s@.take(i + 1).drop_last() =~= s@.take(i as int));
        let c = s[i];
        if c == COLON {
            let ghost before = done@;
            done.push(cur);
            cur = Vec::new();
            assert(done@.map_values(|v: Vec<u8>| v@) =~= before.map_values(|v: Vec<u8>| v@).push(
                split_state(s@.take(i as int)).1,
            ));
            assert(cur@ =~= Seq::<u8>::empty());
        } else {
            cur.push(c);
        }
        i = i + 1;
    }
    assert(s@.take(i as int) =~= s@);
    let ghost before = done@;
    done.push(cur);
    assert(done@.map_values(|v: Vec<u8>| v@) =~= before.map_values(|v: Vec<u8>| v@).push(
        split_state(s@).1,
    ));
    done
}

/// The directory always searched for libraries, last.
pub open spec fn usr_lib() -> Seq<u8> {
    seq![47u8, 117u8, 115u8, 114u8, 47u8, 108u8, 105u8, 98u8]
}

fn usr_lib_dir() -> (r: Vec<u8>)
    ensures
        r@ == usr_lib(),
{
    let r: Vec<u8> = vec![47u8, 117u8, 115u8, 114u8, 47u8, 108u8, 105u8, 98u8];
    assert(r@ =~= usr_lib());
    r
}

/// The variable `name` is set to a non-empty value.
pub open spec fn flag_set(env: Seq<Seq<u8>>, name: Seq<u8>) -> bool {
    env_lookup(env, name) matches Some(v) && v.len() > 0
}

/// The directories searched for a library, in order: those of
/// `LD_LIBRARY_PATH` unless running in secure mode, then `/usr/lib`.
pub open spec fn search_dirs(path: Option<Seq<u8>>, secure: bool) -> Seq<Seq<u8>> {
    match path {
        Some(p) => if secure {
            seq![usr_lib()]
        } else {
            split_colon(p).push(usr_lib())
        },
        None => seq![usr_lib()],
    }
}

/// The settings the linker runs with.
pub struct Config {
    pub show_auxv: bool,
    pub bind_now: bool,
    pub debug: bool,
    pub secure: bool,
    pub verbose: bool,
    pub trace_loaded_objects: bool,
    pub library_path: Vec<Vec<u8>>,
    pub preload: Vec<Vec<u8>>,
}

fn env_flag(block: &KernelBlock, name: &[u8]) -> (r: bool)
    ensures
        r == flag_set(block.env@.map_values(|v: Vec<u8>| v@), name@),
{
    match block.getenv(name) {
        Some(v) => v.len() > 0,
        None => false,
    }
}

impl Config {
    /// Reads the settings: a flag is on when its variable is set and not
    /// empty; debugging is on unless `LD_DRYAD_DEBUG` is set to something
    /// other than `1`; secure mode comes from `AT_SECURE`.
    pub fn new(block: &KernelBlock) -> (r: Config)
        ensures
            ({
                let env = block.env@.map_values(|v: Vec<u8>| v@);
                &&& r.show_auxv == flag_set(env, "LD_SHOW_AUXV".spec_bytes())
                &&& r.bind_now == flag_set(env, "LD_BIND_NOW".spec_bytes())
                &&& r.debug == (env_lookup(env, "LD_DRYAD_DEBUG".spec_bytes()) matches Some(v) ==> v
                    == seq![49u8])
                &&& r.secure == (auxval(block.auxv@, AT_SECURE) matches Some(v) && v != 0)
                &&& r.verbose == flag_set(env, "LD_VERBOSE".spec_bytes())
                &&& r.trace_loaded_objects == flag_set(env, "LD_TRACE_LOADED_OBJECTS".spec_bytes())
                &&& r.library_path@.map_values(|v: Vec<u8>| v@) == search_dirs(
                    env_lookup(env, "LD_LIBRARY_PATH".spec_bytes()),
                    r.secure,
                )
                &&& r.preload@.len() == 0
            }),
    {
        let show_auxv = env_flag(block, "LD_SHOW_AUXV".as_bytes());
        let bind_now = env_flag(block, "LD_BIND_NOW".as_bytes());
        let debug = match block.getenv("LD_DRYAD_DEBUG".as_bytes()) {
            Some(v) => v.len() == 1 && v[0] == 49,
            None => true,
        };
        proof {
            if let Some(v) = env_lookup(block.env@.map_values(|v: Vec<u8>| v@), "LD_DRYAD_DEBUG".spec_bytes()) {
                if v.len() == 1 && v[0] == 49 {
                    assert(v =~= seq![49u8]);
                }
            }
        }
        let secure = match block.getauxval(AT_SECURE) {
            Some(v) => v != 0,
            None => false,
        };
        let verbose = env_flag(block, "LD_VERBOSE".as_bytes());
        let trace_loaded_objects = env_flag(block, "LD_TRACE_LOADED_OBJECTS".as_bytes());
        let library_path = match block.getenv("LD_LIBRARY_PATH".as_bytes()) {
            Some(paths) => {
                let mut dirs: Vec<Vec<u8>> = if secure {
                    Vec::new()
                } else {
                    split_paths(&paths)
                };
                let ghost before = dirs@;
                dirs.push(usr_lib_dir());
                assert(dirs@.map_values(|v: Vec<u8>| v@) =~= before.map_values(|v: Vec<u8>| v@).push(
                    usr_lib(),
                ));
                dirs
            },
            None => {
                let mut dirs: Vec<Vec<u8>> = Vec::new();
                dirs.push(usr_lib_dir());
                assert(dirs@.map_values(|v: Vec<u8>| v@) =~= seq![usr_lib()]);
                dirs
            },
        };
        Config {
            show_auxv,
            bind_now,
            debug,
            secure,
            verbose,
            trace_loaded_objects,
            library_path,
            preload: Vec::new(),
        }
    }
}

} // verus!
