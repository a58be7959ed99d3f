//! The arguments, environment and auxiliary vector the kernel passes a
//! program interpreter, as plain values.
use crate::auxv::{auxval, Auxv, AT_NULL};
use vstd::prelude::*;

verus! {

pub const EQUALS: u8 = 61;

/// The kernel's argument block.
pub struct KernelBlock {
    pub argc: usize,
    pub argv: Vec<Vec<u8>>,
    /// `NAME=value` strings.
    pub env: Vec<Vec<u8>>,
    pub auxv: Vec<Auxv>,
}

/// Index of the first `=` in `s` from `i` on.
pub open spec fn first_eq(s: Seq<u8>, i: int) -> Option<int>
    decreases s.len() - i,
{
    if i < 0 || i >= s.len() {
        None
    } else if s[i] == EQUALS {
        Some(i)
    } else {
        first_eq(s, i + 1)
    }
}

/// The value of `name` in the environment entry `e`: what follows the first
/// `=`, when `e` starts with `name` and holds an `=`.
pub open spec fn env_value(e: Seq<u8>, name: Seq<u8>) -> Option<Seq<u8>> {
    if name.len() <= e.len() && e.take(name.len() as int) == name && first_eq(e, 0) is Some {
        Some(e.skip(first_eq(e, 0)->0 + 1))
    } else {
        None
    }
}

/// The value the first matching entry of `env` gives `name`.
pub open spec fn env_lookup(env: Seq<Seq<u8>>, name: Seq<u8>) -> Option<Seq<u8>>
    decreases env.len(),
{
    if env.len() == 0 {
        None
    } else if env_value(env[0], name) is Some {
        env_value(env[0], name)
    } else {
        env_lookup(env.drop_first(), name)
    }
}

fn find_eq(s: &Vec<u8>) -> (r: Option<usize>)
    ensures
        r matches Some(i) ==> first_eq(s@, 0) == Some(i as int) && i < s@.len(),
        r is None ==> first_eq(s@, 0) is None,
{
    let mut i: usize = 0;
    while i < s.len()
        invariant
            i <= s@.len(),
            first_eq(s@, 0) == first_eq(s@, i as int),
        decreases s@.len() - i,
    {
        if s[i] == EQUALS {
            return Some(i);
        }
        i = i + 1;
    }
    None
}

fn starts_with(s: &Vec<u8>, p: &[u8]) -> (r: bool)
    ensures
        r == (p@.len() <= s@.len() && s@.take(p@.len() as int) == p@),
{
    if p.len() > s.len() {
        return false;
    }
    let mut i: usize = 0;
    while i < p.len()
        invariant
            p@.len() <= s@.len(),
            i <= p@.len(),
            forall|k: int| 0 <= k < i ==> s@[k] == p@[k],
        decreases p@.len() - i,
    {
        if s[i] != p[i] {
            assert(s@.take(p@.len() as int)[i as int] != p@[i as int]);
            return false;
        }
        i = i + 1;
    }
    assert(s@.take(p@.len() as int) =~= p@);
    true
}

impl KernelBlock {
    pub fn new(argc: usize, argv: Vec<Vec<u8>>, env: Vec<Vec<u8>>, auxv: Vec<Auxv>) -> (r: KernelBlock)
        ensures
            r.argc == argc,
            r.argv@ == argv@,
            r.env@ == env@,
            r.auxv@ == auxv@,
    {
        KernelBlock { argc, argv, env, auxv }
    }

    /// The value of the first auxiliary entry of type `t`.
    pub fn getauxval(&self, t: u64) -> (r: Option<u64>)
        ensures
            r == auxval(self.auxv@, t),
    {
        let mut i: usize = 0;
        assert(self.auxv@.skip(0) =~= self.auxv@);
        while i < self.auxv.len()
            invariant
                i <= self.auxv@.len(),
                auxval(self.auxv@, t) == auxval(self.auxv@.skip(i as int), t),
            decreases self.auxv@.len() - i,
        {
            assert(self.auxv@.skip(i as int).drop_first() =~= self.auxv@.skip(i + 1));
            let e = self.auxv[i];
            if e.a_type == AT_NULL {
                return None;
            }
            if e.a_type == t {
                return Some(e.a_val);
            }
            i = i + 1;
        }
        None
    }

    /// The value of the environment variable `name`: what follows the `=` of
    /// the first entry that starts with `name`.
    pub fn getenv(&self, name: &[u8]) -> (r: Option<Vec<u8>>)
        ensures
            r is Some <==> env_lookup(self.env@.map_values(|v: Vec<u8>| v@), name@) is Some,
            r matches Some(v) ==> env_lookup(self.env@.map_values(|v: Vec<u8>| v@), name@) == Some(
                v@,
            ),
    {
        let ghost envs = self.env@.map_values(|v: Vec<u8>| v@);
        let mut i: usize = 0;
        assert(envs.skip(0) =~= envs);
        while i < self.env.len()
            invariant
                i <= self.env@.len(),
                envs == self.env@.map_values(|v: Vec<u8>| v@),
                env_lookup(envs, name@) == env_lookup(envs.skip(i as int), name@),
            decreases self.env@.len() - i,
        {
            assert(envs.skip(i as int).drop_first() =~= envs.skip(i + 1));
            let e = &self.env[i];
            if starts_with(e, name) {
                if let Some(k) = find_eq(e) {
                    let mut v: Vec<u8> = Vec::new();
                    let elen = e.len();
                    assert(k < elen);
                    let mut j: usize = k + 1;
                    while j < e.len()
                        invariant
                            k + 1 <= j <= e@.len(),
                            v@ == e@.subrange(k + 1, j as int),
                        decreases e@.len() - j,
                    {
                        v.push(e[j]);
                        j = j + 1;
                        assert(v@ =~= e@.subrange(k + 1, j as int));
                    }
                    assert(e@.skip(k + 1) =~= e@.subrange(k + 1, e@.len() as int));
                    return Some(v);
                }
            }
            i = i + 1;
        }
        None
    }
}

} // verus!
