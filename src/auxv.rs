//! The auxiliary vector the kernel hands a program interpreter.
use vstd::prelude::*;

verus! {

pub const AT_NULL: u64 = 0;
pub const AT_IGNORE: u64 = 1;
pub const AT_EXECFD: u64 = 2;
pub const AT_PHDR: u64 = 3;
pub const AT_PHENT: u64 = 4;
pub const AT_PHNUM: u64 = 5;
pub const AT_PAGESZ: u64 = 6;
pub const AT_BASE: u64 = 7;
pub const AT_FLAGS: u64 = 8;
pub const AT_ENTRY: u64 = 9;
pub const AT_NOTELF: u64 = 10;
pub const AT_UID: u64 = 11;
pub const AT_EUID: u64 = 12;
pub const AT_GID: u64 = 13;
pub const AT_EGID: u64 = 14;
pub const AT_PLATFORM: u64 = 15;
pub const AT_HWCAP: u64 = 16;
pub const AT_CLKTCK: u64 = 17;
pub const AT_FPUCW: u64 = 18;
pub const AT_DCACHEBSIZE: u64 = 19;
pub const AT_ICACHEBSIZE: u64 = 20;
pub const AT_UCACHEBSIZE: u64 = 21;
pub const AT_IGNOREPPC: u64 = 22;
pub const AT_SECURE: u64 = 23;
pub const AT_BASE_PLATFORM: u64 = 24;
pub const AT_RANDOM: u64 = 25;
pub const AT_HWCAP2: u64 = 26;
pub const AT_EXECFN: u64 = 31;
pub const AT_SYSINFO: u64 = 32;
pub const AT_SYSINFO_EHDR: u64 = 33;
pub const AT_L1I_CACHESHAPE: u64 = 34;
pub const AT_L1D_CACHESHAPE: u64 = 35;
pub const AT_L2_CACHESHAPE: u64 = 36;
pub const AT_L3_CACHESHAPE: u64 = 37;

/// Number of slots of a vector indexed by type.
pub const AUX_CNT: usize = 38;

/// One auxiliary-vector entry.
#[derive(Clone, Copy, Debug, PartialEq, Eq, Structural)]
pub struct Auxv {
    pub a_type: u64,
    pub a_val: u64,
}

/// The entries before the first one of type `AT_NULL`.
pub open spec fn live_entries(e: Seq<Auxv>) -> Seq<Auxv>
    decreases e.len(),
{
    if e.len() == 0 || e[0].a_type == AT_NULL {
        Seq::empty()
    } else {
        seq![e[0]] + live_entries(e.drop_first())
    }
}

/// The value of the first entry of type `t` before the terminating `AT_NULL`.
pub open spec fn auxval(e: Seq<Auxv>, t: u64) -> Option<u64>
    decreases e.len(),
{
    if e.len() == 0 || e[0].a_type == AT_NULL {
        None
    } else if e[0].a_type == t {
        Some(e[0].a_val)
    } else {
        auxval(e.drop_first(), t)
    }
}

/// The vector indexed by type that a C library's TLS setup expects: slot `t`
/// holds the value of type `t`; types past the last slot are left out.
pub fn from_raw(entries: &Vec<Auxv>) -> (r: Vec<u64>)
    ensures
        r@.len() == AUX_CNT,
        forall|t: int| 0 <= t < AUX_CNT ==> #[trigger] r@[t] == last_of_type(live_entries(entries@), t),
{
    let mut aux: Vec<u64> = Vec::new();
    while aux.len() < AUX_CNT
        invariant
            aux@.len() <= AUX_CNT,
            forall|t: int| 0 <= t < aux@.len() ==> aux@[t] == 0,
        decreases AUX_CNT - aux@.len(),
    {
        aux.push(0);
    }
    let mut i: usize = 0;
    while i < entries.len() && entries[i].a_type != AT_NULL
        invariant
            i <= entries@.len(),
            aux@.len() == AUX_CNT,
            forall|k: int| 0 <= k < i ==> (#[trigger] entries@[k]).a_type != AT_NULL,
            forall|t: int| 0 <= t < AUX_CNT ==> #[trigger] aux@[t] == last_of_type(entries@.take(i as int), t),
        decreases entries@.len() - i,
    {
        let e = entries[i];
        proof {
            assert(entries@.take(i + 1).drop_last() =~= entries@.take(i as int));
        }
        if e.a_type < AUX_CNT as u64 {
            aux.set(e.a_type as usize, e.a_val);
        }
        i = i + 1;
    }
    proof {
        lemma_live_prefix(entries@, i as int);
        if i < entries@.len() {
            assert(live_entries(entries@.skip(i as int)) =~= Seq::<Auxv>::empty());
        } else {
            assert(entries@.skip(i as int) =~= Seq::<Auxv>::empty());
        }
        assert(entries@.take(i as int) + Seq::<Auxv>::empty() =~= entries@.take(i as int));
    }
    aux
}

/// The value of the last entry of type `t` in `e`, or 0.
pub open spec fn last_of_type(e: Seq<Auxv>, t: int) -> u64
    decreases e.len(),
{
    if e.len() == 0 {
        0
    } else if e.last().a_type == t {
        e.last().a_val
    } else {
        last_of_type(e.drop_last(), t)
    }
}

proof fn lemma_live_prefix(e: Seq<Auxv>, i: int)
    requires
        0 <= i <= e.len(),
        forall|k: int| 0 <= k < i ==> (#[trigger] e[k]).a_type != AT_NULL,
    ensures
        live_entries(e) == e.take(i) + live_entries(e.skip(i)),
    decreases i,
{
    if i > 0 {
        lemma_live_prefix(e, i - 1);
        assert(e.skip(i - 1).drop_first() =~= e.skip(i));
        assert(e.take(i - 1) + seq![e[i - 1]] =~= e.take(i));
        assert(e.take(i - 1) + (seq![e[i - 1]] + live_entries(e.skip(i))) =~= e.take(i)
            + live_entries(e.skip(i)));
    } else {
        assert(e.skip(0) =~= e);
        assert(e.take(0) + live_entries(e) =~= live_entries(e));
    }
}

/// The name of an auxiliary-vector type.
pub open spec fn aux_type_name(idx: u64) -> Seq<char> {
    match idx {
        0 => "AT_NULL"@,
        1 => "AT_IGNORE"@,
        2 => "AT_EXECFD"@,
        3 => "AT_PHDR"@,
        4 => "AT_PHENT"@,
        5 => "AT_PHNUM"@,
        6 => "AT_PAGESZ"@,
        7 => "AT_BASE"@,
        8 => "AT_FLAGS"@,
        9 => "AT_ENTRY"@,
        10 => "AT_NOTELF"@,
        11 => "AT_UID"@,
        12 => "AT_EUID"@,
        13 => "AT_GID"@,
        14 => "AT_EGID"@,
        15 => "AT_PLATFORM"@,
        16 => "AT_HWCAP"@,
        17 => "AT_CLKTCK"@,
        18 => "AT_FPUCW"@,
        19 => "AT_DCACHEBSIZE"@,
        20 => "AT_ICACHEBSIZE"@,
        21 => "AT_UCACHEBSIZE"@,
        22 => "AT_IGNOREPPC"@,
        23 => "AT_SECURE"@,
        24 => "AT_BASE_PLATFORM"@,
        25 => "AT_RANDOM"@,
        26 => "AT_HWCAP2"@,
        31 => "AT_EXECFN"@,
        32 => "AT_SYSINFO"@,
        33 => "AT_SYSINFO_EHDR"@,
        34 => "AT_L1I_CACHESHAPE"@,
        35 => "AT_L1D_CACHESHAPE"@,
        36 => "AT_L2_CACHESHAPE"@,
        37 => "AT_L3_CACHESHAPE"@,
        _ => "UNKNOWN_AT_TYPE"@,
    }
}

/// The name of an auxiliary-vector type, `UNKNOWN_AT_TYPE` for others.
pub fn str_of_idx(idx: u64) -> (r: &'static str)
    ensures
        r@ == aux_type_name(idx),
{
    match idx {
        AT_NULL => "AT_NULL",
        AT_IGNORE => "AT_IGNORE",
        AT_EXECFD => "AT_EXECFD",
        AT_PHDR => "AT_PHDR",
        AT_PHENT => "AT_PHENT",
        AT_PHNUM => "AT_PHNUM",
        AT_PAGESZ => "AT_PAGESZ",
        AT_BASE => "AT_BASE",
        AT_FLAGS => "AT_FLAGS",
        AT_ENTRY => "AT_ENTRY",
        AT_NOTELF => "AT_NOTELF",
        AT_UID => "AT_UID",
        AT_EUID => "AT_EUID",
        AT_GID => "AT_GID",
        AT_EGID => "AT_EGID",
        AT_PLATFORM => "AT_PLATFORM",
        AT_HWCAP => "AT_HWCAP",
        AT_CLKTCK => "AT_CLKTCK",
        AT_FPUCW => "AT_FPUCW",
        AT_DCACHEBSIZE => "AT_DCACHEBSIZE",
        AT_ICACHEBSIZE => "AT_ICACHEBSIZE",
        AT_UCACHEBSIZE => "AT_UCACHEBSIZE",
        AT_IGNOREPPC => "AT_IGNOREPPC",
        AT_SECURE => "AT_SECURE",
        AT_BASE_PLATFORM => "AT_BASE_PLATFORM",
        AT_RANDOM => "AT_RANDOM",
        AT_HWCAP2 => "AT_HWCAP2",
        AT_EXECFN => "AT_EXECFN",
        AT_SYSINFO => "AT_SYSINFO",
        AT_SYSINFO_EHDR => "AT_SYSINFO_EHDR",
        AT_L1I_CACHESHAPE => "AT_L1I_CACHESHAPE",
        AT_L1D_CACHESHAPE => "AT_L1D_CACHESHAPE",
        AT_L2_CACHESHAPE => "AT_L2_CACHESHAPE",
        AT_L3_CACHESHAPE => "AT_L3_CACHESHAPE",
        _ => "UNKNOWN_AT_TYPE",
    }
}

} // verus!
