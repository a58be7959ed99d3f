//! Byte strings: NUL-terminated names in string tables, and the GNU hash of a name.
use vstd::prelude::*;

verus! {

/// The string that starts at `off` in `tab`: the bytes up to the first NUL,
/// or up to the end of `tab` when no NUL follows.
pub open spec fn cstr_at(tab: Seq<u8>, off: int) -> Seq<u8>
    decreases tab.len() - off,
{
    if off < 0 || off >= tab.len() || tab[off] == 0 {
        Seq::empty()
    } else {
        seq![tab[off]] + cstr_at(tab, off + 1)
    }
}

/// Copies the string that starts at `off` in `tab`.
pub fn str_at(tab: &[u8], off: usize) -> (r: Vec<u8>)
    ensures
        r@ == cstr_at(tab@, off as int),
{
    let mut r: Vec<u8> = Vec::new();
    let mut pos: usize = off;
    while pos < tab.len() && tab[pos] != 0
        invariant
            off <= pos,
            r@ + cstr_at(tab@, pos as int) == cstr_at(tab@, off as int),
        decreases tab@.len() - pos,
    {
        assert(r@.push(tab@[pos as int]) + cstr_at(tab@, pos + 1) =~= r@ + cstr_at(
            tab@,
            pos as int,
        ));
        r.push(tab[pos]);
        pos = pos + 1;
    }
    assert(r@ =~= r@ + cstr_at(tab@, pos as int));
    r
}

/// A copy of a byte string.
pub fn copy_bytes(s: &[u8]) -> (r: Vec<u8>)
    ensures
        r@ == s@,
{
    let mut r: Vec<u8> = Vec::new();
    let mut i: usize = 0;
    while i < s.len()
        invariant
            i <= s@.len(),
            r@ == s@.take(i as int),
        decreases s@.len() - i,
    {
        r.push(s[i]);
        i = i + 1;
        assert(r@ =~= s@.take(i as int));
    }
    assert(s@.take(i as int) =~= s@);
    r
}

/// Whether two byte strings are equal.
pub fn bytes_eq(a: &[u8], b: &[u8]) -> (r: bool)
    ensures
        r == (a@ == b@),
{
    if a.len() != b.len() {
        return false;
    }
    let mut i: usize = 0;
    while i < a.len()
        invariant
            a@.len() == b@.len(),
            i <= a@.len(),
            forall|k: int| 0 <= k < i ==> a@[k] == b@[k],
        decreases a@.len() - i,
    {
        if a[i] != b[i] {
            return false;
        }
        i = i + 1;
    }
    assert(a@ =~= b@);
    true
}

pub const GNU_HASH_SEED: u32 = 5381;

/// The GNU symbol hash: starting from 5381, each byte `c` takes `h` to
/// `h * 33 + c`, modulo 2^32.
pub open spec fn gnu_hash(s: Seq<u8>) -> u32
    decreases s.len(),
{
    if s.len() == 0 {
        GNU_HASH_SEED
    } else {
        ((gnu_hash(s.drop_last()) as nat * 33 + s.last() as nat) % 0x1_0000_0000) as u32
    }
}

/// The GNU hash of `name`.
pub fn hash(name: &[u8]) -> (r: u32)
    ensures
        r == gnu_hash(name@),
{
    let mut h: u32 = GNU_HASH_SEED;
    let mut i: usize = 0;
    while i < name.len()
        invariant
            i <= name@.len(),
            h == gnu_hash(name@.take(i as int)),
        decreases name@.len() - i,
    {
        assert(name@.take(i + 1).drop_last() =~= name@.take(i as int));
        h = ((h as u64 * 33 + name[i] as u64) % 0x1_0000_0000) as u32;
        i = i + 1;
    }
    assert(name@.take(i as int) =~= name@);
    h
}

} // verus!
