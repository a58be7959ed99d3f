//! Number formatting for the linker's diagnostics, which it writes before any
//! allocator or formatter can be trusted.
use vstd::prelude::*;

verus! {

/// The ASCII code of decimal digit `i`, or 0 when `i` is not a digit.
pub fn digit_to_char_code(i: u8) -> (r: u8)
    ensures
        r == (if i <= 9 {
            i + 48
        } else {
            0
        }),
{
    if i <= 9 {
        i + 48
    } else {
        0
    }
}

/// The number of decimal digits of `i`; 0 has one.
pub open spec fn ndigits(i: nat) -> nat
    decreases i,
{
    if i < 10 {
        1
    } else {
        1 + ndigits(i / 10)
    }
}

/// The number of decimal digits of `i`.
pub fn num_digits(i: u64) -> (r: usize)
    ensures
        r == ndigits(i as nat),
{
    proof {
        lemma_ndigits_u64(i as nat);
    }
    if i == 0 {
        return 1;
    }
    let mut count: usize = 0;
    let mut current = i;
    while current > 0
        invariant
            ndigits(i as nat) <= 20,
            current > 0 ==> count + ndigits(current as nat) == ndigits(i as nat),
            current == 0 ==> count == ndigits(i as nat),
        decreases current,
    {
        current = current / 10;
        count = count + 1;
    }
    count
}

pub open spec fn pow10(k: nat) -> nat
    decreases k,
{
    if k == 0 {
        1
    } else {
        10 * pow10((k - 1) as nat)
    }
}

proof fn lemma_ndigits_lt(i: nat, k: nat)
    requires
        1 <= k,
        i < pow10(k),
    ensures
        ndigits(i) <= k,
    decreases i,
{
    if i >= 10 {
        if k < 2 {
            assert(pow10(0) == 1);
            assert(pow10(1) == 10);
        }
        let p = pow10((k - 1) as nat);
        assert(i / 10 < p) by (nonlinear_arith)
            requires
                i < 10 * p,
        ;
        lemma_ndigits_lt(i / 10, (k - 1) as nat);
    }
}

proof fn lemma_ndigits_u64(i: nat)
    requires
        i <= u64::MAX,
    ensures
        ndigits(i) <= 20,
{
    assert(pow10(20) == 100_000_000_000_000_000_000) by {
        assert(pow10(0) == 1);
        assert(pow10(1) == 10);
        assert(pow10(2) == 100);
        assert(pow10(3) == 1000);
        assert(pow10(4) == 10000);
        assert(pow10(5) == 100000);
        assert(pow10(6) == 1000000);
        assert(pow10(7) == 10000000);
        assert(pow10(8) == 100000000);
        assert(pow10(9) == 1000000000);
        assert(pow10(10) == 10000000000);
        assert(pow10(11) == 100000000000);
        assert(pow10(12) == 1000000000000);
        assert(pow10(13) == 10000000000000);
        assert(pow10(14) == 100000000000000);
        assert(pow10(15) == 1000000000000000);
        assert(pow10(16) == 10000000000000000);
        assert(pow10(17) == 100000000000000000);
        assert(pow10(18) == 1000000000000000000);
        assert(pow10(19) == 10000000000000000000);
    }
    lemma_ndigits_lt(i, 20);
}

/// The character of digit `d` (below 16): `0`-`9`, then `a`-`f`.
pub open spec fn digit_char(d: nat) -> u8 {
    if d < 10 {
        (48 + d) as u8
    } else {
        (87 + d) as u8
    }
}

/// The decimal digits of `i`, least significant first.
pub open spec fn rev_dec(i: nat) -> Seq<u8>
    decreases i,
{
    if i < 10 {
        seq![digit_char(i)]
    } else {
        seq![digit_char(i % 10)] + rev_dec(i / 10)
    }
}

/// The hexadecimal digits of `i`, least significant first.
pub open spec fn rev_hex(i: nat) -> Seq<u8>
    decreases i,
{
    if i < 16 {
        seq![digit_char(i)]
    } else {
        seq![digit_char(i % 16)] + rev_hex(i / 16)
    }
}

/// The digits of `i` in base 16 when `hex`, else base 10, most significant
/// first, without leading zeros.
pub open spec fn digits(i: nat, hex: bool) -> Seq<u8> {
    if hex {
        rev_hex(i).reverse()
    } else {
        rev_dec(i).reverse()
    }
}

fn reversed(rev: &Vec<u8>) -> (r: Vec<u8>)
    ensures
        r@ == rev@.reverse(),
{
    let n = rev.len();
    let mut r: Vec<u8> = Vec::new();
    let mut k: usize = 0;
    while k < n
        invariant
            n == rev@.len(),
            k <= n,
            r@ == rev@.reverse().take(k as int),
        decreases n - k,
    {
        r.push(rev[n - 1 - k]);
        k = k + 1;
        assert(r@ =~= rev@.reverse().take(k as int));
    }
    assert(rev@.reverse().take(n as int) =~= rev@.reverse());
    r
}

fn digit_code(d: u64) -> (c: u8)
    requires
        d < 16,
    ensures
        c == digit_char(d as nat),
{
    if d < 10 {
        48 + d as u8
    } else {
        87 + d as u8
    }
}

/// The decimal digits of `i`.
pub fn to_decimal(i: u64) -> (r: Vec<u8>)
    ensures
        r@ == digits(i as nat, false),
{
    let mut rev: Vec<u8> = Vec::new();
    let mut current = i;
    loop
        invariant_except_break
            rev@ + rev_dec(current as nat) == rev_dec(i as nat),
        ensures
            rev@ == rev_dec(i as nat),
        decreases current,
    {
        let c = digit_code(current % 10);
        if current < 10 {
            rev.push(c);
            assert(rev@ =~= rev_dec(i as nat));
            break;
        }
        assert(rev@.push(c) + rev_dec((current / 10) as nat) =~= rev@ + rev_dec(current as nat));
        rev.push(c);
        current = current / 10;
    }
    reversed(&rev)
}

/// The lower-case hexadecimal digits of `i`, without prefix.
pub fn to_hex(i: u64) -> (r: Vec<u8>)
    ensures
        r@ == digits(i as nat, true),
{
    let mut rev: Vec<u8> = Vec::new();
    let mut current = i;
    loop
        invariant_except_break
            rev@ + rev_hex(current as nat) == rev_hex(i as nat),
        ensures
            rev@ == rev_hex(i as nat),
        decreases current,
    {
        let c = digit_code(current % 16);
        if current < 16 {
            rev.push(c);
            assert(rev@ =~= rev_hex(i as nat));
            break;
        }
        assert(rev@.push(c) + rev_hex((current / 16) as nat) =~= rev@ + rev_hex(current as nat));
        rev.push(c);
        current = current / 16;
    }
    reversed(&rev)
}

/// The text `write_u64` prints for `i`: hexadecimal digits when `base16`,
/// else decimal.
pub fn format_u64(i: u64, base16: bool) -> (r: Vec<u8>)
    ensures
        r@ == digits(i as nat, base16),
{
    if base16 {
        to_hex(i)
    } else {
        to_decimal(i)
    }
}

} // verus!
