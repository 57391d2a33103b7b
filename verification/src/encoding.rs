//! Big-endian byte encodings of machine integers, decimal renderings of
//! counts, and the round-trip lemmas relating the two directions.
//!
//! Every multi-byte scalar of the library is laid out big-endian; the spec
//! functions here are the single definition of that layout.

use vstd::prelude::*;
use vstd::string::*;

verus! {

/// 256 raised to `w`: the number of distinct `w`-byte buffers.
pub open spec fn pow256(w: nat) -> nat
    decreases w,
{
    if w == 0 {
        1
    } else {
        256 * pow256((w - 1) as nat)
    }
}

/// The `w`-byte big-endian encoding of `n` (of `n % pow256(w)`, when `n` is
/// too large for `w` bytes).
pub open spec fn be_bytes(n: nat, w: nat) -> Seq<u8>
    decreases w,
{
    if w == 0 {
        Seq::empty()
    } else {
        be_bytes(n / 256, (w - 1) as nat).push((n % 256) as u8)
    }
}

/// The number a big-endian buffer denotes.
pub open spec fn be_value(s: Seq<u8>) -> nat
    decreases s.len(),
{
    if s.len() == 0 {
        0
    } else {
        be_value(s.drop_last()) * 256 + s.last() as nat
    }
}

pub proof fn lemma_be_bytes_len(n: nat, w: nat)
    ensures
        be_bytes(n, w).len() == w,
    decreases w,
{
    if w > 0 {
        lemma_be_bytes_len(n / 256, (w - 1) as nat);
    }
}

pub proof fn lemma_pow256_positive(w: nat)
    ensures
        pow256(w) >= 1,
    decreases w,
{
    if w > 0 {
        lemma_pow256_positive((w - 1) as nat);
    }
}

pub proof fn lemma_pow256_increases(a: nat, b: nat)
    requires
        a <= b,
    ensures
        pow256(a) <= pow256(b),
    decreases b,
{
    if a < b && b > 0 {
        lemma_pow256_increases(a, (b - 1) as nat);
        lemma_pow256_positive((b - 1) as nat);
    }
}

pub proof fn lemma_be_value_bound(s: Seq<u8>)
    ensures
        be_value(s) < pow256(s.len()),
    decreases s.len(),
{
    if s.len() > 0 {
        lemma_be_value_bound(s.drop_last());
    }
}

/// Reading back a `w`-byte encoding yields the encoded number, reduced to the
/// range a `w`-byte buffer can hold.
pub proof fn lemma_be_value_of_be_bytes(n: nat, w: nat)
    ensures
        be_value(be_bytes(n, w)) == n % pow256(w),
    decreases w,
{
    if w == 0 {
        assert(n % 1 == 0) by {
            vstd::arithmetic::div_mod::lemma_small_mod(0, 1);
            vstd::arithmetic::div_mod::lemma_mod_self_0(1);
            vstd::arithmetic::div_mod::lemma_mod_twice(n as int, 1);
            assert(n % 1 < 1) by {
                vstd::arithmetic::div_mod::lemma_mod_bound(n as int, 1);
            }
        }
    } else {
        let p = pow256((w - 1) as nat);
        lemma_be_value_of_be_bytes(n / 256, (w - 1) as nat);
        lemma_be_bytes_len(n / 256, (w - 1) as nat);
        let enc = be_bytes(n, w);
        assert(enc.drop_last() =~= be_bytes(n / 256, (w - 1) as nat));
        lemma_pow256_positive((w - 1) as nat);
        assert(n % (256 * p) == 256 * ((n / 256) % p) + n % 256) by {
            vstd::arithmetic::div_mod::lemma_mod_breakdown(n as int, 256, p as int);
        }
    }
}

/// Encoding the number a buffer denotes, at the buffer's own width, restores
/// the buffer.
pub proof fn lemma_be_bytes_of_be_value(s: Seq<u8>)
    ensures
        be_bytes(be_value(s), s.len()) == s,
    decreases s.len(),
{
    if s.len() == 0 {
        assert(be_bytes(be_value(s), s.len()) =~= s);
    } else {
        let prefix = be_value(s.drop_last());
        let v = be_value(s);
        assert(v == prefix * 256 + s.last());
        assert(v / 256 == prefix && v % 256 == s.last()) by {
            vstd::arithmetic::div_mod::lemma_fundamental_div_mod_converse(
                v as int,
                256,
                prefix as int,
                s.last() as int,
            );
        }
        lemma_be_bytes_of_be_value(s.drop_last());
        assert(be_bytes(v, s.len()) =~= s);
    }
}

/// Encodes the low `w` bytes of `n`, most significant byte first.
pub fn be_encode(n: u128, w: usize) -> (out: Vec<u8>)
    ensures
        out@ == be_bytes(n as nat, w as nat),
    decreases w,
{
    if w == 0 {
        Vec::new()
    } else {
        let mut out = be_encode(n / 256, w - 1);
        out.push((n % 256) as u8);
        out
    }
}

/// Reads a big-endian buffer of at most sixteen bytes back into a number.
pub fn be_decode(s: &[u8]) -> (n: u128)
    requires
        s@.len() <= 16,
    ensures
        n as nat == be_value(s@),
{
    let mut n: u128 = 0;
    let mut i: usize = 0;
    while i < s.len()
        invariant
            i <= s@.len() <= 16,
            n as nat == be_value(s@.subrange(0, i as int)),
        decreases s@.len() - i,
    {
        proof {
            let done = s@.subrange(0, i as int);
            lemma_be_value_bound(done);
            lemma_pow256_increases(done.len(), 15);
            assert(pow256(15) == 0x1000000000000000000000000000000) by {
                reveal_with_fuel(pow256, 16);
            }
            assert(s@.subrange(0, i + 1).drop_last() =~= done);
        }
        n = n * 256 + (s[i] as u128);
        i = i + 1;
    }
    proof {
        assert(s@.subrange(0, s@.len() as int) =~= s@);
    }
    n
}

/// The powers of 256 at the widths the library lays values out in.
pub proof fn lemma_pow256_table()
    ensures
        pow256(1) == 0x100,
        pow256(2) == 0x10000,
        pow256(4) == 0x100000000,
        pow256(8) == 0x10000000000000000,
        pow256(16) == 0x100000000000000000000000000000000,
{
    reveal_with_fuel(pow256, 17);
}

/// The decimal digit for `d`.
pub open spec fn dec_digit(d: nat) -> char {
    if d == 0 {
        '0'
    } else if d == 1 {
        '1'
    } else if d == 2 {
        '2'
    } else if d == 3 {
        '3'
    } else if d == 4 {
        '4'
    } else if d == 5 {
        '5'
    } else if d == 6 {
        '6'
    } else if d == 7 {
        '7'
    } else if d == 8 {
        '8'
    } else {
        '9'
    }
}

/// The decimal rendering of `n`, without leading zeroes (a single `'0'` for
/// zero itself).
pub open spec fn decimal(n: nat) -> Seq<char>
    decreases n,
{
    if n < 10 {
        seq![dec_digit(n)]
    } else {
        decimal(n / 10).push(dec_digit(n % 10))
    }
}

fn dec_digit_str(d: usize) -> (s: &'static str)
    requires
        d < 10,
    ensures
        s@ == seq![dec_digit(d as nat)],
{
    proof {
        reveal_strlit("0");
        reveal_strlit("1");
        reveal_strlit("2");
        reveal_strlit("3");
        reveal_strlit("4");
        reveal_strlit("5");
        reveal_strlit("6");
        reveal_strlit("7");
        reveal_strlit("8");
        reveal_strlit("9");
    }
    let s = if d == 0 {
        "0"
    } else if d == 1 {
        "1"
    } else if d == 2 {
        "2"
    } else if d == 3 {
        "3"
    } else if d == 4 {
        "4"
    } else if d == 5 {
        "5"
    } else if d == 6 {
        "6"
    } else if d == 7 {
        "7"
    } else if d == 8 {
        "8"
    } else {
        "9"
    };
    proof {
        assert(s@ =~= seq![dec_digit(d as nat)]);
    }
    s
}

/// Renders `n` in decimal.
pub fn decimal_string(n: usize) -> (out: String)
    ensures
        out@ == decimal(n as nat),
    decreases n,
{
    if n < 10 {
        let out = dec_digit_str(n).to_owned();
        proof {
            assert(out@ =~= decimal(n as nat));
        }
        out
    } else {
        let mut out = decimal_string(n / 10);
        out.append(dec_digit_str(n % 10));
        proof {
            assert(out@ =~= decimal(n as nat));
        }
        out
    }
}

} // verus!
