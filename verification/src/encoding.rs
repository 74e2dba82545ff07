//! Big-endian byte encodings of unsigned integers, shared by the wire
//! protocol (addresses inside `ServerHello`) and by IP-packet parsing
//! (destination addresses read out of a frame).

use vstd::prelude::*;
use vstd::arithmetic::power2::{
    pow2, lemma_pow2_adds, lemma_pow2_unfold, lemma_pow2_strictly_increases, lemma2_to64,
};
use vstd::arithmetic::div_mod::{lemma_fundamental_div_mod, lemma_multiply_divide_lt};

verus! {

/// The unsigned integer that a big-endian byte string denotes.
pub open spec fn be_val(s: Seq<u8>) -> int
    decreases s.len(),
{
    if s.len() == 0 {
        0
    } else {
        be_val(s.drop_last()) * 256 + s.last()
    }
}

/// A string of `n` bytes denotes a value below `pow2(8 * n)`.
pub proof fn lemma_be_val_bounds(s: Seq<u8>)
    ensures
        0 <= be_val(s) < pow2((8 * s.len()) as nat),
    decreases s.len(),
{
    if s.len() == 0 {
        lemma2_to64();
    } else {
        lemma_be_val_bounds(s.drop_last());
        lemma_pow2_adds((8 * (s.len() - 1)) as nat, 8);
        lemma2_to64();
    }
}

/// The concrete value of `pow2(128)`, one past `u128::MAX`.
pub proof fn lemma_pow2_128()
    ensures
        pow2(128) == 0x100000000000000000000000000000000,
{
    lemma_pow2_adds(64, 64);
    lemma2_to64();
}

/// Powers of two up to an exponent of 128 fit against the `u128` range.
pub proof fn lemma_pow2_le_128(e: nat)
    requires
        e <= 128,
    ensures
        pow2(e) <= 0x100000000000000000000000000000000,
{
    lemma_pow2_128();
    if e < 128 {
        lemma_pow2_strictly_increases(e, 128);
    }
}

/// Powers of two below an exponent of 128 stay within `u128`.
pub proof fn lemma_pow2_lt_128(e: nat)
    requires
        e < 128,
    ensures
        pow2(e) < 0x100000000000000000000000000000000,
{
    lemma_pow2_128();
    lemma_pow2_strictly_increases(e, 128);
}

/// `pow2` as executable arithmetic.
pub fn pow2_u128(e: usize) -> (r: u128)
    requires
        e <= 127,
    ensures
        r == pow2(e as nat),
{
    let mut r: u128 = 1;
    let mut i: usize = 0;
    proof {
        lemma2_to64();
    }
    while i < e
        invariant
            i <= e,
            e <= 127,
            r == pow2(i as nat),
        decreases e - i,
    {
        proof {
            lemma_pow2_unfold((i + 1) as nat);
            lemma_pow2_lt_128((i + 1) as nat);
        }
        r = r * 2;
        i = i + 1;
    }
    r
}

/// Big-endian encoding of `v` in exactly `len` bytes.
pub fn u_to_be_bytes(v: u128, len: usize) -> (r: Vec<u8>)
    requires
        len <= 16,
        v < pow2((8 * len) as nat),
    ensures
        r@.len() == len,
        be_val(r@) == v,
    decreases len,
{
    if len == 0 {
        proof {
            lemma2_to64();
        }
        Vec::new()
    } else {
        proof {
            lemma_pow2_adds((8 * (len - 1)) as nat, 8);
            lemma2_to64();
            lemma_multiply_divide_lt(v as int, 256, pow2((8 * (len - 1)) as nat) as int);
        }
        let hi = v / 256;
        let b = (v % 256) as u8;
        let mut r = u_to_be_bytes(hi, len - 1);
        let ghost prefix = r@;
        r.push(b);
        proof {
            assert(r@.drop_last() =~= prefix);
            assert(b as int == v as int % 256);
            assert(be_val(r@) == be_val(prefix) * 256 + b);
            lemma_fundamental_div_mod(v as int, 256);
        }
        r
    }
}

/// Reads `len` big-endian bytes of `data`, starting at `start`, as one value.
pub fn u_from_be_bytes(data: &Vec<u8>, start: usize, len: usize) -> (r: u128)
    requires
        start + len <= data@.len(),
        len <= 16,
    ensures
        r == be_val(data@.subrange(start as int, (start + len) as int)),
{
    let n = data.len();
    let mut acc: u128 = 0;
    let mut i: usize = 0;
    proof {
        assert(data@.subrange(start as int, start as int) =~= Seq::<u8>::empty());
        lemma2_to64();
    }
    while i < len
        invariant
            i <= len,
            len <= 16,
            n == data@.len(),
            start + len <= n,
            acc == be_val(data@.subrange(start as int, (start + i) as int)),
            acc < pow2((8 * i) as nat),
        decreases len - i,
    {
        proof {
            lemma_pow2_adds((8 * i) as nat, 8);
            lemma2_to64();
            lemma_pow2_le_128((8 * (i + 1)) as nat);
        }
        acc = acc * 256 + (data[start + i] as u128);
        i = i + 1;
        proof {
            assert(data@.subrange(start as int, (start + i) as int).drop_last() =~= data@
                .subrange(start as int, (start + i - 1) as int));
            assert(data@.subrange(start as int, (start + i) as int).last() == data@[start + i
                - 1]);
        }
    }
    acc
}

} // verus!
