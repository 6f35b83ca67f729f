//! Big-endian wire integers: the mathematical byte form of an unsigned
//! integer and executable conversions proved against it.

use vstd::arithmetic::div_mod::{lemma_fundamental_div_mod, lemma_mod_bound};
use vstd::prelude::*;

verus! {

/// `256^width`: one more than the largest value a `width`-byte wire
/// integer can carry.
pub open spec fn be_max(width: nat) -> nat
    decreases width,
{
    if width == 0 {
        1
    } else {
        256 * be_max((width - 1) as nat)
    }
}

/// The big-endian byte string of `value`, `width` bytes long, most
/// significant byte first. Only the low `width` bytes of `value` appear.
pub open spec fn be_bytes_of(value: nat, width: nat) -> Seq<u8>
    decreases width,
{
    if width == 0 {
        Seq::empty()
    } else {
        be_bytes_of(value / 256, (width - 1) as nat) + seq![(value % 256) as u8]
    }
}

/// The unsigned integer denoted by a big-endian byte string.
pub open spec fn be_value_of(s: Seq<u8>) -> nat
    decreases s.len(),
{
    if s.len() == 0 {
        0
    } else {
        (be_value_of(s.drop_last()) * 256 + s.last()) as nat
    }
}

pub broadcast proof fn lemma_be_bytes_of_len(value: nat, width: nat)
    ensures
        #[trigger] be_bytes_of(value, width).len() == width,
    decreases width,
{
    if width > 0 {
        lemma_be_bytes_of_len(value / 256, (width - 1) as nat);
    }
}

pub proof fn lemma_be_max_pos(width: nat)
    ensures
        be_max(width) >= 1,
    decreases width,
{
    if width > 0 {
        lemma_be_max_pos((width - 1) as nat);
    }
}

pub proof fn lemma_be_max_increases(w1: nat, w2: nat)
    requires
        w1 <= w2,
    ensures
        be_max(w1) <= be_max(w2),
    decreases w2,
{
    if w1 < w2 {
        lemma_be_max_increases(w1, (w2 - 1) as nat);
        lemma_be_max_pos((w2 - 1) as nat);
    }
}

/// A big-endian byte string of length `w` denotes a value below `256^w`.
pub proof fn lemma_be_value_of_bound(s: Seq<u8>)
    ensures
        be_value_of(s) < be_max(s.len()),
    decreases s.len(),
{
    if s.len() > 0 {
        let front = be_value_of(s.drop_last());
        let m = be_max((s.len() - 1) as nat);
        lemma_be_value_of_bound(s.drop_last());
        assert(front * 256 + s.last() < 256 * m) by (nonlinear_arith)
            requires
                front < m,
                s.last() <= 255,
        ;
    }
}

/// Round trip: decoding the `width`-byte big-endian form of a value below
/// `256^width` gives the value back.
pub proof fn lemma_be_value_of_be_bytes_of(value: nat, width: nat)
    requires
        value < be_max(width),
    ensures
        be_value_of(be_bytes_of(value, width)) == value,
    decreases width,
{
    if width > 0 {
        let s = be_bytes_of(value, width);
        let rest = be_bytes_of(value / 256, (width - 1) as nat);
        lemma_be_bytes_of_len(value / 256, (width - 1) as nat);
        assert(s.drop_last() =~= rest);
        let m = be_max((width - 1) as nat);
        lemma_fundamental_div_mod(value as int, 256);
        lemma_mod_bound(value as int, 256);
        assert(value / 256 < m) by (nonlinear_arith)
            requires
                value == 256 * (value / 256) + value % 256,
                0 <= value % 256,
                value < 256 * m,
        ;
        lemma_be_value_of_be_bytes_of(value / 256, (width - 1) as nat);
        assert(be_value_of(s) == (value / 256) * 256 + value % 256);
        assert((value / 256) * 256 == 256 * (value / 256)) by (nonlinear_arith);
    }
}

/// `256^16` covers every `u128`, so 16-byte wire integers never overflow
/// the host.
pub proof fn lemma_be_max_16()
    ensures
        be_max(16) == 0x100000000000000000000000000000000,
{
    reveal_with_fuel(be_max, 17);
}

/// The `width`-byte big-endian form of `value`, least-significant byte
/// written last.
pub fn be_encode(value: u128, width: usize) -> (r: Vec<u8>)
    requires
        width <= 16,
    ensures
        r@ == be_bytes_of(value as nat, width as nat),
        r.len() == width,
    decreases width,
{
    proof {
        lemma_be_bytes_of_len(value as nat, width as nat);
    }
    if width == 0 {
        let r: Vec<u8> = Vec::new();
        assert(r@ =~= be_bytes_of(value as nat, 0));
        r
    } else {
        let mut r = be_encode(value / 256, width - 1);
        r.push((value % 256) as u8);
        assert(r@ =~= be_bytes_of(value as nat, width as nat));
        r
    }
}

/// The value of a big-endian byte string of at most 16 bytes.
pub fn be_decode(s: &[u8]) -> (r: u128)
    requires
        s@.len() <= 16,
    ensures
        r as nat == be_value_of(s@),
{
    let mut acc: u128 = 0;
    let mut i: usize = 0;
    proof {
        assert(s@.take(0) =~= Seq::<u8>::empty());
    }
    while i < s.len()
        invariant
            i <= s@.len() <= 16,
            acc as nat == be_value_of(s@.take(i as int)),
            (acc as nat) < be_max(i as nat),
        decreases s@.len() - i,
    {
        proof {
            let t = s@.take(i + 1);
            assert(t.drop_last() =~= s@.take(i as int));
            assert(t.last() == s@[i as int]);
            lemma_be_max_increases((i + 1) as nat, 16);
            lemma_be_max_16();
            assert((acc as nat) * 256 + 255 < 256 * be_max(i as nat)) by (nonlinear_arith)
                requires
                    (acc as nat) < be_max(i as nat),
            ;
        }
        acc = acc * 256 + (s[i] as u128);
        i = i + 1;
    }
    proof {
        assert(s@.take(s@.len() as int) =~= s@);
    }
    acc
}

} // verus!
