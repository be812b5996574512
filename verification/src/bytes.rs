//! Integers as byte sequences.
use vstd::prelude::*;

verus! {

/// `256` to the power `n`.
pub open spec fn pow256(n: nat) -> nat
    decreases n,
{
    if n == 0 {
        1
    } else {
        256 * pow256((n - 1) as nat)
    }
}

/// The low `n` bytes of `x`, least significant first.
pub open spec fn le_bytes(x: nat, n: nat) -> Seq<u8>
    decreases n,
{
    if n == 0 {
        Seq::empty()
    } else {
        seq![(x % 256) as u8] + le_bytes(x / 256, (n - 1) as nat)
    }
}

/// The number whose bytes, least significant first, are `s`.
pub open spec fn le_value(s: Seq<u8>) -> nat
    decreases s.len(),
{
    if s.len() == 0 {
        0
    } else {
        s[0] as nat + 256 * le_value(s.skip(1))
    }
}

/// The low `n` bytes of `x`, most significant first.
pub open spec fn be_bytes(x: nat, n: nat) -> Seq<u8> {
    le_bytes(x, n).reverse()
}

/// The number whose bytes, most significant first, are `s`.
pub open spec fn be_value(s: Seq<u8>) -> nat {
    le_value(s.reverse())
}

/// `le_bytes` produces as many bytes as it was asked for.
pub broadcast proof fn lemma_le_bytes_len(x: nat, n: nat)
    ensures
        #[trigger] le_bytes(x, n).len() == n,
    decreases n,
{
    if n > 0 {
        lemma_le_bytes_len(x / 256, (n - 1) as nat);
    }
}

/// A number below `256` to the `n` is given back by its `n` little-endian bytes.
pub proof fn lemma_le_round_trip(x: nat, n: nat)
    requires
        x < pow256(n),
    ensures
        le_value(le_bytes(x, n)) == x,
    decreases n,
{
    if n > 0 {
        let m = (n - 1) as nat;
        lemma_le_round_trip(x / 256, m);
        lemma_le_bytes_len(x / 256, m);
        assert(le_bytes(x, n).skip(1) =~= le_bytes(x / 256, m));
    }
}

/// A byte sequence is given back by the number that it stands for.
pub proof fn lemma_le_value_bytes(s: Seq<u8>)
    ensures
        le_bytes(le_value(s), s.len()) == s,
        le_value(s) < pow256(s.len()),
    decreases s.len(),
{
    if s.len() > 0 {
        lemma_le_value_bytes(s.skip(1));
        let v = le_value(s.skip(1));
        assert((s[0] as nat + 256 * v) / 256 == v);
        assert((s[0] as nat + 256 * v) % 256 == s[0] as nat);
        assert(s =~= seq![s[0]] + s.skip(1));
    } else {
        assert(le_bytes(0, 0) =~= s);
    }
}

/// Big-endian bytes give their number back, and a number its big-endian bytes.
pub proof fn lemma_be_round_trip(x: nat, n: nat)
    requires
        x < pow256(n),
    ensures
        be_value(be_bytes(x, n)) == x,
        be_bytes(x, n).len() == n,
{
    lemma_le_round_trip(x, n);
    lemma_le_bytes_len(x, n);
    assert(be_bytes(x, n).reverse() =~= le_bytes(x, n));
}

/// The powers that the fixed-width integers need.
pub proof fn lemma_pow256_widths()
    ensures
        pow256(1) == 0x100,
        pow256(2) == 0x1_0000,
        pow256(4) == 0x1_0000_0000,
        pow256(8) == 0x1_0000_0000_0000_0000,
{
    reveal_with_fuel(pow256, 9);
}

/// The four little-endian bytes of a `u32` by division.
proof fn lemma_le_bytes_4(x: u32)
    ensures
        le_bytes(x as nat, 4) == seq![
            (x % 256) as u8,
            ((x / 256) % 256) as u8,
            ((x / 65536) % 256) as u8,
            (x / 16777216) as u8,
        ],
{
    reveal_with_fuel(le_bytes, 5);
    let n = x as nat;
    assert(n / 256 / 256 == n / 65536);
    assert(n / 65536 / 256 == n / 16777216);
    assert(n / 16777216 < 256);
    assert(le_bytes(n, 4) =~= seq![
        (x % 256) as u8,
        ((x / 256) % 256) as u8,
        ((x / 65536) % 256) as u8,
        (x / 16777216) as u8,
    ]);
}

/// Four bytes as a number.
pub proof fn lemma_le_value_4(s: Seq<u8>)
    requires
        s.len() == 4,
    ensures
        le_value(s) == s[0] + 256 * s[1] + 65536 * s[2] + 16777216 * s[3],
{
    reveal_with_fuel(le_value, 5);
    assert(s.skip(1)[0] == s[1]);
    assert(s.skip(1).skip(1)[0] == s[2]);
    assert(s.skip(1).skip(1).skip(1)[0] == s[3]);
    assert(s.skip(1).skip(1).skip(1).skip(1).len() == 0);
}

/// The bytes of `x`, most significant first.
pub fn u32_be(x: u32) -> (v: Vec<u8>)
    ensures
        v@ == be_bytes(x as nat, 4),
{
    let mut v: Vec<u8> = Vec::new();
    v.push((x / 16777216) as u8);
    v.push(((x / 65536) % 256) as u8);
    v.push(((x / 256) % 256) as u8);
    v.push((x % 256) as u8);
    proof {
        lemma_le_bytes_4(x);
        assert(v@ =~= be_bytes(x as nat, 4));
    }
    v
}

/// The bytes of `x`, least significant first.
pub fn u32_le(x: u32) -> (v: Vec<u8>)
    ensures
        v@ == le_bytes(x as nat, 4),
{
    let mut v: Vec<u8> = Vec::new();
    v.push((x % 256) as u8);
    v.push(((x / 256) % 256) as u8);
    v.push(((x / 65536) % 256) as u8);
    v.push((x / 16777216) as u8);
    proof {
        lemma_le_bytes_4(x);
        assert(v@ =~= le_bytes(x as nat, 4));
    }
    v
}

/// The number whose bytes are given, most significant first.
pub fn u32_from_be(b: [u8; 4]) -> (x: u32)
    ensures
        x == be_value(b@),
{
    proof {
        lemma_le_value_4(b@.reverse());
    }
    b[0] as u32 * 16777216 + b[1] as u32 * 65536 + b[2] as u32 * 256 + b[3] as u32
}

/// The number whose bytes are given, least significant first.
pub fn u32_from_le(b: [u8; 4]) -> (x: u32)
    ensures
        x == le_value(b@),
{
    proof {
        lemma_le_value_4(b@);
    }
    b[3] as u32 * 16777216 + b[2] as u32 * 65536 + b[1] as u32 * 256 + b[0] as u32
}

/// The two bytes of `x`, least significant first.
pub fn u16_le(x: u16) -> (v: Vec<u8>)
    ensures
        v@ == le_bytes(x as nat, 2),
{
    let mut v: Vec<u8> = Vec::new();
    v.push((x % 256) as u8);
    v.push((x / 256) as u8);
    proof {
        reveal_with_fuel(le_bytes, 3);
        assert((x as nat / 256) % 256 == x as nat / 256);
        assert(v@ =~= le_bytes(x as nat, 2));
    }
    v
}

/// Least significant first: what stands further behind counts 256 times as much for
/// each byte before it, and one byte counts as itself.
pub proof fn law_later_bytes_count_for_more(a: Seq<u8>, b: Seq<u8>)
    ensures
        le_value(a + b) == le_value(a) + pow256(a.len()) * le_value(b),
        a.len() == 1 ==> le_value(a) == a[0] && be_value(a) == a[0],
        pow256(0) == 1,
        pow256(1) == 256,
    decreases a.len(),
{
    lemma_pow256_widths();
    if a.len() == 0 {
        assert(a + b =~= b);
        assert(1 * le_value(b) == le_value(b));
    } else {
        let t = a.skip(1);
        law_later_bytes_count_for_more(t, b);
        assert((a + b).skip(1) =~= t + b);
        let x = le_value(t);
        let y = pow256(t.len());
        let z = le_value(b);
        assert(256 * (x + y * z) == 256 * x + (256 * y) * z) by (nonlinear_arith);
        if a.len() == 1 {
            assert(le_value(t) == 0);
            assert(a.reverse() =~= a);
        }
    }
}

/// Most significant first: what stands further in front counts 256 times as much for
/// each byte behind it.
pub proof fn law_earlier_bytes_count_for_more(a: Seq<u8>, b: Seq<u8>)
    ensures
        be_value(a + b) == pow256(b.len()) * be_value(a) + be_value(b),
{
    assert((a + b).reverse() =~= b.reverse() + a.reverse());
    law_later_bytes_count_for_more(b.reverse(), a.reverse());
}

} // verus!
