//! Byte-level primitives of the wire format: little-endian integers of a
//! fixed width, with exact encodings stated in the specification and a
//! proved round trip.

use vstd::prelude::*;

verus! {

/// 256 to the power `n`: the number of `n`-byte strings.
pub open spec fn pow256(n: nat) -> int
    decreases n,
{
    if n == 0 {
        1
    } else {
        256 * pow256((n - 1) as nat)
    }
}

/// The little-endian `n`-byte string denoting `v`.
pub open spec fn le_bytes(v: int, n: nat) -> Seq<u8>
    decreases n,
{
    if n == 0 {
        Seq::<u8>::empty()
    } else {
        seq![(v % 256) as u8] + le_bytes(v / 256, (n - 1) as nat)
    }
}

/// The value a little-endian byte string denotes.
pub open spec fn from_le(bytes: Seq<u8>) -> int
    decreases bytes.len(),
{
    if bytes.len() == 0 {
        0
    } else {
        bytes[0] + 256 * from_le(bytes.drop_first())
    }
}

/// An encoding always has the requested width.
pub proof fn lemma_le_bytes_len(v: int, n: nat)
    ensures
        le_bytes(v, n).len() == n,
    decreases n,
{
    if n > 0 {
        lemma_le_bytes_len(v / 256, (n - 1) as nat);
    }
}

/// Decoding inverts encoding for every value the width can hold.
pub proof fn lemma_le_roundtrip(v: int, n: nat)
    requires
        0 <= v < pow256(n),
    ensures
        from_le(le_bytes(v, n)) == v,
    decreases n,
{
    if n > 0 {
        assert(0 <= v % 256 < 256) by (nonlinear_arith);
        assert(0 <= v / 256 && 256 * (v / 256) + v % 256 == v && (v < 256 * pow256((n - 1) as nat)
            ==> v / 256 < pow256((n - 1) as nat))) by (nonlinear_arith)
            requires
                v >= 0,
        ;
        lemma_le_roundtrip(v / 256, (n - 1) as nat);
        lemma_le_bytes_len(v / 256, (n - 1) as nat);
        assert(le_bytes(v, n).drop_first() =~= le_bytes(v / 256, (n - 1) as nat));
        assert(le_bytes(v, n)[0] == (v % 256) as u8);
    }
}

/// A decoded value fits the string's width.
pub proof fn lemma_from_le_bound(bytes: Seq<u8>)
    ensures
        0 <= from_le(bytes) < pow256(bytes.len()),
    decreases bytes.len(),
{
    if bytes.len() > 0 {
        lemma_from_le_bound(bytes.drop_first());
        assert(bytes[0] + 256 * from_le(bytes.drop_first()) < 256 * pow256(
            (bytes.len() - 1) as nat,
        )) by (nonlinear_arith)
            requires
                bytes[0] < 256 && 0 <= from_le(bytes.drop_first()) < pow256(
                    (bytes.len() - 1) as nat,
                ),
        ;
        assert(bytes[0] + 256 * from_le(bytes.drop_first()) >= 0) by (nonlinear_arith)
            requires
                bytes[0] >= 0 && from_le(bytes.drop_first()) >= 0,
        ;
    }
}

/// Equal encodings of equal width denote equal values.
pub proof fn lemma_le_bytes_injective(a: int, b: int, n: nat)
    requires
        0 <= a < pow256(n),
        0 <= b < pow256(n),
        le_bytes(a, n) == le_bytes(b, n),
    ensures
        a == b,
{
    lemma_le_roundtrip(a, n);
    lemma_le_roundtrip(b, n);
}

/// The concrete sizes of the widths the codec uses.
pub proof fn lemma_pow256_values()
    ensures
        pow256(1) == 0x100,
        pow256(4) == 0x1_0000_0000,
        pow256(8) == 0x1_0000_0000_0000_0000,
        pow256(15) == 0x1_0000_0000_0000_0000_0000_0000_0000_00,
        pow256(16) == 0x1_0000_0000_0000_0000_0000_0000_0000_0000,
{
    assert(pow256(0) == 1);
    assert(pow256(1) == 256);
    assert(pow256(2) == 256 * pow256(1));
    assert(pow256(3) == 256 * pow256(2));
    assert(pow256(4) == 256 * pow256(3));
    assert(pow256(5) == 256 * pow256(4));
    assert(pow256(6) == 256 * pow256(5));
    assert(pow256(7) == 256 * pow256(6));
    assert(pow256(8) == 256 * pow256(7));
    assert(pow256(9) == 256 * pow256(8));
    assert(pow256(10) == 256 * pow256(9));
    assert(pow256(11) == 256 * pow256(10));
    assert(pow256(12) == 256 * pow256(11));
    assert(pow256(13) == 256 * pow256(12));
    assert(pow256(14) == 256 * pow256(13));
    assert(pow256(15) == 256 * pow256(14));
    assert(pow256(16) == 256 * pow256(15));
}

/// Append the `n`-byte little-endian form of `v` to the buffer.
pub fn put_le(out: &mut Vec<u8>, v: u128, n: usize)
    requires
        n <= 16,
        (v as int) < pow256(n as nat),
    ensures
        final(out)@ == old(out)@ + le_bytes(v as int, n as nat),
    decreases n,
{
    if n == 0 {
        proof {
            assert(out@ =~= old(out)@ + le_bytes(v as int, 0));
        }
    } else {
        proof {
            assert(0 <= (v as int) % 256 < 256 && 0 <= (v as int) / 256 && ((v as int) < 256
                * pow256((n - 1) as nat) ==> (v as int) / 256 < pow256((n - 1) as nat)))
                by (nonlinear_arith)
                requires
                    v >= 0,
            ;
        }
        let b: u8 = (v % 256) as u8;
        out.push(b);
        put_le(out, v / 256, n - 1);
        proof {
            assert(out@ =~= old(out)@ + le_bytes(v as int, n as nat));
        }
    }
}

/// Read the `n`-byte little-endian integer at `pos`.
pub fn get_le(buf: &Vec<u8>, pos: usize, n: usize) -> (r: u128)
    requires
        n <= 16,
        pos + n <= buf@.len(),
    ensures
        r as int == from_le(buf@.subrange(pos as int, pos + n)),
    decreases n,
{
    proof {
        lemma_pow256_values();
    }
    let blen = buf.len();
    if n == 0 {
        proof {
            assert(buf@.subrange(pos as int, pos as int) =~= Seq::<u8>::empty());
        }
        0
    } else {
        let b = buf[pos];
        let rest = get_le(buf, pos + 1, n - 1);
        proof {
            let whole = buf@.subrange(pos as int, pos + n);
            assert(whole.drop_first() =~= buf@.subrange(pos + 1, pos + 1 + (n - 1)));
            lemma_from_le_bound(whole.drop_first());
            assert(pow256((n - 1) as nat) <= pow256(15)) by {
                lemma_pow256_monotonic((n - 1) as nat, 15);
            }
            assert(256 * (rest as int) <= 256 * (pow256(15) - 1)) by (nonlinear_arith)
                requires
                    rest as int <= pow256(15) - 1,
            ;
            assert(whole[0] == b);
        }
        b as u128 + 256 * rest
    }
}

/// Wider strings can hold every shorter string's value.
pub proof fn lemma_pow256_monotonic(a: nat, b: nat)
    requires
        a <= b,
    ensures
        pow256(a) <= pow256(b),
    decreases b,
{
    if a < b {
        lemma_pow256_monotonic(a, (b - 1) as nat);
        assert(pow256(b) == 256 * pow256((b - 1) as nat));
        assert(pow256((b - 1) as nat) >= 1) by {
            lemma_pow256_positive((b - 1) as nat);
        }
        assert(256 * pow256((b - 1) as nat) >= pow256((b - 1) as nat)) by (nonlinear_arith)
            requires
                pow256((b - 1) as nat) >= 1,
        ;
    }
}

/// Every width holds at least one value.
pub proof fn lemma_pow256_positive(n: nat)
    ensures
        pow256(n) >= 1,
    decreases n,
{
    if n > 0 {
        lemma_pow256_positive((n - 1) as nat);
        assert(256 * pow256((n - 1) as nat) >= pow256((n - 1) as nat)) by (nonlinear_arith)
            requires
                pow256((n - 1) as nat) >= 1,
        ;
    }
}

} // verus!
