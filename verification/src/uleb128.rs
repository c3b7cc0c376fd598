//! ULEB128 encoding of lengths, as used for BCS sequence prefixes.

use vstd::prelude::*;

verus! {

/// The canonical ULEB128 encoding of `v`: seven bits per byte, least
/// significant group first, the high bit set on every byte but the last.
pub open spec fn uleb128(v: nat) -> Seq<u8>
    decreases v,
{
    if v < 128 {
        seq![v as u8]
    } else {
        seq![((v % 128) + 128) as u8] + uleb128(v / 128)
    }
}

/// Decodes one ULEB128 number from the front of `s`; returns the value and
/// the number of bytes it took, or `None` when `s` ends inside the number.
pub open spec fn decode_uleb128(s: Seq<u8>) -> Option<(nat, nat)>
    decreases s.len(),
{
    if s.len() == 0 {
        None
    } else if s[0] < 128 {
        Some((s[0] as nat, 1nat))
    } else {
        match decode_uleb128(s.drop_first()) {
            Some((v, n)) => Some((((s[0] - 128) + 128 * v) as nat, n + 1)),
            None => None,
        }
    }
}

/// Appends the ULEB128 encoding of `val` to `binary`.
pub fn write_u64_as_uleb128(binary: &mut Vec<u8>, val: usize)
    ensures
        final(binary)@ == old(binary)@ + uleb128(val as nat),
{
    let ghost start = binary@;
    let ghost orig = val as nat;
    let mut val = val;
    let ghost mut written: Seq<u8> = Seq::empty();
    loop
        invariant_except_break
            binary@ == start + written,
            uleb128(orig) == written + uleb128(val as nat),
        ensures
            binary@ == start + uleb128(orig),
        decreases val,
    {
        let cur = val & 0x7F;
        assert(cur == val % 128) by (bit_vector)
            requires
                cur == val & 0x7F,
        ;
        if cur != val {
            assert((cur | 0x80) == cur + 128) by (bit_vector)
                requires
                    cur < 128,
            ;
            let byte: u8 = (cur | 0x80) as u8;
            assert(val >= 128);
            binary.push(byte);
            let ghost old_val = val;
            val = val >> 7;
            assert(val == old_val / 128) by (bit_vector)
                requires
                    val == old_val >> 7,
            ;
            proof {
                assert(uleb128(old_val as nat) == seq![byte] + uleb128(val as nat));
                written = written.push(byte);
                assert(written + uleb128(val as nat) =~= (written.drop_last() + seq![byte])
                    + uleb128(val as nat));
            }
        } else {
            assert(val < 128);
            binary.push(cur as u8);
            proof {
                assert(uleb128(val as nat) == seq![cur as u8]);
                written = written.push(cur as u8);
                assert(binary@ =~= start + written);
                assert(uleb128(orig) =~= written);
            }
            break;
        }
    }
}

/// Decoding a ULEB128 encoding gives back the number, and it reads exactly
/// the bytes of the encoding, whatever follows them.
pub proof fn lemma_uleb128_roundtrip(v: nat, rest: Seq<u8>)
    ensures
        decode_uleb128(uleb128(v) + rest) == Some((v, uleb128(v).len())),
    decreases v,
{
    let s = uleb128(v) + rest;
    if v < 128 {
        assert(s[0] == v as u8);
    } else {
        lemma_uleb128_roundtrip(v / 128, rest);
        assert(s.drop_first() =~= uleb128(v / 128) + rest);
        assert(s[0] == ((v % 128) + 128) as u8);
    }
}

/// Every ULEB128 encoding is at least one byte long, and exactly one for
/// values below 128.
pub proof fn lemma_uleb128_len(v: nat)
    ensures
        1 <= uleb128(v).len(),
        v < 128 ==> uleb128(v).len() == 1,
    decreases v,
{
    if v >= 128 {
        lemma_uleb128_len(v / 128);
    }
}

/// The shape of a ULEB128 encoding: every byte but the last has the high
/// bit set, the last has it clear and is not zero unless the whole encoding
/// is the single byte 0, and the seven-bit groups, least significant first,
/// make up the number.
pub proof fn lemma_uleb128_shape(v: nat)
    ensures
        uleb128(v).len() >= 1,
        forall|i: int| 0 <= i < uleb128(v).len() - 1 ==> #[trigger] uleb128(v)[i] >= 128,
        uleb128(v).last() < 128,
        uleb128(v).len() > 1 ==> uleb128(v).last() != 0,
        uleb128(v) == seq![0u8] <==> v == 0,
        uleb128_groups(uleb128(v)) == v,
    decreases v,
{
    if v >= 128 {
        lemma_uleb128_shape(v / 128);
        let e = uleb128(v);
        let r = uleb128(v / 128);
        assert(e == seq![((v % 128) + 128) as u8] + r);
        assert forall|i: int| 0 <= i < e.len() - 1 implies #[trigger] e[i] >= 128 by {
            if i > 0 {
                assert(e[i] == r[i - 1]);
            }
        }
        assert(e.last() == r.last());
        if r.len() == 1 {
            assert(r[0] == (v / 128) as u8);
        }
        assert(e.drop_first() =~= r);
        assert(e.len() > 1);
        assert(e[0] % 128 == v % 128);
        assert(uleb128_groups(e) == e[0] % 128 + 128 * uleb128_groups(r));
        assert(128 * (v / 128) + v % 128 == v);
    } else {
        let e = uleb128(v);
        assert(e.drop_first() =~= Seq::<u8>::empty());
        assert(uleb128_groups(Seq::<u8>::empty()) == 0);
        assert(e[0] % 128 == v);
        assert(uleb128_groups(e) == e[0] % 128 + 128 * uleb128_groups(e.drop_first()));
    }
}

/// The number whose seven-bit groups, least significant first, are the low
/// seven bits of the bytes of `e`.
pub open spec fn uleb128_groups(e: Seq<u8>) -> nat
    decreases e.len(),
{
    if e.len() == 0 {
        0
    } else {
        ((e[0] % 128) + 128 * uleb128_groups(e.drop_first())) as nat
    }
}

} // verus!
