//! The 7-bit packing of payload bytes.
//!
//! Every byte that travels inside a chunk has its high bit clear. Payload
//! bytes are taken in groups of up to seven; each group is sent as one mask
//! byte, which collects the high bits of the group, followed by the bytes
//! of the group with their high bits cleared.

use vstd::prelude::*;

verus! {

/// Number of payload bytes that share one mask byte.
pub const GROUP_SIZE: usize = 7;

/// Whether the high bit of `b` is set.
pub open spec fn high_bit(b: u8) -> bool {
    b & 0x80 != 0
}

/// `b` with its high bit cleared.
pub open spec fn low7(b: u8) -> u8 {
    b & 0x7f
}

/// The contribution of a byte at position `pos` of its group to the mask.
pub open spec fn mask_flag(b: u8, pos: u8) -> u8 {
    if high_bit(b) {
        1u8 << pos
    } else {
        0u8
    }
}

/// The mask collected from the first `k` bytes of a group.
pub open spec fn mask_upto(group: Seq<u8>, k: int) -> u8
    decreases k,
{
    if k <= 0 {
        0u8
    } else {
        mask_upto(group, k - 1) | mask_flag(group[k - 1], (k - 1) as u8)
    }
}

/// The mask byte of a group: bit `i` is set exactly when byte `i` of the
/// group has its high bit set (see `lemma_group_mask_bit`).
pub open spec fn group_mask(group: Seq<u8>) -> u8 {
    mask_upto(group, group.len() as int)
}

/// Whether bit `pos` of `mask` is set.
pub open spec fn mask_bit(mask: u8, pos: u8) -> bool {
    (mask >> pos) & 1 == 1
}

/// A received byte with its high bit restored from the mask of its group.
pub open spec fn restore(mask: u8, pos: u8, b: u8) -> u8 {
    if mask_bit(mask, pos) {
        b | 0x80
    } else {
        b
    }
}

/// Length of the first group of a payload of `len` bytes.
pub open spec fn first_group_len(len: nat) -> int {
    if len < 7 {
        len as int
    } else {
        7
    }
}

/// The packed form of `raw`.
pub open spec fn pack7(raw: Seq<u8>) -> Seq<u8>
    decreases raw.len(),
{
    if raw.len() == 0 {
        Seq::<u8>::empty()
    } else {
        let n = first_group_len(raw.len());
        let group = raw.take(n);
        seq![group_mask(group)] + group.map_values(|b: u8| low7(b)) + pack7(raw.skip(n))
    }
}

/// The payload that `packed` stands for. Each mask byte governs the up to
/// seven bytes that follow it; a mask byte with nothing after it adds no
/// payload.
pub open spec fn unpack7(packed: Seq<u8>) -> Seq<u8>
    decreases packed.len(),
{
    if packed.len() == 0 {
        Seq::<u8>::empty()
    } else {
        let n = first_group_len((packed.len() - 1) as nat);
        let mask = packed[0];
        Seq::new(n as nat, |i: int| restore(mask, i as u8, packed[1 + i])) + unpack7(
            packed.skip(1 + n),
        )
    }
}

/// Length of the packed form of a payload of `len` bytes: one mask byte
/// for every started group of seven.
pub open spec fn packed_len(len: nat) -> nat {
    len + (len + 6) / 7
}

proof fn lemma_or_flag_bits(m: u8, j: u8, i: u8)
    by (bit_vector)
    requires
        i < 8,
        j < 8,
    ensures
        ((m | (1u8 << j)) >> i) & 1 == 1 <==> (i == j || (m >> i) & 1 == 1),
        ((m | 0u8) >> i) & 1 == 1 <==> (m >> i) & 1 == 1,
        (0u8 >> i) & 1 != 1,
{
}

proof fn lemma_restore_low7(b: u8)
    by (bit_vector)
    ensures
        b & 0x80 != 0 ==> (b & 0x7f) | 0x80 == b,
        b & 0x80 == 0 ==> b & 0x7f == b,
        b & 0x7f < 0x80,
{
}

proof fn lemma_low_bits_bound(m: u8)
    by (bit_vector)
    requires
        (m >> 7u8) & 1 != 1,
    ensures
        m < 0x80,
{
}

proof fn lemma_mask_upto_bit(group: Seq<u8>, k: int, i: u8)
    requires
        0 <= k <= 8,
        k <= group.len(),
        i < 8,
    ensures
        mask_bit(mask_upto(group, k), i) <==> (i < k && high_bit(group[i as int])),
    decreases k,
{
    if k > 0 {
        lemma_mask_upto_bit(group, k - 1, i);
        lemma_or_flag_bits(mask_upto(group, k - 1), (k - 1) as u8, i);
    } else {
        lemma_or_flag_bits(0u8, 0u8, i);
    }
}

/// Bit `i` of a group's mask is set exactly when byte `i` of the group has
/// its high bit set.
pub proof fn lemma_group_mask_bit(group: Seq<u8>, i: u8)
    requires
        group.len() <= 7,
        i < 8,
    ensures
        mask_bit(group_mask(group), i) <==> (i < group.len() && high_bit(group[i as int])),
{
    lemma_mask_upto_bit(group, group.len() as int, i);
}

/// Restoring a packed byte under the mask of its group gives the byte
/// that was packed.
pub proof fn lemma_restore_group_byte(group: Seq<u8>, i: int)
    requires
        group.len() <= 7,
        0 <= i < group.len(),
    ensures
        restore(group_mask(group), i as u8, low7(group[i])) == group[i],
{
    lemma_group_mask_bit(group, i as u8);
    lemma_restore_low7(group[i]);
}

/// The packed form is one mask byte longer than the payload for every
/// started group of seven.
pub proof fn lemma_pack7_len(raw: Seq<u8>)
    ensures
        pack7(raw).len() == packed_len(raw.len()),
    decreases raw.len(),
{
    if raw.len() > 0 {
        let n = first_group_len(raw.len());
        lemma_pack7_len(raw.skip(n));
    }
}

/// Every byte of a packed payload has its high bit clear.
pub proof fn lemma_pack7_is_seven_bit(raw: Seq<u8>)
    ensures
        forall|i: int| 0 <= i < pack7(raw).len() ==> #[trigger] pack7(raw)[i] < 0x80,
    decreases raw.len(),
{
    if raw.len() > 0 {
        let n = first_group_len(raw.len());
        let group = raw.take(n);
        let rest = pack7(raw.skip(n));
        lemma_pack7_is_seven_bit(raw.skip(n));
        lemma_group_mask_bit(group, 7u8);
        lemma_low_bits_bound(group_mask(group));
        assert forall|i: int| 0 <= i < pack7(raw).len() implies #[trigger] pack7(raw)[i]
            < 0x80 by {
            if i == 0 {
            } else if i <= n {
                lemma_restore_low7(group[i - 1]);
            } else {
                assert(pack7(raw)[i] == rest[i - 1 - n]);
            }
        }
    }
}

/// Unpacking a packed payload gives the payload back, whatever its bytes
/// and whatever its length.
pub proof fn lemma_unpack7_pack7(raw: Seq<u8>)
    ensures
        unpack7(pack7(raw)) == raw,
    decreases raw.len(),
{
    if raw.len() > 0 {
        let n = first_group_len(raw.len());
        let group = raw.take(n);
        let rest = raw.skip(n);
        let packed = pack7(raw);
        lemma_pack7_len(rest);
        lemma_unpack7_pack7(rest);
        assert(packed.len() == 1 + n + pack7(rest).len());
        assert(n < 7 ==> rest.len() == 0);
        assert(first_group_len((packed.len() - 1) as nat) == n);
        assert(packed.skip(1 + n) =~= pack7(rest));
        let head = Seq::new(n as nat, |i: int| restore(packed[0], i as u8, packed[1 + i]));
        assert(head =~= group) by {
            assert forall|i: int| 0 <= i < n implies head[i] == group[i] by {
                lemma_restore_group_byte(group, i);
            }
        }
        assert(group + rest =~= raw);
    }
}

} // verus!
