use vstd::prelude::*;

use crate::le::{le_bytes, le_u32_at, lemma_bytes_of_value, lemma_value_of_bytes, put_u32_le};
use crate::partitions::{
    PartitionTableEntry, is_recognized, lemma_tag_round_trip, tag_of_type,
    type_of_tag,
};

verus! {

/// The size of a master boot record, in bytes.
pub const BUFFER_SIZE: usize = 512;

/// Where the partition table starts.
pub const TABLE_OFFSET: usize = 446;

/// The size of one slot of the partition table.
pub const ENTRY_SIZE: usize = 16;

/// The number of slots in the partition table.
pub const MAX_ENTRIES: usize = 4;

/// The first byte of slot `i`.
pub open spec fn slot_offset(i: int) -> int {
    TABLE_OFFSET + ENTRY_SIZE * i
}

/// The sector ends with the boot signature 0x55, 0xAA.
pub open spec fn has_signature(b: Seq<u8>) -> bool {
    b[510] == 0x55 && b[511] == 0xaa
}

/// The type tag of slot `i` names no supported partition type.
pub open spec fn slot_unsupported(b: Seq<u8>, i: int) -> bool {
    type_of_tag(b[slot_offset(i) + 4]) is Unknown
}

/// Slot `i` is the first slot whose type tag is unsupported.
pub open spec fn first_unsupported(b: Seq<u8>, i: int) -> bool {
    0 <= i < MAX_ENTRIES && slot_unsupported(b, i) && forall|j: int|
        0 <= j < i ==> !#[trigger] slot_unsupported(b, j)
}

/// A buffer that reads as a master boot record: long enough, signed, and with
/// a supported type in every slot.
pub open spec fn is_valid_mbr(b: Seq<u8>) -> bool {
    &&& b.len() >= BUFFER_SIZE
    &&& has_signature(b)
    &&& forall|i: int| 0 <= i < MAX_ENTRIES ==> !#[trigger] slot_unsupported(b, i)
}

/// The entry that slot `i` describes.
pub open spec fn entry_at(b: Seq<u8>, i: int) -> PartitionTableEntry {
    PartitionTableEntry {
        partition_type: type_of_tag(b[slot_offset(i) + 4]),
        logical_block_address: le_u32_at(b, slot_offset(i) + 8),
        sector_count: le_u32_at(b, slot_offset(i) + 12),
    }
}

/// The entries of all slots, in slot order.
pub open spec fn decoded_entries(b: Seq<u8>) -> Seq<PartitionTableEntry> {
    Seq::new(MAX_ENTRIES as nat, |i: int| entry_at(b, i))
}

/// `b` with the boot signature written at its end.
pub open spec fn with_signature(b: Seq<u8>) -> Seq<u8> {
    b.update(510, 0x55).update(511, 0xaa)
}

/// `b` with the type tag, start address and sector count of `e` written into slot `i`.
pub open spec fn put_entry(b: Seq<u8>, i: int, e: PartitionTableEntry) -> Seq<u8> {
    let o = slot_offset(i);
    put_u32_le(
        put_u32_le(b.update(o + 4, tag_of_type(e.partition_type)), o + 8, e.logical_block_address),
        o + 12,
        e.sector_count,
    )
}

/// `b` with the first `n` entries of `es` written into their slots, in slot order.
pub open spec fn put_entries(b: Seq<u8>, es: Seq<PartitionTableEntry>, n: nat) -> Seq<u8>
    decreases n,
{
    if n == 0 {
        b
    } else {
        put_entry(put_entries(b, es, (n - 1) as nat), n - 1, es[n - 1])
    }
}

/// `b` after writing the signature and then every entry of `es`.
pub open spec fn encoded_into(b: Seq<u8>, es: Seq<PartitionTableEntry>) -> Seq<u8> {
    put_entries(with_signature(b), es, MAX_ENTRIES as nat)
}

/// The byte at position `p` of slot `i` once `e` is written over `b`.
pub open spec fn slot_byte(b: Seq<u8>, i: int, p: int, e: PartitionTableEntry) -> u8 {
    if p == 4 {
        tag_of_type(e.partition_type)
    } else if 8 <= p < 12 {
        le_bytes(e.logical_block_address)[p - 8]
    } else if 12 <= p < 16 {
        le_bytes(e.sector_count)[p - 12]
    } else {
        b[slot_offset(i) + p]
    }
}

proof fn lemma_put_entry(b: Seq<u8>, i: int, e: PartitionTableEntry)
    requires
        b.len() >= BUFFER_SIZE,
        0 <= i < MAX_ENTRIES,
    ensures
        put_entry(b, i, e).len() == b.len(),
        forall|k: int|
            0 <= k < b.len() && !(slot_offset(i) <= k < slot_offset(i) + 16) ==> #[trigger] put_entry(
                b,
                i,
                e,
            )[k] == b[k],
        forall|p: int|
            0 <= p < 16 ==> #[trigger] put_entry(b, i, e)[slot_offset(i) + p] == slot_byte(
                b,
                i,
                p,
                e,
            ),
{
}

/// Byte by byte, what encoding `es` over `b` leaves in the buffer.
pub proof fn lemma_encoded_bytes(b: Seq<u8>, es: Seq<PartitionTableEntry>)
    requires
        b.len() >= BUFFER_SIZE,
        es.len() == MAX_ENTRIES,
    ensures
        encoded_into(b, es).len() == b.len(),
        encoded_into(b, es)[510] == 0x55,
        encoded_into(b, es)[511] == 0xaa,
        forall|k: int|
            0 <= k < TABLE_OFFSET || BUFFER_SIZE <= k < b.len() ==> #[trigger] encoded_into(b, es)[k]
                == b[k],
        forall|i: int, p: int|
            0 <= i < MAX_ENTRIES && 0 <= p < 16 ==> #[trigger] encoded_into(b, es)[slot_offset(i)
                + p] == slot_byte(b, i, p, es[i]),
{
    let s = with_signature(b);
    let e1 = put_entries(s, es, 1);
    let e2 = put_entries(s, es, 2);
    let e3 = put_entries(s, es, 3);
    let e4 = put_entries(s, es, 4);
    assert(put_entries(s, es, 0) == s);
    lemma_put_entry(s, 0, es[0]);
    lemma_put_entry(e1, 1, es[1]);
    lemma_put_entry(e2, 2, es[2]);
    lemma_put_entry(e3, 3, es[3]);
    assert forall|i: int, p: int| 0 <= i < MAX_ENTRIES && 0 <= p < 16 implies #[trigger] e4[slot_offset(i)
        + p] == slot_byte(b, i, p, es[i]) by {
        let k = slot_offset(i) + p;
        if i == 0 {
            assert(e1[k] == slot_byte(s, 0, p, es[0]));
        } else if i == 1 {
            assert(e2[k] == slot_byte(e1, 1, p, es[1]));
        } else if i == 2 {
            assert(e3[k] == slot_byte(e2, 2, p, es[2]));
        } else {
            assert(e4[k] == slot_byte(e3, 3, p, es[3]));
        }
    }
}

/// Decoding what was encoded over any sector-sized buffer gives back the
/// entries, provided each entry's type is one that its tag byte reads back as.
pub proof fn lemma_round_trip(b: Seq<u8>, es: Seq<PartitionTableEntry>)
    requires
        b.len() >= BUFFER_SIZE,
        es.len() == MAX_ENTRIES,
        forall|i: int| 0 <= i < MAX_ENTRIES ==> is_recognized(#[trigger] es[i].partition_type),
    ensures
        is_valid_mbr(encoded_into(b, es)),
        decoded_entries(encoded_into(b, es)) == es,
{
    let e = encoded_into(b, es);
    lemma_encoded_bytes(b, es);
    assert forall|i: int| 0 <= i < MAX_ENTRIES implies #[trigger] entry_at(e, i) == es[i]
        && !slot_unsupported(e, i) by {
        let o = slot_offset(i);
        assert(e[o + 4] == tag_of_type(es[i].partition_type));
        lemma_value_of_bytes(es[i].logical_block_address);
        lemma_value_of_bytes(es[i].sector_count);
        assert(e[o + 8] == slot_byte(b, i, 8, es[i]));
        assert(e[o + 9] == slot_byte(b, i, 9, es[i]));
        assert(e[o + 10] == slot_byte(b, i, 10, es[i]));
        assert(e[o + 11] == slot_byte(b, i, 11, es[i]));
        assert(e[o + 12] == slot_byte(b, i, 12, es[i]));
        assert(e[o + 13] == slot_byte(b, i, 13, es[i]));
        assert(e[o + 14] == slot_byte(b, i, 14, es[i]));
        assert(e[o + 15] == slot_byte(b, i, 15, es[i]));
    }
    assert(decoded_entries(e) =~= es);
}

/// Changing the sector count of one decoded entry and encoding the entries
/// over the same buffer changes only the four bytes of that count.
pub proof fn lemma_sector_count_independent(b: Seq<u8>, i: int, count: u32)
    requires
        is_valid_mbr(b),
        0 <= i < MAX_ENTRIES,
    ensures
        ({
            let es = decoded_entries(b);
            let changed = PartitionTableEntry { sector_count: count, ..es[i] };
            let e = encoded_into(b, es.update(i, changed));
            &&& e.len() == b.len()
            &&& le_u32_at(e, slot_offset(i) + 12) == count
            &&& forall|k: int|
                0 <= k < b.len() && !(slot_offset(i) + 12 <= k < slot_offset(i) + 16) ==> e[k]
                    == b[k]
        }),
{
    let es = decoded_entries(b);
    let changed = PartitionTableEntry { sector_count: count, ..es[i] };
    let es2 = es.update(i, changed);
    let e = encoded_into(b, es2);
    lemma_encoded_bytes(b, es2);
    lemma_value_of_bytes(count);
    let o = slot_offset(i);
    assert(e[o + 12] == slot_byte(b, i, 12, es2[i]));
    assert(e[o + 13] == slot_byte(b, i, 13, es2[i]));
    assert(e[o + 14] == slot_byte(b, i, 14, es2[i]));
    assert(e[o + 15] == slot_byte(b, i, 15, es2[i]));
    assert forall|k: int|
        0 <= k < b.len() && !(slot_offset(i) + 12 <= k < slot_offset(i) + 16) implies e[k]
        == b[k] by {
        if TABLE_OFFSET <= k < BUFFER_SIZE - 2 {
            let j = (k - TABLE_OFFSET) / 16;
            let p = (k - TABLE_OFFSET) % 16;
            assert(k == slot_offset(j) + p);
            assert(0 <= j < MAX_ENTRIES);
            assert(e[slot_offset(j) + p] == slot_byte(b, j, p, es2[j]));
            let oj = slot_offset(j);
            if p == 4 {
                lemma_tag_round_trip(b[oj + 4]);
            } else if 8 <= p < 12 {
                lemma_bytes_of_value(b, oj + 8);
                assert(b.subrange(oj + 8, oj + 12)[p - 8] == b[k]);
            } else if 12 <= p < 16 {
                assert(j != i);
                lemma_bytes_of_value(b, oj + 12);
                assert(b.subrange(oj + 12, oj + 16)[p - 12] == b[k]);
            }
        }
    }
}

} // verus!
