use vstd::prelude::*;

mod error;
mod layout;
mod le;
mod partitions;

pub use error::{ErrorCause, MbrError};
pub use layout::{
    BUFFER_SIZE, ENTRY_SIZE, MAX_ENTRIES, TABLE_OFFSET, decoded_entries, encoded_into, entry_at,
    first_unsupported, has_signature, is_valid_mbr, lemma_encoded_bytes, lemma_round_trip,
    lemma_sector_count_independent, put_entries, put_entry, slot_byte, slot_offset,
    slot_unsupported, with_signature,
};
pub use le::{le_bytes, le_u32_at, put_u32_le};
pub use partitions::{
    PartitionTable, PartitionTableEntry, PartitionType, empty_entry, is_recognized,
    lemma_tag_round_trip, tag_of_type, type_of_tag,
};

use le::{read_u32_le, write_u32_le};

verus! {

/// A master boot record: the four entries of its partition table, in slot order.
pub struct MasterBootRecord {
    entries: [PartitionTableEntry; MAX_ENTRIES],
}

impl View for MasterBootRecord {
    type V = Seq<PartitionTableEntry>;

    closed spec fn view(&self) -> Seq<PartitionTableEntry> {
        self.entries@
    }
}

impl MasterBootRecord {
    /// A record holding the given entries.
    pub fn new(entries: [PartitionTableEntry; MAX_ENTRIES]) -> (r: MasterBootRecord)
        ensures
            r@ == entries@,
    {
        MasterBootRecord { entries }
    }

    /// Reads a record from the first 512 bytes of `bytes`.
    ///
    /// Fails when the buffer is short, when it lacks the boot signature, or at
    /// the first slot, in slot order, whose type tag is unsupported.
    pub fn from_bytes(bytes: &[u8]) -> (r: Result<MasterBootRecord, MbrError>)
        ensures
            bytes@.len() < BUFFER_SIZE ==> (r matches Err(e) && e@
                == ErrorCause::BufferWrongSizeError { expected: BUFFER_SIZE, actual: bytes@.len() as usize }),
            bytes@.len() >= BUFFER_SIZE && !has_signature(bytes@) ==> (r matches Err(e)
                && e@ matches ErrorCause::InvalidMBRSuffix { actual }
                && actual@ == seq![bytes@[510], bytes@[511]]),
            forall|i: int|
                bytes@.len() >= BUFFER_SIZE && has_signature(bytes@) && #[trigger] first_unsupported(
                    bytes@,
                    i,
                ) ==> (r matches Err(e) && e@ == ErrorCause::UnsupportedPartitionError {
                    tag: bytes@[slot_offset(i) + 4],
                }),
            is_valid_mbr(bytes@) ==> (r matches Ok(m) && m@ == decoded_entries(bytes@)),
    {
        if bytes.len() < BUFFER_SIZE {
            return Err(
                MbrError::from_cause(
                    ErrorCause::BufferWrongSizeError { expected: BUFFER_SIZE, actual: bytes.len() },
                ),
            );
        }
        if bytes[510] != 0x55 || bytes[511] != 0xaa {
            let actual = [bytes[510], bytes[511]];
            proof {
                assert(actual@ =~= seq![bytes@[510], bytes@[511]]);
            }
            return Err(MbrError::from_cause(ErrorCause::InvalidMBRSuffix { actual }));
        }
        let mut entries = [PartitionTableEntry::empty(); MAX_ENTRIES];
        let mut idx: usize = 0;
        while idx < MAX_ENTRIES
            invariant
                idx <= MAX_ENTRIES,
                bytes@.len() >= BUFFER_SIZE,
                has_signature(bytes@),
                forall|j: int| 0 <= j < idx ==> !#[trigger] slot_unsupported(bytes@, j),
                forall|j: int| 0 <= j < idx ==> #[trigger] entries@[j] == entry_at(bytes@, j),
            decreases MAX_ENTRIES - idx,
        {
            let offset = TABLE_OFFSET + idx * ENTRY_SIZE;
            let partition_type = PartitionType::from_mbr_tag_byte(bytes[offset + 4]);
            if let PartitionType::Unknown(tag) = partition_type {
                proof {
                    assert(first_unsupported(bytes@, idx as int));
                }
                return Err(
                    MbrError::from_cause(ErrorCause::UnsupportedPartitionError { tag }),
                );
            }
            let lba = read_u32_le(vstd::slice::slice_subrange(bytes, offset + 8, offset + 12));
            let len = read_u32_le(vstd::slice::slice_subrange(bytes, offset + 12, offset + 16));
            entries[idx] = PartitionTableEntry::new(partition_type, lba, len);
            idx += 1;
        }
        proof {
            assert(entries@ =~= decoded_entries(bytes@));
        }
        Ok(MasterBootRecord { entries })
    }

    /// Writes the record into the first 512 bytes of `buffer`: the boot
    /// signature, then each slot's type tag, start address and sector count.
    /// Every other byte is left as it was. Returns the number of bytes of the
    /// sector, or fails, writing nothing, when the buffer is short.
    pub fn serialize(&self, buffer: &mut [u8]) -> (r: Result<usize, MbrError>)
        ensures
            old(buffer)@.len() < BUFFER_SIZE ==> (r matches Err(e) && e@
                == ErrorCause::BufferWrongSizeError { expected: BUFFER_SIZE, actual: old(buffer)@.len() as usize })
                && final(buffer)@ == old(buffer)@,
            old(buffer)@.len() >= BUFFER_SIZE ==> (r matches Ok(n) && n == BUFFER_SIZE)
                && final(buffer)@ == encoded_into(old(buffer)@, self@),
            final(buffer)@.len() == old(buffer)@.len(),
            old(buffer)@.len() >= BUFFER_SIZE ==> final(buffer)@[510] == 0x55 && final(buffer)@[511]
                == 0xaa,
    {
        if buffer.len() < BUFFER_SIZE {
            return Err(
                MbrError::from_cause(
                    ErrorCause::BufferWrongSizeError { expected: BUFFER_SIZE, actual: buffer.len() },
                ),
            );
        }
        let ghost start = buffer@;
        buffer[510] = 0x55;
        buffer[511] = 0xaa;
        let mut idx: usize = 0;
        while idx < MAX_ENTRIES
            invariant
                idx <= MAX_ENTRIES,
                buffer@.len() == start.len(),
                start.len() >= BUFFER_SIZE,
                buffer@ == put_entries(with_signature(start), self@, idx as nat),
            decreases MAX_ENTRIES - idx,
        {
            let offset = TABLE_OFFSET + idx * ENTRY_SIZE;
            let entry = self.entries[idx];
            buffer[offset + 4] = entry.partition_type.to_mbr_tag_byte();
            write_u32_le(buffer, offset + 8, entry.logical_block_address);
            write_u32_le(buffer, offset + 12, entry.sector_count);
            idx += 1;
        }
        proof {
            lemma_encoded_bytes(start, self@);
        }
        Ok(BUFFER_SIZE)
    }
}

impl PartitionTable for MasterBootRecord {
    open spec fn region_size(&self) -> nat {
        BUFFER_SIZE as nat
    }

    open spec fn table_entries(&self) -> Seq<PartitionTableEntry> {
        self@
    }

    fn size(&self) -> (r: usize) {
        BUFFER_SIZE
    }

    fn partition_table_entries(&self) -> (r: &[PartitionTableEntry]) {
        self.entries.as_slice()
    }
}

} // verus!
