use vstd::prelude::*;

verus! {

/// The kind of a partition, as told by the one-byte type tag of its slot.
///
/// Every variant but `Unused` carries the tag byte it was read from, so that
/// writing a decoded entry back reproduces that byte exactly.
#[derive(Copy, Clone, Debug, Eq, PartialEq, Hash, Structural)]
pub enum PartitionType {
    Unused,
    Unknown(u8),
    Fat12(u8),
    Fat16(u8),
    Fat32(u8),
    LinuxExt(u8),
    HfsPlus(u8),
    ISO9660(u8),
    NtfsExfat(u8),
}

/// The partition type that a tag byte stands for.
pub open spec fn type_of_tag(tag: u8) -> PartitionType {
    if tag == 0x00 {
        PartitionType::Unused
    } else if tag == 0x01 {
        PartitionType::Fat12(tag)
    } else if tag == 0x04 || tag == 0x06 || tag == 0x0e {
        PartitionType::Fat16(tag)
    } else if tag == 0x0b || tag == 0x0c || tag == 0x1b || tag == 0x1c {
        PartitionType::Fat32(tag)
    } else if tag == 0x83 {
        PartitionType::LinuxExt(tag)
    } else if tag == 0x07 {
        PartitionType::NtfsExfat(tag)
    } else if tag == 0xaf {
        PartitionType::HfsPlus(tag)
    } else {
        PartitionType::Unknown(tag)
    }
}

/// The tag byte written for a partition type: the carried byte, or zero for `Unused`.
pub open spec fn tag_of_type(t: PartitionType) -> u8 {
    match t {
        PartitionType::Unused => 0,
        PartitionType::Unknown(b) => b,
        PartitionType::Fat12(b) => b,
        PartitionType::Fat16(b) => b,
        PartitionType::Fat32(b) => b,
        PartitionType::LinuxExt(b) => b,
        PartitionType::HfsPlus(b) => b,
        PartitionType::ISO9660(b) => b,
        PartitionType::NtfsExfat(b) => b,
    }
}

/// A type is recognized when its tag byte reads back as that very type.
pub open spec fn is_recognized(t: PartitionType) -> bool {
    type_of_tag(tag_of_type(t)) == t && !(t is Unknown)
}

impl PartitionType {
    pub fn from_mbr_tag_byte(tag: u8) -> (r: PartitionType)
        ensures
            r == type_of_tag(tag),
    {
        match tag {
            0x0 => PartitionType::Unused,
            0x01 => PartitionType::Fat12(tag),
            0x04 | 0x06 | 0x0e => PartitionType::Fat16(tag),
            0x0b | 0x0c | 0x1b | 0x1c => PartitionType::Fat32(tag),
            0x83 => PartitionType::LinuxExt(tag),
            0x07 => PartitionType::NtfsExfat(tag),
            0xaf => PartitionType::HfsPlus(tag),
            _ => PartitionType::Unknown(tag),
        }
    }

    pub fn to_mbr_tag_byte(&self) -> (r: u8)
        ensures
            r == tag_of_type(*self),
    {
        match *self {
            PartitionType::Unused => 0,
            PartitionType::Unknown(t) => t,
            PartitionType::Fat12(t) => t,
            PartitionType::Fat16(t) => t,
            PartitionType::Fat32(t) => t,
            PartitionType::LinuxExt(t) => t,
            PartitionType::HfsPlus(t) => t,
            PartitionType::ISO9660(t) => t,
            PartitionType::NtfsExfat(t) => t,
        }
    }
}

/// Writing back the type read from a tag gives that tag again, for every byte:
/// the mapping never loses the byte value.
pub proof fn lemma_tag_round_trip(tag: u8)
    ensures
        tag_of_type(type_of_tag(tag)) == tag,
        type_of_tag(tag_of_type(type_of_tag(tag))) == type_of_tag(tag),
{
}

/// One slot of the partition table.
#[derive(Copy, Clone, Debug, Eq, PartialEq, Hash, Structural)]
pub struct PartitionTableEntry {
    pub partition_type: PartitionType,
    pub logical_block_address: u32,
    pub sector_count: u32,
}

impl PartitionTableEntry {
    pub fn new(partition_type: PartitionType, logical_block_address: u32, sector_count: u32) -> (r:
        PartitionTableEntry)
        ensures
            r.partition_type == partition_type,
            r.logical_block_address == logical_block_address,
            r.sector_count == sector_count,
    {
        PartitionTableEntry { partition_type, logical_block_address, sector_count }
    }

    /// The placeholder for an unused slot.
    pub fn empty() -> (r: PartitionTableEntry)
        ensures
            r == empty_entry(),
    {
        PartitionTableEntry::new(PartitionType::Unused, 0, 0)
    }
}

pub open spec fn empty_entry() -> PartitionTableEntry {
    PartitionTableEntry { partition_type: PartitionType::Unused, logical_block_address: 0, sector_count: 0 }
}

/// A table of partitions laid out in a fixed-size region of a disk.
pub trait PartitionTable {
    /// The size in bytes of the region the table occupies.
    spec fn region_size(&self) -> nat;

    /// The entries of the table, in slot order.
    spec fn table_entries(&self) -> Seq<PartitionTableEntry>;

    fn size(&self) -> (r: usize)
        ensures
            r == self.region_size(),
    ;

    fn partition_table_entries(&self) -> (r: &[PartitionTableEntry])
        ensures
            r@ == self.table_entries(),
    ;
}

} // verus!
