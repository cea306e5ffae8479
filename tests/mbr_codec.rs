use mbr::{
    ErrorCause, MasterBootRecord, MbrError, PartitionTable, PartitionTableEntry, PartitionType,
};

fn signed_zero_sector() -> [u8; 512] {
    let mut buf = [0u8; 512];
    buf[510] = 0x55;
    buf[511] = 0xaa;
    buf
}

fn known_good_sector() -> [u8; 512] {
    let mut buf = signed_zero_sector();
    buf[450] = 0x83;
    buf[454..458].copy_from_slice(&[0x00, 0x08, 0x00, 0x00]);
    buf[458..462].copy_from_slice(&204800u32.to_le_bytes());
    buf
}

fn entries_of(mbr: &MasterBootRecord) -> [PartitionTableEntry; 4] {
    let mut out = [PartitionTableEntry::empty(); 4];
    out.copy_from_slice(mbr.partition_table_entries());
    out
}

fn decode_err(bytes: &[u8]) -> MbrError {
    match MasterBootRecord::from_bytes(bytes) {
        Ok(_) => panic!("decoding was expected to fail"),
        Err(e) => e,
    }
}

#[test]
fn tag_bytes_map_to_their_types() {
    assert_eq!(PartitionType::from_mbr_tag_byte(0x00), PartitionType::Unused);
    assert_eq!(PartitionType::from_mbr_tag_byte(0x01), PartitionType::Fat12(0x01));
    for b in [0x04u8, 0x06, 0x0e] {
        assert_eq!(PartitionType::from_mbr_tag_byte(b), PartitionType::Fat16(b));
    }
    for b in [0x0bu8, 0x0c, 0x1b, 0x1c] {
        assert_eq!(PartitionType::from_mbr_tag_byte(b), PartitionType::Fat32(b));
    }
    assert_eq!(PartitionType::from_mbr_tag_byte(0x83), PartitionType::LinuxExt(0x83));
    assert_eq!(PartitionType::from_mbr_tag_byte(0x07), PartitionType::NtfsExfat(0x07));
    assert_eq!(PartitionType::from_mbr_tag_byte(0xaf), PartitionType::HfsPlus(0xaf));
    assert_eq!(PartitionType::from_mbr_tag_byte(0xee), PartitionType::Unknown(0xee));
    assert_eq!(PartitionType::from_mbr_tag_byte(0x05), PartitionType::Unknown(0x05));
}

#[test]
fn no_tag_byte_reads_as_iso9660() {
    for b in 0..=255u8 {
        assert!(!matches!(PartitionType::from_mbr_tag_byte(b), PartitionType::ISO9660(_)));
    }
}

#[test]
fn tag_mapping_keeps_every_byte() {
    for b in 0..=255u8 {
        let t = PartitionType::from_mbr_tag_byte(b);
        assert_eq!(t.to_mbr_tag_byte(), b);
        assert_eq!(PartitionType::from_mbr_tag_byte(t.to_mbr_tag_byte()), t);
    }
}

#[test]
fn types_write_their_carried_byte() {
    assert_eq!(PartitionType::Unused.to_mbr_tag_byte(), 0);
    assert_eq!(PartitionType::ISO9660(0x96).to_mbr_tag_byte(), 0x96);
    assert_eq!(PartitionType::Unknown(0xee).to_mbr_tag_byte(), 0xee);
    assert_eq!(PartitionType::Fat32(0x0c).to_mbr_tag_byte(), 0x0c);
}

#[test]
fn entry_constructors() {
    let e = PartitionTableEntry::new(PartitionType::Fat16(0x06), 63, 1000);
    assert_eq!(e.partition_type, PartitionType::Fat16(0x06));
    assert_eq!(e.logical_block_address, 63);
    assert_eq!(e.sector_count, 1000);
    let empty = PartitionTableEntry::empty();
    assert_eq!(empty, PartitionTableEntry::new(PartitionType::Unused, 0, 0));
}

#[test]
fn errors_compare_by_cause() {
    let a = MbrError::from_cause(ErrorCause::UnsupportedPartitionError { tag: 1 });
    let b = MbrError::from_cause(ErrorCause::UnsupportedPartitionError { tag: 1 });
    let c = MbrError::from_cause(ErrorCause::UnsupportedPartitionError { tag: 2 });
    assert_eq!(a, b);
    assert_ne!(a, c);
}

#[test]
fn decode_rejects_every_short_buffer() {
    let buf = known_good_sector();
    for len in 0..512usize {
        assert_eq!(
            decode_err(&buf[..len]),
            MbrError::from_cause(ErrorCause::BufferWrongSizeError { expected: 512, actual: len })
        );
    }
    assert!(MasterBootRecord::from_bytes(&buf[..]).is_ok());
}

#[test]
fn encode_rejects_every_short_buffer_untouched() {
    let mbr = MasterBootRecord::from_bytes(&known_good_sector()).unwrap();
    for len in 0..512usize {
        let mut out = vec![0x11u8; len];
        assert_eq!(
            mbr.serialize(&mut out),
            Err(MbrError::from_cause(ErrorCause::BufferWrongSizeError { expected: 512, actual: len }))
        );
        assert!(out.iter().all(|&b| b == 0x11));
    }
    let mut out = vec![0u8; 512];
    assert_eq!(mbr.serialize(&mut out), Ok(512));
}

#[test]
fn decode_rejects_a_missing_signature() {
    let mut buf = known_good_sector();
    buf[511] = 0x00;
    assert_eq!(
        decode_err(&buf),
        MbrError::from_cause(ErrorCause::InvalidMBRSuffix { actual: [0x55, 0x00] })
    );
    let mut buf = known_good_sector();
    buf[510] = 0xaa;
    buf[511] = 0x00;
    assert_eq!(
        decode_err(&buf),
        MbrError::from_cause(ErrorCause::InvalidMBRSuffix { actual: [0xaa, 0x00] })
    );
    let mut buf = known_good_sector();
    buf[510] = 0xaa;
    buf[511] = 0x55;
    assert_eq!(
        decode_err(&buf),
        MbrError::from_cause(ErrorCause::InvalidMBRSuffix { actual: [0xaa, 0x55] })
    );
}

#[test]
fn signature_is_checked_before_tags() {
    let mut buf = [0u8; 512];
    buf[450] = 0xee;
    assert_eq!(
        decode_err(&buf),
        MbrError::from_cause(ErrorCause::InvalidMBRSuffix { actual: [0x00, 0x00] })
    );
}

#[test]
fn decode_rejects_an_unsupported_tag() {
    let mut buf = signed_zero_sector();
    buf[450] = 0xee;
    assert_eq!(
        decode_err(&buf),
        MbrError::from_cause(ErrorCause::UnsupportedPartitionError { tag: 0xee })
    );
}

#[test]
fn first_unsupported_slot_wins() {
    let mut buf = signed_zero_sector();
    buf[450] = 0xee;
    buf[466] = 0x42;
    assert_eq!(
        decode_err(&buf),
        MbrError::from_cause(ErrorCause::UnsupportedPartitionError { tag: 0xee })
    );
    let mut buf = signed_zero_sector();
    buf[482] = 0x05;
    buf[498] = 0x42;
    assert_eq!(
        decode_err(&buf),
        MbrError::from_cause(ErrorCause::UnsupportedPartitionError { tag: 0x05 })
    );
}

#[test]
fn known_good_decode() {
    let mbr = MasterBootRecord::from_bytes(&known_good_sector()).unwrap();
    let entries = entries_of(&mbr);
    assert_eq!(entries[0], PartitionTableEntry::new(PartitionType::LinuxExt(0x83), 2048, 204800));
    for e in &entries[1..] {
        assert_eq!(*e, PartitionTableEntry::empty());
    }
    assert_eq!(mbr.size(), 512);
    assert_eq!(mbr.partition_table_entries().len(), 4);
}

#[test]
fn decode_ignores_bytes_past_the_sector() {
    let mut buf = known_good_sector().to_vec();
    buf.extend_from_slice(&[0xee; 100]);
    let mbr = MasterBootRecord::from_bytes(&buf).unwrap();
    assert_eq!(entries_of(&mbr)[0].logical_block_address, 2048);
}

#[test]
fn decode_reads_little_endian_fields() {
    let mut buf = signed_zero_sector();
    buf[498] = 0x0c;
    buf[502..506].copy_from_slice(&[0x78, 0x56, 0x34, 0x12]);
    buf[506..510].copy_from_slice(&[0xff, 0xff, 0xff, 0xff]);
    let mbr = MasterBootRecord::from_bytes(&buf).unwrap();
    assert_eq!(
        entries_of(&mbr)[3],
        PartitionTableEntry::new(PartitionType::Fat32(0x0c), 0x1234_5678, u32::MAX)
    );
}

#[test]
fn encode_writes_the_sector_layout() {
    let mbr = MasterBootRecord::new([
        PartitionTableEntry::new(PartitionType::LinuxExt(0x83), 2048, 204800),
        PartitionTableEntry::empty(),
        PartitionTableEntry::empty(),
        PartitionTableEntry::empty(),
    ]);
    let mut out = [0u8; 512];
    assert_eq!(mbr.serialize(&mut out), Ok(512));
    assert_eq!(out, known_good_sector());
}

#[test]
fn encode_keeps_unmodelled_bytes() {
    let mbr = MasterBootRecord::new([
        PartitionTableEntry::new(PartitionType::Fat12(0x01), 0x0102_0304, 5),
        PartitionTableEntry::new(PartitionType::ISO9660(0x96), 7, 8),
        PartitionTableEntry::empty(),
        PartitionTableEntry::new(PartitionType::Unknown(0xee), 1, 2),
    ]);
    let mut out = vec![0x5au8; 520];
    assert_eq!(mbr.serialize(&mut out), Ok(512));
    assert!(out[..446].iter().all(|&b| b == 0x5a));
    assert!(out[512..].iter().all(|&b| b == 0x5a));
    assert_eq!(&out[446..462], &[0x5a, 0x5a, 0x5a, 0x5a, 0x01, 0x5a, 0x5a, 0x5a, 4, 3, 2, 1, 5, 0, 0, 0]);
    assert_eq!(out[466], 0x96);
    assert_eq!(out[482], 0x00);
    assert_eq!(out[498], 0xee);
    assert_eq!(&out[510..512], &[0x55, 0xaa]);
}

#[test]
fn round_trip_through_a_zeroed_sector() {
    let entries = [
        PartitionTableEntry::new(PartitionType::Fat16(0x0e), 63, 0xdead_beef),
        PartitionTableEntry::new(PartitionType::NtfsExfat(0x07), u32::MAX, 0),
        PartitionTableEntry::new(PartitionType::HfsPlus(0xaf), 1, 1),
        PartitionTableEntry::empty(),
    ];
    let mut out = [0u8; 512];
    assert_eq!(MasterBootRecord::new(entries).serialize(&mut out), Ok(512));
    let back = MasterBootRecord::from_bytes(&out).unwrap();
    assert_eq!(entries_of(&back), entries);
}

#[test]
fn changing_a_sector_count_touches_only_its_bytes() {
    let original = known_good_sector();
    let mbr = MasterBootRecord::from_bytes(&original).unwrap();
    let mut entries = entries_of(&mbr);
    entries[0].sector_count = 0x0102_0304;
    let mut out = original;
    assert_eq!(MasterBootRecord::new(entries).serialize(&mut out), Ok(512));
    for k in 0..512usize {
        if (458..462).contains(&k) {
            continue;
        }
        assert_eq!(out[k], original[k], "byte {}", k);
    }
    assert_eq!(&out[458..462], &[4, 3, 2, 1]);
}

#[test]
fn encoding_a_decoded_sector_reproduces_it() {
    let mut original = known_good_sector();
    original[0] = 0xfa;
    original[446] = 0x80;
    original[466] = 0x0b;
    original[470..478].copy_from_slice(&[1, 2, 3, 4, 5, 6, 7, 8]);
    let mbr = MasterBootRecord::from_bytes(&original).unwrap();
    let mut out = original;
    assert_eq!(mbr.serialize(&mut out), Ok(512));
    assert_eq!(out, original);
}
