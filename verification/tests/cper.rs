use intel_crashlog::collateral::{CollateralManager, MemoryTree, TargetInfo};
use intel_crashlog::cper::fer::{FirmwareErrorRecord, FirmwareErrorRecordHeader};
use intel_crashlog::cper::header::ErrorSeverity;
use intel_crashlog::cper::section::CperSectionBody;
use intel_crashlog::cper::Cper;
use intel_crashlog::guid::{fw_error_record, Guid};
use intel_crashlog::metadata::Time;
use intel_crashlog::node::NodeType;
use intel_crashlog::CrashLog;

/// One Type1 MCA record, 12 bytes.
fn simple_record_bytes(payload: [u8; 4]) -> Vec<u8> {
    let version: u32 = (0x3E << 24) | (0x7A << 12) | (0x1 << 8) | 0x01;
    let mut data = version.to_le_bytes().to_vec();
    data.extend_from_slice(&3u16.to_le_bytes());
    data.extend_from_slice(&0u16.to_le_bytes());
    data.extend_from_slice(&payload);
    data
}

/// A Crash Log of three regions, one record each, with two foreign
/// Firmware Error Record sections riding along.
fn five_section_crashlog() -> CrashLog {
    let mut crashlog = CrashLog::from_slice(&simple_record_bytes([1, 2, 3, 4])).unwrap();
    let second = CrashLog::from_slice(&simple_record_bytes([5, 6, 7, 8])).unwrap();
    let third = CrashLog::from_slice(&simple_record_bytes([9, 10, 11, 12])).unwrap();
    crashlog.regions.extend(second.regions);
    crashlog.regions.extend(third.regions);
    for marker in [1u8, 2u8] {
        let foreign = FirmwareErrorRecord {
            header: FirmwareErrorRecordHeader {
                error_type: 1,
                revision: 2,
                record_identifier: 0,
                guid: Guid { lo: marker as u64, hi: 0 },
            },
            payload: vec![marker; 6],
        };
        crashlog
            .metadata
            .extra_cper_sections
            .push(CperSectionBody::FirmwareErrorRecord(foreign));
    }
    crashlog
}

#[test]
fn cper_five_sections() {
    let bytes = five_section_crashlog().to_bytes();
    let cper = Cper::from_slice(&bytes).unwrap();

    assert_eq!(cper.record_header.section_count, 5);
    assert_eq!(cper.sections.len(), 5);
    assert_eq!(cper.record_header.error_severity, ErrorSeverity::Fatal);

    for section in cper.sections.iter() {
        assert_eq!(section.descriptor.section_type, fw_error_record());
    }
}

#[test]
fn cl_from_cper_roundtrip() {
    let bytes = five_section_crashlog().to_bytes();
    let cper = Cper::from_slice(&bytes).unwrap();
    let crashlog = CrashLog::from_cper(cper).unwrap();

    assert_eq!(crashlog.regions.len(), 3);
    let records: usize = crashlog.regions.iter().map(|r| r.records.len()).sum();
    assert_eq!(records, 3);
    assert_eq!(crashlog.metadata.extra_cper_sections.len(), 2);

    let cper_bytes = crashlog.to_bytes();
    let cper = Cper::from_slice(&cper_bytes).unwrap();
    assert_eq!(cper.record_header.section_count, 5);
}

#[test]
fn cl_to_cper_passthrough() {
    let data = simple_record_bytes([0xA0, 0xA1, 0xA2, 0xA3]);
    let crashlog = CrashLog::from_slice(&data).unwrap();
    let cper_bytes = crashlog.to_bytes();
    let cper = Cper::from_slice(&cper_bytes).unwrap();

    assert_eq!(cper.record_header.section_count, 1);

    let section = &cper.sections[0];
    let CperSectionBody::FirmwareErrorRecord(ref fer) = section.body else {
        panic!("Section is not a FirmwareErrorRecord");
    };
    assert_eq!(fer.payload, data);
    assert_eq!(fer.header.revision, 2);
    assert_eq!(fer.header.error_type, 2);
}

#[test]
fn cper_roundtrip_preserves_bytes() {
    let bytes = five_section_crashlog().to_bytes();
    let reparsed = Cper::from_slice(&bytes).unwrap();
    assert_eq!(reparsed.to_bytes(), bytes);
}

#[test]
fn cper_rejects_bad_signature() {
    let mut bytes = five_section_crashlog().to_bytes();
    bytes[0] = b'X';
    assert!(Cper::from_slice(&bytes).is_none());
    assert!(Cper::from_slice(&[0u8; 64]).is_none());
}

#[test]
fn cper_timestamp_from_metadata() {
    let mut crashlog = CrashLog::from_slice(&simple_record_bytes([0; 4])).unwrap();
    crashlog.metadata.time = Some(Time {
        year: 2024,
        month: 12,
        day: 31,
        hour: 23,
        minute: 59,
    });
    let cper = Cper::from_slice(&crashlog.to_bytes()).unwrap();
    let ts = cper.record_header.timestamp.unwrap();
    // BCD-coded fields.
    assert_eq!(ts.century, 0x20);
    assert_eq!(ts.year, 0x24);
    assert_eq!(ts.month, 0x12);
    assert_eq!(ts.day, 0x31);
    assert_eq!(ts.hours, 0x23);
    assert_eq!(ts.minutes, 0x59);
    assert_eq!(ts.seconds, 0);
    assert!(!ts.precise);
}

#[test]
fn cper_layout_invariants() {
    let bytes = five_section_crashlog().to_bytes();
    let cper = Cper::from_slice(&bytes).unwrap();
    let n = cper.sections.len();
    let mut expected_offset = (128 + 72 * n) as u32;
    for section in cper.sections.iter() {
        assert_eq!(section.descriptor.section_offset, expected_offset);
        expected_offset += section.descriptor.section_length;
    }
    assert_eq!(cper.record_header.record_length, expected_offset);
    assert_eq!(bytes.len(), expected_offset as usize);
}

#[test]
fn unknown_sections_roundtrip() {
    let mut crashlog = CrashLog::from_slice(&simple_record_bytes([0; 4])).unwrap();
    let guid = Guid {
        lo: 0x0123456789ABCDEF,
        hi: 0xFEDCBA9876543210,
    };
    crashlog
        .metadata
        .extra_cper_sections
        .push(CperSectionBody::Unknown(guid, vec![0xDE, 0xAD, 0xC0, 0xDE]));

    let cper = Cper::from_slice(&crashlog.to_bytes()).unwrap();
    let crashlog = CrashLog::from_cper(cper).unwrap();
    assert_eq!(crashlog.metadata.extra_cper_sections.len(), 1);
    let CperSectionBody::Unknown(g, data) = &crashlog.metadata.extra_cper_sections[0] else {
        panic!("extra section lost its kind");
    };
    assert_eq!(*g, guid);
    assert_eq!(data, &vec![0xDE, 0xAD, 0xC0, 0xDE]);
}

/// A 32-byte legacy server Type0 MCA record: die index 1 with the high
/// bit set decodes as die 10; socket 1.
fn legacy_type0_bytes() -> Vec<u8> {
    let version: u32 = (0x3E << 24) | (0x2F << 12) | 0x81;
    let mut data = version.to_le_bytes().to_vec();
    data.extend_from_slice(&0u32.to_le_bytes()); // reason @4
    data.extend_from_slice(&0u64.to_le_bytes()); // timestamp @8
    data.extend_from_slice(&8u16.to_le_bytes()); // record size @16: 8 dwords
    data.extend_from_slice(&0u16.to_le_bytes());
    data.extend_from_slice(&0u32.to_le_bytes()); // agent version @20
    data.push(1); // socket @24
    data.extend_from_slice(&[0, 0, 0]);
    data.extend_from_slice(&0u32.to_le_bytes()); // completion status @28
    assert_eq!(data.len(), 32);
    data
}

#[test]
fn header_type0_legacy_server() {
    let data = legacy_type0_bytes();
    let crashlog = CrashLog::from_slice(&data).unwrap();

    let mut cm = CollateralManager::new(MemoryTree::new());
    let root = crashlog.decode(&mut cm);

    let header_type = root
        .get_by_path("processors.cpu1.die10.mca.hdr.version.header_type")
        .unwrap();
    assert_eq!(header_type.kind, NodeType::Field { value: 0 });
}

/// One Type6 MCA record of 32 bytes on die 1, socket 0.
fn type6_record_bytes() -> Vec<u8> {
    let version: u32 = (0x3E << 24) | (0x7A << 12) | (0x6 << 8) | 0x02;
    let mut data = version.to_le_bytes().to_vec();
    data.extend_from_slice(&8u16.to_le_bytes());
    data.extend_from_slice(&0u16.to_le_bytes());
    data.extend_from_slice(&0u64.to_le_bytes());
    data.extend_from_slice(&0u32.to_le_bytes());
    data.extend_from_slice(&0u32.to_le_bytes());
    data.push(1);
    data.push(0);
    data.extend_from_slice(&1u16.to_le_bytes());
    data.extend_from_slice(&0x1234u32.to_le_bytes());
    data
}

#[test]
fn header_type6_decode() {
    let data = type6_record_bytes();
    let crashlog = CrashLog::from_slice(&data).unwrap();

    let mut cm = CollateralManager::new(MemoryTree::new());
    cm.add_target_info(
        0x7A,
        TargetInfo {
            product: "LCF".to_string(),
            variant: "XCC".to_string(),
            die_id: vec![(1, "io1".to_string())],
        },
    );
    let root = crashlog.decode(&mut cm);

    let revision = root
        .get_by_path("processors.cpu0.io1.mca.hdr.version.revision")
        .unwrap();
    assert_eq!(revision.kind, NodeType::Field { value: 2 });

    let die_id = root
        .get_by_path("processors.cpu0.io1.mca.hdr.die_skt_info.die_id")
        .unwrap();
    assert_eq!(die_id.kind, NodeType::Field { value: 1 });
}
