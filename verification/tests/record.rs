use intel_crashlog::collateral::{CollateralManager, ItemPath, MemoryTree, TargetInfo};
use intel_crashlog::error::Error;
use intel_crashlog::header::{Header, RecordSize, Version};
use intel_crashlog::node::{Node, NodeType};
use intel_crashlog::record::{Context, Record};
use intel_crashlog::region::Region;

fn record_with_data(data: Vec<u8>) -> Record {
    Record {
        header: Header::default(),
        data,
        context: Context::default(),
    }
}

fn empty_cm() -> CollateralManager<MemoryTree> {
    CollateralManager::new(MemoryTree::new())
}

#[test]
fn basic_decode() {
    let record = record_with_data(vec![
        0x80, 0x81, 0x82, 0x83, 0x84, 0x85, 0x86, 0x87, 0x88, 0x89, 0x8A, 0x8B, 0x8C, 0x8D, 0x8E,
        0x8F,
    ]);

    let csv = "name;offset;size;description;bitfield
foo;0;128;;0
foo.bar.baz;4;64;;0
foo.bar;4;8;;0";

    let root = record.decode_with_csv(csv.as_bytes(), 0).unwrap();
    let section = root.get_by_path("foo").unwrap();
    assert_eq!(section.kind, NodeType::Record);
    let field = root.get_by_path("foo.bar").unwrap();
    assert_eq!(field.kind, NodeType::Field { value: 0x18 });
    let field = root.get_by_path("foo.bar.baz").unwrap();
    assert_eq!(
        field.kind,
        NodeType::Field {
            value: 0x8878685848382818
        }
    );
}

#[test]
fn relative_paths() {
    let record = record_with_data(vec![
        0x80, 0x81, 0x82, 0x83, 0x84, 0x85, 0x86, 0x87, 0x88, 0x89, 0x8A, 0x8B, 0x8C, 0x8D, 0x8E,
        0x8F,
    ]);

    let csv = "name;offset;size;description;bitfield
foo;0;128;;0
.aaa;8;8;;0
.bbb;16;8;;0
..ccc;24;8;;0
foo.ddd.eee;32;8;;0
...ddd;40;8;;0
..fff;48;8;;0";

    let root = record.decode_with_csv(csv.as_bytes(), 0).unwrap();
    let section = root.get_by_path("foo").unwrap();
    assert_eq!(section.kind, NodeType::Record);
    let field = root.get_by_path("foo.aaa").unwrap();
    assert_eq!(field.kind, NodeType::Field { value: 0x81 });
    let field = root.get_by_path("foo.aaa.bbb").unwrap();
    assert_eq!(field.kind, NodeType::Field { value: 0x82 });
    let field = root.get_by_path("foo.aaa.ccc").unwrap();
    assert_eq!(field.kind, NodeType::Field { value: 0x83 });
    let field = root.get_by_path("foo.ddd.eee").unwrap();
    assert_eq!(field.kind, NodeType::Field { value: 0x84 });
    let field = root.get_by_path("foo.ddd").unwrap();
    assert_eq!(field.kind, NodeType::Field { value: 0x85 });
    let field = root.get_by_path("foo.fff").unwrap();
    assert_eq!(field.kind, NodeType::Field { value: 0x86 });
}

#[test]
fn decode_generic() {
    let record = Record {
        header: Header {
            version: Version {
                record_type: 0x3e,
                product_id: 0x7a,
                revision: 42,
                ..Version::default()
            },
            size: RecordSize {
                record_size: 1,
                ..RecordSize::default()
            },
            ..Header::default()
        },
        data: vec![0x42, 0, 0, 0],
        context: Context::default(),
    };

    let mut tree = MemoryTree::new();
    let mut path = ItemPath::new();
    path.push("decode-defs".to_string());
    path.push("MCA".to_string());
    path.push("42".to_string());
    path.push("layout.csv".to_string());
    tree.insert(path, b"name;offset;size;description\nmca;0;8;\nmca.foo;0;8;".to_vec());
    let mut cm = CollateralManager::new(tree);
    cm.add_target_info(
        0x7A,
        TargetInfo {
            product: "LCF".to_string(),
            variant: "XCC".to_string(),
            die_id: vec![],
        },
    );

    let root = record.decode(&mut cm);
    let foo = root.get_by_path("mca.foo").unwrap();
    assert_eq!(foo.kind, NodeType::Field { value: 0x42 });
}

#[test]
fn decode_missing_decode_defs() {
    let record = Record {
        header: Header {
            version: Version {
                record_type: 0x3e,
                product_id: 0x1c,
                revision: 42,
                ..Version::default()
            },
            size: RecordSize {
                record_size: 1,
                ..RecordSize::default()
            },
            ..Header::default()
        },
        data: vec![0x42],
        context: Context::default(),
    };

    let mut cm = empty_cm();
    let root = record.decode(&mut cm);

    let revision = root.get_by_path("mca.hdr.version.revision").unwrap();
    assert_eq!(revision.kind, NodeType::Field { value: 42 });

    let record_size = root.get_by_path("mca.hdr.record_size.record_size").unwrap();
    assert_eq!(record_size.kind, NodeType::Field { value: 1 });
}

#[test]
fn invalid_decode_defs() {
    let record = record_with_data(vec![0x80, 0x81, 0x82, 0x83, 0x84, 0x85, 0x86, 0x87]);

    let csv = "name;offset;size;description;bitfield
foo;0;64;;0
foo.bar;=2+2;8;;0";
    assert!(matches!(
        record.decode_with_csv(csv.as_bytes(), 0),
        Err(Error::ParseIntError(_))
    ));

    let csv = "fullname;size;offset
aaa;4;8
";
    let root = record.decode_with_csv(csv.as_bytes(), 0).unwrap();
    assert_eq!(root, Node::root());

    let csv = "name;size;offset
foo.bar;8
";
    let root = record.decode_with_csv(csv.as_bytes(), 0).unwrap();
    let field = root.get_by_path("foo.bar").unwrap();
    assert_eq!(field.kind, NodeType::Field { value: 0x80 });

    let csv = "name;size;offset;size
....foo.bar;8;0
";
    let root = record.decode_with_csv(csv.as_bytes(), 0).unwrap();
    let field = root.get_by_path("foo.bar").unwrap();
    assert_eq!(field.kind, NodeType::Field { value: 0x80 });
}

/// One Type1 MCA record, 12 bytes: version word, sizes, one payload
/// dword.
fn simple_record_bytes() -> Vec<u8> {
    let version: u32 = (0x3E << 24) | (0x7A << 12) | (0x1 << 8) | 0x01;
    let mut data = version.to_le_bytes().to_vec();
    data.extend_from_slice(&3u16.to_le_bytes()); // record_size: 3 dwords
    data.extend_from_slice(&0u16.to_le_bytes()); // extended_record_size
    data.extend_from_slice(&[0xAA, 0xBB, 0xCC, 0xDD]);
    data
}

#[test]
fn region_roundtrip() {
    let mut buffer = simple_record_bytes();
    buffer.extend_from_slice(&simple_record_bytes());
    let consumed = buffer.clone();
    // Trailing terminator word: ignored by the walk, absent from the
    // re-encoding.
    buffer.extend_from_slice(&0xDEADBEEFu32.to_le_bytes());

    let region = Region::from_slice(&buffer).unwrap();
    assert_eq!(region.records.len(), 2);
    assert_eq!(region.to_bytes(), consumed);
}

#[test]
fn region_stops_at_zero_terminator() {
    let mut buffer = simple_record_bytes();
    buffer.extend_from_slice(&0u32.to_le_bytes());
    buffer.extend_from_slice(&simple_record_bytes());

    let region = Region::from_slice(&buffer).unwrap();
    assert_eq!(region.records.len(), 1);
}

#[test]
fn region_rejects_undersized_record() {
    // A record whose declared size cannot hold its own header is
    // structurally impossible.
    let version: u32 = (0x3E << 24) | (0x7A << 12) | (0x1 << 8) | 0x01;
    let mut buffer = version.to_le_bytes().to_vec();
    buffer.extend_from_slice(&1u16.to_le_bytes()); // 4 bytes < 8-byte header
    buffer.extend_from_slice(&0u16.to_le_bytes());
    assert!(matches!(Region::from_slice(&buffer), Err(Error::InvalidHeader)));
}

#[test]
fn checksum_valid_record() {
    let version: u32 = (1 << 30) | (0x3E << 24) | (0x7A << 12) | (0x1 << 8) | 0x01;
    let mut data = version.to_le_bytes().to_vec();
    data.extend_from_slice(&4u16.to_le_bytes()); // 4 dwords: 16 bytes
    data.extend_from_slice(&0u16.to_le_bytes());
    data.extend_from_slice(&[0x11, 0x22, 0x33, 0x44]);
    let sum = version
        .wrapping_add(4)
        .wrapping_add(u32::from_le_bytes([0x11, 0x22, 0x33, 0x44]));
    let checksum = 0u32.wrapping_sub(sum);
    data.extend_from_slice(&checksum.to_le_bytes());

    let region = Region::from_slice(&data).unwrap();
    assert_eq!(region.records.len(), 1);
    assert_eq!(region.records[0].checksum(), Some(true));

    // Header, payload and trailer partition the raw record exactly.
    let record = &region.records[0];
    assert_eq!(
        record.payload().len() + record.header.header_size() + 4,
        record.data.len()
    );
}

#[test]
fn checksum_absent_without_cldic() {
    let data = simple_record_bytes();
    let region = Region::from_slice(&data).unwrap();
    assert_eq!(region.records[0].checksum(), None);
}

#[test]
fn csv_rejects_non_utf8() {
    let record = record_with_data(vec![0x80]);
    let layout = [0x6E, 0x61, 0xFF, 0xFE, 0x3B];
    assert!(matches!(
        record.decode_with_csv(&layout, 0),
        Err(Error::Utf8Error)
    ));
}

#[test]
fn read_field_limits() {
    let record = record_with_data(vec![0xFF, 0x01]);
    assert_eq!(record.read_field(0, 65), None);
    assert_eq!(record.read_field(0, 0), Some(0));
    assert_eq!(record.read_field(8, 9), None);
    assert_eq!(record.read_field(4, 8), Some(0x1F));
    assert_eq!(record.read_field(0, 16), Some(0x01FF));
}

#[test]
fn header_type6_fields() {
    let data = type6_record_bytes();
    let header = Header::from_slice(&data).unwrap().unwrap();
    assert_eq!(header.header_size(), 32);
    assert_eq!(header.socket_id(), 0);
    assert_eq!(header.die_id(), Some(1));
    assert_eq!(header.record_type().unwrap(), "MCA");
    assert_eq!(header.record_size(), 32);
}

/// One Type6 MCA record of 32 bytes: 28-byte fixed part plus one
/// completion status dword, die 1 on socket 0.
fn type6_record_bytes() -> Vec<u8> {
    let version: u32 = (0x3E << 24) | (0x7A << 12) | (0x6 << 8) | 0x02;
    let mut data = version.to_le_bytes().to_vec();
    data.extend_from_slice(&8u16.to_le_bytes()); // 8 dwords: 32 bytes
    data.extend_from_slice(&0u16.to_le_bytes());
    data.extend_from_slice(&0u64.to_le_bytes()); // timestamp @8
    data.extend_from_slice(&0u32.to_le_bytes()); // agent_version @16
    data.extend_from_slice(&0u32.to_le_bytes()); // reason @20
    data.push(1); // die_id @24
    data.push(0); // socket_id @25
    data.extend_from_slice(&1u16.to_le_bytes()); // completion status size @26
    data.extend_from_slice(&0x1234u32.to_le_bytes()); // one status dword @28
    assert_eq!(data.len(), 32);
    data
}

#[test]
fn header_terminator_markers() {
    assert!(Header::from_slice(&0u32.to_le_bytes()).unwrap().is_none());
    assert!(Header::from_slice(&0xDEADBEEFu32.to_le_bytes())
        .unwrap()
        .is_none());
    assert!(Header::from_slice(&[1]).unwrap().is_none());
}

#[test]
fn header_unknown_type_rejected() {
    let version: u32 = (0x3E << 24) | (0x7A << 12) | (0x7 << 8) | 0x01;
    let mut data = version.to_le_bytes().to_vec();
    data.extend_from_slice(&[0; 28]);
    assert!(matches!(
        Header::from_slice(&data),
        Err(Error::InvalidHeaderType(7))
    ));
}

#[test]
fn header_unknown_record_type() {
    let version: u32 = (0x3F << 24) | (0x7A << 12) | (0x1 << 8) | 0x01;
    let mut data = version.to_le_bytes().to_vec();
    data.extend_from_slice(&[0; 4]);
    let header = Header::from_slice(&data).unwrap().unwrap();
    assert!(matches!(
        header.record_type(),
        Err(Error::InvalidRecordType(0x3F))
    ));
}

#[test]
fn version_word_roundtrip() {
    let word: u32 = 0x7E07A603;
    let version = Version::from_slice(&word.to_le_bytes()).unwrap();
    assert_eq!(version.record_type, 0x3E);
    assert_eq!(version.product_id, 0x7A);
    assert_eq!(version.header_type, 6);
    assert_eq!(version.revision, 3);
    assert!(version.cldic);
    assert!(!version.consumed);
    assert_eq!(version.as_u32(), word);
}

#[test]
fn errata_rules() {
    let legacy = Version {
        header_type: 0,
        product_id: 0x2F,
        record_type: 0x4,
        ..Version::default()
    };
    let errata = legacy.into_errata();
    assert!(errata.type0_legacy_server);
    assert!(errata.type0_legacy_server_box);
    assert!(!errata.core_record_size_bytes);

    let core = Version {
        header_type: 4,
        product_id: 0x70,
        record_type: 0x4,
        ..Version::default()
    };
    assert!(core.into_errata().core_record_size_bytes);

    let newer_core = Version {
        header_type: 4,
        product_id: 0x71,
        record_type: 0x4,
        ..Version::default()
    };
    assert!(!newer_core.into_errata().core_record_size_bytes);
}

#[test]
fn decode_definitions_paths_trim_die_digits() {
    let data = type6_record_bytes();
    let header = Header::from_slice(&data).unwrap().unwrap();
    let mut cm = CollateralManager::new(MemoryTree::new());
    cm.add_target_info(
        0x7A,
        TargetInfo {
            product: "LCF".to_string(),
            variant: "XCC".to_string(),
            die_id: vec![(1, "io1".to_string())],
        },
    );
    let paths = header.decode_definitions_paths(&cm).unwrap();
    assert_eq!(paths.len(), 1);
    let segments: Vec<&str> = paths[0].segments.iter().map(|s| s.as_str()).collect();
    assert_eq!(segments, ["decode-defs", "MCA", "io", "2"]);

    let anonymous = CollateralManager::new(MemoryTree::new());
    let paths = header.decode_definitions_paths(&anonymous).unwrap();
    assert_eq!(paths.len(), 2);
    let segments: Vec<&str> = paths[0].segments.iter().map(|s| s.as_str()).collect();
    assert_eq!(segments, ["decode-defs", "MCA", "2"]);
    let segments: Vec<&str> = paths[1].segments.iter().map(|s| s.as_str()).collect();
    assert_eq!(segments, ["decode-defs", "MCA", "all"]);
}

#[test]
fn decode_core_record_thread_hierarchy() {
    // A PCORE record of three dwords; byte 8 carries the thread number.
    let version: u32 = (0x04 << 24) | (0x100 << 12) | (0x1 << 8) | 0x01;
    let mut data = version.to_le_bytes().to_vec();
    data.extend_from_slice(&3u16.to_le_bytes());
    data.extend_from_slice(&0u16.to_le_bytes());
    data.extend_from_slice(&[5, 0, 0, 0]);
    let header = Header::from_slice(&data).unwrap().unwrap();
    let record = Record {
        header,
        data,
        context: Context::default(),
    };

    let mut tree = MemoryTree::new();
    let mut path = ItemPath::new();
    path.push("decode-defs".to_string());
    path.push("PCORE".to_string());
    path.push("1".to_string());
    path.push("layout_thread.csv".to_string());
    tree.insert(
        path,
        b"name;offset;size\nthread;0;8\nthread.hdr.whoami.thread_id;64;8".to_vec(),
    );
    let mut cm = CollateralManager::new(tree);
    cm.add_target_info(
        0x100,
        TargetInfo {
            product: "LCF".to_string(),
            variant: "XCC".to_string(),
            die_id: vec![],
        },
    );

    let root = record.decode(&mut cm);
    let thread_id = root
        .get_by_path("PCORE.thread5.thread.hdr.whoami.thread_id")
        .unwrap();
    assert_eq!(thread_id.kind, NodeType::Field { value: 5 });
}

#[test]
fn pvss_product_lookup() {
    let data = type6_record_bytes();
    let header = Header::from_slice(&data).unwrap().unwrap();

    let mut cm = empty_cm();
    cm.add_target_info(
        0x7A,
        TargetInfo {
            product: "LCF".to_string(),
            variant: "XCC".to_string(),
            die_id: vec![],
        },
    );
    let pvss = header.pvss(&cm).unwrap();
    assert_eq!(pvss.product, "LCF");
    assert_eq!(pvss.variant, "XCC");
    assert_eq!(pvss.silicon, "all");

    // An unknown product other than zero has no collateral key.
    let anonymous = empty_cm();
    assert!(matches!(
        header.pvss(&anonymous),
        Err(Error::InvalidProductID(0x7A))
    ));

    let zero_header = Header::default();
    let pvss = zero_header.pvss(&anonymous).unwrap();
    assert_eq!(pvss.product, "all");
}
