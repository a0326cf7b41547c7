use pvz_mod_loader::pak::{PakError, PakManager, PakRecord, CYPHER_BYTE, END_FLAG, ENTRY_FLAG};

const MAGIC: [u8; 8] = [0xC0, 0x4A, 0xC0, 0xBA, 0x00, 0x00, 0x00, 0x00];

fn record(name: &[u8], filetime: [u8; 8], data: &[u8]) -> PakRecord {
    PakRecord { name: name.to_vec(), filetime, data: data.to_vec() }
}

fn plain(stored: &[u8]) -> Vec<u8> {
    stored.iter().map(|b| b ^ 0xF7).collect()
}

fn stored(plain: &[u8]) -> Vec<u8> {
    plain.iter().map(|b| b ^ 0xF7).collect()
}

fn sample() -> PakManager {
    PakManager {
        records: vec![
            record(b"images\\sun.png", [1, 2, 3, 4, 5, 6, 7, 8], &[0xDE, 0xAD, 0xBE, 0xEF]),
            record(b"properties\\resources.xml", [0xFF; 8], b"<ResourceManifest></ResourceManifest>"),
            record(b"empty.txt", [0; 8], &[]),
            record(b"images\\sun.png", [9, 9, 9, 9, 9, 9, 9, 9], &[0x00, 0xF7, 0x80]),
        ],
    }
}

#[test]
fn format_constants() {
    assert_eq!(CYPHER_BYTE, 0xF7);
    assert_eq!(ENTRY_FLAG, 0x00);
    assert_eq!(END_FLAG, 0x80);
}

#[test]
fn empty_archive() {
    let bytes = PakManager { records: vec![] }.to_bytes().unwrap();
    assert_eq!(plain(&bytes), vec![0xC0, 0x4A, 0xC0, 0xBA, 0x00, 0x00, 0x00, 0x00, 0x80]);
    assert_eq!(bytes, vec![0x37, 0xBD, 0x37, 0x4D, 0xF7, 0xF7, 0xF7, 0xF7, 0x77]);
    assert_eq!(bytes.len(), 9);
    let back = PakManager::from_bytes(&bytes).unwrap();
    assert!(back.records.is_empty());
}

#[test]
fn default_archive_is_empty() {
    let archive = PakManager::default();
    assert!(archive.records.is_empty());
    assert_eq!(archive.to_bytes().unwrap().len(), 9);
}

#[test]
fn single_record() {
    let archive = PakManager { records: vec![record(b"a", [0; 8], &[0x01, 0x02, 0x03])] };
    let bytes = archive.to_bytes().unwrap();
    let expected: Vec<u8> = vec![
        0xC0, 0x4A, 0xC0, 0xBA, 0x00, 0x00, 0x00, 0x00, // magic
        0x00, 0x01, b'a', 0x03, 0x00, 0x00, 0x00, 0x00, 0x00, 0x00, 0x00, 0x00, 0x00, 0x00,
        0x00, // record header
        0x80, // end flag
        0x01, 0x02, 0x03, // payload
    ];
    assert_eq!(plain(&bytes), expected);
    assert_eq!(bytes.len(), 9 + 14 + 1 + 3);
    assert_eq!(bytes, stored(&expected));
}

#[test]
fn two_records_preserve_order() {
    let archive = PakManager {
        records: vec![record(b"b", [0; 8], &[0x10]), record(b"a", [0; 8], &[0x20])],
    };
    let back = PakManager::from_bytes(&archive.to_bytes().unwrap()).unwrap();
    assert_eq!(back.records.len(), 2);
    assert_eq!(back.records[0].name, b"b".to_vec());
    assert_eq!(back.records[0].data, vec![0x10]);
    assert_eq!(back.records[1].name, b"a".to_vec());
    assert_eq!(back.records[1].data, vec![0x20]);
}

#[test]
fn truncated_payload() {
    let archive = PakManager { records: vec![record(b"a", [0; 8], &[0x01, 0x02, 0x03])] };
    let mut bytes = archive.to_bytes().unwrap();
    bytes.pop();
    assert_eq!(PakManager::from_bytes(&bytes), Err(PakError::Truncated));
}

#[test]
fn name_of_255_bytes_round_trips() {
    let name = vec![b'n'; 255];
    let archive = PakManager { records: vec![record(&name, [7; 8], &[1, 2])] };
    let bytes = archive.to_bytes().unwrap();
    assert_eq!(bytes[9] ^ 0xF7, 0xFF);
    assert_eq!(bytes.len(), 9 + 14 + 255 + 2);
    assert_eq!(PakManager::from_bytes(&bytes), Ok(archive));
}

#[test]
fn name_of_256_bytes_is_rejected() {
    let name = vec![b'n'; 256];
    let archive = PakManager { records: vec![record(&name, [7; 8], &[1, 2])] };
    assert_eq!(archive.to_bytes(), Err(PakError::NameTooLong));
}

#[test]
fn first_unfit_record_decides_the_error() {
    let archive = PakManager {
        records: vec![
            record(b"fine", [0; 8], &[1]),
            record(&vec![b'x'; 300], [0; 8], &[2]),
            record(b"also fine", [0; 8], &[3]),
        ],
    };
    assert_eq!(archive.to_bytes(), Err(PakError::NameTooLong));
}

#[test]
fn round_trip() {
    let archive = sample();
    let bytes = archive.to_bytes().unwrap();
    let back = PakManager::from_bytes(&bytes).unwrap();
    assert_eq!(back, archive);
    assert_eq!(back.records[0].filetime, [1, 2, 3, 4, 5, 6, 7, 8]);
    assert_eq!(back.records[3].data, vec![0x00, 0xF7, 0x80]);
    assert_eq!(back.to_bytes().unwrap(), bytes);
}

#[test]
fn empty_name_round_trips() {
    let archive = PakManager { records: vec![record(b"", [3; 8], &[5, 6])] };
    let bytes = archive.to_bytes().unwrap();
    assert_eq!(bytes.len(), 9 + 14 + 2);
    assert_eq!(PakManager::from_bytes(&bytes), Ok(archive));
}

#[test]
fn header_gate() {
    let good = sample().to_bytes().unwrap();
    for i in 0..8 {
        let mut bad = good.clone();
        bad[i] ^= 0x01;
        assert_eq!(PakManager::from_bytes(&bad), Err(PakError::MalformedHeader));
    }
    assert_eq!(PakManager::from_bytes(&MAGIC), Err(PakError::MalformedHeader));
    assert_eq!(PakManager::from_bytes(&[0x12; 40]), Err(PakError::MalformedHeader));
}

#[test]
fn short_input_is_a_malformed_header() {
    assert_eq!(PakManager::from_bytes(&[]), Err(PakError::MalformedHeader));
    let good = sample().to_bytes().unwrap();
    for len in 0..8 {
        assert_eq!(PakManager::from_bytes(&good[..len]), Err(PakError::MalformedHeader));
    }
}

#[test]
fn obfuscation() {
    let archive = sample();
    let bytes = archive.to_bytes().unwrap();
    let mut layout: Vec<u8> = MAGIC.to_vec();
    for r in &archive.records {
        layout.push(0x00);
        layout.push(r.name.len() as u8);
        layout.extend_from_slice(&r.name);
        layout.extend_from_slice(&(r.data.len() as u32).to_le_bytes());
        layout.extend_from_slice(&r.filetime);
    }
    layout.push(0x80);
    for r in &archive.records {
        layout.extend_from_slice(&r.data);
    }
    assert_eq!(bytes.len(), layout.len());
    for i in 0..bytes.len() {
        assert_eq!(bytes[i] ^ 0xF7, layout[i]);
    }
}

#[test]
fn framing() {
    let empty = PakManager { records: vec![] }.to_bytes().unwrap();
    assert_eq!(empty[8] ^ 0xF7, 0x80);
    let full = sample().to_bytes().unwrap();
    assert_eq!(full[8] ^ 0xF7, 0x00);
}

#[test]
fn size_law() {
    let archive = sample();
    let expected: usize =
        9 + archive.records.iter().map(|r| 14 + r.name.len() + r.data.len()).sum::<usize>();
    assert_eq!(archive.to_bytes().unwrap().len(), expected);
    assert_eq!(expected, 9 + (14 + 14 + 4) + (14 + 24 + 37) + (14 + 9) + (14 + 14 + 3));
}

#[test]
fn payload_length_is_little_endian() {
    let archive = PakManager { records: vec![record(b"k", [0; 8], &vec![0xAA; 0x0102])] };
    let bytes = plain(&archive.to_bytes().unwrap());
    assert_eq!(&bytes[11..15], &[0x02, 0x01, 0x00, 0x00]);
    let back = PakManager::from_bytes(&stored(&bytes)).unwrap();
    assert_eq!(back.records[0].data.len(), 0x0102);
}

#[test]
fn filetime_is_carried_verbatim() {
    let stamp = [0x80, 0x3E, 0xD5, 0xDE, 0xB1, 0x9D, 0x01, 0x00];
    let archive = PakManager { records: vec![record(b"t", stamp, &[])] };
    let bytes = plain(&archive.to_bytes().unwrap());
    assert_eq!(&bytes[15..23], &stamp);
    let back = PakManager::from_bytes(&stored(&bytes)).unwrap();
    assert_eq!(back.records[0].filetime, stamp);
}

#[test]
fn missing_flag_is_truncated() {
    assert_eq!(PakManager::from_bytes(&stored(&MAGIC)), Err(PakError::Truncated));
}

#[test]
fn malformed_flag() {
    let mut layout = MAGIC.to_vec();
    layout.push(0x01);
    assert_eq!(PakManager::from_bytes(&stored(&layout)), Err(PakError::MalformedFlag));

    let archive = PakManager { records: vec![record(b"a", [0; 8], &[1])] };
    let mut bytes = plain(&archive.to_bytes().unwrap());
    assert_eq!(bytes[23], 0x80);
    bytes[23] = 0x7F;
    assert_eq!(PakManager::from_bytes(&stored(&bytes)), Err(PakError::MalformedFlag));
}

#[test]
fn truncated_anywhere_in_the_headers() {
    let archive = PakManager { records: vec![record(b"abc", [4; 8], &[1, 2])] };
    let bytes = archive.to_bytes().unwrap();
    assert_eq!(bytes.len(), 9 + 14 + 3 + 2);
    for len in 8..bytes.len() {
        assert_eq!(PakManager::from_bytes(&bytes[..len]), Err(PakError::Truncated), "at {}", len);
    }
    assert!(PakManager::from_bytes(&bytes).is_ok());
}

#[test]
fn bytes_behind_the_last_payload_are_ignored() {
    let archive = sample();
    let mut bytes = archive.to_bytes().unwrap();
    bytes.extend_from_slice(&[0x11, 0x22, 0x33]);
    assert_eq!(PakManager::from_bytes(&bytes), Ok(archive));
}

#[test]
fn payloads_follow_the_end_flag_in_record_order() {
    let mut layout = MAGIC.to_vec();
    layout.extend_from_slice(&[0x00, 0x01, b'x', 0x02, 0, 0, 0, 1, 1, 1, 1, 1, 1, 1, 1]);
    layout.extend_from_slice(&[0x00, 0x01, b'y', 0x01, 0, 0, 0, 2, 2, 2, 2, 2, 2, 2, 2]);
    layout.push(0x80);
    layout.extend_from_slice(&[0xA1, 0xA2, 0xB1]);
    let archive = PakManager::from_bytes(&stored(&layout)).unwrap();
    assert_eq!(
        archive.records,
        vec![record(b"x", [1; 8], &[0xA1, 0xA2]), record(b"y", [2; 8], &[0xB1])]
    );
}
