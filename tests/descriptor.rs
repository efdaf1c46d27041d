use ps3_redump_downloader::sfo::{descriptor_file_name, renamed_file_name, Sfo};

/// Builds a descriptor block from (key, format, value bytes) entries.
fn block(entries: &[(&str, u16, &[u8])]) -> Vec<u8> {
    let mut keys: Vec<u8> = Vec::new();
    let mut data: Vec<u8> = Vec::new();
    let mut index: Vec<u8> = Vec::new();
    for (k, fmt, v) in entries {
        index.extend_from_slice(&(keys.len() as u16).to_le_bytes());
        index.extend_from_slice(&fmt.to_le_bytes());
        index.extend_from_slice(&(v.len() as u32).to_le_bytes());
        index.extend_from_slice(&(v.len() as u32).to_le_bytes());
        index.extend_from_slice(&(data.len() as u32).to_le_bytes());
        keys.extend_from_slice(k.as_bytes());
        keys.push(0);
        data.extend_from_slice(v);
    }
    let key_start = 20 + index.len();
    let data_start = key_start + keys.len();
    let mut out = vec![0u8, b'P', b'S', b'F', 1, 1, 0, 0];
    out.extend_from_slice(&(key_start as u32).to_le_bytes());
    out.extend_from_slice(&(data_start as u32).to_le_bytes());
    out.extend_from_slice(&(entries.len() as u32).to_le_bytes());
    out.extend_from_slice(&index);
    out.extend_from_slice(&keys);
    out.extend_from_slice(&data);
    out
}

#[test]
fn sfo_reads_string_entries() {
    let b = block(&[
        ("TITLE_ID", 516, b"BLUS12345\0\0\0"),
        ("TITLE", 516, b"Example Game: Deluxe\0"),
        ("VERSION", 1028, &[1, 0, 0, 0]),
    ]);
    let sfo = Sfo::from_bytes(&b).expect("valid block");
    assert_eq!(sfo.entries.len(), 2);
    assert_eq!(sfo.get("TITLE_ID").map(|s| s.as_str()), Some("BLUS12345"));
    assert_eq!(sfo.get("TITLE").map(|s| s.as_str()), Some("Example Game: Deluxe"));
    assert_eq!(sfo.get("VERSION"), None);
}

#[test]
fn sfo_later_entry_wins() {
    let b = block(&[("TITLE", 516, b"First\0"), ("TITLE", 516, b"Second\0")]);
    let sfo = Sfo::from_bytes(&b).unwrap();
    assert_eq!(sfo.get("TITLE").unwrap(), "Second");
}

#[test]
fn sfo_rejects_bad_magic_and_short_input() {
    let mut b = block(&[("TITLE", 516, b"X\0")]);
    b[1] = b'Q';
    assert!(Sfo::from_bytes(&b).is_none());
    assert!(Sfo::from_bytes(&[0, b'P', b'S', b'F']).is_none());
    assert!(Sfo::from_bytes(&[]).is_none());
}

#[test]
fn sfo_rejects_entry_outside_buffer() {
    let mut b = block(&[("TITLE", 516, b"Game\0")]);
    // claim a second entry that the buffer cannot hold
    b[16] = 200;
    assert!(Sfo::from_bytes(&b).is_none());
    let mut c = block(&[("TITLE", 516, b"Game\0")]);
    let n = c.len();
    c.truncate(n - 2);
    assert!(Sfo::from_bytes(&c).is_none());
}

#[test]
fn sfo_skips_invalid_utf8_value() {
    let b = block(&[("TITLE", 516, &[0xff, 0xfe, 0]), ("TITLE_ID", 516, b"ABC\0")]);
    let sfo = Sfo::from_bytes(&b).unwrap();
    assert_eq!(sfo.get("TITLE"), None);
    assert_eq!(sfo.get("TITLE_ID").unwrap(), "ABC");
}

#[test]
fn descriptor_name_is_sanitized() {
    let b = block(&[("TITLE_ID", 516, b"BLUS12345\0"), ("TITLE", 516, b"Example Game: Deluxe\0")]);
    assert_eq!(descriptor_file_name(&b).unwrap(), "BLUS12345-Example_Game__Deluxe.iso");
}

#[test]
fn descriptor_missing_key_gives_no_name() {
    let b = block(&[("TITLE", 516, b"Example\0")]);
    assert_eq!(descriptor_file_name(&b), None);
    assert_eq!(renamed_file_name(Some(&b), "example.iso"), "example.iso");
}

#[test]
fn descriptor_fallback_keeps_name() {
    let junk = b"this payload has no descriptor block".to_vec();
    assert_eq!(renamed_file_name(Some(&junk), "example.iso"), "example.iso");
    assert_eq!(renamed_file_name(None, "example.iso"), "example.iso");
}

#[test]
fn descriptor_rename_applies() {
    let b = block(&[("TITLE_ID", 516, b"BLUS12345\0"), ("TITLE", 516, b"Example Game\0")]);
    assert_eq!(renamed_file_name(Some(&b), "example.iso"), "BLUS12345-Example_Game.iso");
}
