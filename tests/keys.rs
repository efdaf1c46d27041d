use std::io::Write;

use ps3_redump_downloader::config::Config;
use ps3_redump_downloader::keys::{hex_encode, key_from_package, normalize_key, KeyError, KeyIndex, KeyManager};
use ps3_redump_downloader::listing::ListingRow;

fn package(files: &[(&str, &[u8])]) -> Vec<u8> {
    let mut w = zip::ZipWriter::new(std::io::Cursor::new(Vec::new()));
    let opts = zip::write::SimpleFileOptions::default().compression_method(zip::CompressionMethod::Stored);
    for (name, content) in files {
        w.start_file(*name, opts).unwrap();
        w.write_all(content).unwrap();
    }
    w.finish().unwrap().into_inner()
}

fn config() -> Config {
    Config {
        ps3_iso_url: "https://example.org/iso/".to_string(),
        ps3_keys_url: "https://example.org/keys/".to_string(),
        list_ps3_files_json_name: "list.json".to_string(),
        external_iso_download: false,
        max_retries: 5,
        delay_between_retries: 5,
        timeout_request: None,
        tmp_folder_name: "~/PS3-Games".to_string(),
        tmp_iso_folder_name: "iso_files".to_string(),
        decryptor_path: "./ps3_decryptor".to_string(),
        decryption_timeout: 300,
    }
}

fn row(title: &str, href: &str) -> ListingRow {
    ListingRow { title: Some(title.to_string()), href: Some(href.to_string()), size: None }
}

#[test]
fn hex_text_key_is_lowercased() {
    let k = normalize_key(b"0123456789ABCDEF0123456789abcdef").unwrap();
    assert_eq!(k, "0123456789abcdef0123456789abcdef");
}

#[test]
fn hex_text_key_is_trimmed() {
    let k = normalize_key(b"  0123456789ABCDEF0123456789abcdef\r\n").unwrap();
    assert_eq!(k, "0123456789abcdef0123456789abcdef");
}

#[test]
fn binary_key_is_hex_encoded() {
    let raw: Vec<u8> = (0u8..16).map(|i| i * 17).collect();
    assert_eq!(normalize_key(&raw).unwrap(), "00112233445566778899aabbccddeeff");
    assert_eq!(hex_encode(&[0xde, 0xad, 0x01]), "dead01");
}

#[test]
fn other_content_is_rejected() {
    assert_eq!(normalize_key(b"0123456789abcdef0123456789abcde"), None);
    assert_eq!(normalize_key(b"0123456789abcdef0123456789abcdeg"), None);
    assert_eq!(normalize_key(b""), None);
    assert_eq!(normalize_key(&[1u8; 17]), None);
}

#[test]
fn package_key_is_read() {
    let data = package(&[("readme.txt", b"x"), ("BLUS12345.key", b"00112233445566778899AABBCCDDEEFF")]);
    assert_eq!(key_from_package(&data), Ok("00112233445566778899aabbccddeeff".to_string()));
}

#[test]
fn package_without_key_file_is_invalid() {
    let data = package(&[("readme.txt", b"x")]);
    assert_eq!(key_from_package(&data), Err(KeyError::FormatInvalid));
    assert_eq!(key_from_package(b"not an archive"), Err(KeyError::FormatInvalid));
    let bad = package(&[("a.key", b"short")]);
    assert_eq!(key_from_package(&bad), Err(KeyError::FormatInvalid));
}

#[test]
fn index_from_listing_rows() {
    let rows = vec![
        ListingRow { title: None, href: None, size: None },
        row("Parent directory/", "../"),
        row(" Example Game (USA).zip ", "Example%20Game%20(USA).zip"),
        row("notes.txt", "notes.txt"),
        row("Bad (USA).zip", "Bad%FF.zip"),
    ];
    let index = KeyIndex::from_listing(&rows);
    assert_eq!(index.entries.len(), 2);
    assert_eq!(index.location("Example Game (USA)").unwrap(), "Example Game (USA).zip");
    assert_eq!(index.location("Bad (USA)").unwrap(), "Bad%FF.zip");
    assert_eq!(index.location("notes"), None);
}

#[test]
fn package_url_and_not_found() {
    let index = KeyIndex::from_listing(&vec![row("BLUS12345.zip", "BLUS12345.zip")]);
    let km = KeyManager::new(&config());
    assert_eq!(km.package_url(&index, "BLUS12345").unwrap(), "https://example.org/keys/BLUS12345.zip");
    assert_eq!(km.package_url(&index, "BLUS99999"), Err(KeyError::NotFound));
}
