use std::io::Write;

use ps3_redump_downloader::extract::find_payload;
use ps3_redump_downloader::config::Config;
use ps3_redump_downloader::keys::{key_from_package, KeyIndex, KeyManager};
use ps3_redump_downloader::listing::ListingRow;
use ps3_redump_downloader::sfo::renamed_file_name;
use ps3_redump_downloader::supervisor::{check_output, ExitInfo, Poll, SuperviseAction, SuperviseEvent, Supervisor};
use ps3_redump_downloader::transfer::{TransferAction, TransferEvent, TransferState};

fn config() -> Config {
    Config {
        ps3_iso_url: "https://example.org/iso/".to_string(),
        ps3_keys_url: "https://example.org/keys/".to_string(),
        list_ps3_files_json_name: "list.json".to_string(),
        external_iso_download: false,
        max_retries: 5,
        delay_between_retries: 1,
        timeout_request: None,
        tmp_folder_name: "~/PS3-Games".to_string(),
        tmp_iso_folder_name: "iso_files".to_string(),
        decryptor_path: "./ps3_decryptor".to_string(),
        decryption_timeout: 300,
    }
}

fn zip_of(name: &str, content: &[u8]) -> Vec<u8> {
    let mut w = zip::ZipWriter::new(std::io::Cursor::new(Vec::new()));
    let opts = zip::write::SimpleFileOptions::default().compression_method(zip::CompressionMethod::Stored);
    w.start_file(name, opts).unwrap();
    w.write_all(content).unwrap();
    w.finish().unwrap().into_inner()
}

#[test]
fn end_to_end_acquisition() {
    // key resolution
    let key_text = "0123456789abcdef0123456789abcdef";
    let rows = vec![ListingRow { title: Some("BLUS12345.zip".into()), href: Some("BLUS12345.zip".into()), size: None }];
    let index = KeyIndex::from_listing(&rows);
    let km = KeyManager::new(&config());
    assert_eq!(km.package_url(&index, "BLUS12345").unwrap(), "https://example.org/keys/BLUS12345.zip");
    let package = zip_of("BLUS12345.key", key_text.as_bytes());
    assert_eq!(key_from_package(&package).unwrap(), key_text);

    // transfer interrupted at 4000 bytes, then resumed
    let source: Vec<u8> = (0..10_000u32).map(|i| (i % 251) as u8).collect();
    let mut file: Vec<u8> = Vec::new();
    let mut state = TransferState::new(Some(10_000), 5, 1);
    let mut requests = 0;
    let mut interrupted = false;
    let mut event = TransferEvent::Ready { on_disk: 0 };
    loop {
        match state.step(event) {
            TransferAction::Request { write_at, range } => {
                requests += 1;
                let r = range.unwrap();
                assert_eq!(write_at as usize, file.len());
                let mut end = r.last as usize + 1;
                if !interrupted {
                    end = 4000;
                }
                file.extend_from_slice(&source[r.first as usize..end]);
                event = if interrupted { TransferEvent::Completed } else { TransferEvent::Failed };
                interrupted = true;
            }
            TransferAction::Sleep { .. } => event = TransferEvent::Ready { on_disk: file.len() as u64 },
            TransferAction::Finished => break,
            TransferAction::Fail(e) => panic!("transfer failed: {:?}", e),
        }
    }
    assert_eq!(requests, 2);
    assert_eq!(file, source);

    // extraction yields the payload
    let names = vec!["staging/readme.txt".to_string(), "staging/example.iso".to_string()];
    assert_eq!(find_payload(&names), Some(1));

    // decryption grows the output to the input's size and exits successfully
    let input_size = 10_000u64;
    let mut sup = Supervisor::new(input_size, 300, 20);
    for (k, size) in [2_000u64, 5_000, 9_000].iter().enumerate() {
        let a = sup.step(SuperviseEvent::Polled(Poll { exited: None, output_size: Some(*size), elapsed_ms: 500 * k as u64 }));
        assert_eq!(a, SuperviseAction::Continue { progress: *size, indeterminate: false });
    }
    let done = SuperviseEvent::Polled(Poll {
        exited: Some(ExitInfo { success: true, code: Some(0) }),
        output_size: Some(input_size),
        elapsed_ms: 2000,
    });
    assert_eq!(sup.step(done), SuperviseAction::Succeeded { progress: input_size });
    assert_eq!(check_output(Some(input_size), input_size), Ok(false));

    // no descriptor block: the name stays
    assert_eq!(renamed_file_name(None, "example.iso"), "example.iso");
}
