use ps3_redump_downloader::config::{expand_tilde, path_join, Config, ConfigError};
use ps3_redump_downloader::pipeline::{next_stage, Downloader, Stage};
use ps3_redump_downloader::models::Game;
use ps3_redump_downloader::utils::{check_folder, setup_folders, FolderError};

fn config() -> Config {
    Config {
        ps3_iso_url: "https://example.org/iso/".to_string(),
        ps3_keys_url: "https://example.org/keys/".to_string(),
        list_ps3_files_json_name: "list.json".to_string(),
        external_iso_download: false,
        max_retries: 5,
        delay_between_retries: 5,
        timeout_request: None,
        tmp_folder_name: "~/PS3-Games".to_string(),
        tmp_iso_folder_name: "iso_files".to_string(),
        decryptor_path: "./ps3_decryptor".to_string(),
        decryption_timeout: 300,
    }
}

#[test]
fn tilde_and_join() {
    assert_eq!(expand_tilde("~/PS3-Games", Some("/home/u")), "/home/u/PS3-Games");
    assert_eq!(expand_tilde("~/PS3-Games", None), "~/PS3-Games");
    assert_eq!(expand_tilde("/abs", Some("/home/u")), "/abs");
    assert_eq!(path_join("/a/", "b"), "/a/b");
    assert_eq!(path_join("/a", "/b"), "/b");
    assert_eq!(path_join("", "b"), "b");
}

#[test]
fn config_paths() {
    let c = config();
    let h = Some("/home/u");
    assert_eq!(c.tmp_folder_path(h), "/home/u/PS3-Games");
    assert_eq!(c.tmp_iso_folder_path(h), "/home/u/PS3-Games/iso_files");
    assert_eq!(c.list_ps3_json_path(h), "/home/u/PS3-Games/list.json");
    assert_eq!(c.keys_folder_path(h), "/home/u/PS3-Games/keys");
    assert_eq!(c.decryptor_path(h), "./ps3_decryptor");
}

#[test]
fn config_validation() {
    let mut c = config();
    assert_eq!(c.validate(), Ok(()));
    c.decryption_timeout = 0;
    assert_eq!(c.validate(), Err(ConfigError::ZeroDecryptionTimeout));
    c.delay_between_retries = 0;
    assert_eq!(c.validate(), Err(ConfigError::ZeroRetryDelay));
    c.max_retries = 0;
    assert_eq!(c.validate(), Err(ConfigError::ZeroMaxRetries));
}

#[test]
fn folders() {
    let f = setup_folders(&config(), Some("/h"));
    assert_eq!(f.len(), 2);
    assert_eq!(f[0].path, "/h/PS3-Games");
    assert_eq!(f[1].path, "/h/PS3-Games/iso_files");
    assert_eq!(f[1].name, "iso_files");
    assert_eq!(check_folder(false, false), Ok(true));
    assert_eq!(check_folder(true, true), Ok(false));
    assert_eq!(check_folder(true, false), Err(FolderError::NotAFolder));
}

#[test]
fn stages_skip_completed_work() {
    assert_eq!(next_stage(Some(10), Some(10)), Stage::Done);
    assert_eq!(next_stage(Some(0), Some(10)), Stage::Decrypt);
    assert_eq!(next_stage(None, Some(0)), Stage::Fetch);
    assert_eq!(next_stage(None, None), Stage::Fetch);
}

#[test]
fn staging_names_and_url() {
    let d = Downloader::new(&config());
    let g = Game::new_ps3("Example Game (USA).zip".into(), "Example%20Game%20(USA).zip".into(), "1".into(), None);
    assert_eq!(d.archive_url(&g), "https://example.org/iso/Example%20Game%20(USA).zip");
    let n = d.staging_names(&g);
    assert_eq!(n.archive, "Example Game (USA).zip");
    assert_eq!(n.payload, "Example Game (USA).iso");
    assert_eq!(n.output, "example-game.iso");
    assert_eq!(d.staging_folder(&g, Some("/h")), "/h/PS3-Games/iso_files/Example Game (USA)");
}
