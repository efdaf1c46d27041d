use ps3_redump_downloader::config::Config;
use ps3_redump_downloader::keys::KeyIndex;
use ps3_redump_downloader::models::Game;
use ps3_redump_downloader::scraper::{filter_games, Scraper};

const PAGE: &str = r#"<html><body><table><thead><tr><th>Name</th></tr></thead><tbody>
<tr><td class="link"><a href="../">Parent directory/</a></td><td class="size">-</td></tr>
<tr><td class="link"><a href="Example%20Game%20(USA).zip" title="x"> Example Game (USA).zip </a></td><td class="size"> 4.2 GiB </td></tr>
<tr><td class="link"><a href="Other%20(Japan).zip">Other (Japan).zip</a></td></tr>
<tr><td>no link</td></tr>
</tbody></table></body></html>"#;

fn config() -> Config {
    Config {
        ps3_iso_url: "https://example.org/iso/".to_string(),
        ps3_keys_url: "https://example.org/keys/".to_string(),
        list_ps3_files_json_name: "list.json".to_string(),
        external_iso_download: false,
        max_retries: 5,
        delay_between_retries: 5,
        timeout_request: None,
        tmp_folder_name: "~/PS3-Games".to_string(),
        tmp_iso_folder_name: "iso_files".to_string(),
        decryptor_path: "./ps3_decryptor".to_string(),
        decryption_timeout: 300,
    }
}

#[test]
fn key_index_from_page() {
    let index = KeyIndex::from_page(PAGE);
    assert_eq!(index.entries.len(), 2);
    assert_eq!(index.location("Example Game (USA)").unwrap(), "Example Game (USA).zip");
    assert_eq!(index.location("Other (Japan)").unwrap(), "Other (Japan).zip");
}

#[test]
fn games_from_listing_page() {
    let scraper = Scraper::new(&config());
    let games = scraper.games_from_page(PAGE);
    assert_eq!(games.len(), 2);
    assert_eq!(games[0].title, "Example Game (USA).zip");
    assert_eq!(games[0].link, "Example%20Game%20(USA).zip");
    assert_eq!(games[0].size, "4.2 GiB");
    assert_eq!(games[0].region.as_deref(), Some("USA"));
    assert_eq!(games[0].lowercased_title, "example game (usa).zip");
    assert_eq!(games[1].title, "Other (Japan).zip");
    assert_eq!(games[1].size, "Unknown size");
    assert_eq!(games[1].region.as_deref(), Some("Japan"));
}

#[test]
fn region_detection_order() {
    let scraper = Scraper::new(&config());
    assert_eq!(scraper.extract_region_from_title("Game (Europe, Australia)").as_deref(), Some("Europe"));
    assert_eq!(scraper.extract_region_from_title("Game (Japan, Asia)").as_deref(), Some("Japan"));
    assert_eq!(scraper.extract_region_from_title("Game NTSC"), Some("NTSC".to_string()));
    assert_eq!(scraper.extract_region_from_title("Game (Korea)"), None);
}

#[test]
fn search_matches_every_word() {
    let games = vec![
        Game::new_ps3("Example Game (USA).zip".into(), "a".into(), "1".into(), None),
        Game::new_ps3("Other Game (Japan).zip".into(), "b".into(), "1".into(), None),
        Game::new_ps3("Example Sequel (Europe).zip".into(), "c".into(), "1".into(), None),
    ];
    let found = filter_games(&games, "  EXAMPLE   game ");
    assert_eq!(found.len(), 1);
    assert_eq!(found[0].link, "a");
    assert_eq!(filter_games(&games, "example").len(), 2);
    assert_eq!(filter_games(&games, "").len(), 3);
    assert_eq!(filter_games(&games, "zzz").len(), 0);
}

#[test]
fn sort_by_search_title_is_stable() {
    let scraper = Scraper::new(&config());
    let games = vec![
        Game::new_ps3("beta.zip".into(), "1".into(), "1".into(), None),
        Game::new_ps3("Alpha.zip".into(), "2".into(), "1".into(), None),
        Game::new_ps3("BETA.zip".into(), "3".into(), "1".into(), None),
        Game::new_ps3("alph.zip".into(), "4".into(), "1".into(), None),
    ];
    let sorted = scraper.sorted_games(games);
    let links: Vec<&str> = sorted.iter().map(|g| g.link.as_str()).collect();
    assert_eq!(links, vec!["4", "2", "1", "3"]);
}
