use ps3_redump_downloader::models::{Game, GameType};

fn game(title: &str) -> Game {
    Game::new_ps3(title.to_string(), "link.zip".to_string(), "1 GB".to_string(), None)
}

#[test]
fn new_game_fields() {
    let g = Game::new_ps3("Example Game (USA).zip".to_string(), "l".to_string(), "2 GB".to_string(), Some("USA".to_string()));
    assert_eq!(g.lowercased_title, "example game (usa).zip");
    assert_eq!(g.game_type, GameType::PS3);
    assert!(g.needs_decryption);
    assert_eq!(g.key, None);
    assert_eq!(g.key_file, None);
    assert_eq!(g.region.as_deref(), Some("USA"));
}

#[test]
fn clean_title_and_id() {
    let g = game("Example Game (USA).zip");
    assert_eq!(g.clean_title(), "Example Game (USA)");
    assert_eq!(g.get_game_id(), "Example Game (USA)");
    assert_eq!(game("a.zip.zip").clean_title(), "a");
}

#[test]
fn with_key_and_key_file() {
    let g = game("A.zip").with_key("k".to_string()).with_key_file("f.key".to_string());
    assert_eq!(g.key.as_deref(), Some("k"));
    assert_eq!(g.key_file.as_deref(), Some("f.key"));
}

#[test]
fn output_name_region_and_main() {
    assert_eq!(game("BLUS12345 - Example Game (USA).zip").output_iso_filename(), "blus12345-example_game.iso");
    assert_eq!(game("Example Game (USA).zip").output_iso_filename(), "example-game.iso");
    assert_eq!(game("Tom Clancy's Splinter Cell, Trilogy: HD (Europe).zip").output_iso_filename(), "tom-clancy_s_splinter_cell_trilogy_hd.iso");
}

#[test]
fn output_name_fallback() {
    assert_eq!(game("Single.zip").output_iso_filename(), "single.iso");
    assert_eq!(game("Game (USA).zip").output_iso_filename(), "game__usa_.iso");
}
