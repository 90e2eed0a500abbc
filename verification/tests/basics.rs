use pixelbot::access::{has_role, is_elder};
use pixelbot::clock::now_secs;
use pixelbot::config::{choose_db_path, Config};
use pixelbot::game::Game;
use pixelbot::text::{decimal_text, join_with, text_of_bytes, trimmed_string};

#[test]
fn partition_keys_and_names() {
    assert_eq!(Game::NexusStation.partition_key(), "igns_nexus_station");
    assert_eq!(Game::PixelWorlds.partition_key(), "igns_pixel_worlds");
    assert_eq!(Game::NexusStation.display(), "Nexus Station");
    assert_eq!(Game::PixelWorlds.display(), "Pixel Worlds");
}

#[test]
fn games_listed_in_order() {
    assert_eq!(Game::all(), vec![Game::NexusStation, Game::PixelWorlds]);
}

#[test]
fn decimal_rendering() {
    assert_eq!(decimal_text(0), "0");
    assert_eq!(decimal_text(7), "7");
    assert_eq!(decimal_text(10), "10");
    assert_eq!(decimal_text(1234567890), "1234567890");
    assert_eq!(decimal_text(u64::MAX as u128), u64::MAX.to_string());
}

#[test]
fn joining_lines() {
    let lines = vec!["a".to_string(), "bc".to_string(), "".to_string()];
    assert_eq!(join_with(&lines, "\n"), "a\nbc\n");
    assert_eq!(join_with(&vec![], ", "), "");
    assert_eq!(join_with(&vec!["x".to_string()], ", "), "x");
}

#[test]
fn trimming_white_space() {
    assert_eq!(trimmed_string("  hello world \t\n"), "hello world");
    assert_eq!(trimmed_string("\u{3000}x\u{a0}"), "x");
    assert_eq!(trimmed_string("   "), "");
    assert_eq!(trimmed_string("a b"), "a b");
}

#[test]
fn lossy_decoding() {
    assert_eq!(text_of_bytes(&"Grüße".as_bytes().to_vec()), "Grüße");
    assert_eq!(text_of_bytes(&vec![b'a', 0xff, b'b']), "a\u{fffd}b");
}

#[test]
fn role_checks() {
    assert!(has_role(&vec![1, 2, 3], 2));
    assert!(!has_role(&vec![1, 2, 3], 4));
    assert!(!has_role(&vec![], 4));
    assert!(is_elder(&Some(vec![10, 20]), 20));
    assert!(!is_elder(&Some(vec![10, 21]), 20));
    assert!(!is_elder(&None, 20));
}

#[test]
fn db_path_precedence() {
    let cli = Some("cli.db".to_string());
    let cfg = Some("cfg.db".to_string());
    assert_eq!(choose_db_path(&cli, &cfg), "cli.db");
    assert_eq!(choose_db_path(&None, &cfg), "cfg.db");
    assert_eq!(choose_db_path(&None, &None), "./pixelbot.db");
}

#[test]
fn config_holds_settings() {
    let c = Config {
        token: "t".to_string(),
        guild_id: Some(5),
        member_role_id: 1,
        elder_role_id: 2,
        db_path: None,
        polling_channel_id: 3,
    };
    assert_eq!(c.clone().guild_id, Some(5));
    assert_eq!(c.polling_channel_id, 3);
}

#[test]
fn clock_reads_after_epoch() {
    let now = now_secs().expect("clock after the epoch");
    assert!(now > 1_600_000_000);
}
