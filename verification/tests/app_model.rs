//! Errors, configuration, paths, state selection, and selector choice.

use yt_chill::config::merge_config;
use yt_chill::error::{ErrorCode, YtChillError};
use yt_chill::paths::{get_config_path, get_history_path, get_subscriptions_path};
use yt_chill::player::build_video_url;
use yt_chill::selector::{
    create_selector, detect_selector, parse_selection_index, DialoguerSelector, Selector,
};
use yt_chill::strings::usize_to_string;
use yt_chill::types::{
    determine_initial_state, AppState, CliOptions, Config, PlayerType, SelectorType,
};

#[test]
fn test_error_codes() {
    assert_eq!(YtChillError::Network("x".to_string()).code(), ErrorCode::NetworkError);
    assert_eq!(
        YtChillError::YouTubeParse("x".to_string()).code(),
        ErrorCode::YouTubeParseError
    );
    assert_eq!(
        YtChillError::MissingDependency("mpv".to_string()).code(),
        ErrorCode::MissingDependency
    );
    assert_eq!(YtChillError::NoResults.code(), ErrorCode::NoResults);
    assert_eq!(YtChillError::NoSelection.code(), ErrorCode::NoSelection);
    assert_eq!(YtChillError::InvalidConfig("x".to_string()).code(), ErrorCode::InvalidConfig);
    assert_eq!(YtChillError::File("x".to_string()).code(), ErrorCode::FileError);
    assert_eq!(YtChillError::Spawn("x".to_string()).code(), ErrorCode::SpawnError);
    assert_eq!(YtChillError::Http("x".to_string()).code(), ErrorCode::NetworkError);
    assert_eq!(YtChillError::Json("x".to_string()).code(), ErrorCode::YouTubeParseError);
}

#[test]
fn test_config_defaults() {
    let c = Config::default();
    assert_eq!(c.limit, 15);
    assert!(!c.video_mode);
    assert!(c.download_dir.is_empty());
    assert_eq!(c.max_history_entries, 100);
    assert_eq!(c.editor, "nvim");
    assert_eq!(c.player, PlayerType::Mpv);
    assert_eq!(c.selector, SelectorType::Fzf);
    assert!(c.notify);
}

#[test]
fn test_merge_config_download_dir_fallback() {
    let mut user = Config::default();
    user.limit = 7;
    let merged = merge_config(user, "/home/user/Downloads".to_string());
    assert_eq!(merged.limit, 7);
    assert_eq!(merged.download_dir, "/home/user/Downloads");

    let mut user2 = Config::default();
    user2.download_dir = "/custom".to_string();
    let merged2 = merge_config(user2, "/home/user/Downloads".to_string());
    assert_eq!(merged2.download_dir, "/custom");
}

fn options(history: bool, feed: bool, subscribe: bool) -> CliOptions {
    CliOptions {
        video: false,
        download: false,
        history,
        feed,
        subscribe,
        syncplay: false,
        limit: 15,
        copy_url: false,
        edit: false,
    }
}

#[test]
fn test_determine_initial_state_precedence() {
    assert_eq!(determine_initial_state(&options(true, true, true), true), AppState::History);
    assert_eq!(determine_initial_state(&options(false, true, true), true), AppState::Feed);
    assert_eq!(
        determine_initial_state(&options(false, false, true), true),
        AppState::Subscribe
    );
    assert_eq!(determine_initial_state(&options(false, false, false), true), AppState::Search);
    assert_eq!(determine_initial_state(&options(false, false, false), false), AppState::Init);
}

#[test]
fn test_paths() {
    assert_eq!(get_history_path("/c/yt"), "/c/yt/history.json");
    assert_eq!(get_config_path("/cfg/yt"), "/cfg/yt/config.json");
    assert_eq!(get_subscriptions_path("/cfg/yt"), "/cfg/yt/subscriptions.txt");
}

#[test]
fn test_build_video_url() {
    assert_eq!(build_video_url("dQw4w9WgXcQ"), "https://www.youtube.com/watch?v=dQw4w9WgXcQ");
}

#[test]
fn test_selector_choice() {
    assert_eq!(detect_selector(true), SelectorType::Fzf);
    assert_eq!(detect_selector(false), SelectorType::Dialoguer);
    assert!(matches!(create_selector(SelectorType::Fzf, true), Selector::Fzf(_)));
    assert!(matches!(create_selector(SelectorType::Fzf, false), Selector::Dialoguer(_)));
    assert!(matches!(create_selector(SelectorType::Rofi, true), Selector::Dialoguer(_)));
    assert!(matches!(
        create_selector(SelectorType::Dialoguer, true),
        Selector::Dialoguer(_)
    ));
    assert!(DialoguerSelector::new().is_available());
    assert!(create_selector(SelectorType::Fzf, true).is_available(true));
    assert!(!create_selector(SelectorType::Fzf, true).is_available(false));
}

#[test]
fn test_parse_selection_index() {
    assert_eq!(parse_selection_index("2\tSome Label", 5), Some(2));
    assert_eq!(parse_selection_index("0\tFirst", 1), Some(0));
    assert_eq!(parse_selection_index("7", 10), Some(7));
    // out of range, malformed, or empty lines select nothing
    assert_eq!(parse_selection_index("5\tLabel", 5), None);
    assert_eq!(parse_selection_index("x\tLabel", 5), None);
    assert_eq!(parse_selection_index("", 5), None);
}

#[test]
fn test_usize_to_string() {
    assert_eq!(usize_to_string(0), "0");
    assert_eq!(usize_to_string(7), "7");
    assert_eq!(usize_to_string(10050), "10050");
}
