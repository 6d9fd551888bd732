//! Cache, history, and subscription storage behaviour.

use yt_chill::cache::{
    channel_feed_logical_key, channel_search_logical_key, get_cache_key, get_cached,
    get_cached_channels, video_search_logical_key, CacheLookup, ChannelCacheLookup,
};
use yt_chill::encode::{encode_cache_entry, encode_channel_cache_entry, encode_history};
use yt_chill::history::History;
use yt_chill::youtube::ChannelInfo;
use yt_chill::paths::cache_path;
use yt_chill::subscriptions::{
    add_subscription, load_subscriptions, remove_subscription, save_subscriptions_content,
};
use yt_chill::types::{Subscription, Video};

fn sample_video(id: &str) -> Video {
    Video {
        id: id.to_string(),
        title: format!("Title {}", id),
        author: "Author".to_string(),
        duration: "3:45".to_string(),
        views: "10 views".to_string(),
        published: "today".to_string(),
        thumbnail: "t.jpg".to_string(),
    }
}

#[test]
fn test_cache_key_deterministic() {
    let a = get_cache_key("video:rust:15");
    let b = get_cache_key("video:rust:15");
    assert_eq!(a, b);
    let c = get_cache_key("video:rust:16");
    assert_ne!(a, c);
}

#[test]
fn test_cache_key_known_digest() {
    // the lowercase hex form of the 256-bit digest of "hello"
    assert_eq!(
        get_cache_key("hello"),
        "2cf24dba5fb0a30e26e83b2ac5b9e29e1b161e5c1fa7425e73043362938b9824"
    );
}

#[test]
fn test_logical_keys() {
    assert_eq!(video_search_logical_key("rust talks", 15), "video:rust talks:15");
    assert_eq!(channel_feed_logical_key("@handle", 5), "channel:@handle:5");
    assert_eq!(video_search_logical_key("q", 0), "video:q:0");
}

#[test]
fn test_cache_path_layout() {
    assert_eq!(cache_path("/tmp/cachedir", "abc123"), "/tmp/cachedir/abc123.json");
}

fn entry_content(id: &str, timestamp: i64, ttl: u64) -> String {
    format!(
        "{{\"data\":[{{\"id\":\"{}\",\"title\":\"T\",\"author\":\"A\",\"duration\":\"1:00\",\
         \"views\":\"1 view\",\"published\":\"now\",\"thumbnail\":\"\"}}],\
         \"timestamp\":{},\"ttl\":{}}}",
        id, timestamp, ttl
    )
}

#[test]
fn test_cache_round_trip_within_ttl() {
    let content = entry_content("vid", 1000, 3600);
    match get_cached(Some(&content), 1000 + 3600) {
        CacheLookup::Hit(videos) => {
            assert_eq!(videos.len(), 1);
            assert_eq!(videos[0].id, "vid");
            assert_eq!(videos[0].duration, "1:00");
        }
        other => panic!("expected a hit, got {:?}", other),
    }
}

#[test]
fn test_cache_expiry_removes_entry() {
    let content = entry_content("vid", 1000, 3600);
    // one second past the ttl: the entry is reported expired, which tells
    // the caller to delete the backing unit
    assert!(matches!(
        get_cached(Some(&content), 1000 + 3601),
        CacheLookup::Expired
    ));
}

#[test]
fn test_cache_missing_and_corrupt_are_absent() {
    assert!(matches!(get_cached(None, 0), CacheLookup::Absent));
    assert!(matches!(
        get_cached(Some("not json at all"), 0),
        CacheLookup::Absent
    ));
    assert!(matches!(
        get_cached(Some("{\"data\":[],\"timestamp\":\"wrong\",\"ttl\":1}"), 0),
        CacheLookup::Absent
    ));
}

#[test]
fn test_channel_cache_round_trip_and_expiry() {
    let content = "{\"data\":[{\"name\":\"Chan\",\"handle\":\"@chan\"}],\
                   \"timestamp\":500,\"ttl\":60}";
    match get_cached_channels(Some(content), 560) {
        ChannelCacheLookup::Hit(channels) => {
            assert_eq!(channels.len(), 1);
            assert_eq!(channels[0].name, "Chan");
            assert_eq!(channels[0].handle, "@chan");
        }
        other => panic!("expected a hit, got {:?}", other),
    }
    assert!(matches!(
        get_cached_channels(Some(content), 561),
        ChannelCacheLookup::Expired
    ));
    assert!(matches!(get_cached_channels(None, 0), ChannelCacheLookup::Absent));
    assert_eq!(channel_search_logical_key("jazz", 10), "channels:jazz:10");
}

#[test]
fn test_encoded_cache_entry_reads_back() {
    let videos = vec![sample_video("one"), sample_video("two")];
    let entry = yt_chill::cache::make_cache_entry(videos.clone(), 700, 60);
    let text = encode_cache_entry(&entry);
    match get_cached(Some(&text), 760) {
        CacheLookup::Hit(read) => assert_eq!(read, videos),
        other => panic!("expected a hit, got {:?}", other),
    }
}

#[test]
fn test_encoded_cache_entry_escapes_text() {
    let mut v = sample_video("esc");
    v.title = "A \"quoted\" \\ title\twith\ncontrol \u{1} chars".to_string();
    let entry = yt_chill::cache::make_cache_entry(vec![v.clone()], 0, 60);
    let text = encode_cache_entry(&entry);
    assert!(text.contains("\\\"quoted\\\""));
    assert!(text.contains("\\u0001"));
    match get_cached(Some(&text), 0) {
        CacheLookup::Hit(read) => assert_eq!(read[0].title, v.title),
        other => panic!("expected a hit, got {:?}", other),
    }
}

#[test]
fn test_encoded_history_loads_back() {
    let mut h = History::new("/tmp/history.json", 10);
    h.add(&sample_video("a"), -5);
    h.add(&sample_video("b"), 7);
    let text = encode_history(h.get_all());
    let mut h2 = History::new("/tmp/history.json", 10);
    h2.load(Some(&text));
    assert_eq!(h2.get_all(), h.get_all());
    assert_eq!(encode_history(&vec![]), "[]");
}

#[test]
fn test_encoded_channel_cache_entry_reads_back() {
    let channels = vec![ChannelInfo { name: "N".to_string(), handle: "@n".to_string() }];
    let entry = yt_chill::cache::make_channel_cache_entry(channels.clone(), 10, 20);
    let text = encode_channel_cache_entry(&entry);
    match yt_chill::cache::get_cached_channels(Some(&text), 30) {
        ChannelCacheLookup::Hit(read) => assert_eq!(read, channels),
        other => panic!("expected a hit, got {:?}", other),
    }
}

fn json_str(s: &str) -> serde_json::Value {
    serde_json::Value::String(s.to_string())
}

#[test]
fn test_cache_reads_serde_written_entry() {
    // an entry produced by a JSON serializer, not by a handwritten literal
    let mut video = serde_json::Map::new();
    video.insert("id".to_string(), json_str("sv"));
    video.insert("title".to_string(), json_str("Quote \" and \\ and\nnewline"));
    video.insert("author".to_string(), json_str("A"));
    video.insert("duration".to_string(), json_str("2:00"));
    video.insert("views".to_string(), json_str(""));
    video.insert("published".to_string(), json_str(""));
    video.insert("thumbnail".to_string(), json_str(""));
    let mut entry = serde_json::Map::new();
    entry.insert(
        "data".to_string(),
        serde_json::Value::Array(vec![serde_json::Value::Object(video)]),
    );
    entry.insert("timestamp".to_string(), serde_json::Value::from(100i64));
    entry.insert("ttl".to_string(), serde_json::Value::from(50u64));
    let content = serde_json::to_string(&serde_json::Value::Object(entry)).unwrap();

    match get_cached(Some(&content), 150) {
        CacheLookup::Hit(videos) => {
            assert_eq!(videos[0].id, "sv");
            assert_eq!(videos[0].title, "Quote \" and \\ and\nnewline");
        }
        other => panic!("expected a hit, got {:?}", other),
    }
}

#[test]
fn test_history_bounding() {
    let mut h = History::new("/tmp/history.json", 3);
    for (i, id) in ["a", "b", "c", "d", "e"].iter().enumerate() {
        h.add(&sample_video(id), i as i64);
    }
    let entries = h.get_all();
    assert_eq!(entries.len(), 3);
    assert_eq!(entries[0].video.id, "e");
    assert_eq!(entries[1].video.id, "d");
    assert_eq!(entries[2].video.id, "c");
}

#[test]
fn test_history_dedup_moves_to_front() {
    let mut h = History::new("/tmp/history.json", 10);
    h.add(&sample_video("a"), 1);
    h.add(&sample_video("b"), 2);
    h.add(&sample_video("a"), 3);
    let entries = h.get_all();
    assert_eq!(entries.len(), 2);
    assert_eq!(entries[0].video.id, "a");
    assert_eq!(entries[0].timestamp, 3);
    assert_eq!(entries[1].video.id, "b");
}

#[test]
fn test_history_load_and_clear() {
    let mut h = History::new("/tmp/history.json", 10);
    let content = "[{\"id\":\"x\",\"title\":\"T\",\"author\":\"A\",\"duration\":\"0:10\",\
                   \"views\":\"\",\"published\":\"\",\"thumbnail\":\"\",\"timestamp\":42}]";
    h.load(Some(content));
    assert_eq!(h.get_all().len(), 1);
    assert_eq!(h.get_all()[0].video.id, "x");
    assert_eq!(h.get_all()[0].timestamp, 42);
    h.clear();
    assert!(h.get_all().is_empty());
}

#[test]
fn test_history_load_missing_or_corrupt_is_empty() {
    let mut h = History::new("/tmp/history.json", 10);
    h.add(&sample_video("a"), 1);
    h.load(None);
    assert!(h.get_all().is_empty());
    h.add(&sample_video("a"), 1);
    h.load(Some("{{{ definitely not json"));
    assert!(h.get_all().is_empty());
    // a list with a malformed entry loads as empty, not as a partial list
    h.load(Some("[{\"id\":\"only\"}]"));
    assert!(h.get_all().is_empty());
}

#[test]
fn test_load_subscriptions_skips_malformed_lines() {
    let content = "First\t@first\nmalformed line without tab\nSecond\t@second";
    let subs = load_subscriptions(content);
    assert_eq!(subs.len(), 2);
    assert_eq!(subs[0].name, "First");
    assert_eq!(subs[0].handle, "@first");
    assert_eq!(subs[1].handle, "@second");
}

#[test]
fn test_load_subscriptions_handles_crlf_and_empty() {
    assert!(load_subscriptions("").is_empty());
    let subs = load_subscriptions("A\t@a\r\nB\t@b\n");
    assert_eq!(subs.len(), 2);
    assert_eq!(subs[0].handle, "@a");
    assert_eq!(subs[1].handle, "@b");
}

#[test]
fn test_save_subscriptions_content_layout() {
    let subs = vec![
        Subscription { name: "A".to_string(), handle: "@a".to_string() },
        Subscription { name: "B".to_string(), handle: "@b".to_string() },
    ];
    let content = save_subscriptions_content(&subs);
    assert_eq!(content, "A\t@a\nB\t@b");
    assert!(save_subscriptions_content(&vec![]).is_empty());
    // what was saved loads back unchanged
    assert_eq!(load_subscriptions(&content), subs);
}

#[test]
fn test_subscription_upsert_replaces_name() {
    let subs = vec![
        Subscription { name: "Old".to_string(), handle: "@x".to_string() },
        Subscription { name: "Other".to_string(), handle: "@y".to_string() },
    ];
    let updated = add_subscription(
        &subs,
        &Subscription { name: "New".to_string(), handle: "@x".to_string() },
    );
    assert_eq!(updated.len(), 2);
    assert_eq!(updated[0].handle, "@y");
    assert_eq!(updated[1].name, "New");
    assert_eq!(updated[1].handle, "@x");
}

#[test]
fn test_subscription_add_new_appends() {
    let subs = vec![Subscription { name: "A".to_string(), handle: "@a".to_string() }];
    let updated = add_subscription(
        &subs,
        &Subscription { name: "B".to_string(), handle: "@b".to_string() },
    );
    assert_eq!(updated.len(), 2);
    assert_eq!(updated[1].handle, "@b");
}

#[test]
fn test_subscription_remove() {
    let subs = vec![
        Subscription { name: "A".to_string(), handle: "@a".to_string() },
        Subscription { name: "B".to_string(), handle: "@b".to_string() },
    ];
    let updated = remove_subscription(&subs, "@a");
    assert_eq!(updated.len(), 1);
    assert_eq!(updated[0].handle, "@b");
    let unchanged = remove_subscription(&subs, "@zzz");
    assert_eq!(unchanged.len(), 2);
}
