//! Search URL building, extraction, and result parsing.

use std::collections::HashMap;

use yt_chill::cache::{
    evaluate_entry, get_cache_key, make_cache_entry, video_search_logical_key, CacheLookup,
    DEFAULT_TTL,
};
use yt_chill::error::{ErrorCode, YtChillError};
use yt_chill::extract::extract_yt_initial_data;
use yt_chill::json::JsonValue;
use yt_chill::types::{CacheEntry, Video};
use yt_chill::youtube::{
    build_search_url, channel_videos_from_html, channel_videos_query, parse_channel_results,
    parse_search_results, search_channels_from_html, search_videos_from_html,
};

fn video_item(id: &str, title: &str) -> String {
    format!(
        "{{\"videoRenderer\":{{\"videoId\":\"{}\",\"title\":{{\"runs\":[{{\"text\":\"{}\"}}]}},\
         \"longBylineText\":{{\"runs\":[{{\"text\":\"Author of {}\"}}]}},\
         \"lengthText\":{{\"simpleText\":\"3:45\"}},\
         \"viewCountText\":{{\"simpleText\":\"1.2M views\"}},\
         \"publishedTimeText\":{{\"simpleText\":\"2 days ago\"}},\
         \"thumbnail\":{{\"thumbnails\":[{{\"url\":\"small.jpg\"}},{{\"url\":\"large.jpg\"}}]}}}}}}",
        id, title, id
    )
}

fn results_blob(items: &[String]) -> String {
    format!(
        "{{\"contents\":{{\"twoColumnSearchResultsRenderer\":{{\"primaryContents\":\
         {{\"sectionListRenderer\":{{\"contents\":[{{\"itemSectionRenderer\":\
         {{\"contents\":[{}]}}}}]}}}}}}}}}}",
        items.join(",")
    )
}

fn page_with_blob(blob: &str) -> String {
    format!(
        "<html><body><script>var ytInitialData = {};</script></body></html>",
        blob
    )
}

#[test]
fn test_build_search_url() {
    let url = build_search_url("lofi beats", "video");
    assert!(url.contains("search_query=lofi%20beats"));
    assert!(url.contains("sp=EgIQAQ"));
}

#[test]
fn test_build_search_url_channel_filter() {
    let url = build_search_url("some channel", "channel");
    assert!(url.contains("sp=EgIQAg"));
    let url2 = build_search_url("plain", "other");
    assert!(url2.ends_with("&sp="));
}

#[test]
fn test_channel_videos_query() {
    assert_eq!(channel_videos_query("@handle"), "@handle ");
}

#[test]
fn test_extract_finds_embedded_data() {
    let html = page_with_blob("{\"a\":1}");
    let tree = extract_yt_initial_data(&html).unwrap();
    assert!(matches!(tree, JsonValue::Obj(_)));
}

#[test]
fn test_extract_missing_marker() {
    let e = extract_yt_initial_data("<html><body>nothing here</body></html>").unwrap_err();
    assert_eq!(
        e,
        YtChillError::YouTubeParse("Failed to find ytInitialData".to_string())
    );
}

#[test]
fn test_extract_bad_json() {
    let e = extract_yt_initial_data("<script>var ytInitialData = {broken;</script>").unwrap_err();
    assert_eq!(
        e,
        YtChillError::YouTubeParse("Failed to parse ytInitialData".to_string())
    );
}

#[test]
fn test_parse_videos_missing_path_yields_empty() {
    let data = JsonValue::Obj(vec![]);
    let videos = parse_search_results(&data, 10);
    assert!(videos.is_empty());
    let data2 = JsonValue::Null;
    assert!(parse_search_results(&data2, 10).is_empty());
}

#[test]
fn test_parse_video_fields() {
    let html = page_with_blob(&results_blob(&[video_item("id1", "Title One")]));
    let tree = extract_yt_initial_data(&html).unwrap();
    let videos = parse_search_results(&tree, 10);
    assert_eq!(videos.len(), 1);
    let v = &videos[0];
    assert_eq!(v.id, "id1");
    assert_eq!(v.title, "Title One");
    assert_eq!(v.author, "Author of id1");
    assert_eq!(v.duration, "3:45");
    assert_eq!(v.views, "1.2M views");
    assert_eq!(v.published, "2 days ago");
    assert_eq!(v.thumbnail, "large.jpg");
}

#[test]
fn test_parse_video_title_entities_decoded() {
    let html = page_with_blob(&results_blob(&[video_item("id1", "Rock &amp; Roll")]));
    let tree = extract_yt_initial_data(&html).unwrap();
    let videos = parse_search_results(&tree, 10);
    assert_eq!(videos[0].title, "Rock & Roll");
}

#[test]
fn test_parse_video_missing_duration_is_live() {
    let item = "{\"videoRenderer\":{\"videoId\":\"liveid\",\
                \"title\":{\"runs\":[{\"text\":\"Live Now\"}]}}}"
        .to_string();
    let html = page_with_blob(&results_blob(&[item]));
    let tree = extract_yt_initial_data(&html).unwrap();
    let videos = parse_search_results(&tree, 10);
    assert_eq!(videos.len(), 1);
    assert_eq!(videos[0].duration, "LIVE");
    assert_eq!(videos[0].author, "");
    assert_eq!(videos[0].views, "");
    assert_eq!(videos[0].thumbnail, "");
}

#[test]
fn test_parse_video_missing_id_is_dropped() {
    let no_id = "{\"videoRenderer\":{\"title\":{\"runs\":[{\"text\":\"No Id\"}]}}}".to_string();
    let html = page_with_blob(&results_blob(&[no_id, video_item("kept", "Kept")]));
    let tree = extract_yt_initial_data(&html).unwrap();
    let videos = parse_search_results(&tree, 10);
    assert_eq!(videos.len(), 1);
    assert_eq!(videos[0].id, "kept");
}

#[test]
fn test_parse_videos_respects_limit_after_filtering() {
    let ad = "{\"adSlotRenderer\":{\"kind\":\"ad\"}}".to_string();
    let items = vec![
        video_item("a", "A"),
        ad,
        video_item("b", "B"),
        video_item("c", "C"),
    ];
    let html = page_with_blob(&results_blob(&items));
    let tree = extract_yt_initial_data(&html).unwrap();
    let videos = parse_search_results(&tree, 2);
    assert_eq!(videos.len(), 2);
    assert_eq!(videos[0].id, "a");
    assert_eq!(videos[1].id, "b");
}

#[test]
fn test_search_videos_missing_data_is_parse_error_not_no_results() {
    let e = search_videos_from_html("<html>no marker at all</html>", 5).unwrap_err();
    assert_eq!(e.code(), ErrorCode::YouTubeParseError);
    assert!(!matches!(e, YtChillError::NoResults));
}

#[test]
fn test_search_videos_empty_results_is_no_results() {
    let html = page_with_blob(&results_blob(&[]));
    let e = search_videos_from_html(&html, 5).unwrap_err();
    assert!(matches!(e, YtChillError::NoResults));
    assert_eq!(e.code(), ErrorCode::NoResults);
}

#[test]
fn test_search_videos_limit_zero_is_no_results() {
    let html = page_with_blob(&results_blob(&[video_item("a", "A")]));
    let e = search_videos_from_html(&html, 0).unwrap_err();
    assert!(matches!(e, YtChillError::NoResults));
}

#[test]
fn test_channel_videos_empty_is_ok() {
    let html = page_with_blob(&results_blob(&[]));
    let videos = channel_videos_from_html(&html, 5).unwrap();
    assert!(videos.is_empty());
}

fn channel_item(id: &str, name: &str, with_subscribers: bool) -> String {
    let subs = if with_subscribers {
        ",\"subscriberCountText\":{\"simpleText\":\"1M subscribers\"}"
    } else {
        ""
    };
    format!(
        "{{\"channelRenderer\":{{\"channelId\":\"{}\",\
         \"title\":{{\"simpleText\":\"{}\"}}{}}}}}",
        id, name, subs
    )
}

#[test]
fn test_parse_channels_handle_heuristic() {
    let items = vec![
        channel_item("handleone", "Channel One", true),
        channel_item("UCrawid", "Channel Two", false),
    ];
    let html = page_with_blob(&results_blob(&items));
    let tree = extract_yt_initial_data(&html).unwrap();
    let channels = parse_channel_results(&tree, 10);
    assert_eq!(channels.len(), 2);
    assert_eq!(channels[0].name, "Channel One");
    assert_eq!(channels[0].handle, "@handleone");
    assert_eq!(channels[1].handle, "UCrawid");
}

#[test]
fn test_parse_channels_drops_nameless() {
    let nameless = "{\"channelRenderer\":{\"channelId\":\"x\"}}".to_string();
    let html = page_with_blob(&results_blob(&[nameless, channel_item("y", "Named", false)]));
    let tree = extract_yt_initial_data(&html).unwrap();
    let channels = parse_channel_results(&tree, 10);
    assert_eq!(channels.len(), 1);
    assert_eq!(channels[0].name, "Named");
}

#[test]
fn test_search_channels_from_html() {
    let html = page_with_blob(&results_blob(&[channel_item("c1", "First", true)]));
    let channels = search_channels_from_html(&html, 10).unwrap();
    assert_eq!(channels.len(), 1);
    let empty = page_with_blob(&results_blob(&[]));
    let e = search_channels_from_html(&empty, 10).unwrap_err();
    assert!(matches!(e, YtChillError::NoResults));
}

fn search_videos_cached(
    cache: &mut HashMap<String, CacheEntry<Vec<Video>>>,
    fetches: &mut u32,
    page: &str,
    query: &str,
    limit: usize,
    now: i64,
) -> Result<Vec<Video>, YtChillError> {
    let key = get_cache_key(&video_search_logical_key(query, limit));
    match evaluate_entry(cache.get(&key).cloned(), now) {
        CacheLookup::Hit(videos) => return Ok(videos),
        CacheLookup::Expired => {
            cache.remove(&key);
        }
        CacheLookup::Absent => {}
    }
    *fetches += 1;
    let videos = search_videos_from_html(page, limit)?;
    cache.insert(key, make_cache_entry(videos.clone(), now, DEFAULT_TTL));
    Ok(videos)
}

#[test]
fn test_search_end_to_end_with_cache() {
    let ad = "{\"promotedSparklesWebRenderer\":{}}".to_string();
    let items = vec![
        video_item("v1", "One"),
        video_item("v2", "Two"),
        ad,
        video_item("v3", "Three"),
    ];
    let page = page_with_blob(&results_blob(&items));
    let mut cache: HashMap<String, CacheEntry<Vec<Video>>> = HashMap::new();
    let mut fetches: u32 = 0;

    let first = search_videos_cached(&mut cache, &mut fetches, &page, "rust", 2, 1000).unwrap();
    assert_eq!(first.len(), 2);
    assert_eq!(first[0].id, "v1");
    assert_eq!(first[1].id, "v2");
    assert_eq!(fetches, 1);

    // an identical call within the ttl window is served from the cache
    let second = search_videos_cached(&mut cache, &mut fetches, &page, "rust", 2, 1500).unwrap();
    assert_eq!(second, first);
    assert_eq!(fetches, 1);

    // past the ttl the page is fetched again
    let third =
        search_videos_cached(&mut cache, &mut fetches, &page, "rust", 2, 1000 + 3601).unwrap();
    assert_eq!(third, first);
    assert_eq!(fetches, 2);
}
