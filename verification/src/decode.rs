//! Typed decoding of persisted JSON trees back into records.
//!
//! The cache and the history store hold JSON produced from [`Video`]
//! records. Decoding is strict: a missing or wrongly-typed field invalidates
//! the record, and one invalid record invalidates the whole list — the
//! callers treat that as a corrupt store.

use vstd::prelude::*;

use crate::json::{spec_as_arr, spec_obj_get, sstr, JsonValue};
use crate::types::{CacheEntry, HistoryEntry, Video};
use crate::youtube::ChannelInfo;

verus! {

/// The `i64` a JSON value holds, if any.
pub open spec fn spec_as_i64(v: JsonValue) -> Option<i64> {
    match v {
        JsonValue::Int(i) => Some(i),
        _ => None,
    }
}

/// The `u64` a JSON value holds, if any: a non-negative integer.
pub open spec fn spec_as_u64(v: JsonValue) -> Option<u64> {
    match v {
        JsonValue::UInt(u) => Some(u),
        JsonValue::Int(i) => if i >= 0 {
            Some(i as u64)
        } else {
            None
        },
        _ => None,
    }
}

/// `spec_as_i64` under a key.
pub open spec fn field_i64(v: JsonValue, key: Seq<char>) -> Option<i64> {
    match spec_obj_get(v, key) {
        Some(x) => spec_as_i64(x),
        None => None,
    }
}

/// `spec_as_u64` under a key.
pub open spec fn field_u64(v: JsonValue, key: Seq<char>) -> Option<u64> {
    match spec_obj_get(v, key) {
        Some(x) => spec_as_u64(x),
        None => None,
    }
}

/// The video an object value holds: all seven text fields are required.
pub open spec fn spec_decode_video(v: JsonValue) -> Option<Video> {
    match (
        sstr(spec_obj_get(v, "id"@)),
        sstr(spec_obj_get(v, "title"@)),
        sstr(spec_obj_get(v, "author"@)),
        sstr(spec_obj_get(v, "duration"@)),
        sstr(spec_obj_get(v, "views"@)),
        sstr(spec_obj_get(v, "published"@)),
        sstr(spec_obj_get(v, "thumbnail"@)),
    ) {
        (
            Some(id),
            Some(title),
            Some(author),
            Some(duration),
            Some(views),
            Some(published),
            Some(thumbnail),
        ) => Some(Video { id, title, author, duration, views, published, thumbnail }),
        _ => None,
    }
}

/// The videos a list of values holds; one bad element spoils the list.
pub open spec fn spec_decode_video_list(items: Seq<JsonValue>) -> Option<Seq<Video>>
    decreases items.len(),
{
    if items.len() == 0 {
        Some(Seq::<Video>::empty())
    } else {
        match (spec_decode_video(items[0]), spec_decode_video_list(items.drop_first())) {
            (Some(v), Some(rest)) => Some(seq![v] + rest),
            _ => None,
        }
    }
}

/// The videos an array value holds.
pub open spec fn spec_decode_videos(v: JsonValue) -> Option<Seq<Video>> {
    match spec_as_arr(v) {
        Some(items) => spec_decode_video_list(items),
        None => None,
    }
}

/// The history entry an object value holds: a video's fields merged with a
/// `timestamp` at the same level.
pub open spec fn spec_decode_history_entry(v: JsonValue) -> Option<HistoryEntry> {
    match (spec_decode_video(v), field_i64(v, "timestamp"@)) {
        (Some(video), Some(timestamp)) => Some(HistoryEntry { video, timestamp }),
        _ => None,
    }
}

/// The history entries a list of values holds.
pub open spec fn spec_decode_history_list(items: Seq<JsonValue>) -> Option<Seq<HistoryEntry>>
    decreases items.len(),
{
    if items.len() == 0 {
        Some(Seq::<HistoryEntry>::empty())
    } else {
        match (
            spec_decode_history_entry(items[0]),
            spec_decode_history_list(items.drop_first()),
        ) {
            (Some(e), Some(rest)) => Some(seq![e] + rest),
            _ => None,
        }
    }
}

/// The history an array value holds.
pub open spec fn spec_decode_history(v: JsonValue) -> Option<Seq<HistoryEntry>> {
    match spec_as_arr(v) {
        Some(items) => spec_decode_history_list(items),
        None => None,
    }
}

/// The cached entry an object value holds: video data, a write timestamp,
/// and a time-to-live.
pub open spec fn spec_decode_cache_entry(v: JsonValue) -> Option<(Seq<Video>, i64, u64)> {
    match (spec_obj_get(v, "data"@), field_i64(v, "timestamp"@), field_u64(v, "ttl"@)) {
        (Some(data), Some(timestamp), Some(ttl)) => match spec_decode_videos(data) {
            Some(videos) => Some((videos, timestamp, ttl)),
            None => None,
        },
        _ => None,
    }
}

/// The channel an object value holds: name and handle are required.
pub open spec fn spec_decode_channel(v: JsonValue) -> Option<ChannelInfo> {
    match (sstr(spec_obj_get(v, "name"@)), sstr(spec_obj_get(v, "handle"@))) {
        (Some(name), Some(handle)) => Some(ChannelInfo { name, handle }),
        _ => None,
    }
}

/// The channels a list of values holds; one bad element spoils the list.
pub open spec fn spec_decode_channel_list(items: Seq<JsonValue>) -> Option<Seq<ChannelInfo>>
    decreases items.len(),
{
    if items.len() == 0 {
        Some(Seq::<ChannelInfo>::empty())
    } else {
        match (spec_decode_channel(items[0]), spec_decode_channel_list(items.drop_first())) {
            (Some(c), Some(rest)) => Some(seq![c] + rest),
            _ => None,
        }
    }
}

/// The channels an array value holds.
pub open spec fn spec_decode_channels(v: JsonValue) -> Option<Seq<ChannelInfo>> {
    match spec_as_arr(v) {
        Some(items) => spec_decode_channel_list(items),
        None => None,
    }
}

/// The cached channel entry an object value holds.
pub open spec fn spec_decode_channel_cache_entry(v: JsonValue) -> Option<
    (Seq<ChannelInfo>, i64, u64),
> {
    match (spec_obj_get(v, "data"@), field_i64(v, "timestamp"@), field_u64(v, "ttl"@)) {
        (Some(data), Some(timestamp), Some(ttl)) => match spec_decode_channels(data) {
            Some(channels) => Some((channels, timestamp, ttl)),
            None => None,
        },
        _ => None,
    }
}

/// The `i64` behind an optional reference.
fn oi64(o: Option<&JsonValue>) -> (r: Option<i64>)
    ensures
        r == (match o {
            Some(v) => spec_as_i64(*v),
            None => None,
        }),
{
    match o {
        Some(JsonValue::Int(i)) => Some(*i),
        _ => None,
    }
}

/// The `u64` behind an optional reference.
fn ou64(o: Option<&JsonValue>) -> (r: Option<u64>)
    ensures
        r == (match o {
            Some(v) => spec_as_u64(*v),
            None => None,
        }),
{
    match o {
        Some(JsonValue::UInt(u)) => Some(*u),
        Some(JsonValue::Int(i)) => if *i >= 0 {
            Some(*i as u64)
        } else {
            None
        },
        _ => None,
    }
}

/// Decode one video object.
pub fn decode_video(v: &JsonValue) -> (r: Option<Video>)
    ensures
        r == spec_decode_video(*v),
{
    let id = match v.obj_get("id") {
        Some(x) => match x.as_str() {
            Some(s) => s.clone(),
            None => {
                return None;
            },
        },
        None => {
            return None;
        },
    };
    let title = match v.obj_get("title") {
        Some(x) => match x.as_str() {
            Some(s) => s.clone(),
            None => {
                return None;
            },
        },
        None => {
            return None;
        },
    };
    let author = match v.obj_get("author") {
        Some(x) => match x.as_str() {
            Some(s) => s.clone(),
            None => {
                return None;
            },
        },
        None => {
            return None;
        },
    };
    let duration = match v.obj_get("duration") {
        Some(x) => match x.as_str() {
            Some(s) => s.clone(),
            None => {
                return None;
            },
        },
        None => {
            return None;
        },
    };
    let views = match v.obj_get("views") {
        Some(x) => match x.as_str() {
            Some(s) => s.clone(),
            None => {
                return None;
            },
        },
        None => {
            return None;
        },
    };
    let published = match v.obj_get("published") {
        Some(x) => match x.as_str() {
            Some(s) => s.clone(),
            None => {
                return None;
            },
        },
        None => {
            return None;
        },
    };
    let thumbnail = match v.obj_get("thumbnail") {
        Some(x) => match x.as_str() {
            Some(s) => s.clone(),
            None => {
                return None;
            },
        },
        None => {
            return None;
        },
    };
    Some(Video { id, title, author, duration, views, published, thumbnail })
}

/// Decode a list of videos; one bad element spoils the list.
#[verifier::loop_isolation(false)]
pub fn decode_videos(v: &JsonValue) -> (r: Option<Vec<Video>>)
    ensures
        match r {
            Some(videos) => spec_decode_videos(*v) == Some(videos@),
            None => spec_decode_videos(*v) is None,
        },
{
    let items = match v.as_arr() {
        Some(items) => items,
        None => {
            return None;
        },
    };
    let n = items.len();
    let mut out: Vec<Video> = Vec::new();
    let mut i: usize = 0;
    proof {
        assert(items@.skip(0) =~= items@);
    }
    while i < n
        invariant
            0 <= i <= n,
            out@.len() == i,
            match spec_decode_video_list(items@.skip(i as int)) {
                Some(rest) => spec_decode_video_list(items@) == Some(out@ + rest),
                None => spec_decode_video_list(items@) is None,
            },
        decreases n - i,
    {
        proof {
            assert(items@.skip(i as int).drop_first() =~= items@.skip(i + 1));
            assert(items@.skip(i as int)[0] == items@[i as int]);
        }
        match decode_video(&items[i]) {
            Some(video) => {
                proof {
                    if let Some(rest) = spec_decode_video_list(items@.skip(i + 1)) {
                        assert(out@ + (seq![video] + rest) =~= out@.push(video) + rest);
                    }
                }
                out.push(video);
            },
            None => {
                return None;
            },
        }
        i += 1;
    }
    proof {
        assert(items@.skip(n as int) =~= Seq::<JsonValue>::empty());
        assert(out@ + Seq::<Video>::empty() =~= out@);
    }
    Some(out)
}

/// Decode one history entry: a video's fields plus `timestamp`.
pub fn decode_history_entry(v: &JsonValue) -> (r: Option<HistoryEntry>)
    ensures
        r == spec_decode_history_entry(*v),
{
    let video = match decode_video(v) {
        Some(video) => video,
        None => {
            return None;
        },
    };
    let timestamp = match oi64(v.obj_get("timestamp")) {
        Some(t) => t,
        None => {
            return None;
        },
    };
    Some(HistoryEntry { video, timestamp })
}

/// Decode a history list; one bad element spoils the list.
#[verifier::loop_isolation(false)]
pub fn decode_history(v: &JsonValue) -> (r: Option<Vec<HistoryEntry>>)
    ensures
        match r {
            Some(entries) => spec_decode_history(*v) == Some(entries@),
            None => spec_decode_history(*v) is None,
        },
{
    let items = match v.as_arr() {
        Some(items) => items,
        None => {
            return None;
        },
    };
    let n = items.len();
    let mut out: Vec<HistoryEntry> = Vec::new();
    let mut i: usize = 0;
    proof {
        assert(items@.skip(0) =~= items@);
    }
    while i < n
        invariant
            0 <= i <= n,
            out@.len() == i,
            match spec_decode_history_list(items@.skip(i as int)) {
                Some(rest) => spec_decode_history_list(items@) == Some(out@ + rest),
                None => spec_decode_history_list(items@) is None,
            },
        decreases n - i,
    {
        proof {
            assert(items@.skip(i as int).drop_first() =~= items@.skip(i + 1));
            assert(items@.skip(i as int)[0] == items@[i as int]);
        }
        match decode_history_entry(&items[i]) {
            Some(e) => {
                proof {
                    if let Some(rest) = spec_decode_history_list(items@.skip(i + 1)) {
                        assert(out@ + (seq![e] + rest) =~= out@.push(e) + rest);
                    }
                }
                out.push(e);
            },
            None => {
                return None;
            },
        }
        i += 1;
    }
    proof {
        assert(items@.skip(n as int) =~= Seq::<JsonValue>::empty());
        assert(out@ + Seq::<HistoryEntry>::empty() =~= out@);
    }
    Some(out)
}

/// Decode one channel object.
pub fn decode_channel(v: &JsonValue) -> (r: Option<ChannelInfo>)
    ensures
        r == spec_decode_channel(*v),
{
    let name = match v.obj_get("name") {
        Some(x) => match x.as_str() {
            Some(s) => s.clone(),
            None => {
                return None;
            },
        },
        None => {
            return None;
        },
    };
    let handle = match v.obj_get("handle") {
        Some(x) => match x.as_str() {
            Some(s) => s.clone(),
            None => {
                return None;
            },
        },
        None => {
            return None;
        },
    };
    Some(ChannelInfo { name, handle })
}

/// Decode a list of channels; one bad element spoils the list.
#[verifier::loop_isolation(false)]
pub fn decode_channels(v: &JsonValue) -> (r: Option<Vec<ChannelInfo>>)
    ensures
        match r {
            Some(channels) => spec_decode_channels(*v) == Some(channels@),
            None => spec_decode_channels(*v) is None,
        },
{
    let items = match v.as_arr() {
        Some(items) => items,
        None => {
            return None;
        },
    };
    let n = items.len();
    let mut out: Vec<ChannelInfo> = Vec::new();
    let mut i: usize = 0;
    proof {
        assert(items@.skip(0) =~= items@);
    }
    while i < n
        invariant
            0 <= i <= n,
            out@.len() == i,
            match spec_decode_channel_list(items@.skip(i as int)) {
                Some(rest) => spec_decode_channel_list(items@) == Some(out@ + rest),
                None => spec_decode_channel_list(items@) is None,
            },
        decreases n - i,
    {
        proof {
            assert(items@.skip(i as int).drop_first() =~= items@.skip(i + 1));
            assert(items@.skip(i as int)[0] == items@[i as int]);
        }
        match decode_channel(&items[i]) {
            Some(c) => {
                proof {
                    if let Some(rest) = spec_decode_channel_list(items@.skip(i + 1)) {
                        assert(out@ + (seq![c] + rest) =~= out@.push(c) + rest);
                    }
                }
                out.push(c);
            },
            None => {
                return None;
            },
        }
        i += 1;
    }
    proof {
        assert(items@.skip(n as int) =~= Seq::<JsonValue>::empty());
        assert(out@ + Seq::<ChannelInfo>::empty() =~= out@);
    }
    Some(out)
}

/// Decode a cached channel entry: `{data, timestamp, ttl}`.
pub fn decode_channel_cache_entry(v: &JsonValue) -> (r: Option<CacheEntry<Vec<ChannelInfo>>>)
    ensures
        match r {
            Some(e) => spec_decode_channel_cache_entry(*v) == Some((e.data@, e.timestamp, e.ttl)),
            None => spec_decode_channel_cache_entry(*v) is None,
        },
{
    let data = match v.obj_get("data") {
        Some(d) => d,
        None => {
            return None;
        },
    };
    let timestamp = match oi64(v.obj_get("timestamp")) {
        Some(t) => t,
        None => {
            return None;
        },
    };
    let ttl = match ou64(v.obj_get("ttl")) {
        Some(t) => t,
        None => {
            return None;
        },
    };
    let channels = match decode_channels(data) {
        Some(channels) => channels,
        None => {
            return None;
        },
    };
    Some(CacheEntry { data: channels, timestamp, ttl })
}

/// Decode a cached entry: `{data, timestamp, ttl}` with video data.
pub fn decode_cache_entry(v: &JsonValue) -> (r: Option<CacheEntry<Vec<Video>>>)
    ensures
        match r {
            Some(e) => spec_decode_cache_entry(*v) == Some((e.data@, e.timestamp, e.ttl)),
            None => spec_decode_cache_entry(*v) is None,
        },
{
    let data = match v.obj_get("data") {
        Some(d) => d,
        None => {
            return None;
        },
    };
    let timestamp = match oi64(v.obj_get("timestamp")) {
        Some(t) => t,
        None => {
            return None;
        },
    };
    let ttl = match ou64(v.obj_get("ttl")) {
        Some(t) => t,
        None => {
            return None;
        },
    };
    let videos = match decode_videos(data) {
        Some(videos) => videos,
        None => {
            return None;
        },
    };
    Some(CacheEntry { data: videos, timestamp, ttl })
}

} // verus!
