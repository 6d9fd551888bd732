//! Content-addressed, TTL-bounded cache of search results.
//!
//! Each logical key is hashed to a stable digest that names one independent
//! storage unit. An entry is valid while `now - timestamp <= ttl`; an
//! expired entry is treated as absent, and the reader tells the caller to
//! remove its storage. Reading and writing the unit itself is the caller's
//! edge work; everything decided here is verified.

use sha2::{Digest, Sha256};
use vstd::prelude::*;
use vstd::string::StringExecFns;

use crate::decode::{
    decode_cache_entry, decode_channel_cache_entry, spec_decode_cache_entry,
    spec_decode_channel_cache_entry,
};
use crate::json::{json_of, parse_json, JsonValue};
use crate::strings::{dec_str, push_dec};
use crate::types::{CacheEntry, Video};
use crate::youtube::ChannelInfo;

verus! {

/// The default time-to-live of a cache entry, in seconds.
pub const DEFAULT_TTL: u64 = 3600;

/// What hashing a logical cache key returns: a function of the key alone,
/// so the cache key is deterministic.
pub uninterp spec fn cache_digest(s: Seq<char>) -> Seq<char>;

/// Relies on sha2::Sha256: the key is the lowercase hex form of the
/// 256-bit digest of the logical key, 64 characters long; it depends on the
/// logical key alone and is named [`cache_digest`].
#[verifier::external_body]
pub fn get_cache_key(query: &str) -> (r: String)
    ensures
        r@ == cache_digest(query@),
        r@.len() == 64,
{
    let mut hasher = Sha256::new();
    hasher.update(query.as_bytes());
    format!("{:x}", hasher.finalize())
}

/// The logical cache key of a video search: `video:<query>:<limit>`.
pub fn video_search_logical_key(query: &str, limit: usize) -> (r: String)
    ensures
        r@ == "video:"@ + query@ + ":"@ + dec_str(limit as nat),
{
    let mut k = String::from_str("video:");
    k.append(query);
    k.append(":");
    push_dec(&mut k, limit);
    proof {
        assert(k@ =~= "video:"@ + query@ + ":"@ + dec_str(limit as nat));
    }
    k
}

/// The logical cache key of a channel search: `channels:<query>:<limit>`.
pub fn channel_search_logical_key(query: &str, limit: usize) -> (r: String)
    ensures
        r@ == "channels:"@ + query@ + ":"@ + dec_str(limit as nat),
{
    let mut k = String::from_str("channels:");
    k.append(query);
    k.append(":");
    push_dec(&mut k, limit);
    proof {
        assert(k@ =~= "channels:"@ + query@ + ":"@ + dec_str(limit as nat));
    }
    k
}

/// The logical cache key of a channel feed: `channel:<handle>:<limit>`.
pub fn channel_feed_logical_key(handle: &str, limit: usize) -> (r: String)
    ensures
        r@ == "channel:"@ + handle@ + ":"@ + dec_str(limit as nat),
{
    let mut k = String::from_str("channel:");
    k.append(handle);
    k.append(":");
    push_dec(&mut k, limit);
    proof {
        assert(k@ =~= "channel:"@ + handle@ + ":"@ + dec_str(limit as nat));
    }
    k
}

/// An entry is valid while its age does not exceed its time-to-live.
pub open spec fn entry_fresh(timestamp: i64, ttl: u64, now: i64) -> bool {
    now - timestamp <= ttl
}

/// The outcome of a cache read.
#[derive(Debug, PartialEq, Eq)]
pub enum CacheLookup {
    /// A valid entry; its data.
    Hit(Vec<Video>),
    /// An entry past its time-to-live: treated as absent, and the caller
    /// removes its storage unit.
    Expired,
    /// No entry, or one that could not be read; nothing to remove.
    Absent,
}

pub ghost enum CacheLookupModel {
    Hit(Seq<Video>),
    Expired,
    Absent,
}

impl View for CacheLookup {
    type V = CacheLookupModel;

    open spec fn view(&self) -> CacheLookupModel {
        match self {
            CacheLookup::Hit(videos) => CacheLookupModel::Hit(videos@),
            CacheLookup::Expired => CacheLookupModel::Expired,
            CacheLookup::Absent => CacheLookupModel::Absent,
        }
    }
}

/// What a read of a decoded entry yields at time `now`.
pub open spec fn lookup_model(e: Option<(Seq<Video>, i64, u64)>, now: i64) -> CacheLookupModel {
    match e {
        None => CacheLookupModel::Absent,
        Some((data, timestamp, ttl)) => if entry_fresh(timestamp, ttl, now) {
            CacheLookupModel::Hit(data)
        } else {
            CacheLookupModel::Expired
        },
    }
}

/// What a read of raw stored content yields at time `now`: the content is
/// parsed, decoded, and checked against its time-to-live; anything
/// unreadable counts as absent.
pub open spec fn cache_read_model(j: Option<JsonValue>, now: i64) -> CacheLookupModel {
    match j {
        None => CacheLookupModel::Absent,
        Some(v) => lookup_model(spec_decode_cache_entry(v), now),
    }
}

/// Evaluate a decoded entry against the clock.
pub fn evaluate_entry(entry: Option<CacheEntry<Vec<Video>>>, now: i64) -> (r: CacheLookup)
    ensures
        r@ == lookup_model(
            match entry {
                Some(e) => Some((e.data@, e.timestamp, e.ttl)),
                None => None,
            },
            now,
        ),
{
    match entry {
        None => CacheLookup::Absent,
        Some(e) => {
            if (now as i128) - (e.timestamp as i128) <= (e.ttl as i128) {
                CacheLookup::Hit(e.data)
            } else {
                CacheLookup::Expired
            }
        },
    }
}

/// Read a cache unit's content: `None` for a missing unit. An unparseable
/// or undecodable unit degrades to a miss; an expired one tells the caller
/// to delete it.
pub fn get_cached(content: Option<&str>, now: i64) -> (r: CacheLookup)
    ensures
        r@ == cache_read_model(
            match content {
                Some(c) => json_of(c@),
                None => None,
            },
            now,
        ),
{
    let text = match content {
        Some(c) => c,
        None => {
            return CacheLookup::Absent;
        },
    };
    let tree = match parse_json(text) {
        Some(tree) => tree,
        None => {
            return CacheLookup::Absent;
        },
    };
    let entry = decode_cache_entry(&tree);
    evaluate_entry(entry, now)
}

/// The entry a cache write stores: the data stamped with the write time and
/// a time-to-live.
pub fn make_cache_entry(data: Vec<Video>, now: i64, ttl: u64) -> (r: CacheEntry<Vec<Video>>)
    ensures
        r.data == data,
        r.timestamp == now,
        r.ttl == ttl,
{
    CacheEntry { data, timestamp: now, ttl }
}

/// The outcome of a cache read of channel data.
#[derive(Debug, PartialEq, Eq)]
pub enum ChannelCacheLookup {
    /// A valid entry; its data.
    Hit(Vec<ChannelInfo>),
    /// An entry past its time-to-live: treated as absent, and the caller
    /// removes its storage unit.
    Expired,
    /// No entry, or one that could not be read; nothing to remove.
    Absent,
}

pub ghost enum ChannelCacheLookupModel {
    Hit(Seq<ChannelInfo>),
    Expired,
    Absent,
}

impl View for ChannelCacheLookup {
    type V = ChannelCacheLookupModel;

    open spec fn view(&self) -> ChannelCacheLookupModel {
        match self {
            ChannelCacheLookup::Hit(channels) => ChannelCacheLookupModel::Hit(channels@),
            ChannelCacheLookup::Expired => ChannelCacheLookupModel::Expired,
            ChannelCacheLookup::Absent => ChannelCacheLookupModel::Absent,
        }
    }
}

/// What a read of a decoded channel entry yields at time `now`.
pub open spec fn channel_lookup_model(
    e: Option<(Seq<ChannelInfo>, i64, u64)>,
    now: i64,
) -> ChannelCacheLookupModel {
    match e {
        None => ChannelCacheLookupModel::Absent,
        Some((data, timestamp, ttl)) => if entry_fresh(timestamp, ttl, now) {
            ChannelCacheLookupModel::Hit(data)
        } else {
            ChannelCacheLookupModel::Expired
        },
    }
}

/// What a read of raw stored channel content yields at time `now`.
pub open spec fn channel_cache_read_model(
    j: Option<JsonValue>,
    now: i64,
) -> ChannelCacheLookupModel {
    match j {
        None => ChannelCacheLookupModel::Absent,
        Some(v) => channel_lookup_model(spec_decode_channel_cache_entry(v), now),
    }
}

/// Evaluate a decoded channel entry against the clock.
pub fn evaluate_channel_entry(entry: Option<CacheEntry<Vec<ChannelInfo>>>, now: i64) -> (r:
    ChannelCacheLookup)
    ensures
        r@ == channel_lookup_model(
            match entry {
                Some(e) => Some((e.data@, e.timestamp, e.ttl)),
                None => None,
            },
            now,
        ),
{
    match entry {
        None => ChannelCacheLookup::Absent,
        Some(e) => {
            if (now as i128) - (e.timestamp as i128) <= (e.ttl as i128) {
                ChannelCacheLookup::Hit(e.data)
            } else {
                ChannelCacheLookup::Expired
            }
        },
    }
}

/// Read a channel cache unit's content, as [`get_cached`] does for videos.
pub fn get_cached_channels(content: Option<&str>, now: i64) -> (r: ChannelCacheLookup)
    ensures
        r@ == channel_cache_read_model(
            match content {
                Some(c) => json_of(c@),
                None => None,
            },
            now,
        ),
{
    let text = match content {
        Some(c) => c,
        None => {
            return ChannelCacheLookup::Absent;
        },
    };
    let tree = match parse_json(text) {
        Some(tree) => tree,
        None => {
            return ChannelCacheLookup::Absent;
        },
    };
    let entry = decode_channel_cache_entry(&tree);
    evaluate_channel_entry(entry, now)
}

/// The channel entry a cache write stores.
pub fn make_channel_cache_entry(data: Vec<ChannelInfo>, now: i64, ttl: u64) -> (r: CacheEntry<
    Vec<ChannelInfo>,
>)
    ensures
        r.data == data,
        r.timestamp == now,
        r.ttl == ttl,
{
    CacheEntry { data, timestamp: now, ttl }
}

/// An entry just written is returned as a hit with the very data that was
/// stored, as long as its time-to-live has not elapsed.
pub proof fn lemma_cache_round_trip(data: Seq<Video>, t: i64, d: u64, now: i64)
    requires
        now - t <= d,
    ensures
        lookup_model(Some((data, t, d)), now) == CacheLookupModel::Hit(data),
{
}

/// An entry queried after its time-to-live has elapsed is not returned: the
/// read reports it expired, and the caller removes its storage unit.
pub proof fn lemma_cache_expiry(data: Seq<Video>, t: i64, d: u64, now: i64)
    requires
        now > t + d,
    ensures
        lookup_model(Some((data, t, d)), now) == CacheLookupModel::Expired,
{
}

/// The round trip holds for cached channel data just the same.
pub proof fn lemma_channel_cache_round_trip(data: Seq<ChannelInfo>, t: i64, d: u64, now: i64)
    requires
        now - t <= d,
    ensures
        channel_lookup_model(Some((data, t, d)), now) == ChannelCacheLookupModel::Hit(data),
{
}

/// Expiry holds for cached channel data just the same.
pub proof fn lemma_channel_cache_expiry(data: Seq<ChannelInfo>, t: i64, d: u64, now: i64)
    requires
        now > t + d,
    ensures
        channel_lookup_model(Some((data, t, d)), now) == ChannelCacheLookupModel::Expired,
{
}

} // verus!
