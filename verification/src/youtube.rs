//! Search URL building and parsing of the scraped result page's data tree.
//!
//! The embedded data blob is a deeply nested JSON tree. The parsers walk a
//! fixed path to the flat list of result items and turn each video-shaped or
//! channel-shaped item into a typed record, with an explicit fallback for
//! every missing field. Items matching neither shape are skipped.

use vstd::prelude::*;
use vstd::string::StringExecFns;

use crate::error::{ErrorModel, YtChillError};
use crate::extract::{extract_model, extract_yt_initial_data, ExtractModel};
use crate::json::{oarr, oget, oidx, ostr, sarr, sget, sidx, spec_obj_get, sstr, JsonValue};
use crate::types::{take_up_to, video_models, Video, VideoModel};

verus! {

/// What html_escape's entity decoding returns for a text; a function of the
/// text alone.
pub uninterp spec fn html_decoded(s: Seq<char>) -> Seq<char>;

/// Relies on html_escape::decode_html_entities, which rewrites entities such
/// as "&amp;" in place; its result depends on the input text alone and is
/// named [`html_decoded`].
#[verifier::external_body]
fn decode_entities(s: &str) -> (r: String)
    ensures
        r@ == html_decoded(s@),
{
    html_escape::decode_html_entities(s).to_string()
}

/// What urlencoding's percent-encoding returns for a text; a function of the
/// text alone.
pub uninterp spec fn url_encoded(s: Seq<char>) -> Seq<char>;

/// Relies on urlencoding::encode, which percent-encodes every byte except
/// ASCII alphanumerics and `-`, `_`, `.`, `~`; its result depends on the
/// input text alone and is named [`url_encoded`].
#[verifier::external_body]
fn url_encode(s: &str) -> (r: String)
    ensures
        r@ == url_encoded(s@),
{
    urlencoding::encode(s).into_owned()
}

/// The fixed filter token appended to a search URL: one opaque token selects
/// video-only results, another channel-only results.
pub open spec fn filter_token(filter: Seq<char>) -> Seq<char> {
    if filter == "video"@ {
        "EgIQAQ%3D%3D"@
    } else if filter == "channel"@ {
        "EgIQAg%3D%3D"@
    } else {
        Seq::<char>::empty()
    }
}

/// The search results URL for a query and a result-type filter.
pub open spec fn search_url(query: Seq<char>, filter: Seq<char>) -> Seq<char> {
    "https://www.youtube.com/results?search_query="@ + url_encoded(query) + "&sp="@
        + filter_token(filter)
}

/// Build the search URL: the URL-encoded query plus the filter token.
pub fn build_search_url(query: &str, filter: &str) -> (r: String)
    ensures
        r@ == search_url(query@, filter@),
{
    let mut url = String::from_str("https://www.youtube.com/results?search_query=");
    let encoded = url_encode(query);
    url.append(encoded.as_str());
    url.append("&sp=");
    let fs = String::from_str(filter);
    if fs == String::from_str("video") {
        url.append("EgIQAQ%3D%3D");
    } else if fs == String::from_str("channel") {
        url.append("EgIQAg%3D%3D");
    }
    proof {
        assert(url@ =~= search_url(query@, filter@));
    }
    url
}

/// The flat list of result items inside the embedded data tree, if the fixed
/// path down to it is present.
pub open spec fn result_items(data: JsonValue) -> Option<Seq<JsonValue>> {
    let a = spec_obj_get(data, "contents"@);
    let b = sget(a, "twoColumnSearchResultsRenderer"@);
    let c = sget(b, "primaryContents"@);
    let d = sget(c, "sectionListRenderer"@);
    let e = sget(d, "contents"@);
    let f = sidx(e, 0);
    let g = sget(f, "itemSectionRenderer"@);
    let h = sget(g, "contents"@);
    sarr(h)
}

/// The text of the first run under `key`, a path shaped `key.runs[0].text`.
pub open spec fn run_text(v: JsonValue, key: Seq<char>) -> Option<String> {
    sstr(sget(sidx(sget(spec_obj_get(v, key), "runs"@), 0), "text"@))
}

/// The text under `key.simpleText`.
pub open spec fn simple_text(v: JsonValue, key: Seq<char>) -> Option<String> {
    sstr(sget(spec_obj_get(v, key), "simpleText"@))
}

/// The URL of the last thumbnail variant (heuristically the largest).
pub open spec fn thumb_url(v: JsonValue) -> Option<String> {
    match sarr(sget(spec_obj_get(v, "thumbnail"@), "thumbnails"@)) {
        Some(items) => if items.len() > 0 {
            sstr(sget(Some(items[items.len() - 1]), "url"@))
        } else {
            None
        },
        None => None,
    }
}

/// The text of an optional field, or empty when absent.
pub open spec fn or_empty(o: Option<String>) -> Seq<char> {
    match o {
        Some(s) => s@,
        None => Seq::<char>::empty(),
    }
}

/// The video a result item yields: present when the item is video-shaped and
/// carries an identifier; every other field falls back (empty text, or the
/// "LIVE" sentinel for a missing duration).
pub open spec fn video_model_of(item: JsonValue) -> Option<VideoModel> {
    match spec_obj_get(item, "videoRenderer"@) {
        None => None,
        Some(v) => match sstr(spec_obj_get(v, "videoId"@)) {
            None => None,
            Some(id) => Some(
                VideoModel {
                    id: id@,
                    title: match run_text(v, "title"@) {
                        Some(t) => html_decoded(t@),
                        None => Seq::<char>::empty(),
                    },
                    author: or_empty(run_text(v, "longBylineText"@)),
                    duration: match simple_text(v, "lengthText"@) {
                        Some(d) => d@,
                        None => "LIVE"@,
                    },
                    views: or_empty(simple_text(v, "viewCountText"@)),
                    published: or_empty(simple_text(v, "publishedTimeText"@)),
                    thumbnail: or_empty(thumb_url(v)),
                },
            ),
        },
    }
}

/// All videos among a list of result items, in order, non-video items skipped.
pub open spec fn video_models_of(items: Seq<JsonValue>) -> Seq<VideoModel>
    decreases items.len(),
{
    if items.len() == 0 {
        Seq::<VideoModel>::empty()
    } else {
        let rest = video_models_of(items.drop_first());
        match video_model_of(items[0]) {
            Some(m) => seq![m] + rest,
            None => rest,
        }
    }
}

/// What parsing a data tree for videos yields: the videos among the result
/// items, truncated to `limit`; an absent path yields nothing.
pub open spec fn parsed_videos(data: JsonValue, limit: nat) -> Seq<VideoModel> {
    match result_items(data) {
        Some(items) => take_up_to(video_models_of(items), limit),
        None => Seq::<VideoModel>::empty(),
    }
}

proof fn lemma_video_models_append(a: Seq<JsonValue>, b: Seq<JsonValue>)
    ensures
        video_models_of(a + b) == video_models_of(a) + video_models_of(b),
    decreases a.len(),
{
    if a.len() == 0 {
        assert(a + b =~= b);
        assert(video_models_of(a) + video_models_of(b) =~= video_models_of(b));
    } else {
        assert((a + b).drop_first() =~= a.drop_first() + b);
        lemma_video_models_append(a.drop_first(), b);
        match video_model_of(a[0]) {
            Some(m) => {
                assert(seq![m] + (video_models_of(a.drop_first()) + video_models_of(b)) =~= (
                seq![m] + video_models_of(a.drop_first())) + video_models_of(b));
            },
            None => {},
        }
    }
}

/// Navigate down to the flat list of result items.
fn result_items_exec<'a>(data: &'a JsonValue) -> (r: Option<&'a Vec<JsonValue>>)
    ensures
        match r {
            Some(v) => result_items(*data) == Some(v@),
            None => result_items(*data) is None,
        },
{
    let a = data.obj_get("contents");
    let b = oget(a, "twoColumnSearchResultsRenderer");
    let c = oget(b, "primaryContents");
    let d = oget(c, "sectionListRenderer");
    let e = oget(d, "contents");
    let f = oidx(e, 0);
    let g = oget(f, "itemSectionRenderer");
    let h = oget(g, "contents");
    oarr(h)
}

/// The text of the first run under `key`.
fn run_text_exec<'a>(v: &'a JsonValue, key: &str) -> (r: Option<&'a String>)
    ensures
        match r {
            Some(s) => run_text(*v, key@) == Some(*s),
            None => run_text(*v, key@) is None,
        },
{
    ostr(oget(oidx(oget(v.obj_get(key), "runs"), 0), "text"))
}

/// The text under `key.simpleText`.
fn simple_text_exec<'a>(v: &'a JsonValue, key: &str) -> (r: Option<&'a String>)
    ensures
        match r {
            Some(s) => simple_text(*v, key@) == Some(*s),
            None => simple_text(*v, key@) is None,
        },
{
    ostr(oget(v.obj_get(key), "simpleText"))
}

/// The URL of the last thumbnail variant.
fn thumb_url_exec<'a>(v: &'a JsonValue) -> (r: Option<&'a String>)
    ensures
        match r {
            Some(s) => thumb_url(*v) == Some(*s),
            None => thumb_url(*v) is None,
        },
{
    match oarr(oget(v.obj_get("thumbnail"), "thumbnails")) {
        Some(items) => {
            let n = items.len();
            if n > 0 {
                ostr(items[n - 1].obj_get("url"))
            } else {
                None
            }
        },
        None => None,
    }
}

/// The text of an optional field, cloned, or empty when absent.
fn or_empty_exec(o: Option<&String>) -> (r: String)
    ensures
        r@ == or_empty(
            match o {
                Some(s) => Some(*s),
                None => None,
            },
        ),
{
    match o {
        Some(s) => s.clone(),
        None => String::new(),
    }
}

/// Parse one result item as a video, when it is video-shaped and has an id.
pub fn parse_video_item(item: &JsonValue) -> (r: Option<Video>)
    ensures
        match r {
            Some(v) => video_model_of(*item) == Some(v@),
            None => video_model_of(*item) is None,
        },
{
    let vr = match item.obj_get("videoRenderer") {
        Some(v) => v,
        None => {
            return None;
        },
    };
    let id = match ostr(vr.obj_get("videoId")) {
        Some(s) => s.clone(),
        None => {
            return None;
        },
    };
    let title = match run_text_exec(vr, "title") {
        Some(t) => decode_entities(t.as_str()),
        None => String::new(),
    };
    let author = or_empty_exec(run_text_exec(vr, "longBylineText"));
    let duration = match simple_text_exec(vr, "lengthText") {
        Some(d) => d.clone(),
        None => String::from_str("LIVE"),
    };
    let views = or_empty_exec(simple_text_exec(vr, "viewCountText"));
    let published = or_empty_exec(simple_text_exec(vr, "publishedTimeText"));
    let thumbnail = or_empty_exec(thumb_url_exec(vr));
    Some(Video { id, title, author, duration, views, published, thumbnail })
}

/// Parse video results out of the embedded data tree: walk the fixed path to
/// the result items, keep the video-shaped ones in upstream order, and
/// truncate to `limit`. An absent path yields an empty list, not an error.
#[verifier::loop_isolation(false)]
pub fn parse_search_results(data: &JsonValue, limit: usize) -> (r: Vec<Video>)
    ensures
        video_models(r@) == parsed_videos(*data, limit as nat),
{
    let items: &Vec<JsonValue> = match result_items_exec(data) {
        Some(v) => v,
        None => {
            let r: Vec<Video> = Vec::new();
            proof {
                assert(video_models(r@) =~= parsed_videos(*data, limit as nat));
            }
            return r;
        },
    };
    let n = items.len();
    let mut out: Vec<Video> = Vec::new();
    let mut i: usize = 0;
    proof {
        assert(items@.take(0) =~= Seq::<JsonValue>::empty());
    }
    while i < n && out.len() < limit
        invariant
            0 <= i <= n,
            out@.len() <= limit,
            video_models(out@) == take_up_to(
                video_models_of(items@.take(i as int)),
                limit as nat,
            ),
            out@.len() < limit ==> video_models(out@) == video_models_of(items@.take(i as int)),
        decreases n - i,
    {
        proof {
            assert(items@.take(i + 1) =~= items@.take(i as int) + seq![items@[i as int]]);
            lemma_video_models_append(items@.take(i as int), seq![items@[i as int]]);
            assert(seq![items@[i as int]].drop_first() =~= Seq::<JsonValue>::empty());
            assert(video_models_of(Seq::<JsonValue>::empty()) =~= Seq::<VideoModel>::empty());
        }
        match parse_video_item(&items[i]) {
            Some(v) => {
                proof {
                    assert(video_models(out@.push(v)) =~= video_models(out@) + seq![v@]);
                    assert(video_models_of(seq![items@[i as int]]) =~= seq![v@]);
                    assert(video_models_of(items@.take(i + 1)) =~= video_models_of(
                        items@.take(i as int),
                    ) + seq![v@]);
                }
                out.push(v);
            },
            None => {
                proof {
                    assert(video_models_of(seq![items@[i as int]]) =~= Seq::<VideoModel>::empty());
                    assert(video_models_of(items@.take(i + 1)) =~= video_models_of(
                        items@.take(i as int),
                    ));
                }
            },
        }
        i += 1;
    }
    proof {
        if i == n {
            assert(items@.take(n as int) =~= items@);
        } else {
            // the loop stopped because `out` is full
            assert(out@.len() == limit);
            assert(items@.take(i as int) + items@.skip(i as int) =~= items@);
            lemma_video_models_append(items@.take(i as int), items@.skip(i as int));
            let pre = video_models_of(items@.take(i as int));
            let all = video_models_of(items@);
            assert(pre.len() >= limit);
            assert(all.take(limit as int) =~= pre.take(limit as int));
            assert(video_models(out@) == take_up_to(all, limit as nat));
        }
    }
    out
}

/// Channel info for subscriptions: a display name and a handle.
#[derive(Debug, Clone, PartialEq, Eq)]
pub struct ChannelInfo {
    pub name: String,
    pub handle: String,
}

pub ghost struct ChannelInfoModel {
    pub name: Seq<char>,
    pub handle: Seq<char>,
}

impl View for ChannelInfo {
    type V = ChannelInfoModel;

    open spec fn view(&self) -> ChannelInfoModel {
        ChannelInfoModel { name: self.name@, handle: self.handle@ }
    }
}

/// The models of a sequence of channel infos.
pub open spec fn channel_models(s: Seq<ChannelInfo>) -> Seq<ChannelInfoModel> {
    s.map_values(|c: ChannelInfo| c@)
}

/// The handle a channel item yields: its raw identifier, prefixed with `@`
/// when a subscriber-count field is present (a heuristic signal that the
/// identifier is handle-shaped), and empty when there is no identifier.
pub open spec fn channel_handle_of(c: JsonValue) -> Seq<char> {
    match sstr(spec_obj_get(c, "channelId"@)) {
        Some(id) => if spec_obj_get(c, "subscriberCountText"@) is Some {
            "@"@ + id@
        } else {
            id@
        },
        None => Seq::<char>::empty(),
    }
}

/// The channel a result item yields: present when the item is channel-shaped
/// and both the decoded name and the derived handle are non-empty.
pub open spec fn channel_model_of(item: JsonValue) -> Option<ChannelInfoModel> {
    match spec_obj_get(item, "channelRenderer"@) {
        None => None,
        Some(c) => {
            let name = match simple_text(c, "title"@) {
                Some(t) => html_decoded(t@),
                None => Seq::<char>::empty(),
            };
            let handle = channel_handle_of(c);
            if name.len() == 0 || handle.len() == 0 {
                None
            } else {
                Some(ChannelInfoModel { name, handle })
            }
        },
    }
}

/// All channels among a list of result items, in order, other items skipped.
pub open spec fn channel_models_of(items: Seq<JsonValue>) -> Seq<ChannelInfoModel>
    decreases items.len(),
{
    if items.len() == 0 {
        Seq::<ChannelInfoModel>::empty()
    } else {
        let rest = channel_models_of(items.drop_first());
        match channel_model_of(items[0]) {
            Some(m) => seq![m] + rest,
            None => rest,
        }
    }
}

/// What parsing a data tree for channels yields: the channel-shaped result
/// items, truncated to `limit`; an absent path yields nothing.
pub open spec fn parsed_channels(data: JsonValue, limit: nat) -> Seq<ChannelInfoModel> {
    match result_items(data) {
        Some(items) => take_up_to(channel_models_of(items), limit),
        None => Seq::<ChannelInfoModel>::empty(),
    }
}

proof fn lemma_channel_models_append(a: Seq<JsonValue>, b: Seq<JsonValue>)
    ensures
        channel_models_of(a + b) == channel_models_of(a) + channel_models_of(b),
    decreases a.len(),
{
    if a.len() == 0 {
        assert(a + b =~= b);
        assert(channel_models_of(a) + channel_models_of(b) =~= channel_models_of(b));
    } else {
        assert((a + b).drop_first() =~= a.drop_first() + b);
        lemma_channel_models_append(a.drop_first(), b);
        match channel_model_of(a[0]) {
            Some(m) => {
                assert(seq![m] + (channel_models_of(a.drop_first()) + channel_models_of(b)) =~= (
                seq![m] + channel_models_of(a.drop_first())) + channel_models_of(b));
            },
            None => {},
        }
    }
}

/// Parse one result item as a channel, when it is channel-shaped and both
/// name and handle come out non-empty.
pub fn parse_channel_item(item: &JsonValue) -> (r: Option<ChannelInfo>)
    ensures
        match r {
            Some(c) => channel_model_of(*item) == Some(c@),
            None => channel_model_of(*item) is None,
        },
{
    let cr = match item.obj_get("channelRenderer") {
        Some(c) => c,
        None => {
            return None;
        },
    };
    let name = match simple_text_exec(cr, "title") {
        Some(t) => decode_entities(t.as_str()),
        None => String::new(),
    };
    let handle = match ostr(cr.obj_get("channelId")) {
        Some(id) => {
            if cr.obj_get("subscriberCountText").is_some() {
                let mut h = String::from_str("@");
                h.append(id.as_str());
                h
            } else {
                id.clone()
            }
        },
        None => String::new(),
    };
    if name.as_str().is_empty() || handle.as_str().is_empty() {
        return None;
    }
    Some(ChannelInfo { name, handle })
}

/// Parse channel results out of the embedded data tree: keep the
/// channel-shaped items in upstream order, truncated to `limit`. An absent
/// path yields an empty list, not an error.
#[verifier::loop_isolation(false)]
pub fn parse_channel_results(data: &JsonValue, limit: usize) -> (r: Vec<ChannelInfo>)
    ensures
        channel_models(r@) == parsed_channels(*data, limit as nat),
{
    let items: &Vec<JsonValue> = match result_items_exec(data) {
        Some(v) => v,
        None => {
            let r: Vec<ChannelInfo> = Vec::new();
            proof {
                assert(channel_models(r@) =~= parsed_channels(*data, limit as nat));
            }
            return r;
        },
    };
    let n = items.len();
    let mut out: Vec<ChannelInfo> = Vec::new();
    let mut i: usize = 0;
    proof {
        assert(items@.take(0) =~= Seq::<JsonValue>::empty());
    }
    while i < n && out.len() < limit
        invariant
            0 <= i <= n,
            out@.len() <= limit,
            channel_models(out@) == take_up_to(
                channel_models_of(items@.take(i as int)),
                limit as nat,
            ),
            out@.len() < limit ==> channel_models(out@) == channel_models_of(
                items@.take(i as int),
            ),
        decreases n - i,
    {
        proof {
            assert(items@.take(i + 1) =~= items@.take(i as int) + seq![items@[i as int]]);
            lemma_channel_models_append(items@.take(i as int), seq![items@[i as int]]);
            assert(seq![items@[i as int]].drop_first() =~= Seq::<JsonValue>::empty());
            assert(channel_models_of(Seq::<JsonValue>::empty()) =~= Seq::<
                ChannelInfoModel,
            >::empty());
        }
        match parse_channel_item(&items[i]) {
            Some(c) => {
                proof {
                    assert(channel_models(out@.push(c)) =~= channel_models(out@) + seq![c@]);
                    assert(channel_models_of(seq![items@[i as int]]) =~= seq![c@]);
                    assert(channel_models_of(items@.take(i + 1)) =~= channel_models_of(
                        items@.take(i as int),
                    ) + seq![c@]);
                }
                out.push(c);
            },
            None => {
                proof {
                    assert(channel_models_of(seq![items@[i as int]]) =~= Seq::<
                        ChannelInfoModel,
                    >::empty());
                    assert(channel_models_of(items@.take(i + 1)) =~= channel_models_of(
                        items@.take(i as int),
                    ));
                }
            },
        }
        i += 1;
    }
    proof {
        if i == n {
            assert(items@.take(n as int) =~= items@);
        } else {
            assert(out@.len() == limit);
            assert(items@.take(i as int) + items@.skip(i as int) =~= items@);
            lemma_channel_models_append(items@.take(i as int), items@.skip(i as int));
            let pre = channel_models_of(items@.take(i as int));
            let all = channel_models_of(items@);
            assert(pre.len() >= limit);
            assert(all.take(limit as int) =~= pre.take(limit as int));
            assert(channel_models(out@) == take_up_to(all, limit as nat));
        }
    }
    out
}

/// Run extraction and video parsing over a fetched page. A missing marker or
/// bad JSON propagates as the extractor's error; a successful parse that
/// yields nothing is the distinct `NoResults` outcome, never an `Ok`.
pub fn search_videos_from_html(html: &str, limit: usize) -> (r: Result<Vec<Video>, YtChillError>)
    ensures
        match extract_model(html@) {
            ExtractModel::NoMarker => r matches Err(e) && e@ == ErrorModel::YouTubeParse(
                "Failed to find ytInitialData"@,
            ),
            ExtractModel::BadJson => r matches Err(e) && e@ == ErrorModel::YouTubeParse(
                "Failed to parse ytInitialData"@,
            ),
            ExtractModel::Found(data) => if parsed_videos(data, limit as nat).len() == 0 {
                r matches Err(e) && e@ == ErrorModel::NoResults
            } else {
                r matches Ok(videos) && video_models(videos@) == parsed_videos(
                    data,
                    limit as nat,
                )
            },
        },
{
    let data = match extract_yt_initial_data(html) {
        Ok(d) => d,
        Err(e) => {
            return Err(e);
        },
    };
    let results = parse_search_results(&data, limit);
    if results.len() == 0 {
        return Err(YtChillError::NoResults);
    }
    Ok(results)
}

/// Run extraction and channel parsing over a fetched page; an empty parse is
/// the distinct `NoResults` outcome.
pub fn search_channels_from_html(html: &str, limit: usize) -> (r: Result<
    Vec<ChannelInfo>,
    YtChillError,
>)
    ensures
        match extract_model(html@) {
            ExtractModel::NoMarker => r matches Err(e) && e@ == ErrorModel::YouTubeParse(
                "Failed to find ytInitialData"@,
            ),
            ExtractModel::BadJson => r matches Err(e) && e@ == ErrorModel::YouTubeParse(
                "Failed to parse ytInitialData"@,
            ),
            ExtractModel::Found(data) => if parsed_channels(data, limit as nat).len() == 0 {
                r matches Err(e) && e@ == ErrorModel::NoResults
            } else {
                r matches Ok(channels) && channel_models(channels@) == parsed_channels(
                    data,
                    limit as nat,
                )
            },
        },
{
    let data = match extract_yt_initial_data(html) {
        Ok(d) => d,
        Err(e) => {
            return Err(e);
        },
    };
    let results = parse_channel_results(&data, limit);
    if results.len() == 0 {
        return Err(YtChillError::NoResults);
    }
    Ok(results)
}

/// Run extraction and video parsing for a channel's feed. An empty result is
/// a normal empty success here: feed aggregation expects some channels to
/// return nothing.
pub fn channel_videos_from_html(html: &str, limit: usize) -> (r: Result<Vec<Video>, YtChillError>)
    ensures
        match extract_model(html@) {
            ExtractModel::NoMarker => r matches Err(e) && e@ == ErrorModel::YouTubeParse(
                "Failed to find ytInitialData"@,
            ),
            ExtractModel::BadJson => r matches Err(e) && e@ == ErrorModel::YouTubeParse(
                "Failed to parse ytInitialData"@,
            ),
            ExtractModel::Found(data) => r matches Ok(videos) && video_models(videos@)
                == parsed_videos(data, limit as nat),
        },
{
    let data = match extract_yt_initial_data(html) {
        Ok(d) => d,
        Err(e) => {
            return Err(e);
        },
    };
    Ok(parse_search_results(&data, limit))
}

/// The query used to fetch a channel's recent videos: the handle plus a
/// trailing space, searched with the video filter.
pub fn channel_videos_query(handle: &str) -> (r: String)
    ensures
        r@ == handle@ + " "@,
{
    let mut q = String::from_str(handle);
    q.append(" ");
    q
}

} // verus!
