//! Verified JSON encoding of the records the stores persist.
//!
//! The cache and the history store are written as JSON text built here,
//! character by character, against an exact model of the output: strings
//! are escaped the way common JSON writers escape them, numbers are decimal.
//! What was written this way is read back through the parsing side.

use vstd::prelude::*;
use vstd::string::{StrSliceExecFns, StringExecFns};

use crate::strings::{dec_digit, dec_str, str_to_chars};
use crate::types::{
    history_models, video_models, CacheEntry, HistoryEntry, HistoryEntryModel, Video, VideoModel,
};
use crate::youtube::{channel_models, ChannelInfo, ChannelInfoModel};

verus! {

/// One hexadecimal digit as a character, lowercase.
pub open spec fn hex_digit(d: nat) -> char {
    if d < 10 {
        dec_digit(d)
    } else if d == 10 {
        'a'
    } else if d == 11 {
        'b'
    } else if d == 12 {
        'c'
    } else if d == 13 {
        'd'
    } else if d == 14 {
        'e'
    } else {
        'f'
    }
}

/// How one character is written inside a JSON string: quote and backslash
/// escaped, the common control characters by their short escapes, any other
/// control character as `\u00..`, and everything else as itself.
pub open spec fn esc_char(c: char) -> Seq<char> {
    if c == '"' {
        "\\\""@
    } else if c == '\\' {
        "\\\\"@
    } else if c == '\u{8}' {
        "\\b"@
    } else if c == '\t' {
        "\\t"@
    } else if c == '\n' {
        "\\n"@
    } else if c == '\u{c}' {
        "\\f"@
    } else if c == '\r' {
        "\\r"@
    } else if (c as u32) < 32 {
        "\\u00"@ + seq![
            hex_digit(((c as u32) / 16) as nat),
            hex_digit(((c as u32) % 16) as nat),
        ]
    } else {
        seq![c]
    }
}

/// A text with every character written as JSON writes it.
pub open spec fn escaped(s: Seq<char>) -> Seq<char>
    decreases s.len(),
{
    if s.len() == 0 {
        Seq::<char>::empty()
    } else {
        esc_char(s[0]) + escaped(s.drop_first())
    }
}

proof fn lemma_escaped_snoc(s: Seq<char>, c: char)
    ensures
        escaped(s.push(c)) == escaped(s) + esc_char(c),
    decreases s.len(),
{
    if s.len() == 0 {
        assert(s.push(c).drop_first() =~= s);
        assert(escaped(s) + esc_char(c) =~= esc_char(c) + escaped(s));
    } else {
        assert(s.push(c)[0] == s[0]);
        assert(s.push(c).drop_first() =~= s.drop_first().push(c));
        lemma_escaped_snoc(s.drop_first(), c);
        assert(esc_char(s[0]) + (escaped(s.drop_first()) + esc_char(c)) =~= (esc_char(s[0])
            + escaped(s.drop_first())) + esc_char(c));
    }
}

/// A JSON string: the escaped text between quotes.
pub open spec fn quoted(s: Seq<char>) -> Seq<char> {
    "\""@ + escaped(s) + "\""@
}

/// Append one hexadecimal digit.
fn append_hex_digit(s: &mut String, d: u32)
    requires
        d < 16,
    ensures
        final (s)@ == old(s)@.push(hex_digit(d as nat)),
{
    match d {
        0 => s.append("0"),
        1 => s.append("1"),
        2 => s.append("2"),
        3 => s.append("3"),
        4 => s.append("4"),
        5 => s.append("5"),
        6 => s.append("6"),
        7 => s.append("7"),
        8 => s.append("8"),
        9 => s.append("9"),
        10 => s.append("a"),
        11 => s.append("b"),
        12 => s.append("c"),
        13 => s.append("d"),
        14 => s.append("e"),
        _ => s.append("f"),
    }
    proof {
        reveal_strlit("0");
        reveal_strlit("1");
        reveal_strlit("2");
        reveal_strlit("3");
        reveal_strlit("4");
        reveal_strlit("5");
        reveal_strlit("6");
        reveal_strlit("7");
        reveal_strlit("8");
        reveal_strlit("9");
        reveal_strlit("a");
        reveal_strlit("b");
        reveal_strlit("c");
        reveal_strlit("d");
        reveal_strlit("e");
        reveal_strlit("f");
        assert(final (s)@ =~= old(s)@.push(hex_digit(d as nat)));
    }
}

/// Append a text as a JSON string, quotes and escapes included.
#[verifier::loop_isolation(false)]
pub fn push_quoted(out: &mut String, text: &str)
    ensures
        final (out)@ == old(out)@ + quoted(text@),
{
    out.append("\"");
    let chars = str_to_chars(text);
    let n = chars.len();
    let mut i: usize = 0;
    proof {
        assert(escaped(text@.take(0)) =~= Seq::<char>::empty());
        assert(out@ =~= old(out)@ + "\""@ + escaped(text@.take(0)));
    }
    while i < n
        invariant
            0 <= i <= n,
            out@ == old(out)@ + "\""@ + escaped(text@.take(i as int)),
        decreases n - i,
    {
        let ghost pre = out@;
        let c = chars[i];
        if c == '"' {
            out.append("\\\"");
        } else if c == '\\' {
            out.append("\\\\");
        } else if c == '\u{8}' {
            out.append("\\b");
        } else if c == '\t' {
            out.append("\\t");
        } else if c == '\n' {
            out.append("\\n");
        } else if c == '\u{c}' {
            out.append("\\f");
        } else if c == '\r' {
            out.append("\\r");
        } else if (c as u32) < 32 {
            out.append("\\u00");
            let v = c as u32;
            append_hex_digit(out, v / 16);
            append_hex_digit(out, v % 16);
            proof {
                assert(out@ =~= pre + esc_char(c));
            }
        } else {
            let piece = text.substring_char(i, i + 1);
            proof {
                assert(piece@ =~= seq![c]);
            }
            out.append(piece);
        }
        proof {
            assert(out@ =~= pre + esc_char(c));
            assert(text@.take(i + 1) =~= text@.take(i as int).push(c));
            lemma_escaped_snoc(text@.take(i as int), c);
            assert(out@ =~= old(out)@ + "\""@ + escaped(text@.take(i + 1)));
        }
        i += 1;
    }
    out.append("\"");
    proof {
        assert(text@.take(n as int) =~= text@);
        assert(final (out)@ =~= old(out)@ + quoted(text@));
    }
}

/// The decimal notation of a possibly negative number.
pub open spec fn dec_i64(n: int) -> Seq<char> {
    if n < 0 {
        "-"@ + dec_str((-n) as nat)
    } else {
        dec_str(n as nat)
    }
}

/// Append one decimal digit given as a `u64`.
fn append_digit64(s: &mut String, d: u64)
    requires
        d < 10,
    ensures
        final (s)@ == old(s)@.push(dec_digit(d as nat)),
{
    match d {
        0 => s.append("0"),
        1 => s.append("1"),
        2 => s.append("2"),
        3 => s.append("3"),
        4 => s.append("4"),
        5 => s.append("5"),
        6 => s.append("6"),
        7 => s.append("7"),
        8 => s.append("8"),
        _ => s.append("9"),
    }
    proof {
        reveal_strlit("0");
        reveal_strlit("1");
        reveal_strlit("2");
        reveal_strlit("3");
        reveal_strlit("4");
        reveal_strlit("5");
        reveal_strlit("6");
        reveal_strlit("7");
        reveal_strlit("8");
        reveal_strlit("9");
        assert(final (s)@ =~= old(s)@.push(dec_digit(d as nat)));
    }
}

/// Append the decimal notation of an unsigned 64-bit number.
pub fn push_dec64(s: &mut String, n: u64)
    ensures
        final (s)@ == old(s)@ + dec_str(n as nat),
    decreases n,
{
    if n < 10 {
        append_digit64(s, n);
        proof {
            assert(final (s)@ =~= old(s)@ + dec_str(n as nat));
        }
    } else {
        push_dec64(s, n / 10);
        append_digit64(s, n % 10);
        proof {
            assert((old(s)@ + dec_str((n / 10) as nat)).push(dec_digit((n % 10) as nat)) =~= old(
                s,
            )@ + dec_str(n as nat));
        }
    }
}

/// Append the decimal notation of a signed 64-bit number.
pub fn push_i64(s: &mut String, n: i64)
    ensures
        final (s)@ == old(s)@ + dec_i64(n as int),
{
    if n < 0 {
        s.append("-");
        let m: u64 = (-(n as i128)) as u64;
        push_dec64(s, m);
        proof {
            assert(m as nat == (-(n as int)) as nat);
            assert(final (s)@ =~= old(s)@ + dec_i64(n as int));
        }
    } else {
        push_dec64(s, n as u64);
    }
}

/// The seven text fields of a video as JSON members, the object left open
/// so a history entry can extend it.
pub open spec fn video_fields_json(m: VideoModel) -> Seq<char> {
    "{\"id\":"@ + quoted(m.id) + ",\"title\":"@ + quoted(m.title) + ",\"author\":"@ + quoted(
        m.author,
    ) + ",\"duration\":"@ + quoted(m.duration) + ",\"views\":"@ + quoted(m.views)
        + ",\"published\":"@ + quoted(m.published) + ",\"thumbnail\":"@ + quoted(m.thumbnail)
}

/// One video as a JSON object.
pub open spec fn video_json(m: VideoModel) -> Seq<char> {
    video_fields_json(m) + "}"@
}

/// The comma-separated items of a video array.
pub open spec fn video_items_json(s: Seq<VideoModel>) -> Seq<char>
    decreases s.len(),
{
    if s.len() == 0 {
        Seq::<char>::empty()
    } else if s.len() == 1 {
        video_json(s[0])
    } else {
        video_items_json(s.drop_last()) + ","@ + video_json(s.last())
    }
}

/// A list of videos as a JSON array.
pub open spec fn videos_json(s: Seq<VideoModel>) -> Seq<char> {
    "["@ + video_items_json(s) + "]"@
}

/// A cached entry as JSON: the data, the write time, the time-to-live.
pub open spec fn cache_entry_json(data: Seq<VideoModel>, timestamp: int, ttl: nat) -> Seq<char> {
    "{\"data\":"@ + videos_json(data) + ",\"timestamp\":"@ + dec_i64(timestamp) + ",\"ttl\":"@
        + dec_str(ttl) + "}"@
}

/// One history entry as JSON: a video's fields with the watch time merged
/// in at the same level.
pub open spec fn history_entry_json(m: HistoryEntryModel) -> Seq<char> {
    video_fields_json(m.video) + ",\"timestamp\":"@ + dec_i64(m.timestamp) + "}"@
}

/// The comma-separated items of a history array.
pub open spec fn history_items_json(s: Seq<HistoryEntryModel>) -> Seq<char>
    decreases s.len(),
{
    if s.len() == 0 {
        Seq::<char>::empty()
    } else if s.len() == 1 {
        history_entry_json(s[0])
    } else {
        history_items_json(s.drop_last()) + ","@ + history_entry_json(s.last())
    }
}

/// The whole history as a JSON array.
pub open spec fn history_json(s: Seq<HistoryEntryModel>) -> Seq<char> {
    "["@ + history_items_json(s) + "]"@
}

/// One channel as a JSON object.
pub open spec fn channel_json(m: ChannelInfoModel) -> Seq<char> {
    "{\"name\":"@ + quoted(m.name) + ",\"handle\":"@ + quoted(m.handle) + "}"@
}

/// The comma-separated items of a channel array.
pub open spec fn channel_items_json(s: Seq<ChannelInfoModel>) -> Seq<char>
    decreases s.len(),
{
    if s.len() == 0 {
        Seq::<char>::empty()
    } else if s.len() == 1 {
        channel_json(s[0])
    } else {
        channel_items_json(s.drop_last()) + ","@ + channel_json(s.last())
    }
}

/// A list of channels as a JSON array.
pub open spec fn channels_json(s: Seq<ChannelInfoModel>) -> Seq<char> {
    "["@ + channel_items_json(s) + "]"@
}

/// A cached channel entry as JSON.
pub open spec fn channel_cache_entry_json(
    data: Seq<ChannelInfoModel>,
    timestamp: int,
    ttl: nat,
) -> Seq<char> {
    "{\"data\":"@ + channels_json(data) + ",\"timestamp\":"@ + dec_i64(timestamp) + ",\"ttl\":"@
        + dec_str(ttl) + "}"@
}

/// Append one video's open object.
fn push_video_fields(out: &mut String, v: &Video)
    ensures
        final (out)@ == old(out)@ + video_fields_json(v@),
{
    out.append("{\"id\":");
    push_quoted(out, v.id.as_str());
    out.append(",\"title\":");
    push_quoted(out, v.title.as_str());
    out.append(",\"author\":");
    push_quoted(out, v.author.as_str());
    out.append(",\"duration\":");
    push_quoted(out, v.duration.as_str());
    out.append(",\"views\":");
    push_quoted(out, v.views.as_str());
    out.append(",\"published\":");
    push_quoted(out, v.published.as_str());
    out.append(",\"thumbnail\":");
    push_quoted(out, v.thumbnail.as_str());
    proof {
        assert(final (out)@ =~= old(out)@ + video_fields_json(v@));
    }
}

/// Append one video object.
fn push_video(out: &mut String, v: &Video)
    ensures
        final (out)@ == old(out)@ + video_json(v@),
{
    push_video_fields(out, v);
    out.append("}");
    proof {
        assert(final (out)@ =~= old(out)@ + video_json(v@));
    }
}

/// Append a video array.
#[verifier::loop_isolation(false)]
#[verifier::rlimit(40)]
fn push_videos(out: &mut String, videos: &Vec<Video>)
    ensures
        final (out)@ == old(out)@ + videos_json(video_models(videos@)),
{
    out.append("[");
    let n = videos.len();
    let mut i: usize = 0;
    proof {
        assert(video_models(videos@.take(0)) =~= Seq::<VideoModel>::empty());
        assert(out@ =~= old(out)@ + "["@ + video_items_json(video_models(videos@.take(0))));
    }
    while i < n
        invariant
            0 <= i <= n,
            out@ == old(out)@ + "["@ + video_items_json(video_models(videos@.take(i as int))),
        decreases n - i,
    {
        let ghost pre_items = video_models(videos@.take(i as int));
        if i > 0 {
            out.append(",");
        }
        push_video(out, &videos[i]);
        proof {
            let now_items = video_models(videos@.take(i + 1));
            assert(now_items =~= pre_items.push(videos@[i as int]@));
            assert(now_items.drop_last() =~= pre_items);
            if i == 0 {
                assert(video_items_json(now_items) == video_json(now_items[0]));
            }
            assert(out@ =~= old(out)@ + "["@ + video_items_json(now_items));
        }
        i += 1;
    }
    out.append("]");
    proof {
        assert(videos@.take(n as int) =~= videos@);
        assert(final (out)@ =~= old(out)@ + videos_json(video_models(videos@)));
    }
}

/// The text a cache write stores for a video entry.
pub fn encode_cache_entry(e: &CacheEntry<Vec<Video>>) -> (r: String)
    ensures
        r@ == cache_entry_json(video_models(e.data@), e.timestamp as int, e.ttl as nat),
{
    let mut out = String::from_str("{\"data\":");
    push_videos(&mut out, &e.data);
    out.append(",\"timestamp\":");
    push_i64(&mut out, e.timestamp);
    out.append(",\"ttl\":");
    push_dec64(&mut out, e.ttl);
    out.append("}");
    proof {
        assert(out@ =~= cache_entry_json(video_models(e.data@), e.timestamp as int, e.ttl as nat));
    }
    out
}

/// Append one history entry object.
fn push_history_entry(out: &mut String, e: &HistoryEntry)
    ensures
        final (out)@ == old(out)@ + history_entry_json(e@),
{
    push_video_fields(out, &e.video);
    out.append(",\"timestamp\":");
    push_i64(out, e.timestamp);
    out.append("}");
    proof {
        assert(final (out)@ =~= old(out)@ + history_entry_json(e@));
    }
}

/// The text the history store holds: every entry, most recent first.
#[verifier::loop_isolation(false)]
#[verifier::rlimit(40)]
pub fn encode_history(entries: &Vec<HistoryEntry>) -> (r: String)
    ensures
        r@ == history_json(history_models(entries@)),
{
    let mut out = String::from_str("[");
    let n = entries.len();
    let mut i: usize = 0;
    proof {
        assert(history_models(entries@.take(0)) =~= Seq::<HistoryEntryModel>::empty());
        assert(out@ =~= "["@ + history_items_json(history_models(entries@.take(0))));
    }
    while i < n
        invariant
            0 <= i <= n,
            out@ == "["@ + history_items_json(history_models(entries@.take(i as int))),
        decreases n - i,
    {
        let ghost pre_items = history_models(entries@.take(i as int));
        if i > 0 {
            out.append(",");
        }
        push_history_entry(&mut out, &entries[i]);
        proof {
            let now_items = history_models(entries@.take(i + 1));
            assert(now_items =~= pre_items.push(entries@[i as int]@));
            assert(now_items.drop_last() =~= pre_items);
            if i == 0 {
                assert(history_items_json(now_items) == history_entry_json(now_items[0]));
            }
            assert(out@ =~= "["@ + history_items_json(now_items));
        }
        i += 1;
    }
    out.append("]");
    proof {
        assert(entries@.take(n as int) =~= entries@);
        assert(out@ =~= history_json(history_models(entries@)));
    }
    out
}

/// Append one channel object.
fn push_channel(out: &mut String, c: &ChannelInfo)
    ensures
        final (out)@ == old(out)@ + channel_json(c@),
{
    out.append("{\"name\":");
    push_quoted(out, c.name.as_str());
    out.append(",\"handle\":");
    push_quoted(out, c.handle.as_str());
    out.append("}");
    proof {
        assert(final (out)@ =~= old(out)@ + channel_json(c@));
    }
}

/// Append a channel array.
#[verifier::loop_isolation(false)]
#[verifier::rlimit(40)]
fn push_channels(out: &mut String, channels: &Vec<ChannelInfo>)
    ensures
        final (out)@ == old(out)@ + channels_json(channel_models(channels@)),
{
    out.append("[");
    let n = channels.len();
    let mut i: usize = 0;
    proof {
        assert(channel_models(channels@.take(0)) =~= Seq::<ChannelInfoModel>::empty());
        assert(out@ =~= old(out)@ + "["@ + channel_items_json(channel_models(channels@.take(0))));
    }
    while i < n
        invariant
            0 <= i <= n,
            out@ == old(out)@ + "["@ + channel_items_json(
                channel_models(channels@.take(i as int)),
            ),
        decreases n - i,
    {
        let ghost pre_items = channel_models(channels@.take(i as int));
        if i > 0 {
            out.append(",");
        }
        push_channel(out, &channels[i]);
        proof {
            let now_items = channel_models(channels@.take(i + 1));
            assert(now_items =~= pre_items.push(channels@[i as int]@));
            assert(now_items.drop_last() =~= pre_items);
            if i == 0 {
                assert(channel_items_json(now_items) == channel_json(now_items[0]));
            }
            assert(out@ =~= old(out)@ + "["@ + channel_items_json(now_items));
        }
        i += 1;
    }
    out.append("]");
    proof {
        assert(channels@.take(n as int) =~= channels@);
        assert(final (out)@ =~= old(out)@ + channels_json(channel_models(channels@)));
    }
}

/// The text a cache write stores for a channel entry.
pub fn encode_channel_cache_entry(e: &CacheEntry<Vec<ChannelInfo>>) -> (r: String)
    ensures
        r@ == channel_cache_entry_json(
            channel_models(e.data@),
            e.timestamp as int,
            e.ttl as nat,
        ),
{
    let mut out = String::from_str("{\"data\":");
    push_channels(&mut out, &e.data);
    out.append(",\"timestamp\":");
    push_i64(&mut out, e.timestamp);
    out.append(",\"ttl\":");
    push_dec64(&mut out, e.ttl);
    out.append("}");
    proof {
        assert(out@ =~= channel_cache_entry_json(
            channel_models(e.data@),
            e.timestamp as int,
            e.ttl as nat,
        ));
    }
    out
}

} // verus!
