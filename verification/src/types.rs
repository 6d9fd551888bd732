//! Core data types and their mathematical models.
//!
//! Each persistent or scraped record has a ghost model over `Seq<char>`
//! fields, reached through `View`, so that contracts can speak about the
//! text the records carry.

use vstd::prelude::*;

verus! {

/// The first `n` elements of a sequence, or all of them when there are
/// fewer.
pub open spec fn take_up_to<A>(s: Seq<A>, n: nat) -> Seq<A> {
    if s.len() <= n {
        s
    } else {
        s.take(n as int)
    }
}

/// A video result from a search or a feed.
#[derive(Debug, Clone, PartialEq, Eq)]
pub struct Video {
    pub id: String,
    pub title: String,
    pub author: String,
    /// Duration formatted as "3:45" or "1:23:45", or the sentinel "LIVE".
    pub duration: String,
    /// Raw display text, e.g., "1.2M views".
    pub views: String,
    /// Raw display text, e.g., "2 days ago".
    pub published: String,
    /// URL to a thumbnail image, possibly empty.
    pub thumbnail: String,
}

pub ghost struct VideoModel {
    pub id: Seq<char>,
    pub title: Seq<char>,
    pub author: Seq<char>,
    pub duration: Seq<char>,
    pub views: Seq<char>,
    pub published: Seq<char>,
    pub thumbnail: Seq<char>,
}

impl View for Video {
    type V = VideoModel;

    open spec fn view(&self) -> VideoModel {
        VideoModel {
            id: self.id@,
            title: self.title@,
            author: self.author@,
            duration: self.duration@,
            views: self.views@,
            published: self.published@,
            thumbnail: self.thumbnail@,
        }
    }
}

/// The models of a sequence of videos.
pub open spec fn video_models(s: Seq<Video>) -> Seq<VideoModel> {
    s.map_values(|v: Video| v@)
}

impl Video {
    /// An equal copy.
    pub fn duplicate(&self) -> (r: Video)
        ensures
            r == *self,
    {
        Video {
            id: self.id.clone(),
            title: self.title.clone(),
            author: self.author.clone(),
            duration: self.duration.clone(),
            views: self.views.clone(),
            published: self.published.clone(),
            thumbnail: self.thumbnail.clone(),
        }
    }
}

/// A video in the watch history: a video plus the capture time.
#[derive(Debug, Clone, PartialEq, Eq)]
pub struct HistoryEntry {
    pub video: Video,
    /// Unix timestamp (seconds) at which the video was watched.
    pub timestamp: i64,
}

pub ghost struct HistoryEntryModel {
    pub video: VideoModel,
    pub timestamp: int,
}

impl View for HistoryEntry {
    type V = HistoryEntryModel;

    open spec fn view(&self) -> HistoryEntryModel {
        HistoryEntryModel { video: self.video@, timestamp: self.timestamp as int }
    }
}

/// The models of a sequence of history entries.
pub open spec fn history_models(s: Seq<HistoryEntry>) -> Seq<HistoryEntryModel> {
    s.map_values(|e: HistoryEntry| e@)
}

impl HistoryEntry {
    /// An equal copy.
    pub fn duplicate(&self) -> (r: HistoryEntry)
        ensures
            r == *self,
    {
        HistoryEntry { video: self.video.duplicate(), timestamp: self.timestamp }
    }
}

/// A channel result from a channel search.
#[derive(Debug, Clone, PartialEq, Eq)]
pub struct Channel {
    pub id: String,
    pub name: String,
    /// @channelhandle
    pub handle: String,
    pub thumbnail: String,
    /// e.g., "1.2M subscribers"
    pub subscribers: String,
    /// e.g., "500 videos"
    pub video_count: String,
}

/// A subscription entry: a display name and the handle that keys it.
#[derive(Debug, Clone, PartialEq, Eq)]
pub struct Subscription {
    /// Display name.
    pub name: String,
    /// @handle or /c/channelname or /channel/ID; unique across the store.
    pub handle: String,
}

pub ghost struct SubscriptionModel {
    pub name: Seq<char>,
    pub handle: Seq<char>,
}

impl View for Subscription {
    type V = SubscriptionModel;

    open spec fn view(&self) -> SubscriptionModel {
        SubscriptionModel { name: self.name@, handle: self.handle@ }
    }
}

/// The models of a sequence of subscriptions.
pub open spec fn subscription_models(s: Seq<Subscription>) -> Seq<SubscriptionModel> {
    s.map_values(|x: Subscription| x@)
}

impl Subscription {
    /// An equal copy.
    pub fn duplicate(&self) -> (r: Subscription)
        ensures
            r == *self,
    {
        Subscription { name: self.name.clone(), handle: self.handle.clone() }
    }
}

/// Video player kind.
#[derive(Debug, Clone, Copy, PartialEq, Eq, Structural)]
pub enum PlayerType {
    Mpv,
    Syncplay,
}

impl Default for PlayerType {
    fn default() -> (r: Self)
        ensures
            r == PlayerType::Mpv,
    {
        PlayerType::Mpv
    }
}

/// Menu selector kind.
#[derive(Debug, Clone, Copy, PartialEq, Eq, Structural)]
pub enum SelectorType {
    Fzf,
    Rofi,
    Dialoguer,
}

impl Default for SelectorType {
    fn default() -> (r: Self)
        ensures
            r == SelectorType::Fzf,
    {
        SelectorType::Fzf
    }
}

/// User configuration.
#[derive(Debug, Clone)]
pub struct Config {
    /// Search result limit (default: 15).
    pub limit: usize,
    /// Default to video mode (false = audio-only, which is the default).
    pub video_mode: bool,
    /// Download directory path.
    pub download_dir: String,
    /// Max history entries (default: 100).
    pub max_history_entries: usize,
    /// Editor command (default: "nvim").
    pub editor: String,
    /// Video player.
    pub player: PlayerType,
    /// Menu selector.
    pub selector: SelectorType,
    /// Show desktop notifications.
    pub notify: bool,
}

/// Parsed command-line options.
#[derive(Debug, Clone)]
pub struct CliOptions {
    pub video: bool,
    pub download: bool,
    pub history: bool,
    pub feed: bool,
    pub subscribe: bool,
    pub syncplay: bool,
    pub limit: usize,
    pub copy_url: bool,
    pub edit: bool,
}

/// Runtime context threaded through the application.
#[derive(Debug, Clone)]
pub struct AppContext {
    pub config: Config,
    pub options: CliOptions,
    pub query: String,
    pub cache_path: String,
    pub config_path: String,
    pub history_path: String,
    pub subscriptions_path: String,
}

/// Options for playback.
#[derive(Debug, Clone)]
pub struct PlayOptions {
    /// Include video (false = audio-only).
    pub video: bool,
    /// Downloader format string.
    pub format: Option<String>,
}

/// Options for a video download.
#[derive(Debug, Clone)]
pub struct DownloadOptions {
    /// Include video (false = audio-only).
    pub video: bool,
    /// Downloader format string.
    pub format: Option<String>,
    /// Output directory.
    pub output_dir: String,
}

/// An available video format/quality.
#[derive(Debug, Clone)]
pub struct VideoFormat {
    /// Format code for the downloader.
    pub code: String,
    /// "1080p", "720p", etc.
    pub resolution: String,
    /// Framerate if available.
    pub fps: Option<u32>,
    /// Estimated size.
    pub filesize: Option<String>,
}

/// An item displayed in a selector menu.
#[derive(Debug, Clone)]
pub struct MenuItem<T> {
    /// Display text.
    pub label: String,
    /// Underlying value.
    pub value: T,
}

/// Application state for the interactive session.
#[derive(Debug, Clone, Copy, PartialEq, Eq, Structural)]
pub enum AppState {
    /// Initial menu selection.
    Init,
    /// Search and select a video.
    Search,
    /// Browse history.
    History,
    /// Browse the subscription feed.
    Feed,
    /// Add a subscription.
    Subscribe,
    /// Play/download the selected video.
    Play,
    /// Exit the application.
    Exit,
}

/// The state the command-line options select: history, feed and subscribe
/// take precedence in that order, then a present query starts a search,
/// and nothing at all opens the main menu.
pub open spec fn spec_initial_state(options: CliOptions, has_query: bool) -> AppState {
    if options.history {
        AppState::History
    } else if options.feed {
        AppState::Feed
    } else if options.subscribe {
        AppState::Subscribe
    } else if has_query {
        AppState::Search
    } else {
        AppState::Init
    }
}

/// Determine the initial state from the command-line options and whether a
/// query was given.
pub fn determine_initial_state(options: &CliOptions, has_query: bool) -> (r: AppState)
    ensures
        r == spec_initial_state(*options, has_query),
{
    if options.history {
        return AppState::History;
    }
    if options.feed {
        return AppState::Feed;
    }
    if options.subscribe {
        return AppState::Subscribe;
    }
    if has_query {
        return AppState::Search;
    }
    AppState::Init
}

/// Cached data with a time-to-live.
#[derive(Debug, Clone, PartialEq, Eq)]
pub struct CacheEntry<T> {
    pub data: T,
    /// Unix timestamp (seconds) at write time.
    pub timestamp: i64,
    /// Time-to-live in seconds.
    pub ttl: u64,
}

} // verus!
