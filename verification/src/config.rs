//! Configuration defaults and merging.

use vstd::prelude::*;
use vstd::string::StringExecFns;

use crate::types::{Config, PlayerType, SelectorType};

verus! {

impl Default for Config {
    /// The default configuration: 15 results, audio-only, 100 history
    /// entries, editor "nvim", the default player and selector,
    /// notifications on, and a download directory filled in at runtime.
    fn default() -> (r: Self)
        ensures
            r.limit == 15,
            r.video_mode == false,
            r.download_dir@ == Seq::<char>::empty(),
            r.max_history_entries == 100,
            r.editor@ == "nvim"@,
            r.player == PlayerType::Mpv,
            r.selector == SelectorType::Fzf,
            r.notify == true,
    {
        Config {
            limit: 15,
            video_mode: false,
            download_dir: String::new(),
            max_history_entries: 100,
            editor: String::from_str("nvim"),
            player: PlayerType::Mpv,
            selector: SelectorType::Fzf,
            notify: true,
        }
    }
}

/// Merge a loaded user configuration with the runtime default download
/// directory: every user field stands; an empty download directory is
/// replaced by the fallback.
pub fn merge_config(user: Config, fallback_download_dir: String) -> (r: Config)
    ensures
        r.limit == user.limit,
        r.video_mode == user.video_mode,
        r.max_history_entries == user.max_history_entries,
        r.editor == user.editor,
        r.player == user.player,
        r.selector == user.selector,
        r.notify == user.notify,
        r.download_dir@ == (if user.download_dir@.len() == 0 {
            fallback_download_dir@
        } else {
            user.download_dir@
        }),
{
    let download_dir = if user.download_dir.as_str().is_empty() {
        fallback_download_dir
    } else {
        user.download_dir
    };
    Config {
        limit: user.limit,
        video_mode: user.video_mode,
        download_dir,
        max_history_entries: user.max_history_entries,
        editor: user.editor,
        player: user.player,
        selector: user.selector,
        notify: user.notify,
    }
}

} // verus!
