//! Building the canonical watch URL for a video.

use vstd::prelude::*;
use vstd::string::StringExecFns;

verus! {

/// Canonical watch URL for a video id.
pub fn build_video_url(video_id: &str) -> (url: String)
    ensures
        url@ == "https://www.youtube.com/watch?v="@ + video_id@,
{
    let mut url = String::from_str("https://www.youtube.com/watch?v=");
    url.append(video_id);
    url
}

} // verus!
