//! Locating and parsing the embedded JSON data blob inside a fetched page.
//!
//! The page embeds one large JSON object as a script-tag variable
//! assignment. Extraction finds the first occurrence of the assignment
//! marker, captures everything up to the first subsequent closing-script
//! boundary, and parses the capture as JSON. Failing to find the marker and
//! failing to parse the capture are distinct, explicitly named errors.

use vstd::prelude::*;
use vstd::string::{StrSliceExecFns, StringExecFns};

use crate::error::{ErrorModel, YtChillError};
use crate::json::{json_of, parse_json, JsonValue};
use crate::strings::{find_in_chars, find_spec, lemma_find_spec_props, str_to_chars};

verus! {

/// The outcome owed for a page text.
pub ghost enum ExtractModel {
    /// No assignment marker, or no closing boundary after it.
    NoMarker,
    /// The captured text is not valid JSON.
    BadJson,
    /// The parsed data tree.
    Found(JsonValue),
}

/// What extracting the embedded data from a page yields: the text between
/// the first assignment marker and the first subsequent closing-script
/// boundary, parsed as JSON.
pub open spec fn extract_model(html: Seq<char>) -> ExtractModel {
    match find_spec(html, "var ytInitialData = "@, 0) {
        None => ExtractModel::NoMarker,
        Some(i) => {
            let start = i + "var ytInitialData = "@.len();
            match find_spec(html, ";</script>"@, start) {
                None => ExtractModel::NoMarker,
                Some(j) => match json_of(html.subrange(start, j)) {
                    None => ExtractModel::BadJson,
                    Some(v) => ExtractModel::Found(v),
                },
            }
        },
    }
}

/// Extract the embedded JSON data from a page, or say exactly why not: a
/// missing marker and a failed parse are reported apart.
pub fn extract_yt_initial_data(html: &str) -> (r: Result<JsonValue, YtChillError>)
    ensures
        match extract_model(html@) {
            ExtractModel::Found(v) => r == Ok::<JsonValue, YtChillError>(v),
            ExtractModel::NoMarker => r matches Err(e) && e@ == ErrorModel::YouTubeParse(
                "Failed to find ytInitialData"@,
            ),
            ExtractModel::BadJson => r matches Err(e) && e@ == ErrorModel::YouTubeParse(
                "Failed to parse ytInitialData"@,
            ),
        },
{
    let chars = str_to_chars(html);
    let marker = str_to_chars("var ytInitialData = ");
    let closer = str_to_chars(";</script>");
    let i = match find_in_chars(&chars, &marker, 0) {
        Some(i) => i,
        None => {
            return Err(
                YtChillError::YouTubeParse(String::from_str("Failed to find ytInitialData")),
            );
        },
    };
    let n = chars.len();
    proof {
        lemma_find_spec_props(html@, "var ytInitialData = "@, 0);
        assert(i + marker@.len() <= n);
    }
    let start = i + marker.len();
    let j = match find_in_chars(&chars, &closer, start) {
        Some(j) => j,
        None => {
            return Err(
                YtChillError::YouTubeParse(String::from_str("Failed to find ytInitialData")),
            );
        },
    };
    proof {
        lemma_find_spec_props(html@, ";</script>"@, start as int);
    }
    let body = html.substring_char(start, j);
    match parse_json(body) {
        Some(v) => Ok(v),
        None => Err(YtChillError::YouTubeParse(String::from_str("Failed to parse ytInitialData"))),
    }
}

} // verus!
