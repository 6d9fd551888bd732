//! Choosing the interactive selector backend.
//!
//! The selectors themselves are interactive collaborators outside this
//! library; what is decided here is which backend to use, given which ones
//! are available. Availability is probed by the caller and passed in as a
//! plain value.

use vstd::prelude::*;

use crate::strings::{dec_val, find_char, find_char_exec, parse_dec_prefix, str_to_chars};
use crate::types::SelectorType;

verus! {

/// What decoding a picker's answer line yields: the decimal index before
/// the first tab (or in the whole line), accepted only when it addresses
/// one of the `n_items` entries.
pub open spec fn selection_index_model(line: Seq<char>, n_items: nat) -> Option<nat> {
    let digits = match find_char(line, '\t', 0) {
        Some(t) => line.take(t),
        None => line,
    };
    match dec_val(digits) {
        Some(v) => if v < n_items {
            Some(v)
        } else {
            None
        },
        None => None,
    }
}

/// Decode the line an fzf-style picker prints back: the decimal index
/// before the first tab, valid only when it addresses an entry.
pub fn parse_selection_index(line: &str, n_items: usize) -> (r: Option<usize>)
    ensures
        match selection_index_model(line@, n_items as nat) {
            Some(v) => r == Some(v as usize) && v < n_items,
            None => r is None,
        },
{
    let chars = str_to_chars(line);
    let end = match find_char_exec(&chars, '\t', 0) {
        Some(t) => {
            proof {
                crate::strings::lemma_find_char_props(chars@, '\t', 0);
            }
            t
        },
        None => chars.len(),
    };
    proof {
        if find_char(line@, '\t', 0) is None {
            assert(chars@.take(chars@.len() as int) =~= line@);
        }
    }
    match parse_dec_prefix(&chars, end) {
        Some(v) => {
            if v < n_items {
                Some(v)
            } else {
                None
            }
        },
        None => None,
    }
}

/// The fzf-based selector backend.
pub struct FzfSelector;

impl FzfSelector {
    pub fn new() -> Self {
        FzfSelector
    }
}

/// The prompt-based fallback selector backend.
pub struct DialoguerSelector;

impl DialoguerSelector {
    pub fn new() -> Self {
        DialoguerSelector
    }

    /// The fallback is always available.
    pub fn is_available(&self) -> (r: bool)
        ensures
            r,
    {
        true
    }
}

/// A chosen selector backend.
pub enum Selector {
    Fzf(FzfSelector),
    Dialoguer(DialoguerSelector),
}

impl Selector {
    /// Whether the chosen backend can run, given whether fzf is on the
    /// system; the fallback always can.
    pub fn is_available(&self, fzf_available: bool) -> (r: bool)
        ensures
            r == match self {
                Selector::Fzf(_) => fzf_available,
                Selector::Dialoguer(_) => true,
            },
    {
        match self {
            Selector::Fzf(_) => fzf_available,
            Selector::Dialoguer(_) => true,
        }
    }
}

/// The backend a configured choice resolves to: fzf only when it is chosen
/// and available; everything else falls back to the prompt.
pub fn create_selector(selector_type: SelectorType, fzf_available: bool) -> (r: Selector)
    ensures
        (r is Fzf) <==> (selector_type == SelectorType::Fzf && fzf_available),
{
    match selector_type {
        SelectorType::Fzf => {
            if fzf_available {
                Selector::Fzf(FzfSelector::new())
            } else {
                Selector::Dialoguer(DialoguerSelector::new())
            }
        },
        SelectorType::Rofi => Selector::Dialoguer(DialoguerSelector::new()),
        SelectorType::Dialoguer => Selector::Dialoguer(DialoguerSelector::new()),
    }
}

/// The best selector kind for the system: fzf when available, else the
/// prompt fallback.
pub fn detect_selector(fzf_available: bool) -> (r: SelectorType)
    ensures
        r == (if fzf_available {
            SelectorType::Fzf
        } else {
            SelectorType::Dialoguer
        }),
{
    if fzf_available {
        SelectorType::Fzf
    } else {
        SelectorType::Dialoguer
    }
}

} // verus!
