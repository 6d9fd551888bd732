//! Store file locations under the application's directories.
//!
//! The configuration and cache directories themselves are resolved by the
//! caller at startup and passed in, so every path here is a pure function.

use vstd::prelude::*;
use vstd::string::StringExecFns;

verus! {

/// The history store: `history.json` under the cache directory.
pub fn get_history_path(cache_dir: &str) -> (r: String)
    ensures
        r@ == cache_dir@ + "/history.json"@,
{
    let mut p = String::from_str(cache_dir);
    p.append("/history.json");
    p
}

/// The configuration file: `config.json` under the config directory.
pub fn get_config_path(config_dir: &str) -> (r: String)
    ensures
        r@ == config_dir@ + "/config.json"@,
{
    let mut p = String::from_str(config_dir);
    p.append("/config.json");
    p
}

/// The subscription store: `subscriptions.txt` under the config directory.
pub fn get_subscriptions_path(config_dir: &str) -> (r: String)
    ensures
        r@ == config_dir@ + "/subscriptions.txt"@,
{
    let mut p = String::from_str(config_dir);
    p.append("/subscriptions.txt");
    p
}

/// The storage unit of one cache key: `<key>.json` under the cache
/// directory.
pub fn cache_path(cache_dir: &str, key: &str) -> (r: String)
    ensures
        r@ == cache_dir@ + "/"@ + key@ + ".json"@,
{
    let mut p = String::from_str(cache_dir);
    p.append("/");
    p.append(key);
    p.append(".json");
    proof {
        assert(p@ =~= cache_dir@ + "/"@ + key@ + ".json"@);
    }
    p
}

} // verus!
