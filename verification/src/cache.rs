//! Keys, file names and the value-level sharing rule for the forge's
//! cache groups: the releases list, the tags list, and single releases,
//! each persisted to its own file under the forge's cache directory.
//!
//! The groups themselves are `StrMap` values; `StrMap::get_or_insert` is
//! the sequential face of the single-flight guarantee: the first access
//! for a key stores the fetched value, and every later access observes
//! that stored value and fetches nothing.

use vstd::prelude::*;
use crate::options::StrMap;
use crate::text::to_owned_string;
use crate::trusted::{kebab_case, kebab_of};

verus! {

/// The normalized key of a repository-level cache group.
pub fn cache_key(api_url: &str, repo: &str) -> (r: String)
    ensures
        r@ == kebab_of(api_url@ + "-"@ + repo@),
{
    let mut s = to_owned_string(api_url);
    s.append("-");
    s.append(repo);
    kebab_case(s.as_str())
}

/// The normalized key of a single-release cache entry.
pub fn cache_key_with_tag(api_url: &str, repo: &str, tag: &str) -> (r: String)
    ensures
        r@ == kebab_of(api_url@ + "-"@ + repo@ + "-"@ + tag@),
{
    let mut s = to_owned_string(api_url);
    s.append("-");
    s.append(repo);
    s.append("-");
    s.append(tag);
    kebab_case(s.as_str())
}

/// The file a releases-list cache entry persists to, relative to the
/// forge's cache directory.
pub fn releases_cache_file(key: &str) -> (r: String)
    ensures
        r@ == key@ + "-releases.msgpack.z"@,
{
    let mut s = to_owned_string(key);
    s.append("-releases.msgpack.z");
    s
}

/// The file a tags-list cache entry persists to.
pub fn tags_cache_file(key: &str) -> (r: String)
    ensures
        r@ == key@ + "-tags.msgpack.z"@,
{
    let mut s = to_owned_string(key);
    s.append("-tags.msgpack.z");
    s
}

/// The file a single-release cache entry persists to.
pub fn release_cache_file(key: &str) -> (r: String)
    ensures
        r@ == key@ + ".msgpack.z"@,
{
    let mut s = to_owned_string(key);
    s.append(".msgpack.z");
    s
}

/// The forge's cache directory under the surrounding tool's cache root.
pub fn cache_dir(base: &str) -> (r: String)
    ensures
        r@ == base@ + "/forgejo"@,
{
    let mut s = to_owned_string(base);
    s.append("/forgejo");
    s
}

/// What an access through a cache group observes for a key: the stored
/// value when one exists, else the freshly fetched one.
pub open spec fn cache_outcome<V>(m: StrMap<V>, k: Seq<char>, fresh: V) -> V {
    match m.spec_get(k) {
        Some(v) => v,
        None => fresh,
    }
}

/// Law: once a cache group holds a value for a key, what an access for
/// that key observes no longer depends on what an upstream fetch would
/// have returned: all callers share the stored result.
pub proof fn lemma_cached_key_shares_result<V>(m: StrMap<V>, k: Seq<char>, f1: V, f2: V)
    requires
        m.spec_get(k) is Some,
    ensures
        cache_outcome(m, k, f1) == cache_outcome(m, k, f2),
{
}

} // verus!
