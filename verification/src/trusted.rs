//! The few calls into outside crates that the logic needs, each behind a
//! contract stated over the characters of its input.

use vstd::prelude::*;
use heck::ToKebabCase;

verus! {

/// What `str::to_lowercase` returns for the characters `s`; a function of
/// the characters alone.
pub uninterp spec fn lower_of(s: Seq<char>) -> Seq<char>;

/// Relies on `str::to_lowercase`: the lowercased text depends on the
/// characters of `s` alone.
#[verifier::external_body]
pub fn lowercase(s: &str) -> (r: String)
    ensures
        r@ == lower_of(s@),
{
    s.to_lowercase()
}

/// What `heck::ToKebabCase::to_kebab_case` returns for the characters `s`;
/// a function of the characters alone.
pub uninterp spec fn kebab_of(s: Seq<char>) -> Seq<char>;

/// Relies on `heck::ToKebabCase::to_kebab_case` for `str`: the words of `s`
/// lowercased and joined with hyphens, depending on the characters alone.
#[verifier::external_body]
pub fn kebab_case(s: &str) -> (r: String)
    ensures
        r@ == kebab_of(s@),
{
    s.to_kebab_case()
}

/// Whether `url::Url::parse` accepts the characters `s`; a function of
/// the characters alone.
pub uninterp spec fn url_parses(s: Seq<char>) -> bool;

/// What a parsed and re-serialized URL looks like for the characters `s`;
/// a function of the characters alone.
pub uninterp spec fn url_normalized(s: Seq<char>) -> Seq<char>;

/// Relies on `url::Url::parse` and `url::Url`'s serialization: parsing
/// succeeds or fails on the characters of `s` alone, and on success the
/// serialized form (with a normalized path, e.g. a trailing slash after a
/// bare host) also depends on them alone.
#[verifier::external_body]
pub fn normalize_url(s: &str) -> (r: Option<String>)
    ensures
        r is Some <==> url_parses(s@),
        match r {
            Some(u) => u@ == url_normalized(s@),
            None => true,
        },
{
    match url::Url::parse(s) {
        Ok(u) => Some(u.to_string()),
        Err(_) => None,
    }
}

/// The path component of the URL written as `s`; a function of the
/// characters alone.
pub uninterp spec fn url_path_of(s: Seq<char>) -> Seq<char>;

/// Relies on `url::Url::parse` and `url::Url::path`: parsing succeeds or
/// fails on the characters of `s` alone, and the path component of a
/// parsed URL depends on them alone.
#[verifier::external_body]
pub fn parse_url_path(s: &str) -> (r: Option<String>)
    ensures
        r is Some <==> url_parses(s@),
        match r {
            Some(p) => p@ == url_path_of(s@),
            None => true,
        },
{
    match url::Url::parse(s) {
        Ok(u) => Some(u.path().to_string()),
        Err(_) => None,
    }
}

} // verus!
