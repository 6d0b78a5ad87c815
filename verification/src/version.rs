//! Tag-string normalization and the version-candidate trial order: the
//! literal requested version first, then the form with the prefix (a
//! configured one, or the bare `v`) toggled.

use vstd::prelude::*;
use crate::text::{concat_strs, is_prefix_of, starts_with, to_owned_string};

verus! {

/// `tag` with one leading `v` removed, when it has one.
pub open spec fn strip_bare_v(tag: Seq<char>) -> Seq<char> {
    if tag.len() > 0 && tag[0] == 'v' {
        tag.skip(1)
    } else {
        tag
    }
}

/// The user-facing version string for `tag`: a configured prefix is
/// stripped when the tag starts with it; otherwise one bare leading `v` is
/// stripped; otherwise the tag stands unchanged.
pub open spec fn strip_tag_spec(tag: Seq<char>, prefix: Option<Seq<char>>) -> Seq<char> {
    match prefix {
        Some(p) => if is_prefix_of(p, tag) {
            tag.skip(p.len() as int)
        } else {
            strip_bare_v(tag)
        },
        None => strip_bare_v(tag),
    }
}

/// The alternate spelling tried after the literal version: the configured
/// prefix (or a bare `v`) is removed when present and prepended when not.
pub open spec fn toggled_version(v: Seq<char>, prefix: Option<Seq<char>>) -> Seq<char> {
    match prefix {
        Some(p) => if is_prefix_of(p, v) {
            v.skip(p.len() as int)
        } else {
            p + v
        },
        None => if v.len() > 0 && v[0] == 'v' {
            v.skip(1)
        } else {
            seq!['v'] + v
        },
    }
}

/// The view of an optional configured prefix.
pub open spec fn opt_chars(o: Option<&String>) -> Option<Seq<char>> {
    match o {
        Some(p) => Some(p@),
        None => None,
    }
}

/// Normalizes one upstream tag to a user-facing version string.
pub fn strip_tag(tag: &str, prefix: Option<&String>) -> (r: String)
    ensures
        r@ == strip_tag_spec(tag@, opt_chars(prefix)),
{
    let tag_len = tag.unicode_len();
    if let Some(p) = prefix {
        if starts_with(tag, p.as_str()) {
            let p_len = p.as_str().unicode_len();
            let piece = tag.substring_char(p_len, tag_len);
            assert(tag@.subrange(p@.len() as int, tag@.len() as int) =~= tag@.skip(
                p@.len() as int,
            ));
            return String::from_str(piece);
        }
    }
    if tag_len > 0 && tag.get_char(0) == 'v' {
        let piece = tag.substring_char(1, tag_len);
        assert(tag@.subrange(1, tag@.len() as int) =~= tag@.skip(1));
        String::from_str(piece)
    } else {
        to_owned_string(tag)
    }
}

/// The candidate tag spellings for a requested version, in the order they
/// are tried: the literal spelling first, then the toggled-prefix form.
pub fn version_candidates(version: &str, prefix: Option<&String>) -> (r: Vec<String>)
    ensures
        r@.len() == 2,
        r@[0]@ == version@,
        r@[1]@ == toggled_version(version@, opt_chars(prefix)),
{
    let literal = to_owned_string(version);
    let v_len = version.unicode_len();
    let toggled: String = match prefix {
        Some(p) => {
            if starts_with(version, p.as_str()) {
                let p_len = p.as_str().unicode_len();
                let piece = version.substring_char(p_len, v_len);
                assert(version@.subrange(p@.len() as int, version@.len() as int) =~= version@.skip(
                    p@.len() as int,
                ));
                String::from_str(piece)
            } else {
                concat_strs(p.as_str(), version)
            }
        },
        None => {
            if v_len > 0 && version.get_char(0) == 'v' {
                let piece = version.substring_char(1, v_len);
                assert(version@.subrange(1, version@.len() as int) =~= version@.skip(1));
                String::from_str(piece)
            } else {
                let r = concat_strs("v", version);
                proof {
                    reveal_strlit("v");
                    assert("v"@ =~= seq!['v']);
                }
                r
            }
        },
    };
    let mut out: Vec<String> = Vec::new();
    out.push(literal);
    out.push(toggled);
    out
}

/// Law: with no prefix configured, a requested version that does not
/// itself start with `v` has its `v`-prefixed spelling as the second
/// candidate tag — so a forge that publishes only `v`-tags is reached by
/// the candidate trial without any user-supplied prefix configuration.
pub proof fn lemma_candidates_reach_v_tag(v: Seq<char>)
    requires
        v.len() == 0 || v[0] != 'v',
    ensures
        toggled_version(v, None) == seq!['v'] + v,
{
}

/// Law: stripping a configured prefix from a tag that starts with it and
/// re-applying the prefix reconstructs the tag.
pub proof fn lemma_strip_then_reapply(tag: Seq<char>, p: Seq<char>)
    requires
        is_prefix_of(p, tag),
    ensures
        p + strip_tag_spec(tag, Some(p)) == tag,
{
    assert(p + tag.skip(p.len() as int) =~= tag);
}

} // verus!
