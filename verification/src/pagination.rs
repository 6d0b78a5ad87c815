//! Parsing the `Link`-style response header that carries the next page of
//! a paginated listing: the first `<url>; rel="next"` relation yields the
//! URL to follow, and pages are concatenated in the order received.

use vstd::prelude::*;
use crate::text::matches_at;

verus! {

/// True when a `<url>; rel="next"` relation stands in `s` with its `<` at
/// `i` and its `>` at `j`: at least one character between the brackets,
/// none of them `>`, and the literal relation text right after.
pub open spec fn link_capture_at(s: Seq<char>, i: int, j: int) -> bool {
    &&& 0 <= i
    &&& i + 1 < j < s.len()
    &&& s[i] == '<'
    &&& s[j] == '>'
    &&& (forall|k: int| i < k < j ==> s[k] != '>')
    &&& matches_at(s, "; rel=\"next\""@, j + 1)
}

/// True when a `<url>; rel="next"` relation starts at `i`.
pub open spec fn link_match_at(s: Seq<char>, i: int) -> bool {
    exists|j: int| link_capture_at(s, i, j)
}

/// The releases endpoint of a repository.
pub fn releases_url(api_url: &str, repo: &str) -> (r: String)
    ensures
        r@ == api_url@ + "/repos/"@ + repo@ + "/releases"@,
{
    let mut s = crate::text::to_owned_string(api_url);
    s.append("/repos/");
    s.append(repo);
    s.append("/releases");
    s
}

/// The tags endpoint of a repository.
pub fn tags_url(api_url: &str, repo: &str) -> (r: String)
    ensures
        r@ == api_url@ + "/repos/"@ + repo@ + "/tags"@,
{
    let mut s = crate::text::to_owned_string(api_url);
    s.append("/repos/");
    s.append(repo);
    s.append("/tags");
    s
}

/// The single-release-by-tag endpoint of a repository.
pub fn release_tag_url(api_url: &str, repo: &str, tag: &str) -> (r: String)
    ensures
        r@ == api_url@ + "/repos/"@ + repo@ + "/releases/tags/"@ + tag@,
{
    let mut s = crate::text::to_owned_string(api_url);
    s.append("/repos/");
    s.append(repo);
    s.append("/releases/tags/");
    s.append(tag);
    s
}

/// The URL of the next page, parsed from a `Link`-style header: the
/// capture of the first `<url>; rel="next"` relation, or none.
pub fn next_page(link: &str) -> (r: Option<String>)
    ensures
        match r {
            Some(u) => exists|i: int, j: int|
                #[trigger] link_capture_at(link@, i, j) && u@ == link@.subrange(i + 1, j) && (
                forall|i2: int| 0 <= i2 < i ==> !link_match_at(link@, i2)),
            None => forall|i: int| !link_match_at(link@, i),
        },
{
    let len = link.unicode_len();
    let suf = "; rel=\"next\"";
    let suf_len = suf.unicode_len();
    let mut i: usize = 0;
    while i < len
        invariant
            i <= len,
            len == link@.len(),
            suf_len == suf@.len(),
            suf@ == "; rel=\"next\""@,
            forall|i2: int| 0 <= i2 < i ==> !link_match_at(link@, i2),
        decreases len - i,
    {
        if link.get_char(i) == '<' {
            let mut j: usize = i + 1;
            while j < len && link.get_char(j) != '>'
                invariant
                    i < j <= len,
                    len == link@.len(),
                    forall|k: int| i < k < j ==> link@[k] != '>',
                decreases len - j,
            {
                j = j + 1;
            }
            let mut hit: bool = false;
            if j < len && j > i + 1 {
                if len - (j + 1) >= suf_len {
                    hit = crate::text::match_at(link, suf, j + 1);
                }
            }
            if hit {
                let cap = link.substring_char(i + 1, j);
                let out = String::from_str(cap);
                proof {
                    assert(link_capture_at(link@, i as int, j as int));
                    assert(out@ == link@.subrange(i as int + 1, j as int));
                }
                return Some(out);
            }
            proof {
                assert forall|j2: int| !link_capture_at(link@, i as int, j2) by {
                    if link_capture_at(link@, i as int, j2) {
                        if j2 < j {
                            assert(link@[j2] != '>');
                        } else if j < len && j2 > j {
                            assert(link@[j as int] != '>');
                        } else if j2 == j {
                            assert(j < len && link@[j as int] == '>');
                            assert(j > i + 1 ==> !matches_at(link@, "; rel=\"next\""@, j + 1));
                        }
                    }
                }
                assert(!link_match_at(link@, i as int));
            }
        } else {
            proof {
                assert(!link_match_at(link@, i as int));
            }
        }
        i = i + 1;
    }
    proof {
        assert forall|i2: int| !link_match_at(link@, i2) by {
            if link_match_at(link@, i2) {
                let j2 = choose|j2: int| link_capture_at(link@, i2, j2);
                assert(0 <= i2 < link@.len());
            }
        }
    }
    None
}

} // verus!
