//! Anchored glob matching for asset patterns: `*` matches any run of
//! characters, `?` any single character, every other character itself.

use vstd::prelude::*;

verus! {

/// True when pattern `p` matches all of `s`: `*` stands for any run of
/// characters, `?` for any single character, anything else for itself.
pub open spec fn glob_match(p: Seq<char>, s: Seq<char>) -> bool
    decreases p.len(), s.len(),
{
    if p.len() == 0 {
        s.len() == 0
    } else if p[0] == '*' {
        glob_match(p.skip(1), s) || (s.len() > 0 && glob_match(p, s.skip(1)))
    } else {
        s.len() > 0 && (p[0] == '?' || p[0] == s[0]) && glob_match(p.skip(1), s.skip(1))
    }
}

/// Decides `glob_match` on the tails of `p` and `s` from `i` and `j` on.
fn glob_match_at(p: &str, s: &str, i: usize, j: usize) -> (r: bool)
    requires
        i <= p@.len(),
        j <= s@.len(),
    ensures
        r == glob_match(p@.skip(i as int), s@.skip(j as int)),
    decreases p@.len() - i, s@.len() - j,
{
    let p_len = p.unicode_len();
    let s_len = s.unicode_len();
    proof {
        if i < p@.len() {
            assert(p@.skip(i as int)[0] == p@[i as int]);
            assert(p@.skip(i as int).skip(1) =~= p@.skip(i as int + 1));
        }
        if j < s@.len() {
            assert(s@.skip(j as int)[0] == s@[j as int]);
            assert(s@.skip(j as int).skip(1) =~= s@.skip(j as int + 1));
        }
    }
    if i == p_len {
        return j == s_len;
    }
    let pc = p.get_char(i);
    if pc == '*' {
        if glob_match_at(p, s, i + 1, j) {
            return true;
        }
        if j < s_len {
            return glob_match_at(p, s, i, j + 1);
        }
        false
    } else {
        if j == s_len {
            return false;
        }
        let sc = s.get_char(j);
        if pc == '?' || pc == sc {
            glob_match_at(p, s, i + 1, j + 1)
        } else {
            false
        }
    }
}

/// Decides whether the glob `pattern` matches the whole of `name`.
pub fn glob_matches(name: &str, pattern: &str) -> (r: bool)
    ensures
        r == glob_match(pattern@, name@),
{
    let r = glob_match_at(pattern, name, 0, 0);
    assert(pattern@.skip(0) =~= pattern@);
    assert(name@.skip(0) =~= name@);
    r
}

} // verus!
