//! Character-level string operations, each proved against a direct
//! mathematical statement over `Seq<char>` views.

use vstd::prelude::*;

verus! {

/// True when `p` is a prefix of `s`.
pub open spec fn is_prefix_of(p: Seq<char>, s: Seq<char>) -> bool {
    p.len() <= s.len() && s.subrange(0, p.len() as int) == p
}

/// True when `p` is a suffix of `s`.
pub open spec fn is_suffix_of(p: Seq<char>, s: Seq<char>) -> bool {
    p.len() <= s.len() && s.subrange(s.len() - p.len(), s.len() as int) == p
}

/// True when `sub` occurs in `s` starting at position `i`.
pub open spec fn matches_at(s: Seq<char>, sub: Seq<char>, i: int) -> bool {
    0 <= i && i + sub.len() <= s.len() && s.subrange(i, i + sub.len()) == sub
}

/// True when `sub` occurs somewhere in `s`.
pub open spec fn contains_seq(s: Seq<char>, sub: Seq<char>) -> bool {
    exists|i: int| matches_at(s, sub, i)
}

/// The part of `s` after the first occurrence of `c`; empty when `c` does not occur.
pub open spec fn suffix_after_first(s: Seq<char>, c: char) -> Seq<char>
    decreases s.len(),
{
    if s.len() == 0 {
        s
    } else if s[0] == c {
        s.skip(1)
    } else {
        suffix_after_first(s.skip(1), c)
    }
}

/// The part of `s` after the last occurrence of `c`; all of `s` when `c` does not occur.
pub open spec fn suffix_after_last(s: Seq<char>, c: char) -> Seq<char>
    decreases s.len(),
{
    if s.len() == 0 {
        s
    } else if s.last() == c {
        Seq::empty()
    } else {
        suffix_after_last(s.drop_last(), c).push(s.last())
    }
}

/// The part of `s` before the first occurrence of `c`; all of `s` when `c`
/// does not occur.
pub open spec fn prefix_before_first(s: Seq<char>, c: char) -> Seq<char>
    decreases s.len(),
{
    if s.len() == 0 {
        s
    } else if s[0] == c {
        Seq::empty()
    } else {
        seq![s[0]] + prefix_before_first(s.skip(1), c)
    }
}

/// The Unicode code of `c`, with an ASCII capital letter folded to its small
/// form.
pub open spec fn lower_code(c: char) -> u64 {
    if 65 <= c as u64 <= 90 {
        (c as u64 + 32) as u64
    } else {
        c as u64
    }
}

/// Character equality up to ASCII case.
pub open spec fn ieq_char(a: char, b: char) -> bool {
    lower_code(a) == lower_code(b)
}

/// True when `sub` occurs in `s` at position `i`, up to ASCII case.
pub open spec fn imatches_at(s: Seq<char>, sub: Seq<char>, i: int) -> bool {
    0 <= i && i + sub.len() <= s.len() && forall|k: int|
        0 <= k < sub.len() ==> ieq_char(s[i + k], sub[k])
}

/// True when `sub` occurs somewhere in `s`, up to ASCII case.
pub open spec fn icontains(s: Seq<char>, sub: Seq<char>) -> bool {
    exists|i: int| imatches_at(s, sub, i)
}

/// `parts` joined by `sep`.
pub open spec fn join_with(parts: Seq<Seq<char>>, sep: Seq<char>) -> Seq<char>
    decreases parts.len(),
{
    if parts.len() == 0 {
        Seq::empty()
    } else if parts.len() == 1 {
        parts[0]
    } else {
        parts[0] + sep + join_with(parts.skip(1), sep)
    }
}

/// `s` with every occurrence of `pat` replaced by `rep`, scanning left to
/// right without revisiting replaced text.
pub open spec fn replace_all_spec(s: Seq<char>, pat: Seq<char>, rep: Seq<char>) -> Seq<char>
    decreases s.len(),
    when pat.len() > 0
{
    if s.len() == 0 {
        s
    } else if is_prefix_of(pat, s) {
        rep + replace_all_spec(s.skip(pat.len() as int), pat, rep)
    } else {
        seq![s[0]] + replace_all_spec(s.skip(1), pat, rep)
    }
}

/// Decides whether `p` is a prefix of `s`.
pub fn starts_with(s: &str, p: &str) -> (r: bool)
    ensures
        r == is_prefix_of(p@, s@),
{
    let s_len = s.unicode_len();
    let p_len = p.unicode_len();
    if p_len > s_len {
        return false;
    }
    let mut i: usize = 0;
    while i < p_len
        invariant
            i <= p_len,
            p_len == p@.len(),
            p_len <= s_len,
            s_len == s@.len(),
            forall|j: int| 0 <= j < i ==> s@[j] == p@[j],
        decreases p_len - i,
    {
        if s.get_char(i) != p.get_char(i) {
            assert(s@.subrange(0, p@.len() as int)[i as int] != p@[i as int]);
            return false;
        }
        i = i + 1;
    }
    assert(s@.subrange(0, p@.len() as int) =~= p@);
    true
}

/// Decides whether `p` is a suffix of `s`.
pub fn ends_with(s: &str, p: &str) -> (r: bool)
    ensures
        r == is_suffix_of(p@, s@),
{
    let s_len = s.unicode_len();
    let p_len = p.unicode_len();
    if p_len > s_len {
        return false;
    }
    let off = s_len - p_len;
    let mut i: usize = 0;
    while i < p_len
        invariant
            i <= p_len,
            p_len == p@.len(),
            p_len <= s_len,
            s_len == s@.len(),
            off == s_len - p_len,
            forall|j: int| 0 <= j < i ==> s@[off + j] == p@[j],
        decreases p_len - i,
    {
        if s.get_char(off + i) != p.get_char(i) {
            assert(s@.subrange(s@.len() - p@.len(), s@.len() as int)[i as int] != p@[i as int]);
            return false;
        }
        i = i + 1;
    }
    assert(s@.subrange(s@.len() - p@.len(), s@.len() as int) =~= p@);
    true
}

/// Decides whether `sub` occurs in `s` at position `i`.
pub fn match_at(s: &str, sub: &str, i: usize) -> (r: bool)
    requires
        i + sub@.len() <= s@.len(),
    ensures
        r == matches_at(s@, sub@, i as int),
{
    let s_len = s.unicode_len();
    let sub_len = sub.unicode_len();
    let mut k: usize = 0;
    while k < sub_len
        invariant
            k <= sub_len,
            sub_len == sub@.len(),
            s_len == s@.len(),
            i + sub_len <= s_len,
            forall|j: int| 0 <= j < k ==> s@[i + j] == sub@[j],
        decreases sub_len - k,
    {
        if s.get_char(i + k) != sub.get_char(k) {
            assert(s@.subrange(i as int, i + sub@.len())[k as int] != sub@[k as int]);
            return false;
        }
        k = k + 1;
    }
    assert(s@.subrange(i as int, i + sub@.len()) =~= sub@);
    true
}

/// Decides whether `sub` occurs somewhere in `s`.
pub fn contains_str(s: &str, sub: &str) -> (r: bool)
    ensures
        r == contains_seq(s@, sub@),
{
    let s_len = s.unicode_len();
    let sub_len = sub.unicode_len();
    if sub_len > s_len {
        assert(forall|j: int| !matches_at(s@, sub@, j));
        return false;
    }
    if sub_len == 0 {
        assert(s@.subrange(0, 0) =~= sub@);
        assert(matches_at(s@, sub@, 0));
        return true;
    }
    let end = s_len - sub_len;
    let mut i: usize = 0;
    while i <= end
        invariant
            i <= end + 1,
            end == s_len - sub_len,
            1 <= sub_len <= s_len,
            s_len == s@.len(),
            sub_len == sub@.len(),
            forall|j: int| 0 <= j < i ==> !matches_at(s@, sub@, j),
        decreases end + 1 - i,
    {
        if match_at(s, sub, i) {
            assert(matches_at(s@, sub@, i as int));
            return true;
        }
        i = i + 1;
    }
    assert(forall|j: int| matches_at(s@, sub@, j) ==> 0 <= j < i);
    false
}

/// Decides whether `a` and `b` hold the same characters.
pub fn str_eq(a: &str, b: &str) -> (r: bool)
    ensures
        r == (a@ == b@),
{
    let a_len = a.unicode_len();
    let b_len = b.unicode_len();
    if a_len != b_len {
        return false;
    }
    let mut i: usize = 0;
    while i < a_len
        invariant
            i <= a_len,
            a_len == a@.len(),
            a_len == b_len,
            b_len == b@.len(),
            forall|j: int| 0 <= j < i ==> a@[j] == b@[j],
        decreases a_len - i,
    {
        if a.get_char(i) != b.get_char(i) {
            return false;
        }
        i = i + 1;
    }
    assert(a@ =~= b@);
    true
}

/// Copies `s` into an owned `String`.
pub fn to_owned_string(s: &str) -> (r: String)
    ensures
        r@ == s@,
{
    String::from_str(s)
}

/// The concatenation of `a` and `b`.
pub fn concat_strs(a: &str, b: &str) -> (r: String)
    ensures
        r@ == a@ + b@,
{
    let owned = String::from_str(a);
    owned.concat(b)
}

/// The index of the first occurrence of `c` in `s`, when there is one.
pub fn first_index_of(s: &str, c: char) -> (r: Option<usize>)
    ensures
        match r {
            Some(i) => i < s@.len() && s@[i as int] == c && forall|j: int|
                0 <= j < i ==> s@[j] != c,
            None => forall|j: int| 0 <= j < s@.len() ==> s@[j] != c,
        },
{
    let s_len = s.unicode_len();
    let mut i: usize = 0;
    while i < s_len
        invariant
            i <= s_len,
            s_len == s@.len(),
            forall|j: int| 0 <= j < i ==> s@[j] != c,
        decreases s_len - i,
    {
        if s.get_char(i) == c {
            return Some(i);
        }
        i = i + 1;
    }
    None
}

/// The index of the last occurrence of `c` in `s`, when there is one.
pub fn last_index_of(s: &str, c: char) -> (r: Option<usize>)
    ensures
        match r {
            Some(i) => i < s@.len() && s@[i as int] == c && forall|j: int|
                i < j < s@.len() ==> s@[j] != c,
            None => forall|j: int| 0 <= j < s@.len() ==> s@[j] != c,
        },
{
    let s_len = s.unicode_len();
    let mut i: usize = s_len;
    while i > 0
        invariant
            i <= s_len,
            s_len == s@.len(),
            forall|j: int| i <= j < s@.len() ==> s@[j] != c,
        decreases i,
    {
        i = i - 1;
        if s.get_char(i) == c {
            return Some(i);
        }
    }
    None
}

proof fn lemma_suffix_after_first_at(s: Seq<char>, c: char, i: int)
    requires
        0 <= i < s.len(),
        s[i] == c,
        forall|j: int| 0 <= j < i ==> s[j] != c,
    ensures
        suffix_after_first(s, c) == s.skip(i + 1),
    decreases i,
{
    if i == 0 {
        assert(suffix_after_first(s, c) == s.skip(1));
    } else {
        assert(s[0] != c);
        assert(s.skip(1)[i - 1] == c);
        assert(forall|j: int| 0 <= j < i - 1 ==> s.skip(1)[j] == s[j + 1] && s[j + 1] != c);
        lemma_suffix_after_first_at(s.skip(1), c, i - 1);
        assert(s.skip(1).skip(i) =~= s.skip(i + 1));
    }
}

proof fn lemma_suffix_after_first_absent(s: Seq<char>, c: char)
    requires
        forall|j: int| 0 <= j < s.len() ==> s[j] != c,
    ensures
        suffix_after_first(s, c) == Seq::<char>::empty(),
    decreases s.len(),
{
    if s.len() == 0 {
        assert(s =~= Seq::<char>::empty());
    } else {
        assert(forall|j: int| 0 <= j < s.skip(1).len() ==> s.skip(1)[j] == s[j + 1] && s[j + 1]
            != c);
        lemma_suffix_after_first_absent(s.skip(1), c);
    }
}

proof fn lemma_suffix_after_last_at(s: Seq<char>, c: char, i: int)
    requires
        0 <= i < s.len(),
        s[i] == c,
        forall|j: int| i < j < s.len() ==> s[j] != c,
    ensures
        suffix_after_last(s, c) == s.skip(i + 1),
    decreases s.len(),
{
    if i == s.len() - 1 {
        assert(s.last() == c);
        assert(s.skip(i + 1) =~= Seq::<char>::empty());
    } else {
        assert(s.last() != c);
        assert(s.drop_last()[i] == c);
        assert(forall|j: int| i < j < s.drop_last().len() ==> s.drop_last()[j] == s[j] && s[j]
            != c);
        lemma_suffix_after_last_at(s.drop_last(), c, i);
        assert(s.drop_last().skip(i + 1).push(s.last()) =~= s.skip(i + 1));
    }
}

proof fn lemma_suffix_after_last_absent(s: Seq<char>, c: char)
    requires
        forall|j: int| 0 <= j < s.len() ==> s[j] != c,
    ensures
        suffix_after_last(s, c) == s,
    decreases s.len(),
{
    if s.len() == 0 {
    } else {
        assert(s.last() != c);
        assert(forall|j: int| 0 <= j < s.drop_last().len() ==> s.drop_last()[j] == s[j] && s[j]
            != c);
        lemma_suffix_after_last_absent(s.drop_last(), c);
        assert(s.drop_last().push(s.last()) =~= s);
    }
}

/// The part of `s` after the first occurrence of `c` as an owned string;
/// empty when `c` does not occur.
pub fn after_first(s: &str, c: char) -> (r: String)
    ensures
        r@ == suffix_after_first(s@, c),
{
    let s_len = s.unicode_len();
    match first_index_of(s, c) {
        Some(i) => {
            proof {
                lemma_suffix_after_first_at(s@, c, i as int);
            }
            let piece = s.substring_char(i + 1, s_len);
            assert(s@.subrange(i + 1, s@.len() as int) =~= s@.skip(i + 1));
            String::from_str(piece)
        },
        None => {
            proof {
                lemma_suffix_after_first_absent(s@, c);
            }
            String::new()
        },
    }
}

/// The part of `s` after the last occurrence of `c` as an owned string;
/// all of `s` when `c` does not occur.
pub fn after_last(s: &str, c: char) -> (r: String)
    ensures
        r@ == suffix_after_last(s@, c),
{
    let s_len = s.unicode_len();
    match last_index_of(s, c) {
        Some(i) => {
            proof {
                lemma_suffix_after_last_at(s@, c, i as int);
            }
            let piece = s.substring_char(i + 1, s_len);
            assert(s@.subrange(i + 1, s@.len() as int) =~= s@.skip(i + 1));
            String::from_str(piece)
        },
        None => {
            proof {
                lemma_suffix_after_last_absent(s@, c);
            }
            String::from_str(s)
        },
    }
}

proof fn lemma_prefix_before_first_at(s: Seq<char>, c: char, i: int)
    requires
        0 <= i < s.len(),
        s[i] == c,
        forall|j: int| 0 <= j < i ==> s[j] != c,
    ensures
        prefix_before_first(s, c) == s.take(i),
    decreases i,
{
    if i == 0 {
        assert(s.take(0) =~= Seq::<char>::empty());
    } else {
        assert(s[0] != c);
        assert(s.skip(1)[i - 1] == c);
        assert(forall|j: int| 0 <= j < i - 1 ==> s.skip(1)[j] == s[j + 1] && s[j + 1] != c);
        lemma_prefix_before_first_at(s.skip(1), c, i - 1);
        assert(seq![s[0]] + s.skip(1).take(i - 1) =~= s.take(i));
    }
}

proof fn lemma_prefix_before_first_absent(s: Seq<char>, c: char)
    requires
        forall|j: int| 0 <= j < s.len() ==> s[j] != c,
    ensures
        prefix_before_first(s, c) == s,
    decreases s.len(),
{
    if s.len() == 0 {
    } else {
        assert(forall|j: int| 0 <= j < s.skip(1).len() ==> s.skip(1)[j] == s[j + 1] && s[j + 1]
            != c);
        lemma_prefix_before_first_absent(s.skip(1), c);
        assert(seq![s[0]] + s.skip(1) =~= s);
    }
}

/// The part of `s` before the first occurrence of `c` as an owned string;
/// all of `s` when `c` does not occur.
pub fn before_first(s: &str, c: char) -> (r: String)
    ensures
        r@ == prefix_before_first(s@, c),
{
    match first_index_of(s, c) {
        Some(i) => {
            proof {
                lemma_prefix_before_first_at(s@, c, i as int);
            }
            let piece = s.substring_char(0, i);
            assert(s@.subrange(0, i as int) =~= s@.take(i as int));
            String::from_str(piece)
        },
        None => {
            proof {
                lemma_prefix_before_first_absent(s@, c);
            }
            String::from_str(s)
        },
    }
}

/// Decides whether `a` and `b` are the same character up to ASCII case.
fn ieq_char_exec(a: char, b: char) -> (r: bool)
    ensures
        r == ieq_char(a, b),
{
    let ca = a as u64;
    let cb = b as u64;
    let la = if 65 <= ca && ca <= 90 {
        ca + 32
    } else {
        ca
    };
    let lb = if 65 <= cb && cb <= 90 {
        cb + 32
    } else {
        cb
    };
    la == lb
}

/// Decides whether `sub` occurs in `s` at position `i`, up to ASCII case.
fn imatch_at(s: &str, sub: &str, i: usize) -> (r: bool)
    requires
        i + sub@.len() <= s@.len(),
    ensures
        r == imatches_at(s@, sub@, i as int),
{
    let s_len = s.unicode_len();
    let sub_len = sub.unicode_len();
    let mut k: usize = 0;
    while k < sub_len
        invariant
            k <= sub_len,
            sub_len == sub@.len(),
            s_len == s@.len(),
            i + sub_len <= s_len,
            forall|j: int| 0 <= j < k ==> ieq_char(s@[i + j], sub@[j]),
        decreases sub_len - k,
    {
        if !ieq_char_exec(s.get_char(i + k), sub.get_char(k)) {
            assert(!imatches_at(s@, sub@, i as int));
            return false;
        }
        k = k + 1;
    }
    true
}

/// Decides whether `sub` occurs somewhere in `s`, up to ASCII case.
pub fn icontains_str(s: &str, sub: &str) -> (r: bool)
    ensures
        r == icontains(s@, sub@),
{
    let s_len = s.unicode_len();
    let sub_len = sub.unicode_len();
    if sub_len > s_len {
        assert(forall|j: int| !imatches_at(s@, sub@, j));
        return false;
    }
    if sub_len == 0 {
        assert(imatches_at(s@, sub@, 0));
        return true;
    }
    let end = s_len - sub_len;
    let mut i: usize = 0;
    while i <= end
        invariant
            i <= end + 1,
            end == s_len - sub_len,
            1 <= sub_len <= s_len,
            s_len == s@.len(),
            sub_len == sub@.len(),
            forall|j: int| 0 <= j < i ==> !imatches_at(s@, sub@, j),
        decreases end + 1 - i,
    {
        if imatch_at(s, sub, i) {
            assert(imatches_at(s@, sub@, i as int));
            return true;
        }
        i = i + 1;
    }
    assert(forall|j: int| imatches_at(s@, sub@, j) ==> 0 <= j < i);
    false
}

/// Joins the members of `parts` from index `from` on with `sep`.
fn join_from(parts: &Vec<String>, sep: &str, from: usize) -> (r: String)
    requires
        from <= parts@.len(),
    ensures
        r@ == join_with(parts.deep_view().skip(from as int), sep@),
    decreases parts@.len() - from,
{
    if from == parts.len() {
        assert(parts.deep_view().skip(from as int) =~= Seq::<Seq<char>>::empty());
        String::new()
    } else if from == parts.len() - 1 {
        assert(parts.deep_view().skip(from as int).len() == 1);
        assert(parts.deep_view().skip(from as int)[0] == parts.deep_view()[from as int]);
        String::from_str(parts[from].as_str())
    } else {
        let rest = join_from(parts, sep, from + 1);
        let mut out = String::from_str(parts[from].as_str());
        out.append(sep);
        out.append(rest.as_str());
        proof {
            let tail = parts.deep_view().skip(from as int);
            assert(tail.len() >= 2);
            assert(tail[0] == parts.deep_view()[from as int]);
            assert(tail.skip(1) =~= parts.deep_view().skip(from as int + 1));
        }
        out
    }
}

/// `parts` joined by `sep`, for example into a readable asset listing.
pub fn join_all(parts: &Vec<String>, sep: &str) -> (r: String)
    ensures
        r@ == join_with(parts.deep_view(), sep@),
{
    let r = join_from(parts, sep, 0);
    assert(parts.deep_view().skip(0) =~= parts.deep_view());
    r
}

/// `s` with every occurrence of `pat` replaced by `rep`, scanning once from
/// the left.
pub fn replace_all(s: &str, pat: &str, rep: &str) -> (r: String)
    requires
        pat@.len() > 0,
    ensures
        r@ == replace_all_spec(s@, pat@, rep@),
    decreases s@.len(),
{
    let s_len = s.unicode_len();
    let pat_len = pat.unicode_len();
    if s_len == 0 {
        assert(s@ =~= Seq::<char>::empty());
        return String::new();
    }
    if starts_with(s, pat) {
        let tail = s.substring_char(pat_len, s_len);
        assert(tail@ =~= s@.skip(pat@.len() as int));
        let rest = replace_all(tail, pat, rep);
        let mut out = String::from_str(rep);
        out.append(rest.as_str());
        out
    } else {
        let head = s.substring_char(0, 1);
        let tail = s.substring_char(1, s_len);
        assert(tail@ =~= s@.skip(1));
        assert(head@ =~= seq![s@[0]]);
        let rest = replace_all(tail, pat, rep);
        let mut out = String::from_str(head);
        out.append(rest.as_str());
        out
    }
}

} // verus!
