//! Verified text helpers: joining, trimming, splitting and affix tests.

use vstd::prelude::*;

use crate::templates::placeholder::{
    is_space_char, is_space_char_exec, lemma_skip_spaces, skip_spaces, skip_spaces_exec,
};

verus! {

/// `parts` joined by `sep`.
pub open spec fn join_with(parts: Seq<Seq<char>>, sep: Seq<char>) -> Seq<char>
    decreases parts.len(),
{
    if parts.len() == 0 {
        Seq::empty()
    } else if parts.len() == 1 {
        parts[0]
    } else {
        join_with(parts.drop_last(), sep) + sep + parts.last()
    }
}

/// Joins `parts` with `sep` between consecutive parts.
pub fn join_strings(parts: &Vec<String>, sep: &str) -> (r: String)
    ensures
        r@ == join_with(parts.deep_view(), sep@),
{
    let n = parts.len();
    let mut out = String::new();
    if n == 0 {
        proof {
            assert(out@ =~= join_with(parts.deep_view(), sep@));
        }
        return out;
    }
    out.append(parts[0].as_str());
    let mut i: usize = 1;
    while i < n
        invariant
            1 <= i <= n,
            n == parts@.len(),
            out@ == join_with(parts.deep_view().subrange(0, i as int), sep@),
        decreases n - i,
    {
        out.append(sep);
        out.append(parts[i].as_str());
        proof {
            let sub = parts.deep_view().subrange(0, i + 1);
            assert(sub.drop_last() =~= parts.deep_view().subrange(0, i as int));
            assert(sub.last() == parts.deep_view()[i as int]);
            assert(sub.len() >= 2);
        }
        i += 1;
    }
    proof {
        assert(parts.deep_view().subrange(0, n as int) =~= parts.deep_view());
    }
    out
}

/// Whether `s` ends with `suffix`.
pub open spec fn ends_with(s: Seq<char>, suffix: Seq<char>) -> bool {
    s.len() >= suffix.len() && s.subrange(s.len() - suffix.len(), s.len() as int) == suffix
}

/// Whether `s` starts with `prefix`.
pub open spec fn starts_with(s: Seq<char>, prefix: Seq<char>) -> bool {
    s.len() >= prefix.len() && s.subrange(0, prefix.len() as int) == prefix
}

/// Whether `s` ends with `suffix`.
pub fn ends_with_str(s: &str, suffix: &str) -> (r: bool)
    ensures
        r == ends_with(s@, suffix@),
{
    let n = s.unicode_len();
    let m = suffix.unicode_len();
    if m > n {
        return false;
    }
    let base = n - m;
    let mut k: usize = 0;
    while k < m
        invariant
            0 <= k <= m <= n,
            base == n - m,
            n == s@.len(),
            m == suffix@.len(),
            forall|p: int| 0 <= p < k ==> s@[base + p] == suffix@[p],
        decreases m - k,
    {
        if s.get_char(base + k) != suffix.get_char(k) {
            proof {
                assert(s@.subrange(n - m, n as int)[k as int] != suffix@[k as int]);
            }
            return false;
        }
        k += 1;
    }
    proof {
        assert(s@.subrange(n - m, n as int) =~= suffix@);
    }
    true
}

/// Whether `s` starts with `prefix`.
pub fn starts_with_str(s: &str, prefix: &str) -> (r: bool)
    ensures
        r == starts_with(s@, prefix@),
{
    let n = s.unicode_len();
    let m = prefix.unicode_len();
    if m > n {
        return false;
    }
    let mut k: usize = 0;
    while k < m
        invariant
            0 <= k <= m <= n,
            n == s@.len(),
            m == prefix@.len(),
            forall|p: int| 0 <= p < k ==> s@[p] == prefix@[p],
        decreases m - k,
    {
        if s.get_char(k) != prefix.get_char(k) {
            proof {
                assert(s@.subrange(0, m as int)[k as int] != prefix@[k as int]);
            }
            return false;
        }
        k += 1;
    }
    proof {
        assert(s@.subrange(0, m as int) =~= prefix@);
    }
    true
}

/// The length of `s` with trailing whitespace removed.
pub open spec fn trim_end_idx(s: Seq<char>) -> int
    decreases s.len(),
{
    if s.len() == 0 {
        0
    } else if is_space_char(s.last()) {
        trim_end_idx(s.drop_last())
    } else {
        s.len() as int
    }
}

/// `s` with leading and trailing whitespace removed.
pub open spec fn trimmed(s: Seq<char>) -> Seq<char> {
    if skip_spaces(s, 0) >= trim_end_idx(s) {
        Seq::empty()
    } else {
        s.subrange(skip_spaces(s, 0), trim_end_idx(s))
    }
}

proof fn lemma_trim_end_idx(s: Seq<char>)
    ensures
        0 <= trim_end_idx(s) <= s.len(),
    decreases s.len(),
{
    if s.len() > 0 && is_space_char(s.last()) {
        lemma_trim_end_idx(s.drop_last());
    }
}

/// Removes leading and trailing whitespace.
pub fn trim_spaces(s: &String) -> (r: String)
    ensures
        r@ == trimmed(s@),
{
    let st = s.as_str();
    let n = st.unicode_len();
    let a = skip_spaces_exec(st, 0);
    let mut b = n;
    proof {
        assert(s@.subrange(0, n as int) =~= s@);
    }
    while b > 0 && is_space_char_exec(st.get_char(b - 1))
        invariant
            0 <= b <= n,
            n == st@.len(),
            st@ == s@,
            trim_end_idx(s@) == trim_end_idx(s@.subrange(0, b as int)),
        decreases b,
    {
        proof {
            let sub = s@.subrange(0, b as int);
            assert(sub.last() == s@[b - 1]);
            assert(sub.drop_last() =~= s@.subrange(0, b - 1));
        }
        b -= 1;
    }
    proof {
        let sub = s@.subrange(0, b as int);
        if b > 0 {
            assert(sub.last() == s@[b - 1]);
        }
        assert(trim_end_idx(sub) == b as int);
    }
    if a >= b {
        let r = String::new();
        proof {
            assert(r@ =~= trimmed(s@));
        }
        r
    } else {
        let r = st.substring_char(a, b).to_owned();
        r
    }
}

/// The first position at or after `i` holding `sep`.
pub open spec fn find_char(s: Seq<char>, sep: char, i: int) -> int
    decreases s.len() - i,
{
    if i < 0 || i >= s.len() {
        i
    } else if s[i] == sep {
        i
    } else {
        find_char(s, sep, i + 1)
    }
}

pub proof fn lemma_find_char(s: Seq<char>, sep: char, i: int)
    requires
        0 <= i <= s.len(),
    ensures
        i <= find_char(s, sep, i) <= s.len(),
        forall|k: int| i <= k < find_char(s, sep, i) ==> s[k] != sep,
        find_char(s, sep, i) < s.len() ==> s[find_char(s, sep, i)] == sep,
    decreases s.len() - i,
{
    if i < s.len() && s[i] != sep {
        lemma_find_char(s, sep, i + 1);
    }
}

/// The pieces of the suffix of `s` starting at `i`, split on `sep`;
/// consecutive separators yield empty pieces.
pub open spec fn split_from(s: Seq<char>, sep: char, i: int) -> Seq<Seq<char>>
    decreases s.len() - i,
    when 0 <= i <= s.len()
{
    let j = find_char(s, sep, i);
    if j >= s.len() {
        seq![s.subrange(i, s.len() as int)]
    } else {
        proof {
            lemma_find_char(s, sep, i);
        }
        seq![s.subrange(i, j)] + split_from(s, sep, j + 1)
    }
}

/// The pieces of `s` split on `sep`.
pub open spec fn split_by(s: Seq<char>, sep: char) -> Seq<Seq<char>> {
    split_from(s, sep, 0)
}

/// The first position at or after `from` holding `sep`.
fn find_char_exec(s: &str, sep: char, from: usize) -> (r: usize)
    requires
        from <= s@.len(),
    ensures
        r as int == find_char(s@, sep, from as int),
        from <= r <= s@.len(),
{
    let n = s.unicode_len();
    let mut j = from;
    while j < n && s.get_char(j) != sep
        invariant
            from <= j <= n,
            n == s@.len(),
            find_char(s@, sep, from as int) == find_char(s@, sep, j as int),
        decreases n - j,
    {
        j += 1;
    }
    j
}

/// Splits `s` on `sep`; consecutive separators yield empty pieces.
pub fn split_string(s: &String, sep: char) -> (r: Vec<String>)
    ensures
        r.deep_view() == split_by(s@, sep),
{
    let st = s.as_str();
    let n = st.unicode_len();
    let mut out: Vec<String> = Vec::new();
    let mut start: usize = 0;
    loop
        invariant
            0 <= start <= n,
            n == st@.len(),
            st@ == s@,
            split_by(s@, sep) == out.deep_view() + split_from(s@, sep, start as int),
        decreases n - start,
    {
        let ghost pre = out.deep_view();
        let j = find_char_exec(st, sep, start);
        let piece = st.substring_char(start, j).to_owned();
        out.push(piece);
        proof {
            assert(out.deep_view() =~= pre.push(s@.subrange(start as int, j as int)));
            lemma_find_char(s@, sep, start as int);
        }
        if j < n {
            proof {
                assert(split_from(s@, sep, start as int) =~= seq![
                    s@.subrange(start as int, j as int),
                ] + split_from(s@, sep, j + 1));
                assert(out.deep_view() + split_from(s@, sep, j + 1) =~= pre + split_from(
                    s@,
                    sep,
                    start as int,
                ));
            }
            start = j + 1;
        } else {
            proof {
                assert(split_from(s@, sep, start as int) =~= seq![
                    s@.subrange(start as int, n as int),
                ]);
                assert(out.deep_view() =~= pre + split_from(s@, sep, start as int));
            }
            return out;
        }
    }
}

/// The nonempty pieces among `parts`.
pub open spec fn nonempty_parts(parts: Seq<Seq<char>>) -> Seq<Seq<char>>
    decreases parts.len(),
{
    if parts.len() == 0 {
        seq![]
    } else {
        let front = nonempty_parts(parts.drop_last());
        if parts.last().len() > 0 {
            front.push(parts.last())
        } else {
            front
        }
    }
}

/// Keeps the nonempty strings of `parts`, in order.
pub fn keep_nonempty(parts: &Vec<String>) -> (r: Vec<String>)
    ensures
        r.deep_view() == nonempty_parts(parts.deep_view()),
{
    let n = parts.len();
    let mut out: Vec<String> = Vec::new();
    let mut i: usize = 0;
    while i < n
        invariant
            0 <= i <= n,
            n == parts@.len(),
            out.deep_view() == nonempty_parts(parts.deep_view().subrange(0, i as int)),
        decreases n - i,
    {
        let ghost sub1 = parts.deep_view().subrange(0, i + 1);
        proof {
            assert(sub1.drop_last() =~= parts.deep_view().subrange(0, i as int));
            assert(sub1.last() == parts.deep_view()[i as int]);
        }
        let ghost pre = out.deep_view();
        if parts[i].as_str().unicode_len() > 0 {
            out.push(parts[i].clone());
            proof {
                assert(out.deep_view() =~= pre.push(parts.deep_view()[i as int]));
                assert(out.deep_view() == nonempty_parts(sub1));
            }
        } else {
            proof {
                assert(out.deep_view() == nonempty_parts(sub1));
            }
        }
        i += 1;
    }
    proof {
        assert(parts.deep_view().subrange(0, n as int) =~= parts.deep_view());
    }
    out
}

/// The first position at or after `i` holding whitespace.
pub open spec fn skip_nonspace(s: Seq<char>, i: int) -> int
    decreases s.len() - i,
{
    if i < 0 || i >= s.len() {
        i
    } else if !is_space_char(s[i]) {
        skip_nonspace(s, i + 1)
    } else {
        i
    }
}

pub proof fn lemma_skip_nonspace(s: Seq<char>, i: int)
    requires
        0 <= i <= s.len(),
    ensures
        i <= skip_nonspace(s, i) <= s.len(),
    decreases s.len() - i,
{
    if i < s.len() && !is_space_char(s[i]) {
        lemma_skip_nonspace(s, i + 1);
    }
}

/// The whitespace-separated words of the suffix of `s` starting at `i`.
pub open spec fn words_from(s: Seq<char>, i: int) -> Seq<Seq<char>>
    decreases s.len() - i,
    when 0 <= i <= s.len()
{
    let a = skip_spaces(s, i);
    if a >= s.len() {
        seq![]
    } else {
        proof {
            lemma_skip_spaces(s, i);
            lemma_skip_nonspace(s, skip_spaces(s, i) + 1);
            assert(!is_space_char(s[skip_spaces(s, i)]));
            assert(skip_nonspace(s, skip_spaces(s, i)) == skip_nonspace(
                s,
                skip_spaces(s, i) + 1,
            ));
        }
        let b = skip_nonspace(s, a);
        seq![s.subrange(a, b)] + words_from(s, b)
    }
}

/// The whitespace-separated words of `s`.
pub open spec fn words_of(s: Seq<char>) -> Seq<Seq<char>> {
    words_from(s, 0)
}

/// The first position at or after `from` holding whitespace.
fn skip_nonspace_exec(s: &str, from: usize) -> (r: usize)
    requires
        from <= s@.len(),
    ensures
        r as int == skip_nonspace(s@, from as int),
        from <= r <= s@.len(),
{
    let n = s.unicode_len();
    let mut j = from;
    while j < n && !is_space_char_exec(s.get_char(j))
        invariant
            from <= j <= n,
            n == s@.len(),
            skip_nonspace(s@, from as int) == skip_nonspace(s@, j as int),
        decreases n - j,
    {
        j += 1;
    }
    j
}

/// Splits `s` into its whitespace-separated words.
pub fn split_words(s: &String) -> (r: Vec<String>)
    ensures
        r.deep_view() == words_of(s@),
{
    let st = s.as_str();
    let n = st.unicode_len();
    let mut out: Vec<String> = Vec::new();
    let mut pos: usize = 0;
    while pos < n
        invariant
            0 <= pos <= n,
            n == st@.len(),
            st@ == s@,
            words_of(s@) == out.deep_view() + words_from(s@, pos as int),
        decreases n - pos,
    {
        let a = skip_spaces_exec(st, pos);
        if a >= n {
            proof {
                assert(words_from(s@, pos as int) =~= Seq::<Seq<char>>::empty());
                assert(out.deep_view() + words_from(s@, pos as int) =~= out.deep_view());
            }
            return out;
        }
        let b = skip_nonspace_exec(st, a);
        let ghost pre = out.deep_view();
        let word = st.substring_char(a, b).to_owned();
        out.push(word);
        proof {
            lemma_skip_spaces(s@, pos as int);
            lemma_skip_nonspace(s@, a as int);
            assert(out.deep_view() =~= pre.push(s@.subrange(a as int, b as int)));
            assert(words_from(s@, pos as int) =~= seq![s@.subrange(a as int, b as int)]
                + words_from(s@, b as int));
            assert(out.deep_view() + words_from(s@, b as int) =~= pre + words_from(
                s@,
                pos as int,
            ));
            assert(b > pos) by {
                assert(!is_space_char(s@[a as int]));
            }
        }
        pos = b;
    }
    proof {
        assert(words_from(s@, pos as int) =~= Seq::<Seq<char>>::empty());
        assert(out.deep_view() + words_from(s@, pos as int) =~= out.deep_view());
    }
    out
}

} // verus!
