//! The placeholder grammar.
//!
//! A placeholder is a double open brace, optional whitespace, an identifier
//! made of word characters, hyphen or underscore, optional whitespace, and
//! a double close brace. `placeholder_at` decides whether a placeholder
//! starts at a given position and what name it carries; everything the
//! engine does to a path, a file name or file contents goes through it.

use vstd::prelude::*;

verus! {

/// Whitespace accepted around a placeholder name.
pub open spec fn is_space_char(c: char) -> bool {
    c == ' ' || c == '\t' || c == '\r' || c == '\n'
}

/// Characters accepted inside a placeholder name.
pub open spec fn is_word_char(c: char) -> bool {
    ('a' <= c && c <= 'z') || ('A' <= c && c <= 'Z') || ('0' <= c && c <= '9') || c == '_' || c
        == '-'
}

/// The first position at or after `i` holding a non-whitespace character.
pub open spec fn skip_spaces(s: Seq<char>, i: int) -> int
    decreases s.len() - i,
{
    if i < 0 || i >= s.len() {
        i
    } else if is_space_char(s[i]) {
        skip_spaces(s, i + 1)
    } else {
        i
    }
}

/// The first position at or after `i` holding a non-word character.
pub open spec fn skip_word(s: Seq<char>, i: int) -> int
    decreases s.len() - i,
{
    if i < 0 || i >= s.len() {
        i
    } else if is_word_char(s[i]) {
        skip_word(s, i + 1)
    } else {
        i
    }
}

pub proof fn lemma_skip_spaces(s: Seq<char>, i: int)
    requires
        0 <= i <= s.len(),
    ensures
        i <= skip_spaces(s, i) <= s.len(),
        forall|k: int| i <= k < skip_spaces(s, i) ==> is_space_char(s[k]),
        skip_spaces(s, i) < s.len() ==> !is_space_char(s[skip_spaces(s, i)]),
    decreases s.len() - i,
{
    if i < s.len() && is_space_char(s[i]) {
        lemma_skip_spaces(s, i + 1);
    }
}

pub proof fn lemma_skip_word(s: Seq<char>, i: int)
    requires
        0 <= i <= s.len(),
    ensures
        i <= skip_word(s, i) <= s.len(),
        forall|k: int| i <= k < skip_word(s, i) ==> is_word_char(s[k]),
        skip_word(s, i) < s.len() ==> !is_word_char(s[skip_word(s, i)]),
    decreases s.len() - i,
{
    if i < s.len() && is_word_char(s[i]) {
        lemma_skip_word(s, i + 1);
    }
}

/// The placeholder starting at position `i` of `s`, if any: the position
/// one past its closing braces, and its name with the surrounding
/// whitespace removed.
pub open spec fn placeholder_at(s: Seq<char>, i: int) -> Option<(int, Seq<char>)> {
    if 0 <= i && i + 2 <= s.len() && s[i] == '{' && s[i + 1] == '{' {
        let a = skip_spaces(s, i + 2);
        let b = skip_word(s, a);
        if a < b {
            let c = skip_spaces(s, b);
            if c + 2 <= s.len() && s[c] == '}' && s[c + 1] == '}' {
                Some((c + 2, s.subrange(a, b)))
            } else {
                None
            }
        } else {
            None
        }
    } else {
        None
    }
}

/// A placeholder spans at least five characters and its name is nonempty.
pub proof fn lemma_placeholder_bounds(s: Seq<char>, i: int)
    requires
        placeholder_at(s, i) is Some,
    ensures
        0 <= i,
        i + 5 <= placeholder_at(s, i)->Some_0.0 <= s.len(),
        placeholder_at(s, i)->Some_0.1.len() >= 1,
{
    lemma_skip_spaces(s, i + 2);
    let a = skip_spaces(s, i + 2);
    lemma_skip_word(s, a);
    let b = skip_word(s, a);
    lemma_skip_spaces(s, b);
}

/// No placeholder starts strictly inside another placeholder.
pub proof fn lemma_no_overlap(s: Seq<char>, i: int, k: int)
    requires
        placeholder_at(s, i) is Some,
        i < k < placeholder_at(s, i)->Some_0.0,
    ensures
        placeholder_at(s, k) is None,
{
    lemma_skip_spaces(s, i + 2);
    let a = skip_spaces(s, i + 2);
    lemma_skip_word(s, a);
    let b = skip_word(s, a);
    lemma_skip_spaces(s, b);
    let c = skip_spaces(s, b);
    if placeholder_at(s, k) is Some {
        // A placeholder at k would open with two braces, but every
        // character after position i + 1 and before the closing braces is
        // whitespace, a word character or a closing brace, and the brace at
        // i + 1 is followed by whitespace or a word character.
        assert(s[k] == '{');
        assert(i + 2 <= k < c + 2);
        if k == c + 1 {
            assert(s[k] == '}');
        } else if k == c {
            assert(s[k] == '}');
        } else if b <= k < c {
            assert(is_space_char(s[k]));
        } else if a <= k < b {
            assert(is_word_char(s[k]));
        } else {
            assert(i + 2 <= k < a);
            assert(is_space_char(s[k]));
        }
    }
}

/// Whether `c` is whitespace accepted around a placeholder name.
pub fn is_space_char_exec(c: char) -> (r: bool)
    ensures
        r == is_space_char(c),
{
    c == ' ' || c == '\t' || c == '\r' || c == '\n'
}

/// Whether `c` is accepted inside a placeholder name.
pub fn is_word_char_exec(c: char) -> (r: bool)
    ensures
        r == is_word_char(c),
{
    ('a' <= c && c <= 'z') || ('A' <= c && c <= 'Z') || ('0' <= c && c <= '9') || c == '_' || c
        == '-'
}

/// The first position at or after `from` holding a non-whitespace
/// character.
pub fn skip_spaces_exec(s: &str, from: usize) -> (r: usize)
    requires
        from <= s@.len(),
    ensures
        r as int == skip_spaces(s@, from as int),
        from <= r <= s@.len(),
{
    let n = s.unicode_len();
    let mut j = from;
    while j < n && is_space_char_exec(s.get_char(j))
        invariant
            from <= j <= n,
            n == s@.len(),
            skip_spaces(s@, from as int) == skip_spaces(s@, j as int),
        decreases n - j,
    {
        proof {
            assert(skip_spaces(s@, j as int) == skip_spaces(s@, j + 1));
        }
        j += 1;
    }
    proof {
        assert(skip_spaces(s@, j as int) == j as int);
    }
    j
}

/// The first position at or after `from` holding a non-word character.
pub fn skip_word_exec(s: &str, from: usize) -> (r: usize)
    requires
        from <= s@.len(),
    ensures
        r as int == skip_word(s@, from as int),
        from <= r <= s@.len(),
{
    let n = s.unicode_len();
    let mut j = from;
    while j < n && is_word_char_exec(s.get_char(j))
        invariant
            from <= j <= n,
            n == s@.len(),
            skip_word(s@, from as int) == skip_word(s@, j as int),
        decreases n - j,
    {
        proof {
            assert(skip_word(s@, j as int) == skip_word(s@, j + 1));
        }
        j += 1;
    }
    proof {
        assert(skip_word(s@, j as int) == j as int);
    }
    j
}

/// The placeholder starting at position `i` of `s`, if any: the position
/// one past its closing braces, and its name.
pub fn match_placeholder(s: &str, i: usize) -> (r: Option<(usize, String)>)
    requires
        i <= s@.len(),
    ensures
        match r {
            Some((e, name)) => placeholder_at(s@, i as int) == Some((e as int, name@)),
            None => placeholder_at(s@, i as int) is None,
        },
{
    let n = s.unicode_len();
    if n - i < 2 {
        return None;
    }
    if s.get_char(i) != '{' || s.get_char(i + 1) != '{' {
        return None;
    }
    let a = skip_spaces_exec(s, i + 2);
    let b = skip_word_exec(s, a);
    if b == a {
        return None;
    }
    let c = skip_spaces_exec(s, b);
    if n - c < 2 {
        return None;
    }
    if s.get_char(c) != '}' || s.get_char(c + 1) != '}' {
        return None;
    }
    let name = s.substring_char(a, b).to_owned();
    Some((c + 2, name))
}

} // verus!
