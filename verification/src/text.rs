//! Character classes and low-level text scanning.
//!
//! The parser works over `&str` slices whose mathematical model is the
//! `Seq<char>` view. This module defines the character classes of the header
//! grammar, positional spec functions (first occurrence of a character, run
//! ends, trailing newlines, trimming), and verified executable scanners that
//! compute them.

use vstd::prelude::*;

verus! {

/// Whitespace as the header grammar and trimming understand it: the Unicode
/// `White_Space` code points, the same set `str::trim` and
/// `char::is_whitespace` accept.
pub open spec fn is_line_ws(c: char) -> bool {
    ||| c == ' '
    ||| ('\u{9}' <= c && c <= '\u{d}')
    ||| c == '\u{85}'
    ||| c == '\u{a0}'
    ||| c == '\u{1680}'
    ||| ('\u{2000}' <= c && c <= '\u{200a}')
    ||| c == '\u{2028}'
    ||| c == '\u{2029}'
    ||| c == '\u{202f}'
    ||| c == '\u{205f}'
    ||| c == '\u{3000}'
}

/// The character class of the commit-type and scope captures: ASCII letters,
/// hyphens, underscores, slashes and whitespace.
pub open spec fn is_type_char(c: char) -> bool {
    ('a' <= c && c <= 'z') || ('A' <= c && c <= 'Z') || c == '-' || c == '_' || c == '/'
        || is_line_ws(c)
}

/// Index of the first occurrence of `c` at or after `i`, or `s.len()` if none.
pub open spec fn find_char(s: Seq<char>, i: int, c: char) -> int
    recommends
        0 <= i <= s.len(),
    decreases s.len() - i,
{
    if i < 0 || i >= s.len() {
        s.len() as int
    } else if s[i] == c {
        i
    } else {
        find_char(s, i + 1, c)
    }
}

/// End of the run of type-class characters starting at `i`: the first index at
/// or after `i` holding a character outside the class, or `s.len()`.
pub open spec fn type_run_end(s: Seq<char>, i: int) -> int
    recommends
        0 <= i <= s.len(),
    decreases s.len() - i,
{
    if 0 <= i < s.len() && is_type_char(s[i]) {
        type_run_end(s, i + 1)
    } else {
        i
    }
}

/// End of the run of whitespace characters starting at `i`.
pub open spec fn ws_run_end(s: Seq<char>, i: int) -> int
    recommends
        0 <= i <= s.len(),
    decreases s.len() - i,
{
    if 0 <= i < s.len() && is_line_ws(s[i]) {
        ws_run_end(s, i + 1)
    } else {
        i
    }
}

/// End of the run of newline characters starting at `i`.
pub open spec fn nl_run_end(s: Seq<char>, i: int) -> int
    recommends
        0 <= i <= s.len(),
    decreases s.len() - i,
{
    if 0 <= i < s.len() && s[i] == '\n' {
        nl_run_end(s, i + 1)
    } else {
        i
    }
}

/// Number of newline characters at the end of `s`.
pub open spec fn trailing_newlines(s: Seq<char>) -> int
    decreases s.len(),
{
    if s.len() > 0 && s.last() == '\n' {
        1 + trailing_newlines(s.drop_last())
    } else {
        0
    }
}

/// `s` with trailing whitespace removed.
pub open spec fn trim_end_spec(s: Seq<char>) -> Seq<char>
    decreases s.len(),
{
    if s.len() > 0 && is_line_ws(s.last()) {
        trim_end_spec(s.drop_last())
    } else {
        s
    }
}

/// `s` with leading and trailing whitespace removed.
pub open spec fn spec_trim(s: Seq<char>) -> Seq<char> {
    trim_end_spec(s.subrange(ws_run_end(s, 0), s.len() as int))
}

pub proof fn lemma_find_char_bounds(s: Seq<char>, i: int, c: char)
    requires
        0 <= i <= s.len(),
    ensures
        i <= find_char(s, i, c) <= s.len(),
        find_char(s, i, c) < s.len() ==> s[find_char(s, i, c)] == c,
        forall|j: int| i <= j < find_char(s, i, c) ==> s[j] != c,
    decreases s.len() - i,
{
    if i < s.len() && s[i] != c {
        lemma_find_char_bounds(s, i + 1, c);
    }
}

pub proof fn lemma_type_run_bounds(s: Seq<char>, i: int)
    requires
        0 <= i <= s.len(),
    ensures
        i <= type_run_end(s, i) <= s.len(),
        type_run_end(s, i) < s.len() ==> !is_type_char(s[type_run_end(s, i)]),
        forall|j: int| i <= j < type_run_end(s, i) ==> is_type_char(s[j]),
    decreases s.len() - i,
{
    if i < s.len() && is_type_char(s[i]) {
        lemma_type_run_bounds(s, i + 1);
    }
}

pub proof fn lemma_ws_run_bounds(s: Seq<char>, i: int)
    requires
        0 <= i <= s.len(),
    ensures
        i <= ws_run_end(s, i) <= s.len(),
        ws_run_end(s, i) < s.len() ==> !is_line_ws(s[ws_run_end(s, i)]),
        forall|j: int| i <= j < ws_run_end(s, i) ==> is_line_ws(s[j]),
    decreases s.len() - i,
{
    if i < s.len() && is_line_ws(s[i]) {
        lemma_ws_run_bounds(s, i + 1);
    }
}

pub proof fn lemma_nl_run_bounds(s: Seq<char>, i: int)
    requires
        0 <= i <= s.len(),
    ensures
        i <= nl_run_end(s, i) <= s.len(),
        nl_run_end(s, i) < s.len() ==> s[nl_run_end(s, i)] != '\n',
        forall|j: int| i <= j < nl_run_end(s, i) ==> s[j] == '\n',
    decreases s.len() - i,
{
    if i < s.len() && s[i] == '\n' {
        lemma_nl_run_bounds(s, i + 1);
    }
}

pub proof fn lemma_trailing_newlines_bounds(s: Seq<char>)
    ensures
        0 <= trailing_newlines(s) <= s.len(),
        forall|j: int| s.len() - trailing_newlines(s) <= j < s.len() ==> s[j] == '\n',
        trailing_newlines(s) < s.len() ==> s[s.len() - trailing_newlines(s) - 1] != '\n',
    decreases s.len(),
{
    if s.len() > 0 && s.last() == '\n' {
        lemma_trailing_newlines_bounds(s.drop_last());
        assert forall|j: int| s.len() - trailing_newlines(s) <= j < s.len() implies s[j]
            == '\n' by {
            if j < s.len() - 1 {
                assert(s[j] == s.drop_last()[j]);
            }
        }
    }
}

fn char_type(c: char) -> (b: bool)
    ensures
        b == is_type_char(c),
{
    ('a' <= c && c <= 'z') || ('A' <= c && c <= 'Z') || c == '-' || c == '_' || c == '/'
        || char_ws(c)
}

fn char_ws(c: char) -> (b: bool)
    ensures
        b == is_line_ws(c),
{
    c == ' ' || ('\u{9}' <= c && c <= '\u{d}') || c == '\u{85}' || c == '\u{a0}' || c == '\u{1680}'
        || ('\u{2000}' <= c && c <= '\u{200a}') || c == '\u{2028}' || c == '\u{2029}' || c
        == '\u{202f}' || c == '\u{205f}' || c == '\u{3000}'
}

/// First occurrence of `c` in `s` at or after `from`, or the length of `s`.
pub fn find_char_at(s: &str, from: usize, c: char) -> (r: usize)
    requires
        from <= s@.len(),
    ensures
        r == find_char(s@, from as int, c),
        from <= r <= s@.len(),
{
    let len = s.unicode_len();
    let mut j = from;
    while j < len && s.get_char(j) != c
        invariant
            from <= j <= len,
            len == s@.len(),
            find_char(s@, from as int, c) == find_char(s@, j as int, c),
        decreases len - j,
    {
        j = j + 1;
    }
    j
}

/// End of the run of type-class characters starting at `from`.
pub fn type_run_end_at(s: &str, from: usize) -> (r: usize)
    requires
        from <= s@.len(),
    ensures
        r == type_run_end(s@, from as int),
        from <= r <= s@.len(),
{
    let len = s.unicode_len();
    let mut j = from;
    while j < len && char_type(s.get_char(j))
        invariant
            from <= j <= len,
            len == s@.len(),
            type_run_end(s@, from as int) == type_run_end(s@, j as int),
        decreases len - j,
    {
        j = j + 1;
    }
    j
}

/// End of the run of whitespace characters starting at `from`.
pub fn ws_run_end_at(s: &str, from: usize) -> (r: usize)
    requires
        from <= s@.len(),
    ensures
        r == ws_run_end(s@, from as int),
        from <= r <= s@.len(),
{
    let len = s.unicode_len();
    let mut j = from;
    while j < len && char_ws(s.get_char(j))
        invariant
            from <= j <= len,
            len == s@.len(),
            ws_run_end(s@, from as int) == ws_run_end(s@, j as int),
        decreases len - j,
    {
        j = j + 1;
    }
    j
}

/// End of the run of newline characters starting at `from`.
pub fn nl_run_end_at(s: &str, from: usize) -> (r: usize)
    requires
        from <= s@.len(),
    ensures
        r == nl_run_end(s@, from as int),
        from <= r <= s@.len(),
{
    let len = s.unicode_len();
    let mut j = from;
    while j < len && s.get_char(j) == '\n'
        invariant
            from <= j <= len,
            len == s@.len(),
            nl_run_end(s@, from as int) == nl_run_end(s@, j as int),
        decreases len - j,
    {
        j = j + 1;
    }
    j
}

/// Number of newline characters at the end of `s`.
pub fn trailing_newlines_count(s: &str) -> (r: usize)
    ensures
        r == trailing_newlines(s@),
{
    let len = s.unicode_len();
    proof {
        assert(s@.subrange(0, len as int) =~= s@);
    }
    let mut j = len;
    while j > 0 && s.get_char(j - 1) == '\n'
        invariant
            0 <= j <= len,
            len == s@.len(),
            trailing_newlines(s@) == trailing_newlines(s@.subrange(0, j as int)) + (len - j),
        decreases j,
    {
        proof {
            assert(s@.subrange(0, j as int).drop_last() =~= s@.subrange(0, j - 1));
        }
        j = j - 1;
    }
    proof {
        if j > 0 {
            assert(s@.subrange(0, j as int).last() != '\n');
        }
        assert(trailing_newlines(s@.subrange(0, j as int)) == 0);
    }
    len - j
}

/// The slice of `s` with leading and trailing whitespace removed.
pub fn trim_slice<'a>(s: &'a str) -> (r: &'a str)
    ensures
        r@ == spec_trim(s@),
{
    let len = s.unicode_len();
    let a = ws_run_end_at(s, 0);
    let ghost tail = s@.subrange(a as int, len as int);
    let mut j = len;
    while j > a && char_ws(s.get_char(j - 1))
        invariant
            a <= j <= len,
            len == s@.len(),
            a == ws_run_end(s@, 0),
            tail == s@.subrange(a as int, len as int),
            trim_end_spec(tail) == trim_end_spec(s@.subrange(a as int, j as int)),
        decreases j,
    {
        proof {
            assert(s@.subrange(a as int, j as int).drop_last() =~= s@.subrange(
                a as int,
                j - 1,
            ));
        }
        j = j - 1;
    }
    proof {
        let cur = s@.subrange(a as int, j as int);
        if j > a {
            assert(cur.last() == s@[j - 1]);
            assert(trim_end_spec(cur) == cur);
        } else {
            assert(cur =~= Seq::<char>::empty());
            assert(trim_end_spec(cur) == cur);
        }
    }
    s.substring_char(a, j)
}

/// Pushing one element is the same as appending a singleton.
pub proof fn lemma_push_is_concat<T>(s: Seq<T>, x: T)
    ensures
        s.push(x) == s + seq![x],
{
    assert(s.push(x) =~= s + seq![x]);
}

/// Appending the empty sequence changes nothing.
pub proof fn lemma_concat_empty<T>(s: Seq<T>)
    ensures
        s + Seq::<T>::empty() == s,
{
    assert(s + Seq::<T>::empty() =~= s);
}

/// Sequence concatenation is associative.
pub proof fn lemma_concat_assoc<T>(a: Seq<T>, b: Seq<T>, c: Seq<T>)
    ensures
        a + (b + c) == (a + b) + c,
{
    assert(a + (b + c) =~= (a + b) + c);
}

/// Whether `a` and `b` hold the same characters.
pub fn str_eq(a: &str, b: &str) -> (r: bool)
    ensures
        r == (a@ == b@),
{
    let alen = a.unicode_len();
    let blen = b.unicode_len();
    if alen != blen {
        return false;
    }
    let mut i: usize = 0;
    while i < alen
        invariant
            0 <= i <= alen,
            alen == a@.len(),
            alen == b@.len(),
            forall|j: int| 0 <= j < i ==> a@[j] == b@[j],
        decreases alen - i,
    {
        if a.get_char(i) != b.get_char(i) {
            return false;
        }
        i = i + 1;
    }
    proof {
        assert(a@ =~= b@);
    }
    true
}

/// Whether `p` is a prefix of `s`.
pub fn str_is_prefix(p: &str, s: &str) -> (r: bool)
    ensures
        r == p@.is_prefix_of(s@),
{
    let plen = p.unicode_len();
    let slen = s.unicode_len();
    if plen > slen {
        return false;
    }
    let mut i: usize = 0;
    while i < plen
        invariant
            0 <= i <= plen,
            plen == p@.len(),
            slen == s@.len(),
            plen <= slen,
            forall|j: int| 0 <= j < i ==> p@[j] == s@[j],
        decreases plen - i,
    {
        if p.get_char(i) != s.get_char(i) {
            return false;
        }
        i = i + 1;
    }
    proof {
        assert(p@ =~= s@.subrange(0, plen as int));
    }
    true
}

} // verus!
