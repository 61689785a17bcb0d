//! The rule catalog: independent style checks over a parsed [`Message`].
//!
//! Each rule inspects some fields of the message and reports at most a few
//! problems into the shared sink; no rule depends on another rule's output,
//! and [`check_all_rules`] runs them in a fixed order that only affects the
//! order of the reports.

use vstd::prelude::*;

use crate::messages::Message;
use crate::messages::SpecMessage;
use crate::problems::Problems;
use crate::text::find_char;
use crate::text::find_char_at;
use crate::text::lemma_concat_assoc;
use crate::text::lemma_concat_empty;
use crate::text::lemma_find_char_bounds;
use crate::text::lemma_push_is_concat;
use crate::text::spec_trim;
use crate::text::str_eq;
use crate::text::str_is_prefix;
use crate::text::trim_slice;

verus! {

// ---------------------------------------------------------------------------
// Trusted views of outside computations
// ---------------------------------------------------------------------------
/// The Unicode lowercase form of a character sequence, as `str::to_lowercase`
/// computes it. The mapping depends on the characters alone.
pub uninterp spec fn lower_of(s: Seq<char>) -> Seq<char>;

/// Relies on `str::to_lowercase`: returns the Unicode lowercase form of the
/// input, a function of the input characters alone.
#[verifier::external_body]
fn to_lowercase_string(s: &str) -> (r: String)
    ensures
        r@ == lower_of(s@),
{
    s.to_lowercase()
}

/// Whether a character has the Unicode uppercase property, as
/// `char::is_uppercase` decides it.
pub uninterp spec fn char_uppercase(c: char) -> bool;

/// Relies on `char::is_uppercase`: whether the character is uppercase under
/// the Unicode derived property `Uppercase`, a function of the character
/// alone.
#[verifier::external_body]
fn is_uppercase_char(c: char) -> (r: bool)
    ensures
        r == char_uppercase(c),
{
    c.is_uppercase()
}

/// Whether a character is a Unicode letter or number, as
/// `char::is_alphanumeric` decides it.
pub uninterp spec fn char_alphanumeric(c: char) -> bool;

/// Relies on `char::is_alphanumeric`: whether the character is a Unicode
/// letter or number, a function of the character alone.
#[verifier::external_body]
fn is_alphanumeric_char(c: char) -> (r: bool)
    ensures
        r == char_alphanumeric(c),
{
    c.is_alphanumeric()
}

/// The spelling findings of the builtin dictionary on a character sequence:
/// for each flagged token, in text order, the token itself and its suggested
/// corrections (empty when the dictionary marks the token invalid without
/// suggesting anything). The findings depend on the text alone.
pub uninterp spec fn typos_of(s: Seq<char>) -> Seq<(Seq<char>, Seq<Seq<char>>)>;

/// Relies on `typos::check_str` with `typos::tokens::Tokenizer::default()`
/// and `typos_cli::dict::BuiltIn` under the default locale: yields the
/// flagged tokens of the text with their corrections, in text order. The
/// dictionary is compiled into the crate, so the findings are a function of
/// the text alone.
#[verifier::external_body]
fn check_str_typos(s: &str) -> (r: Vec<(String, Vec<String>)>)
    ensures
        r.deep_view() == typos_of(s@),
{
    let tokenizer = typos::tokens::Tokenizer::default();
    let dict = typos_cli::dict::BuiltIn::new(Default::default());
    typos::check_str(s, &tokenizer, &dict)
        .map(|t| {
            let corrections = match t.corrections {
                typos::Status::Valid => Vec::new(),
                typos::Status::Invalid => Vec::new(),
                typos::Status::Corrections(c) => c.into_iter().map(|w| w.into_owned()).collect(),
            };
            (t.typo.into_owned(), corrections)
        })
        .collect()
}

// ---------------------------------------------------------------------------
// Decimal rendering of lengths
// ---------------------------------------------------------------------------
/// The decimal digit character of `d`.
pub open spec fn spec_digit(d: int) -> char {
    if d == 0 {
        '0'
    } else if d == 1 {
        '1'
    } else if d == 2 {
        '2'
    } else if d == 3 {
        '3'
    } else if d == 4 {
        '4'
    } else if d == 5 {
        '5'
    } else if d == 6 {
        '6'
    } else if d == 7 {
        '7'
    } else if d == 8 {
        '8'
    } else {
        '9'
    }
}

/// The decimal rendering of a non-negative integer, most significant digit
/// first, without leading zeros (except for zero itself).
pub open spec fn spec_dec(n: int) -> Seq<char>
    decreases n,
{
    if n < 10 {
        seq![spec_digit(n)]
    } else {
        spec_dec(n / 10).push(spec_digit(n % 10))
    }
}

fn digit_str(d: usize) -> (r: &'static str)
    requires
        d < 10,
    ensures
        r@ == seq![spec_digit(d as int)],
{
    let r: &'static str = if d == 0 {
        "0"
    } else if d == 1 {
        "1"
    } else if d == 2 {
        "2"
    } else if d == 3 {
        "3"
    } else if d == 4 {
        "4"
    } else if d == 5 {
        "5"
    } else if d == 6 {
        "6"
    } else if d == 7 {
        "7"
    } else if d == 8 {
        "8"
    } else {
        "9"
    };
    proof {
        reveal_strlit("0");
        reveal_strlit("1");
        reveal_strlit("2");
        reveal_strlit("3");
        reveal_strlit("4");
        reveal_strlit("5");
        reveal_strlit("6");
        reveal_strlit("7");
        reveal_strlit("8");
        reveal_strlit("9");
        assert(r@ =~= seq![spec_digit(d as int)]);
    }
    r
}

/// Renders `n` in decimal.
pub fn usize_to_dec_string(n: usize) -> (r: String)
    ensures
        r@ == spec_dec(n as int),
    decreases n,
{
    if n < 10 {
        digit_str(n).to_owned()
    } else {
        let mut s = usize_to_dec_string(n / 10);
        s.append(digit_str(n % 10));
        proof {
            lemma_push_is_concat(spec_dec(n as int / 10), spec_digit(n as int % 10));
        }
        s
    }
}

// ---------------------------------------------------------------------------
// Parenthesized-segment stripping
// ---------------------------------------------------------------------------
/// Whether a parenthesized segment opens at `i`: a `)` follows on the same
/// line (no newline before it).
pub open spec fn paren_close_ok(s: Seq<char>, i: int) -> bool {
    let cp = find_char(s, i + 1, ')');
    cp < s.len() && find_char(s, i + 1, '\n') > cp
}

/// The text from `i` on with every parenthesized segment removed: each `(`
/// that a `)` follows on the same line is dropped together with everything up
/// to and including that `)`.
pub open spec fn strip_parens_spec(s: Seq<char>, i: int) -> Seq<char>
    decreases s.len() - i,
    via strip_parens_spec_dec
{
    if i < 0 || i >= s.len() {
        Seq::empty()
    } else if s[i] == '(' && paren_close_ok(s, i) {
        strip_parens_spec(s, find_char(s, i + 1, ')') + 1)
    } else {
        seq![s[i]] + strip_parens_spec(s, i + 1)
    }
}

#[via_fn]
proof fn strip_parens_spec_dec(s: Seq<char>, i: int) {
    if 0 <= i && i < s.len() {
        lemma_find_char_bounds(s, i + 1, ')');
    }
}

/// Removes every parenthesized segment from `s`.
fn strip_paren_groups(s: &str) -> (r: String)
    ensures
        r@ == strip_parens_spec(s@, 0),
{
    let len = s.unicode_len();
    let mut out = String::new();
    let mut i: usize = 0;
    while i < len
        invariant
            0 <= i <= len,
            len == s@.len(),
            out@ + strip_parens_spec(s@, i as int) == strip_parens_spec(s@, 0),
        decreases len - i,
    {
        let ghost prev = out@;
        if s.get_char(i) == '(' {
            let cp = find_char_at(s, i + 1, ')');
            let nl = find_char_at(s, i + 1, '\n');
            if cp < len && nl > cp {
                i = cp + 1;
            } else {
                out.append(s.substring_char(i, i + 1));
                proof {
                    lemma_concat_assoc(prev, seq![s@[i as int]], strip_parens_spec(s@, i + 1));
                }
                i = i + 1;
            }
        } else {
            out.append(s.substring_char(i, i + 1));
            proof {
                lemma_concat_assoc(prev, seq![s@[i as int]], strip_parens_spec(s@, i + 1));
            }
            i = i + 1;
        }
    }
    proof {
        assert(strip_parens_spec(s@, len as int) == Seq::<char>::empty());
        lemma_concat_empty(out@);
    }
    out
}

// ---------------------------------------------------------------------------
// Banned-word scanning
// ---------------------------------------------------------------------------
/// Word characters for word-boundary purposes: Unicode letters and numbers,
/// and the underscore.
pub open spec fn is_word_char(c: char) -> bool {
    char_alphanumeric(c) || c == '_'
}

fn char_word(c: char) -> (b: bool)
    ensures
        b == is_word_char(c),
{
    is_alphanumeric_char(c) || c == '_'
}

/// Whether `c` matches the lowercase ASCII letter `l` under simple case
/// folding: `l` itself, its ASCII uppercase form, and for `s` also the long s
/// `U+017F` — the one further character that folds onto a letter of the
/// searched words.
pub open spec fn ci_match_char(c: char, l: char) -> bool {
    c == l || (c as u32) + 32 == (l as u32) || (l == 's' && c == '\u{17f}')
}

fn ci_char(c: char, l: char) -> (b: bool)
    ensures
        b == ci_match_char(c, l),
{
    c == l || ((c as u32) < 0xffff_ffe0 && (c as u32) + 32 == (l as u32)) || (l == 's' && c
        == '\u{17f}')
}

/// Whether the word `w` occurs at position `i` of `s`, ignoring ASCII case.
pub open spec fn ci_match_at(s: Seq<char>, i: int, w: Seq<char>) -> bool {
    &&& 0 <= i
    &&& i + w.len() <= s.len()
    &&& forall|j: int| 0 <= j < w.len() ==> ci_match_char(s[i + j], #[trigger] w[j])
}

fn ci_match_at_exec(s: &str, i: usize, w: &str) -> (b: bool)
    requires
        i <= s@.len(),
    ensures
        b == ci_match_at(s@, i as int, w@),
{
    let slen = s.unicode_len();
    let wlen = w.unicode_len();
    if wlen > slen - i {
        return false;
    }
    let mut j: usize = 0;
    while j < wlen
        invariant
            0 <= j <= wlen,
            wlen == w@.len(),
            slen == s@.len(),
            i + wlen <= slen,
            forall|k: int| 0 <= k < j ==> ci_match_char(s@[i + k], #[trigger] w@[k]),
        decreases wlen - j,
    {
        if !ci_char(s.get_char(i + j), w.get_char(j)) {
            return false;
        }
        j = j + 1;
    }
    true
}

/// Whether a word may end at position `e`: the end of the text, or a
/// non-word character.
pub open spec fn word_end_boundary(s: Seq<char>, e: int) -> bool {
    e >= s.len() || !is_word_char(s[e])
}

/// The length of the banned word matched at position `i`, or zero: `stuff`,
/// then `things`, then `thing`, each taken only when a word boundary follows.
pub open spec fn banned_len_at(s: Seq<char>, i: int) -> int {
    if ci_match_at(s, i, "stuff"@) && word_end_boundary(s, i + "stuff"@.len()) {
        "stuff"@.len() as int
    } else if ci_match_at(s, i, "things"@) && word_end_boundary(s, i + "things"@.len()) {
        "things"@.len() as int
    } else if ci_match_at(s, i, "thing"@) && word_end_boundary(s, i + "thing"@.len()) {
        "thing"@.len() as int
    } else {
        0
    }
}

fn word_end_boundary_exec(s: &str, e: usize) -> (b: bool)
    ensures
        b == word_end_boundary(s@, e as int),
{
    let len = s.unicode_len();
    e >= len || !char_word(s.get_char(e))
}

fn banned_len_at_exec(s: &str, i: usize) -> (r: usize)
    requires
        i <= s@.len(),
    ensures
        r == banned_len_at(s@, i as int),
        i + r <= s@.len(),
{
    // Binding the text length tells the verifier that the index sums below
    // stay within bounds.
    let _slen: usize = s.unicode_len();
    let l_stuff = "stuff".unicode_len();
    let l_things = "things".unicode_len();
    let l_thing = "thing".unicode_len();
    if ci_match_at_exec(s, i, "stuff") && word_end_boundary_exec(s, i + l_stuff) {
        l_stuff
    } else if ci_match_at_exec(s, i, "things") && word_end_boundary_exec(s, i + l_things) {
        l_things
    } else if ci_match_at_exec(s, i, "thing") && word_end_boundary_exec(s, i + l_thing) {
        l_thing
    } else {
        0
    }
}

/// Whether a banned word begins at position `i`, with a word boundary before
/// it.
pub open spec fn banned_at(s: Seq<char>, i: int) -> bool {
    (i == 0 || (0 < i && !is_word_char(s[i - 1]))) && banned_len_at(s, i) > 0
}

/// The first position at or after `i` where a banned word begins, or the
/// length of `s`.
pub open spec fn first_banned_pos(s: Seq<char>, i: int) -> int
    decreases s.len() - i,
{
    if i < 0 || i >= s.len() {
        s.len() as int
    } else if banned_at(s, i) {
        i
    } else {
        first_banned_pos(s, i + 1)
    }
}

fn find_banned(t: &str) -> (r: usize)
    ensures
        r == first_banned_pos(t@, 0),
        r <= t@.len(),
{
    let len = t.unicode_len();
    let mut i: usize = 0;
    while i < len
        invariant
            0 <= i <= len,
            len == t@.len(),
            first_banned_pos(t@, 0) == first_banned_pos(t@, i as int),
        decreases len - i,
    {
        let prev_ok = i == 0 || !char_word(t.get_char(i - 1));
        let bl = banned_len_at_exec(t, i);
        if prev_ok && bl > 0 {
            proof {
                assert(banned_at(t@, i as int));
            }
            return i;
        }
        proof {
            assert(!banned_at(t@, i as int));
        }
        i = i + 1;
    }
    len
}

// ---------------------------------------------------------------------------
// The rules
// ---------------------------------------------------------------------------
/// What `rule_missing_type` reports.
pub open spec fn rule_missing_type_msgs(m: SpecMessage) -> Seq<Seq<char>> {
    if m.type_ is None {
        seq!["Commit message must start with a type (example: `feat: ...`)"@]
    } else {
        Seq::empty()
    }
}

/// Reports a message whose header carried no commit type.
pub fn rule_missing_type(message: &Message<'_>, problems: &mut Problems)
    ensures
        final(problems)@ == old(problems)@ + rule_missing_type_msgs(message@),
{
    let missing = message.type_.is_none();
    crate::messages::report_when(
        problems,
        missing,
        "Commit message must start with a type (example: `feat: ...`)",
    );
}

/// What `rule_missing_title` reports.
pub open spec fn rule_missing_title_msgs(m: SpecMessage) -> Seq<Seq<char>> {
    let missing = match m.title {
        None => true,
        Some(t) => t.len() == 0,
    };
    if missing {
        seq!["Commit message must have a title (example: `feat: memory leak in auth`)"@]
    } else {
        Seq::empty()
    }
}

/// Reports a message without a title.
pub fn rule_missing_title(message: &Message<'_>, problems: &mut Problems)
    ensures
        final(problems)@ == old(problems)@ + rule_missing_title_msgs(message@),
{
    let missing = match message.title {
        None => true,
        Some(t) => t.is_empty(),
    };
    crate::messages::report_when(
        problems,
        missing,
        "Commit message must have a title (example: `feat: memory leak in auth`)",
    );
}

/// Whether `t` is one of the valid commit types.
pub open spec fn valid_type_seq(t: Seq<char>) -> bool {
    ||| t == "feat"@
    ||| t == "fix"@
    ||| t == "docs"@
    ||| t == "style"@
    ||| t == "refactor"@
    ||| t == "test"@
    ||| t == "chore"@
    ||| t == "build"@
    ||| t == "ci"@
    ||| t == "perf"@
    ||| t == "revert"@
}

/// Whether some valid commit type is a prefix of `t` (a hint that the colon
/// after the type may be missing).
pub open spec fn valid_type_prefix(t: Seq<char>) -> bool {
    ||| "feat"@.is_prefix_of(t)
    ||| "fix"@.is_prefix_of(t)
    ||| "docs"@.is_prefix_of(t)
    ||| "style"@.is_prefix_of(t)
    ||| "refactor"@.is_prefix_of(t)
    ||| "test"@.is_prefix_of(t)
    ||| "chore"@.is_prefix_of(t)
    ||| "build"@.is_prefix_of(t)
    ||| "ci"@.is_prefix_of(t)
    ||| "perf"@.is_prefix_of(t)
    ||| "revert"@.is_prefix_of(t)
}

fn is_valid_type_str(t: &str) -> (r: bool)
    ensures
        r == valid_type_seq(t@),
{
    str_eq(t, "feat") || str_eq(t, "fix") || str_eq(t, "docs") || str_eq(t, "style") || str_eq(
        t,
        "refactor",
    ) || str_eq(t, "test") || str_eq(t, "chore") || str_eq(t, "build") || str_eq(t, "ci")
        || str_eq(t, "perf") || str_eq(t, "revert")
}

fn has_valid_type_prefix(t: &str) -> (r: bool)
    ensures
        r == valid_type_prefix(t@),
{
    str_is_prefix("feat", t) || str_is_prefix("fix", t) || str_is_prefix("docs", t)
        || str_is_prefix("style", t) || str_is_prefix("refactor", t) || str_is_prefix("test", t)
        || str_is_prefix("chore", t) || str_is_prefix("build", t) || str_is_prefix("ci", t)
        || str_is_prefix("perf", t) || str_is_prefix("revert", t)
}

/// What `rule_invalid_type` reports.
pub open spec fn rule_invalid_type_msgs(m: SpecMessage) -> Seq<Seq<char>> {
    match m.type_ {
        None => Seq::empty(),
        Some(t) => {
            let lt = lower_of(t);
            if !valid_type_seq(lt) {
                seq![
                    "Commit message type must be one of: feat, fix, docs, style, refactor, test, chore, build, ci, perf, revert"@
                        + (if valid_type_prefix(lt) {
                        " (missing `:` after type?)"@
                    } else {
                        Seq::<char>::empty()
                    }),
                ]
            } else {
                Seq::empty()
            }
        },
    }
}

/// Reports a commit type that, lowercased, is not in the list of valid
/// types; hints at a missing colon when a valid type is a prefix of it.
pub fn rule_invalid_type(message: &Message<'_>, problems: &mut Problems)
    ensures
        final(problems)@ == old(problems)@ + rule_invalid_type_msgs(message@),
{
    let t = match message.type_ {
        Some(t) => t,
        None => {
            proof {
                lemma_concat_empty(old(problems)@);
            }
            return ;
        },
    };
    let lt = to_lowercase_string(t);
    if !is_valid_type_str(lt.as_str()) {
        let prefix = has_valid_type_prefix(lt.as_str());
        let mut msg =
            "Commit message type must be one of: feat, fix, docs, style, refactor, test, chore, build, ci, perf, revert".to_owned();
        if prefix {
            msg.append(" (missing `:` after type?)");
        } else {
            proof {
                lemma_concat_empty(msg@);
            }
        }
        let ghost msg_view = msg@;
        problems.report(msg);
        proof {
            lemma_push_is_concat(old(problems)@, msg_view);
        }
    } else {
        proof {
            lemma_concat_empty(old(problems)@);
        }
    }
}

/// Whether some character of `t` is uppercase.
pub open spec fn has_uppercase(t: Seq<char>) -> bool {
    exists|j: int| 0 <= j < t.len() && char_uppercase(#[trigger] t[j])
}

/// What `rule_type_not_lowercase` reports.
pub open spec fn rule_type_not_lowercase_msgs(m: SpecMessage) -> Seq<Seq<char>> {
    match m.type_ {
        None => Seq::empty(),
        Some(t) => {
            if has_uppercase(t) {
                seq!["Commit message type must be lowercase. (example: `feat: ...`)"@]
            } else {
                Seq::empty()
            }
        },
    }
}

/// Reports a commit type holding an uppercase character.
pub fn rule_type_not_lowercase(message: &Message<'_>, problems: &mut Problems)
    ensures
        final(problems)@ == old(problems)@ + rule_type_not_lowercase_msgs(message@),
{
    let t = match message.type_ {
        Some(t) => t,
        None => {
            proof {
                lemma_concat_empty(old(problems)@);
            }
            return ;
        },
    };
    let len = t.unicode_len();
    let mut has_upper = false;
    let mut i: usize = 0;
    while i < len
        invariant
            0 <= i <= len,
            len == t@.len(),
            has_upper == exists|j: int| 0 <= j < i && char_uppercase(#[trigger] t@[j]),
        decreases len - i,
    {
        if is_uppercase_char(t.get_char(i)) {
            has_upper = true;
        }
        i = i + 1;
    }
    proof {
        if has_upper {
            let j = choose|j: int| 0 <= j < len && char_uppercase(#[trigger] t@[j]);
            assert(0 <= j < t@.len() && char_uppercase(t@[j]));
        }
        if has_uppercase(t@) {
            let j = choose|j: int| 0 <= j < t@.len() && char_uppercase(#[trigger] t@[j]);
            assert(0 <= j < len && char_uppercase(t@[j]));
        }
        assert(has_upper == has_uppercase(t@));
    }
    crate::messages::report_when(
        problems,
        has_upper,
        "Commit message type must be lowercase. (example: `feat: ...`)",
    );
}

/// What `rule_first_word_capitalized` reports. A title of fewer than two
/// characters is exempt.
pub open spec fn rule_first_word_capitalized_msgs(m: SpecMessage) -> Seq<Seq<char>> {
    match m.title {
        None => Seq::empty(),
        Some(t) => {
            if t.len() >= 2 && char_uppercase(t[0]) && !char_uppercase(t[1]) {
                seq!["Commit message should not start with a capitalized word."@]
            } else {
                Seq::empty()
            }
        },
    }
}

/// Reports a title starting with a capitalized word: an uppercase character
/// followed by a non-uppercase one. Single-character titles are exempt.
pub fn rule_first_word_capitalized(message: &Message<'_>, problems: &mut Problems)
    ensures
        final(problems)@ == old(problems)@ + rule_first_word_capitalized_msgs(message@),
{
    let t = match message.title {
        Some(t) => t,
        None => {
            proof {
                lemma_concat_empty(old(problems)@);
            }
            return ;
        },
    };
    let len = t.unicode_len();
    let cond = if len >= 2 {
        is_uppercase_char(t.get_char(0)) && !is_uppercase_char(t.get_char(1))
    } else {
        false
    };
    crate::messages::report_when(
        problems,
        cond,
        "Commit message should not start with a capitalized word.",
    );
}

/// What `rule_no_period` reports: parenthesized segments are ignored when
/// looking at the end of the title.
pub open spec fn rule_no_period_msgs(m: SpecMessage) -> Seq<Seq<char>> {
    match m.title {
        None => Seq::empty(),
        Some(t) => {
            let st = spec_trim(strip_parens_spec(t, 0));
            if st.len() > 0 && st[st.len() - 1] == '.' {
                seq!["Commit message title should not end with a period."@]
            } else {
                Seq::empty()
            }
        },
    }
}

/// Reports a title that ends with a period, parenthesized segments removed.
pub fn rule_no_period(message: &Message<'_>, problems: &mut Problems)
    ensures
        final(problems)@ == old(problems)@ + rule_no_period_msgs(message@),
{
    let t = match message.title {
        Some(t) => t,
        None => {
            proof {
                lemma_concat_empty(old(problems)@);
            }
            return ;
        },
    };
    let stripped = strip_paren_groups(t);
    let tr = trim_slice(stripped.as_str());
    let trlen = tr.unicode_len();
    let cond = trlen > 0 && tr.get_char(trlen - 1) == '.';
    crate::messages::report_when(
        problems,
        cond,
        "Commit message title should not end with a period.",
    );
}

/// What `rule_no_exmark` reports: parenthesized segments are ignored when
/// looking at the end of the title.
pub open spec fn rule_no_exmark_msgs(m: SpecMessage) -> Seq<Seq<char>> {
    match m.title {
        None => Seq::empty(),
        Some(t) => {
            let st = spec_trim(strip_parens_spec(t, 0));
            if st.len() > 0 && st[st.len() - 1] == '!' {
                seq!["Commit message title should not end with a exclaimation mark."@]
            } else {
                Seq::empty()
            }
        },
    }
}

/// Reports a title that ends with an exclamation mark, parenthesized
/// segments removed.
pub fn rule_no_exmark(message: &Message<'_>, problems: &mut Problems)
    ensures
        final(problems)@ == old(problems)@ + rule_no_exmark_msgs(message@),
{
    let t = match message.title {
        Some(t) => t,
        None => {
            proof {
                lemma_concat_empty(old(problems)@);
            }
            return ;
        },
    };
    let stripped = strip_paren_groups(t);
    let tr = trim_slice(stripped.as_str());
    let trlen = tr.unicode_len();
    let cond = trlen > 0 && tr.get_char(trlen - 1) == '!';
    crate::messages::report_when(
        problems,
        cond,
        "Commit message title should not end with a exclaimation mark.",
    );
}

/// What `rule_banned_words` reports.
pub open spec fn rule_banned_words_msgs(m: SpecMessage) -> Seq<Seq<char>> {
    match m.title {
        None => Seq::empty(),
        Some(t) => {
            let p = first_banned_pos(t, 0);
            if p < t.len() {
                seq![
                    "Commit message title should not contain the word `"@ + t.subrange(
                        p,
                        p + banned_len_at(t, p),
                    ) + "`."@,
                ]
            } else {
                Seq::empty()
            }
        },
    }
}

/// Reports the first banned word (`stuff`, `thing`, `things`) in the title,
/// matched case-insensitively at word boundaries.
pub fn rule_banned_words(message: &Message<'_>, problems: &mut Problems)
    ensures
        final(problems)@ == old(problems)@ + rule_banned_words_msgs(message@),
{
    let t = match message.title {
        Some(t) => t,
        None => {
            proof {
                lemma_concat_empty(old(problems)@);
            }
            return ;
        },
    };
    let len = t.unicode_len();
    let p = find_banned(t);
    if p < len {
        let bl = banned_len_at_exec(t, p);
        let word = t.substring_char(p, p + bl);
        let mut msg = "Commit message title should not contain the word `".to_owned();
        msg.append(word);
        msg.append("`.");
        let ghost msg_view = msg@;
        problems.report(msg);
        proof {
            lemma_push_is_concat(old(problems)@, msg_view);
            lemma_concat_assoc(
                "Commit message title should not contain the word `"@,
                word@,
                "`."@,
            );
        }
    } else {
        proof {
            lemma_concat_empty(old(problems)@);
        }
    }
}

/// The problem text for one spelling finding.
pub open spec fn typo_msg(typo: Seq<char>, correction: Seq<char>) -> Seq<char> {
    "In commit message title, `"@ + typo + "` should be `"@ + correction + "`."@
}

/// The problem texts for the findings from position `i` on: one per finding
/// that carries at least one correction, suggesting the first.
pub open spec fn typo_msgs_from(findings: Seq<(Seq<char>, Seq<Seq<char>>)>, i: int) -> Seq<
    Seq<char>,
>
    decreases findings.len() - i,
{
    if i < 0 || i >= findings.len() {
        Seq::empty()
    } else {
        (if findings[i].1.len() > 0 {
            seq![typo_msg(findings[i].0, findings[i].1[0])]
        } else {
            Seq::empty()
        }) + typo_msgs_from(findings, i + 1)
    }
}

/// What `rule_typos` reports.
pub open spec fn rule_typos_msgs(m: SpecMessage) -> Seq<Seq<char>> {
    match m.title {
        None => Seq::empty(),
        Some(t) => typo_msgs_from(typos_of(t), 0),
    }
}

/// Reports one problem per spelling finding that carries a correction. Takes
/// the findings as an argument, so this part is checked for every possible
/// outcome of the dictionary.
pub fn rule_typos_findings(findings: &Vec<(String, Vec<String>)>, problems: &mut Problems)
    ensures
        final(problems)@ == old(problems)@ + typo_msgs_from(findings.deep_view(), 0),
{
    let ghost fv = findings.deep_view();
    let ghost base = old(problems)@;
    let mut i: usize = 0;
    while i < findings.len()
        invariant
            0 <= i <= fv.len(),
            fv == findings.deep_view(),
            fv.len() == findings@.len(),
            problems@ + typo_msgs_from(fv, i as int) == base + typo_msgs_from(fv, 0),
        decreases fv.len() - i,
    {
        let ghost prev = problems@;
        proof {
            assert(fv[i as int] == (findings@[i as int].0@, findings@[i as int].1.deep_view()));
        }
        if findings[i].1.len() > 0 {
            let mut msg = "In commit message title, `".to_owned();
            msg.append(findings[i].0.as_str());
            msg.append("` should be `");
            msg.append(findings[i].1[0].as_str());
            msg.append("`.");
            let ghost msg_view = msg@;
            problems.report(msg);
            proof {
                assert(findings@[i as int].1.deep_view()[0] == findings@[i as int].1@[0]@);
                assert(msg_view == typo_msg(fv[i as int].0, fv[i as int].1[0])) by {
                    lemma_concat_assoc(
                        "In commit message title, `"@,
                        fv[i as int].0,
                        "` should be `"@,
                    );
                    lemma_concat_assoc(
                        "In commit message title, `"@ + fv[i as int].0,
                        "` should be `"@,
                        fv[i as int].1[0],
                    );
                    lemma_concat_assoc(
                        "In commit message title, `"@ + fv[i as int].0 + "` should be `"@,
                        fv[i as int].1[0],
                        "`."@,
                    );
                }
                lemma_push_is_concat(prev, msg_view);
                assert(typo_msgs_from(fv, i as int) == seq![typo_msg(
                    fv[i as int].0,
                    fv[i as int].1[0],
                )] + typo_msgs_from(fv, i + 1));
                lemma_concat_assoc(
                    prev,
                    seq![typo_msg(fv[i as int].0, fv[i as int].1[0])],
                    typo_msgs_from(fv, i + 1),
                );
            }
        } else {
            proof {
                assert(typo_msgs_from(fv, i as int) == Seq::<Seq<char>>::empty()
                    + typo_msgs_from(fv, i + 1));
                assert(Seq::<Seq<char>>::empty() + typo_msgs_from(fv, i + 1) =~= typo_msgs_from(
                    fv,
                    i + 1,
                ));
            }
        }
        i = i + 1;
    }
    proof {
        assert(typo_msgs_from(fv, fv.len() as int) == Seq::<Seq<char>>::empty());
        lemma_concat_empty(problems@);
    }
}

/// Reports the spelling findings of the builtin dictionary on the title.
pub fn rule_typos(message: &Message<'_>, problems: &mut Problems)
    ensures
        final(problems)@ == old(problems)@ + rule_typos_msgs(message@),
{
    let t = match message.title {
        Some(t) => t,
        None => {
            proof {
                lemma_concat_empty(old(problems)@);
            }
            return ;
        },
    };
    let findings = check_str_typos(t);
    rule_typos_findings(&findings, problems);
}

/// The length of a title in bytes of its UTF-8 encoding, as `str::len`
/// counts it.
pub open spec fn title_byte_len(t: Seq<char>) -> int {
    (vstd::utf8::encode_utf8(t).len() as usize) as int
}

/// What `rule_min_title_length` reports. Lengths are in bytes of the UTF-8
/// encoding.
pub open spec fn rule_min_title_length_msgs(m: SpecMessage) -> Seq<Seq<char>> {
    match m.title {
        None => Seq::empty(),
        Some(t) => {
            let l = title_byte_len(t);
            if l < 10 {
                seq!["Commit message title is too short. ("@ + spec_dec(l) + " < 10)"@]
            } else {
                Seq::empty()
            }
        },
    }
}

/// Reports a title shorter than 10 bytes.
pub fn rule_min_title_length(message: &Message<'_>, problems: &mut Problems)
    ensures
        final(problems)@ == old(problems)@ + rule_min_title_length_msgs(message@),
{
    let t = match message.title {
        Some(t) => t,
        None => {
            proof {
                lemma_concat_empty(old(problems)@);
            }
            return ;
        },
    };
    let l = t.len();
    proof {
        assert(l as int == title_byte_len(t@));
    }
    if l < 10 {
        let mut msg = "Commit message title is too short. (".to_owned();
        msg.append(usize_to_dec_string(l).as_str());
        msg.append(" < 10)");
        let ghost msg_view = msg@;
        problems.report(msg);
        proof {
            lemma_push_is_concat(old(problems)@, msg_view);
        }
    } else {
        proof {
            lemma_concat_empty(old(problems)@);
        }
    }
}

/// What `rule_max_title_length` reports. Lengths are in bytes of the UTF-8
/// encoding.
pub open spec fn rule_max_title_length_msgs(m: SpecMessage) -> Seq<Seq<char>> {
    match m.title {
        None => Seq::empty(),
        Some(t) => {
            let l = title_byte_len(t);
            if l > 72 {
                seq!["Commit message title is too long. ("@ + spec_dec(l) + " > 72)"@]
            } else {
                Seq::empty()
            }
        },
    }
}

/// Reports a title longer than 72 bytes.
pub fn rule_max_title_length(message: &Message<'_>, problems: &mut Problems)
    ensures
        final(problems)@ == old(problems)@ + rule_max_title_length_msgs(message@),
{
    let t = match message.title {
        Some(t) => t,
        None => {
            proof {
                lemma_concat_empty(old(problems)@);
            }
            return ;
        },
    };
    let l = t.len();
    proof {
        assert(l as int == title_byte_len(t@));
    }
    if l > 72 {
        let mut msg = "Commit message title is too long. (".to_owned();
        msg.append(usize_to_dec_string(l).as_str());
        msg.append(" > 72)");
        let ghost msg_view = msg@;
        problems.report(msg);
        proof {
            lemma_push_is_concat(old(problems)@, msg_view);
        }
    } else {
        proof {
            lemma_concat_empty(old(problems)@);
        }
    }
}

/// What all rules together report, in rule order.
pub open spec fn spec_all_rule_problems(m: SpecMessage) -> Seq<Seq<char>> {
    rule_missing_type_msgs(m) + rule_missing_title_msgs(m) + rule_invalid_type_msgs(m)
        + rule_type_not_lowercase_msgs(m) + rule_first_word_capitalized_msgs(m)
        + rule_no_period_msgs(m) + rule_no_exmark_msgs(m) + rule_banned_words_msgs(m)
        + rule_typos_msgs(m) + rule_min_title_length_msgs(m) + rule_max_title_length_msgs(m)
}

/// Runs every rule, in the fixed rule order.
pub fn check_all_rules(message: &Message<'_>, problems: &mut Problems)
    ensures
        final(problems)@ == old(problems)@ + spec_all_rule_problems(message@),
{
    let ghost base = old(problems)@;
    let ghost m = message@;
    rule_missing_type(message, problems);
    rule_missing_title(message, problems);
    rule_invalid_type(message, problems);
    rule_type_not_lowercase(message, problems);
    rule_first_word_capitalized(message, problems);
    rule_no_period(message, problems);
    rule_no_exmark(message, problems);
    rule_banned_words(message, problems);
    rule_typos(message, problems);
    // An imperative-mood check (scanning the title for past participles, the
    // way rule_banned_words scans for its words) would run here, but it needs
    // a dictionary of past-participle forms, and no such word list ships with
    // this crate.
    rule_min_title_length(message, problems);
    rule_max_title_length(message, problems);
    proof {
        let s1 = rule_missing_type_msgs(m);
        let s2 = rule_missing_title_msgs(m);
        let s3 = rule_invalid_type_msgs(m);
        let s4 = rule_type_not_lowercase_msgs(m);
        let s5 = rule_first_word_capitalized_msgs(m);
        let s6 = rule_no_period_msgs(m);
        let s7 = rule_no_exmark_msgs(m);
        let s8 = rule_banned_words_msgs(m);
        let s9 = rule_typos_msgs(m);
        let s10 = rule_min_title_length_msgs(m);
        let s11 = rule_max_title_length_msgs(m);
        lemma_concat_assoc(base, s1, s2);
        lemma_concat_assoc(base, s1 + s2, s3);
        lemma_concat_assoc(base, s1 + s2 + s3, s4);
        lemma_concat_assoc(base, s1 + s2 + s3 + s4, s5);
        lemma_concat_assoc(base, s1 + s2 + s3 + s4 + s5, s6);
        lemma_concat_assoc(base, s1 + s2 + s3 + s4 + s5 + s6, s7);
        lemma_concat_assoc(base, s1 + s2 + s3 + s4 + s5 + s6 + s7, s8);
        lemma_concat_assoc(base, s1 + s2 + s3 + s4 + s5 + s6 + s7 + s8, s9);
        lemma_concat_assoc(base, s1 + s2 + s3 + s4 + s5 + s6 + s7 + s8 + s9, s10);
        lemma_concat_assoc(base, s1 + s2 + s3 + s4 + s5 + s6 + s7 + s8 + s9 + s10, s11);
    }
}

} // verus!
