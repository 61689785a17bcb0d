//! The message parser.
//!
//! Raw commit-message text is decomposed into a [`Message`]: the commit type,
//! an optional parenthesized scope, a breaking-change marker, the title, a
//! free-text body and trailing `key: value` footers. Parsing is total: every
//! input yields a `Message`, and structural problems found along the way are
//! reported into a [`Problems`] sink.
//!
//! The header grammar of the first line is: a non-empty run of type-class
//! characters (the *type* capture), an optional parenthesized run of the same
//! class (the *scope* capture, parentheses included), an optional `!` (the
//! breaking marker), a run of whitespace, and a literal `:`. If that pattern
//! does not match at the start of the line, the whole first line is the title.

use vstd::prelude::*;

use crate::problems::Problems;
use crate::text::find_char;
use crate::text::find_char_at;
use crate::text::nl_run_end;
use crate::text::nl_run_end_at;
use crate::text::spec_trim;
use crate::text::str_eq;
use crate::text::trailing_newlines;
use crate::text::trailing_newlines_count;
use crate::text::trim_slice;
use crate::text::type_run_end;
use crate::text::type_run_end_at;
use crate::text::lemma_concat_assoc;
use crate::text::lemma_concat_empty;
use crate::text::lemma_push_is_concat;
use crate::text::lemma_type_run_bounds;
use crate::text::lemma_ws_run_bounds;
use crate::text::ws_run_end;
use crate::text::ws_run_end_at;

verus! {

// ---------------------------------------------------------------------------
// Header grammar model
// ---------------------------------------------------------------------------
/// End of the type capture: the maximal run of type-class characters at the
/// start of the line.
pub open spec fn hdr_type_end(line: Seq<char>) -> int {
    type_run_end(line, 0)
}

/// Whether a well-formed scope capture follows the type capture: `(`, a
/// non-empty run of type-class characters, `)`.
pub open spec fn hdr_scope_present(line: Seq<char>) -> bool {
    let j = hdr_type_end(line);
    &&& j < line.len()
    &&& line[j] == '('
    &&& {
        let k = type_run_end(line, j + 1);
        &&& k > j + 1
        &&& k < line.len()
        &&& line[k] == ')'
    }
}

/// Whether `(` follows the type capture without completing a scope capture.
/// The header grammar cannot match such a line.
pub open spec fn hdr_scope_broken(line: Seq<char>) -> bool {
    let j = hdr_type_end(line);
    j < line.len() && line[j] == '(' && !hdr_scope_present(line)
}

/// End of the scope capture (equals `hdr_type_end` when no scope is present).
pub open spec fn hdr_scope_end(line: Seq<char>) -> int {
    if hdr_scope_present(line) {
        type_run_end(line, hdr_type_end(line) + 1) + 1
    } else {
        hdr_type_end(line)
    }
}

/// Whether the breaking marker `!` follows the type/scope captures.
pub open spec fn hdr_mark(line: Seq<char>) -> bool {
    let e = hdr_scope_end(line);
    e < line.len() && line[e] == '!'
}

/// End of the breaking marker.
pub open spec fn hdr_mark_end(line: Seq<char>) -> int {
    hdr_scope_end(line) + if hdr_mark(line) {
        1int
    } else {
        0int
    }
}

/// End of the whitespace run between type/scope/marker and the colon.
pub open spec fn hdr_ws_end(line: Seq<char>) -> int {
    ws_run_end(line, hdr_mark_end(line))
}

/// Whether the line matches the header grammar: a non-empty type capture, no
/// broken scope, and a colon right after the whitespace run.
pub open spec fn hdr_matches(line: Seq<char>) -> bool {
    &&& hdr_type_end(line) >= 1
    &&& !hdr_scope_broken(line)
    &&& hdr_ws_end(line) < line.len()
    &&& line[hdr_ws_end(line)] == ':'
}

/// Index where the title slice begins: right after the colon.
pub open spec fn hdr_title_start(line: Seq<char>) -> int {
    hdr_ws_end(line) + 1
}

/// The header of the first line, as captured by the header grammar. When the
/// grammar did not match, `matched` is false, the captures are empty and
/// `title` is the whole line.
pub struct SpecHeader {
    pub matched: bool,
    pub type_: Seq<char>,
    pub scope: Seq<char>,
    pub title: Seq<char>,
    pub ex_mark: bool,
    pub whitespace_after_type: Seq<char>,
}

/// What parsing the first line yields.
pub open spec fn spec_parse_header(line: Seq<char>) -> SpecHeader {
    if hdr_matches(line) {
        SpecHeader {
            matched: true,
            type_: line.subrange(0, hdr_type_end(line)),
            scope: line.subrange(hdr_type_end(line), hdr_scope_end(line)),
            title: line.subrange(hdr_title_start(line), line.len() as int),
            ex_mark: hdr_mark(line),
            whitespace_after_type: line.subrange(hdr_mark_end(line), hdr_ws_end(line)),
        }
    } else {
        SpecHeader {
            matched: false,
            type_: Seq::empty(),
            scope: Seq::empty(),
            title: line,
            ex_mark: false,
            whitespace_after_type: Seq::empty(),
        }
    }
}

/// Bounds of the header capture offsets, for a matching line.
pub proof fn lemma_hdr_offsets(line: Seq<char>)
    ensures
        0 <= hdr_type_end(line) <= hdr_scope_end(line) <= hdr_mark_end(line) <= hdr_ws_end(line)
            <= line.len(),
{
    lemma_type_run_bounds(line, 0);
    if hdr_scope_present(line) {
        lemma_type_run_bounds(line, hdr_type_end(line) + 1);
    }
    lemma_ws_run_bounds(line, hdr_mark_end(line));
}

// ---------------------------------------------------------------------------
// Executable header parsing
// ---------------------------------------------------------------------------
/// The parsed first line. Lives only while the message text does; all fields
/// are slices of the first line.
pub struct Header<'a> {
    /// Whether the header grammar matched at the start of the line.
    pub matched: bool,
    /// The type capture (untrimmed), empty when the grammar did not match.
    pub type_: &'a str,
    /// The scope capture, parentheses included; empty when absent.
    pub scope: &'a str,
    /// The raw title: everything after the matched prefix, or the whole line
    /// when the grammar did not match.
    pub title: &'a str,
    /// Whether the breaking marker `!` was present.
    pub ex_mark: bool,
    /// The whitespace run between type/scope/marker and the colon.
    pub whitespace_after_type: &'a str,
}

impl<'a> View for Header<'a> {
    type V = SpecHeader;

    open spec fn view(&self) -> SpecHeader {
        SpecHeader {
            matched: self.matched,
            type_: self.type_@,
            scope: self.scope@,
            title: self.title@,
            ex_mark: self.ex_mark,
            whitespace_after_type: self.whitespace_after_type@,
        }
    }
}

/// Parses the first line of a message against the header grammar.
pub fn parse_header<'a>(line: &'a str) -> (h: Header<'a>)
    ensures
        h@ == spec_parse_header(line@),
{
    let len = line.unicode_len();
    let empty = line.substring_char(0, 0);
    proof {
        assert(empty@ =~= Seq::<char>::empty());
    }
    let no_match = Header {
        matched: false,
        type_: empty,
        scope: empty,
        title: line,
        ex_mark: false,
        whitespace_after_type: empty,
    };
    proof {
        assert(line@.subrange(0, len as int) =~= line@);
    }
    let te = type_run_end_at(line, 0);
    if te == 0 {
        return no_match;
    }
    let scope_end = if te < len && line.get_char(te) == '(' {
        let k = type_run_end_at(line, te + 1);
        if k > te + 1 && k < len && line.get_char(k) == ')' {
            k + 1
        } else {
            // `(` after the type capture, but no well-formed scope: the
            // grammar cannot match this line.
            return no_match;
        }
    } else {
        te
    };
    let ex_mark = scope_end < len && line.get_char(scope_end) == '!';
    let mark_end = if ex_mark {
        scope_end + 1
    } else {
        scope_end
    };
    let ws_end = ws_run_end_at(line, mark_end);
    if !(ws_end < len && line.get_char(ws_end) == ':') {
        return no_match;
    }
    assert(hdr_matches(line@));
    Header {
        matched: true,
        type_: line.substring_char(0, te),
        scope: line.substring_char(te, scope_end),
        title: line.substring_char(ws_end + 1, len),
        ex_mark,
        whitespace_after_type: line.substring_char(mark_end, ws_end),
    }
}

// ---------------------------------------------------------------------------
// Body model
// ---------------------------------------------------------------------------
/// End of the line starting at `q`: the next newline, or the end of the text.
pub open spec fn line_end(s: Seq<char>, q: int) -> int {
    find_char(s, q, '\n')
}

/// Start of the line after the one starting at `q` (the end of the text when
/// the line at `q` is the last).
pub open spec fn next_line(s: Seq<char>, q: int) -> int {
    if line_end(s, q) < s.len() {
        line_end(s, q) + 1
    } else {
        line_end(s, q)
    }
}

/// Whether the line starting at `q` is a footer candidate: it contains a
/// colon, with at least one character before it (a colon-containing line with
/// an empty key is a boundary break, not a footer).
pub open spec fn footer_line_ok(s: Seq<char>, q: int) -> bool {
    let c = find_char(s, q, ':');
    q < c && c < line_end(s, q)
}

pub proof fn lemma_next_line(s: Seq<char>, q: int)
    requires
        q < s.len(),
    ensures
        q < next_line(s, q) <= s.len(),
        q <= line_end(s, q) <= s.len(),
{
    if 0 <= q {
        crate::text::lemma_find_char_bounds(s, q, '\n');
    }
}

/// Whether every line from `q` to the end of the text is a footer candidate.
pub open spec fn all_footer_lines(s: Seq<char>, q: int) -> bool
    decreases s.len() - q,
    via all_footer_lines_dec
{
    if q >= s.len() {
        true
    } else {
        footer_line_ok(s, q) && all_footer_lines(s, next_line(s, q))
    }
}

#[via_fn]
proof fn all_footer_lines_dec(s: Seq<char>, q: int) {
    if q < s.len() {
        lemma_next_line(s, q);
    }
}

/// The start of the footer block, scanning line starts from `q`: the first
/// line start from which every following line is a footer candidate, or the
/// end of the text if there is none.
pub open spec fn footer_start_from(s: Seq<char>, q: int) -> int
    decreases s.len() - q,
    via footer_start_from_dec
{
    if q >= s.len() {
        s.len() as int
    } else if all_footer_lines(s, q) {
        q
    } else {
        footer_start_from(s, next_line(s, q))
    }
}

#[via_fn]
proof fn footer_start_from_dec(s: Seq<char>, q: int) {
    if q < s.len() {
        lemma_next_line(s, q);
    }
}

/// Number of newline characters at the very start of the text after the first
/// line.
pub open spec fn spec_newlines_before(s: Seq<char>) -> int {
    nl_run_end(s, 0)
}

/// Start of the candidate footer block.
pub open spec fn spec_footer_start(s: Seq<char>) -> int {
    footer_start_from(s, 0)
}

pub proof fn lemma_footer_start_from_props(s: Seq<char>, q: int)
    requires
        0 <= q <= s.len(),
    ensures
        q <= footer_start_from(s, q) <= s.len(),
        footer_start_from(s, q) < s.len() ==> all_footer_lines(s, footer_start_from(s, q)),
    decreases s.len() - q,
{
    if q < s.len() && !all_footer_lines(s, q) {
        lemma_next_line(s, q);
        lemma_footer_start_from_props(s, next_line(s, q));
    }
}

/// The candidate footer block never reaches back into the leading newline
/// run: a leading newline makes an empty line, which no footer block holds.
pub proof fn lemma_footer_start_after_newlines(s: Seq<char>)
    ensures
        0 <= spec_newlines_before(s) <= spec_footer_start(s) <= s.len(),
{
    crate::text::lemma_nl_run_bounds(s, 0);
    lemma_footer_start_from_props(s, 0);
    let r = spec_footer_start(s);
    let nb = spec_newlines_before(s);
    if r < nb {
        assert(all_footer_lines(s, r));
        assert(footer_line_ok(s, r));
        assert(s[r] == '\n');
        assert(line_end(s, r) == r);
    }
}

/// Number of trailing newline characters of the candidate body slice.
pub open spec fn spec_newlines_after(s: Seq<char>) -> int {
    trailing_newlines(s.subrange(spec_newlines_before(s), spec_footer_start(s)))
}

/// Whether the footer classification is discarded: the candidate
/// body slice is non-empty but not newline-separated from the candidate
/// footer block.
pub open spec fn spec_footers_discarded(s: Seq<char>) -> bool {
    spec_footer_start(s) > spec_newlines_before(s) && spec_newlines_after(s) == 0
}

/// The final body text: between the leading newlines and the footer block,
/// with the trailing newlines trimmed off; the whole remainder when the
/// footer classification is discarded.
pub open spec fn spec_body_text(s: Seq<char>) -> Seq<char> {
    if spec_footers_discarded(s) {
        s.subrange(spec_newlines_before(s), s.len() as int)
    } else {
        s.subrange(spec_newlines_before(s), spec_footer_start(s) - spec_newlines_after(s))
    }
}

/// The `(key, value)` pair parsed from the footer line starting at `q`:
/// the key is everything before the first colon, the value is
/// everything after it with at most one leading space stripped.
pub open spec fn footer_pair_at(s: Seq<char>, q: int) -> (Seq<char>, Seq<char>) {
    let c = find_char(s, q, ':');
    let e = line_end(s, q);
    let value = if c + 1 < e && s[c + 1] == ' ' {
        s.subrange(c + 2, e)
    } else {
        s.subrange(c + 1, e)
    };
    (s.subrange(q, c), value)
}

/// The footer pairs of all lines from `q` to the end of the text, in
/// top-to-bottom text order.
pub open spec fn footer_pairs_from(s: Seq<char>, q: int) -> Seq<(Seq<char>, Seq<char>)>
    decreases s.len() - q,
    via footer_pairs_from_dec
{
    if q >= s.len() {
        Seq::empty()
    } else {
        seq![footer_pair_at(s, q)] + footer_pairs_from(s, next_line(s, q))
    }
}

#[via_fn]
proof fn footer_pairs_from_dec(s: Seq<char>, q: int) {
    if q < s.len() {
        lemma_next_line(s, q);
    }
}

/// The line starts from `q` to the end of the text, in text order.
pub open spec fn footer_line_starts(s: Seq<char>, q: int) -> Seq<int>
    decreases s.len() - q,
    via footer_line_starts_dec
{
    if q >= s.len() {
        Seq::empty()
    } else {
        seq![q] + footer_line_starts(s, next_line(s, q))
    }
}

#[via_fn]
proof fn footer_line_starts_dec(s: Seq<char>, q: int) {
    if q < s.len() {
        lemma_next_line(s, q);
    }
}

/// The final footer sequence: one pair per line of the candidate block,
/// or none when the classification is discarded.
pub open spec fn spec_footers(s: Seq<char>) -> Seq<(Seq<char>, Seq<char>)> {
    if spec_footers_discarded(s) {
        Seq::empty()
    } else {
        footer_pairs_from(s, spec_footer_start(s))
    }
}

/// Whether some footer key is exactly `BREAKING CHANGE`.
pub open spec fn spec_body_breaking(s: Seq<char>) -> bool {
    exists|i: int|
        0 <= i < spec_footers(s).len() && (#[trigger] spec_footers(s)[i]).0 == "BREAKING CHANGE"@
}

/// What parsing the text after the first line yields.
pub struct SpecBody {
    pub body: Seq<char>,
    pub footers: Seq<(Seq<char>, Seq<char>)>,
    pub is_breaking_change: bool,
    pub newlines_before: int,
    pub newlines_after: int,
}

pub open spec fn spec_parse_body(s: Seq<char>) -> SpecBody {
    SpecBody {
        body: spec_body_text(s),
        footers: spec_footers(s),
        is_breaking_change: spec_body_breaking(s),
        newlines_before: spec_newlines_before(s),
        newlines_after: spec_newlines_after(s),
    }
}

// ---------------------------------------------------------------------------
// Executable body parsing
// ---------------------------------------------------------------------------
/// One `key: value` footer. Both fields are slices of the message text.
pub struct Footer<'a> {
    /// Everything before the first colon of the footer line, untrimmed.
    pub key: &'a str,
    /// Everything after the first colon, with at most one leading space
    /// stripped.
    pub value: &'a str,
}

impl<'a> View for Footer<'a> {
    type V = (Seq<char>, Seq<char>);

    open spec fn view(&self) -> (Seq<char>, Seq<char>) {
        (self.key@, self.value@)
    }
}

/// The parsed remainder after the first line.
pub struct Body<'a> {
    /// The body text: between the leading newlines and the footer block, with
    /// trailing newlines trimmed.
    pub body: &'a str,
    /// The footers, in top-to-bottom text order.
    pub footers: Vec<Footer<'a>>,
    /// Whether some footer key is exactly `BREAKING CHANGE`.
    pub is_breaking_change: bool,
    /// Number of newline characters before the body block.
    pub newlines_before: usize,
    /// Number of trailing newline characters of the candidate body slice.
    pub newlines_after: usize,
}

impl<'a> View for Body<'a> {
    type V = SpecBody;

    open spec fn view(&self) -> SpecBody {
        SpecBody {
            body: self.body@,
            footers: self.footers@.map_values(|f: Footer<'a>| f@),
            is_breaking_change: self.is_breaking_change,
            newlines_before: self.newlines_before as int,
            newlines_after: self.newlines_after as int,
        }
    }
}

/// Parses the text strictly after the first line of a message: counts the
/// newlines around the body block, splits off the trailing footer block, and
/// parses each footer line into a key and a value.
pub fn parse_body<'a>(text: &'a str) -> (b: Body<'a>)
    ensures
        b@ == spec_parse_body(text@),
{
    let ghost s = text@;
    let len = text.unicode_len();
    let newlines_before = nl_run_end_at(text, 0);
    // Scan line starts from the top; `cand` tracks the earliest line start
    // from which every line seen so far is a footer candidate.
    let mut q: usize = 0;
    let mut cand: usize = 0;
    while q < len
        invariant
            cand <= q <= len,
            len == s.len(),
            s == text@,
            all_footer_lines(s, q as int) ==> footer_start_from(s, 0) == cand,
            !all_footer_lines(s, q as int) ==> footer_start_from(s, 0) == footer_start_from(
                s,
                q as int,
            ),
        decreases len - q,
    {
        let e = find_char_at(text, q, '\n');
        let c = find_char_at(text, q, ':');
        let ok = q < c && c < e;
        let nq = if e < len {
            e + 1
        } else {
            e
        };
        proof {
            lemma_next_line(s, q as int);
            assert(nq == next_line(s, q as int));
            assert(ok == footer_line_ok(s, q as int));
            assert(all_footer_lines(s, q as int) == (footer_line_ok(s, q as int)
                && all_footer_lines(s, nq as int)));
            assert(!all_footer_lines(s, q as int) ==> footer_start_from(s, q as int)
                == footer_start_from(s, nq as int));
            if nq == len {
                assert(footer_start_from(s, nq as int) == len);
            } else {
                assert(all_footer_lines(s, nq as int) ==> footer_start_from(s, nq as int)
                    == nq);
            }
        }
        if !ok {
            cand = nq;
        }
        q = nq;
    }
    let fs = cand;
    proof {
        assert(all_footer_lines(s, len as int));
        assert(fs == spec_footer_start(s));
        lemma_footer_start_after_newlines(s);
        lemma_footer_start_from_props(s, 0);
        if fs == len {
            assert(all_footer_lines(s, fs as int));
        }
    }
    // Collect the footer pairs, top to bottom.
    let mut footers: Vec<Footer<'a>> = Vec::new();
    let mut q2 = fs;
    while q2 < len
        invariant
            fs <= q2 <= len,
            len == s.len(),
            s == text@,
            all_footer_lines(s, q2 as int),
            footers@.map_values(|f: Footer<'a>| f@) + footer_pairs_from(s, q2 as int)
                == footer_pairs_from(s, fs as int),
        decreases len - q2,
    {
        let ghost prev = footers@.map_values(|f: Footer<'a>| f@);
        let e = find_char_at(text, q2, '\n');
        let c = find_char_at(text, q2, ':');
        proof {
            lemma_next_line(s, q2 as int);
            assert(footer_line_ok(s, q2 as int));
        }
        let key = text.substring_char(q2, c);
        let value = if c + 1 < e && text.get_char(c + 1) == ' ' {
            text.substring_char(c + 2, e)
        } else {
            text.substring_char(c + 1, e)
        };
        footers.push(Footer { key, value });
        let nq = if e < len {
            e + 1
        } else {
            e
        };
        proof {
            assert(footers@.map_values(|f: Footer<'a>| f@) =~= prev.push(
                footer_pair_at(s, q2 as int),
            ));
            assert(footer_pairs_from(s, q2 as int) == seq![footer_pair_at(s, q2 as int)]
                + footer_pairs_from(s, nq as int));
            assert(prev.push(footer_pair_at(s, q2 as int)) + footer_pairs_from(s, nq as int)
                =~= prev + footer_pairs_from(s, q2 as int));
        }
        q2 = nq;
    }
    proof {
        assert(footer_pairs_from(s, len as int) =~= Seq::<(Seq<char>, Seq<char>)>::empty());
        assert(footers@.map_values(|f: Footer<'a>| f@) =~= footer_pairs_from(s, fs as int));
    }
    let body0 = text.substring_char(newlines_before, fs);
    let newlines_after = trailing_newlines_count(body0);
    proof {
        crate::text::lemma_trailing_newlines_bounds(body0@);
        assert(newlines_after == spec_newlines_after(s));
    }
    if newlines_before < fs && newlines_after == 0 {
        // The candidate footer block is not newline-separated from the body:
        // discard the footer classification entirely.
        let body = text.substring_char(newlines_before, len);
        let no_footers: Vec<Footer<'a>> = Vec::new();
        proof {
            assert(spec_footers_discarded(s));
            assert(no_footers@.map_values(|f: Footer<'a>| f@) =~= spec_footers(s));
        }
        Body {
            body,
            footers: no_footers,
            is_breaking_change: false,
            newlines_before,
            newlines_after,
        }
    } else {
        let body = text.substring_char(newlines_before, fs - newlines_after);
        let mut brk = false;
        let mut i: usize = 0;
        while i < footers.len()
            invariant
                0 <= i <= footers@.len(),
                brk == exists|j: int|
                    0 <= j < i && (#[trigger] footers@[j])@.0 == "BREAKING CHANGE"@,
            decreases footers@.len() - i,
        {
            let isb = str_eq(footers[i].key, "BREAKING CHANGE");
            proof {
                assert(footers@[i as int]@.0 == footers[i as int].key@);
            }
            if isb {
                brk = true;
            }
            i = i + 1;
        }
        proof {
            assert(!spec_footers_discarded(s));
            assert(footers@.map_values(|f: Footer<'a>| f@) == spec_footers(s));
            if brk {
                let j = choose|j: int|
                    0 <= j < footers@.len() && (#[trigger] footers@[j])@.0
                        == "BREAKING CHANGE"@;
                assert(spec_footers(s)[j] == footers@[j]@);
                assert(spec_body_breaking(s));
            }
            if spec_body_breaking(s) {
                let j = choose|j: int|
                    0 <= j < spec_footers(s).len() && (#[trigger] spec_footers(s)[j]).0
                        == "BREAKING CHANGE"@;
                assert(spec_footers(s)[j] == footers@[j]@);
                assert(brk);
            }
            assert(brk == spec_body_breaking(s));
        }
        Body {
            body,
            footers,
            is_breaking_change: brk,
            newlines_before,
            newlines_after,
        }
    }
}

// ---------------------------------------------------------------------------
// Structural problems
// ---------------------------------------------------------------------------
/// The structural problems of a parsed header, in report order. A header that
/// did not match the grammar has no structural problems: no capture
/// boundaries exist to check.
pub open spec fn spec_header_problems(h: SpecHeader) -> Seq<Seq<char>> {
    if !h.matched {
        Seq::empty()
    } else {
        let t = h.type_;
        let tt = spec_trim(t);
        let sc = h.scope;
        let ti = h.title;
        let tit = spec_trim(ti);
        (if tt.len() > 0 && t.len() > 0 && t[0] == ' ' {
            seq!["Whitespace before commit message type."@]
        } else {
            Seq::empty()
        }) + (if h.whitespace_after_type.len() > 0 || (tt.len() > 0 && t.len() > 0 && t[t.len()
            - 1] == ' ') {
            seq!["Whitespace after commit message type."@]
        } else {
            Seq::empty()
        }) + (if sc.len() >= 2 && sc[0] == '(' && sc[1] == ' ' {
            seq!["Whitespace before commit message scope."@]
        } else {
            Seq::empty()
        }) + (if sc.len() >= 2 && sc[sc.len() - 1] == ')' && sc[sc.len() - 2] == ' ' {
            seq!["Whitespace after commit message scope."@]
        } else {
            Seq::empty()
        }) + (if tit.len() > 0 && ti.len() >= 2 && ti[0] == ' ' && ti[1] == ' ' {
            seq!["Whitespace before commit message title."@]
        } else {
            Seq::empty()
        }) + (if tit.len() > 0 && !(ti.len() > 0 && ti[0] == ' ') {
            seq!["No space before commit message title."@]
        } else {
            Seq::empty()
        }) + (if tit.len() > 0 && ti.len() > 0 && ti[ti.len() - 1] == ' ' {
            seq!["Whitespace after commit message title."@]
        } else {
            Seq::empty()
        })
    }
}

/// The structural problems of the parsed body, in report order.
pub open spec fn spec_body_problems(h: SpecHeader, b: SpecBody) -> Seq<Seq<char>> {
    (if b.body.len() > 0 && b.newlines_before != 1 {
        seq!["Commit message title and body must be separated by a single newline."@]
    } else {
        Seq::empty()
    }) + (if b.body.len() > 0 && b.newlines_after != 1 {
        seq!["Commit message body and footer must be separated by a single newline."@]
    } else {
        Seq::empty()
    }) + (if h.ex_mark && !b.is_breaking_change {
        seq![
            "Breaking changes should be explained in a footer after the commit message. (example: `BREAKING CHANGE: ...`)"@,
        ]
    } else {
        Seq::empty()
    }) + (if b.is_breaking_change && !h.ex_mark {
        seq![
            "Breaking changes should be marked with `!` after the commit message type. (example: `feat!: ...`)"@,
        ]
    } else {
        Seq::empty()
    })
}

/// Reports `message` exactly when `cond` holds.
pub(crate) fn report_when(problems: &mut Problems, cond: bool, message: &str)
    ensures
        final(problems)@ == old(problems)@ + (if cond {
            seq![message@]
        } else {
            Seq::<Seq<char>>::empty()
        }),
{
    if cond {
        problems.report(message.to_owned());
        proof {
            lemma_push_is_concat(old(problems)@, message@);
        }
    } else {
        proof {
            lemma_concat_empty(old(problems)@);
        }
    }
}

/// Reports the structural problems of a parsed header: whitespace around the
/// type, scope and title captures, and a missing space before the title.
pub fn find_problems_in_header(header: &Header<'_>, problems: &mut Problems)
    ensures
        final(problems)@ == old(problems)@ + spec_header_problems(header@),
{
    let ghost base = problems@;
    if !header.matched {
        proof {
            assert(base + spec_header_problems(header@) =~= base);
        }
        return ;
    }
    let ghost t_s = header@.type_;
    let ghost tt_s = spec_trim(t_s);
    let ghost sc_s = header@.scope;
    let ghost ti_s = header@.title;
    let ghost tit_s = spec_trim(ti_s);
    let ghost ws_s = header@.whitespace_after_type;
    let ghost seg1 = if tt_s.len() > 0 && t_s.len() > 0 && t_s[0] == ' ' {
        seq!["Whitespace before commit message type."@]
    } else {
        Seq::<Seq<char>>::empty()
    };
    let ghost seg2 = if ws_s.len() > 0 || (tt_s.len() > 0 && t_s.len() > 0 && t_s[t_s.len() - 1]
        == ' ') {
        seq!["Whitespace after commit message type."@]
    } else {
        Seq::<Seq<char>>::empty()
    };
    let ghost seg3 = if sc_s.len() >= 2 && sc_s[0] == '(' && sc_s[1] == ' ' {
        seq!["Whitespace before commit message scope."@]
    } else {
        Seq::<Seq<char>>::empty()
    };
    let ghost seg4 = if sc_s.len() >= 2 && sc_s[sc_s.len() - 1] == ')' && sc_s[sc_s.len() - 2]
        == ' ' {
        seq!["Whitespace after commit message scope."@]
    } else {
        Seq::<Seq<char>>::empty()
    };
    let ghost seg5 = if tit_s.len() > 0 && ti_s.len() >= 2 && ti_s[0] == ' ' && ti_s[1] == ' ' {
        seq!["Whitespace before commit message title."@]
    } else {
        Seq::<Seq<char>>::empty()
    };
    let ghost seg6 = if tit_s.len() > 0 && !(ti_s.len() > 0 && ti_s[0] == ' ') {
        seq!["No space before commit message title."@]
    } else {
        Seq::<Seq<char>>::empty()
    };
    let ghost seg7 = if tit_s.len() > 0 && ti_s.len() > 0 && ti_s[ti_s.len() - 1] == ' ' {
        seq!["Whitespace after commit message title."@]
    } else {
        Seq::<Seq<char>>::empty()
    };
    let t = header.type_;
    let tlen = t.unicode_len();
    let tt = trim_slice(t);
    let type_nonempty = !tt.is_empty();
    let c1 = type_nonempty && tlen > 0 && t.get_char(0) == ' ';
    report_when(problems, c1, "Whitespace before commit message type.");
    let wlen = header.whitespace_after_type.unicode_len();
    let c2 = wlen > 0 || (type_nonempty && tlen > 0 && t.get_char(tlen - 1) == ' ');
    report_when(problems, c2, "Whitespace after commit message type.");
    let sc = header.scope;
    let sclen = sc.unicode_len();
    let c3 = sclen >= 2 && sc.get_char(0) == '(' && sc.get_char(1) == ' ';
    report_when(problems, c3, "Whitespace before commit message scope.");
    let c4 = sclen >= 2 && sc.get_char(sclen - 1) == ')' && sc.get_char(sclen - 2) == ' ';
    report_when(problems, c4, "Whitespace after commit message scope.");
    let ti = header.title;
    let tilen = ti.unicode_len();
    let tit = trim_slice(ti);
    let title_nonempty = !tit.is_empty();
    let starts_with_space = tilen > 0 && ti.get_char(0) == ' ';
    let c5 = title_nonempty && starts_with_space && tilen >= 2 && ti.get_char(1) == ' ';
    report_when(problems, c5, "Whitespace before commit message title.");
    let c6 = title_nonempty && !starts_with_space;
    report_when(problems, c6, "No space before commit message title.");
    let c7 = title_nonempty && tilen > 0 && ti.get_char(tilen - 1) == ' ';
    report_when(problems, c7, "Whitespace after commit message title.");
    proof {
        assert(seg1 == if c1 {
            seq!["Whitespace before commit message type."@]
        } else {
            Seq::<Seq<char>>::empty()
        });
        assert(seg2 == if c2 {
            seq!["Whitespace after commit message type."@]
        } else {
            Seq::<Seq<char>>::empty()
        });
        assert(seg3 == if c3 {
            seq!["Whitespace before commit message scope."@]
        } else {
            Seq::<Seq<char>>::empty()
        });
        assert(seg4 == if c4 {
            seq!["Whitespace after commit message scope."@]
        } else {
            Seq::<Seq<char>>::empty()
        });
        assert(seg5 == if c5 {
            seq!["Whitespace before commit message title."@]
        } else {
            Seq::<Seq<char>>::empty()
        });
        assert(seg6 == if c6 {
            seq!["No space before commit message title."@]
        } else {
            Seq::<Seq<char>>::empty()
        });
        assert(seg7 == if c7 {
            seq!["Whitespace after commit message title."@]
        } else {
            Seq::<Seq<char>>::empty()
        });
        assert(problems@ == base + seg1 + seg2 + seg3 + seg4 + seg5 + seg6 + seg7);
        lemma_concat_assoc(base, seg1, seg2);
        lemma_concat_assoc(base, seg1 + seg2, seg3);
        lemma_concat_assoc(base, seg1 + seg2 + seg3, seg4);
        lemma_concat_assoc(base, seg1 + seg2 + seg3 + seg4, seg5);
        lemma_concat_assoc(base, seg1 + seg2 + seg3 + seg4 + seg5, seg6);
        lemma_concat_assoc(base, seg1 + seg2 + seg3 + seg4 + seg5 + seg6, seg7);
        assert(spec_header_problems(header@) == seg1 + seg2 + seg3 + seg4 + seg5 + seg6 + seg7);
        assert(problems@ == base + spec_header_problems(header@));
    }
}

/// Reports the structural problems of the parsed body: newline separation
/// around the body block, and the two breaking-change mismatches between the
/// header marker and the footers.
pub fn find_problems_in_body(header: &Header<'_>, body: &Body<'_>, problems: &mut Problems)
    ensures
        final(problems)@ == old(problems)@ + spec_body_problems(header@, body@),
{
    let ghost base = problems@;
    let body_nonempty = !body.body.is_empty();
    if body_nonempty && body.newlines_before != 1 {
        problems.report(
            "Commit message title and body must be separated by a single newline.".to_owned(),
        );
    }
    if body_nonempty && body.newlines_after != 1 {
        problems.report(
            "Commit message body and footer must be separated by a single newline.".to_owned(),
        );
    }
    if header.ex_mark && !body.is_breaking_change {
        problems.report(
            "Breaking changes should be explained in a footer after the commit message. (example: `BREAKING CHANGE: ...`)".to_owned(),
        );
    }
    if body.is_breaking_change && !header.ex_mark {
        problems.report(
            "Breaking changes should be marked with `!` after the commit message type. (example: `feat!: ...`)".to_owned(),
        );
    }
    proof {
        assert(problems@ =~= base + spec_body_problems(header@, body@));
    }
}

// ---------------------------------------------------------------------------
// Message assembly
// ---------------------------------------------------------------------------
/// A trimmed capture, or absent when it is empty after trimming.
pub open spec fn trim_or_absent(s: Seq<char>) -> Option<Seq<char>> {
    if spec_trim(s).len() == 0 {
        None
    } else {
        Some(spec_trim(s))
    }
}

/// The scope capture with its enclosing parentheses stripped.
pub open spec fn scope_inner(sc: Seq<char>) -> Seq<char> {
    if sc.len() >= 2 && sc[0] == '(' && sc[sc.len() - 1] == ')' {
        sc.subrange(1, sc.len() - 1)
    } else {
        Seq::empty()
    }
}

/// End of the first line of the whole message text.
pub open spec fn spec_first_line_end(s: Seq<char>) -> int {
    find_char(s, 0, '\n')
}

/// The first line of the whole message text (the newline excluded).
pub open spec fn spec_first_line(s: Seq<char>) -> Seq<char> {
    s.subrange(0, spec_first_line_end(s))
}

/// The text strictly after the first line (empty when there is no newline).
pub open spec fn spec_rest(s: Seq<char>) -> Seq<char> {
    if spec_first_line_end(s) < s.len() {
        s.subrange(spec_first_line_end(s) + 1, s.len() as int)
    } else {
        Seq::empty()
    }
}

/// The parsed message.
pub struct SpecMessage {
    pub type_: Option<Seq<char>>,
    pub scope: Option<Seq<char>>,
    pub title: Option<Seq<char>>,
    pub body: Option<Seq<char>>,
    pub footers: Seq<(Seq<char>, Seq<char>)>,
    pub is_breaking_change: bool,
}

/// What parsing a whole message yields.
pub open spec fn spec_parse_message(s: Seq<char>) -> SpecMessage {
    let h = spec_parse_header(spec_first_line(s));
    let b = spec_parse_body(spec_rest(s));
    SpecMessage {
        type_: trim_or_absent(h.type_),
        scope: trim_or_absent(scope_inner(h.scope)),
        title: trim_or_absent(h.title),
        body: if b.body.len() == 0 {
            None
        } else {
            Some(b.body)
        },
        footers: b.footers,
        is_breaking_change: h.ex_mark || b.is_breaking_change,
    }
}

/// The structural problems parsing a whole message reports, in report order:
/// first the header problems, then the body problems.
pub open spec fn spec_message_problems(s: Seq<char>) -> Seq<Seq<char>> {
    spec_header_problems(spec_parse_header(spec_first_line(s))) + spec_body_problems(
        spec_parse_header(spec_first_line(s)),
        spec_parse_body(spec_rest(s)),
    )
}

/// The view of an optional string slice.
pub open spec fn opt_str_view(o: Option<&str>) -> Option<Seq<char>> {
    match o {
        Some(t) => Some(t@),
        None => None,
    }
}

/// The parsed commit message. All fields are slices of the original input
/// text, which must outlive the message.
pub struct Message<'a> {
    /// The trimmed commit-type capture; absent when the header grammar did
    /// not match or the capture is empty after trimming.
    pub type_: Option<&'a str>,
    /// The trimmed scope, parentheses stripped; absent when no scope was
    /// present.
    pub scope: Option<&'a str>,
    /// The trimmed title; absent when empty after trimming.
    pub title: Option<&'a str>,
    /// The body block; absent when empty.
    pub body: Option<&'a str>,
    /// The footers, in order of appearance; duplicate keys permitted.
    pub footers: Vec<Footer<'a>>,
    /// Whether the header carried the breaking marker or a footer key is
    /// exactly `BREAKING CHANGE`.
    pub is_breaking_change: bool,
}

impl<'a> View for Message<'a> {
    type V = SpecMessage;

    open spec fn view(&self) -> SpecMessage {
        SpecMessage {
            type_: opt_str_view(self.type_),
            scope: opt_str_view(self.scope),
            title: opt_str_view(self.title),
            body: opt_str_view(self.body),
            footers: self.footers@.map_values(|f: Footer<'a>| f@),
            is_breaking_change: self.is_breaking_change,
        }
    }
}

/// The trimmed slice, or `None` when it is empty after trimming.
pub fn string_to_option<'a>(text: &'a str) -> (r: Option<&'a str>)
    ensures
        opt_str_view(r) == trim_or_absent(text@),
{
    let t = trim_slice(text);
    if t.is_empty() {
        None
    } else {
        Some(t)
    }
}

fn strip_scope_parens<'a>(scope: &'a str) -> (r: &'a str)
    ensures
        r@ == scope_inner(scope@),
{
    let len = scope.unicode_len();
    if len >= 2 && scope.get_char(0) == '(' && scope.get_char(len - 1) == ')' {
        scope.substring_char(1, len - 1)
    } else {
        let e = scope.substring_char(0, 0);
        proof {
            assert(e@ =~= Seq::<char>::empty());
        }
        e
    }
}

/// Parses raw message text into a [`Message`], reporting structural problems
/// into `problems`. Total: every input yields a message; no input fails.
pub fn parse_message<'a>(text: &'a str, problems: &mut Problems) -> (m: Message<'a>)
    ensures
        m@ == spec_parse_message(text@),
        final(problems)@ == old(problems)@ + spec_message_problems(text@),
{
    let len = text.unicode_len();
    let fle = find_char_at(text, 0, '\n');
    let first_line = text.substring_char(0, fle);
    let rest = if fle < len {
        text.substring_char(fle + 1, len)
    } else {
        text.substring_char(len, len)
    };
    proof {
        assert(rest@ =~= spec_rest(text@));
    }
    let header = parse_header(first_line);
    let body = parse_body(rest);
    find_problems_in_header(&header, problems);
    find_problems_in_body(&header, &body, problems);
    let m = Message {
        type_: string_to_option(header.type_),
        scope: string_to_option(strip_scope_parens(header.scope)),
        title: string_to_option(header.title),
        body: if body.body.is_empty() {
            None
        } else {
            Some(body.body)
        },
        is_breaking_change: header.ex_mark || body.is_breaking_change,
        footers: body.footers,
    };
    proof {
        assert(problems@ =~= old(problems)@ + spec_message_problems(text@));
        assert(m@ == spec_parse_message(text@));
    }
    m
}

} // verus!
