//! Laws of the parser: properties that relate several of its pieces.

use vstd::prelude::*;

use crate::messages::all_footer_lines;
use crate::messages::footer_line_starts;
use crate::messages::footer_start_from;
use crate::messages::line_end;
use crate::messages::footer_pair_at;
use crate::messages::footer_pairs_from;
use crate::messages::hdr_matches;
use crate::messages::hdr_title_start;
use crate::messages::lemma_hdr_offsets;
use crate::messages::lemma_next_line;
use crate::messages::next_line;
use crate::messages::spec_body_text;
use crate::messages::spec_footer_start;
use crate::messages::spec_footers;
use crate::messages::spec_footers_discarded;
use crate::messages::spec_newlines_before;
use crate::messages::spec_header_problems;
use crate::messages::spec_parse_header;

verus! {

/// A first line that does not match the header grammar has no capture
/// boundaries to check: parsing it reports no structural header problems.
pub proof fn lemma_unmatched_header_reports_nothing(line: Seq<char>)
    requires
        !hdr_matches(line),
    ensures
        spec_header_problems(spec_parse_header(line)) == Seq::<Seq<char>>::empty(),
{
}

/// Round-trip boundary of the header grammar: on a matching line, the lengths
/// of the type capture, the scope capture, the breaking marker, the
/// whitespace run and the colon add up exactly to the offset where the title
/// slice begins.
pub proof fn lemma_header_prefix_length(line: Seq<char>)
    requires
        hdr_matches(line),
    ensures
        ({
            let h = spec_parse_header(line);
            h.type_.len() + h.scope.len() + (if h.ex_mark {
                1int
            } else {
                0int
            }) + h.whitespace_after_type.len() + 1 == hdr_title_start(line)
        }),
{
    lemma_hdr_offsets(line);
}

/// False-footer guard: whenever the candidate footer block is not
/// newline-separated from a non-empty body (the body slice has zero trailing
/// newlines), the footer classification is discarded entirely — no footers
/// are produced, and the whole text after the leading newlines is retained as
/// body text.
pub proof fn lemma_adjacent_footer_block_discarded(s: Seq<char>)
    ensures
        spec_footers_discarded(s) ==> spec_footers(s) == Seq::<(Seq<char>, Seq<char>)>::empty(),
        spec_footers_discarded(s) ==> spec_body_text(s) == s.subrange(
            spec_newlines_before(s),
            s.len() as int,
        ),
{
}

proof fn lemma_footer_start_line_start(s: Seq<char>, q: int)
    requires
        0 <= q <= s.len(),
        q == 0 || s[q - 1] == '\n',
    ensures
        ({
            let r = footer_start_from(s, q);
            r == s.len() || r == 0 || s[r - 1] == '\n'
        }),
    decreases s.len() - q,
{
    if q < s.len() && !all_footer_lines(s, q) {
        lemma_next_line(s, q);
        let e = line_end(s, q);
        let nq = next_line(s, q);
        if nq == s.len() {
            assert(footer_start_from(s, nq) == s.len());
        } else {
            crate::text::lemma_find_char_bounds(s, q, '\n');
            assert(s[e] == '\n');
            lemma_footer_start_line_start(s, nq);
        }
    }
}

/// A non-empty candidate footer block always sits at a line start, so it is
/// always newline-separated from a non-empty body before it: the footer
/// classification is only ever discarded when no footer line was found at
/// all.
pub proof fn lemma_discard_only_without_footer_lines(s: Seq<char>)
    ensures
        spec_footers_discarded(s) ==> spec_footer_start(s) == s.len(),
{
    if spec_footers_discarded(s) {
        let nb = spec_newlines_before(s);
        let fs = spec_footer_start(s);
        crate::messages::lemma_footer_start_after_newlines(s);
        lemma_footer_start_line_start(s, 0);
        if fs < s.len() {
            let body0 = s.subrange(nb, fs);
            crate::text::lemma_trailing_newlines_bounds(body0);
            assert(body0.last() == s[fs - 1]);
            assert(s[fs - 1] == '\n');
            assert(false);
        }
    }
}

proof fn lemma_pairs_match_starts(s: Seq<char>, q: int)
    requires
        0 <= q <= s.len(),
    ensures
        ({
            let starts = footer_line_starts(s, q);
            let pairs = footer_pairs_from(s, q);
            &&& pairs.len() == starts.len()
            &&& forall|i: int|
                0 <= i < starts.len() ==> #[trigger] pairs[i] == footer_pair_at(s, starts[i])
            &&& forall|i: int| 0 <= i < starts.len() ==> q <= #[trigger] starts[i] < s.len()
            &&& forall|i: int| 0 <= i < starts.len() - 1 ==> #[trigger] starts[i] < starts[i + 1]
        }),
    decreases s.len() - q,
{
    if q < s.len() {
        lemma_next_line(s, q);
        lemma_pairs_match_starts(s, next_line(s, q));
        let starts = footer_line_starts(s, q);
        let pairs = footer_pairs_from(s, q);
        let rs = footer_line_starts(s, next_line(s, q));
        let rp = footer_pairs_from(s, next_line(s, q));
        assert(starts == seq![q] + rs);
        assert(pairs == seq![footer_pair_at(s, q)] + rp);
        assert forall|i: int| 0 <= i < starts.len() implies #[trigger] pairs[i]
            == footer_pair_at(s, starts[i]) by {
            if i > 0 {
                assert(pairs[i] == rp[i - 1]);
                assert(starts[i] == rs[i - 1]);
            }
        }
        assert forall|i: int| 0 <= i < starts.len() implies q <= #[trigger] starts[i]
            < s.len() by {
            if i > 0 {
                assert(starts[i] == rs[i - 1]);
            }
        }
        assert forall|i: int| 0 <= i < starts.len() - 1 implies #[trigger] starts[i] < starts[i
            + 1] by {
            if i > 0 {
                assert(starts[i] == rs[i - 1]);
                assert(starts[i + 1] == rs[i]);
            } else {
                assert(starts[1] == rs[0]);
            }
        }
    }
}

/// Order preservation: the parsed footers correspond, one to one and in the
/// same order, to the lines of the footer block as they appear top to bottom
/// in the text — the i-th footer is parsed from the i-th line start of the
/// block, and those line starts are strictly increasing.
pub proof fn lemma_footers_in_text_order(s: Seq<char>)
    requires
        !spec_footers_discarded(s),
    ensures
        ({
            let starts = footer_line_starts(s, spec_footer_start(s));
            &&& spec_footers(s).len() == starts.len()
            &&& forall|i: int|
                0 <= i < starts.len() ==> #[trigger] spec_footers(s)[i] == footer_pair_at(
                    s,
                    starts[i],
                )
            &&& forall|i: int| 0 <= i < starts.len() - 1 ==> #[trigger] starts[i] < starts[i + 1]
        }),
{
    crate::messages::lemma_footer_start_after_newlines(s);
    lemma_pairs_match_starts(s, spec_footer_start(s));
}

} // verus!
