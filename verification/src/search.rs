use vstd::prelude::*;
use crate::line::{spans_text, Line};
use crate::models::SearchMatch;
use crate::selection::buffer_texts;
use crate::text::str_chars;

verus! {

/// The start positions of the query's occurrences in one line, scanning
/// left to right from `from`: after a match the scan resumes at its end,
/// so matches never overlap; after a mismatch it advances by one char.
pub open spec fn line_starts(text: Seq<char>, q: Seq<char>, from: int) -> Seq<int>
    decreases text.len() - from,
{
    if q.len() == 0 || from < 0 || from + q.len() > text.len() {
        Seq::empty()
    } else if text.subrange(from, from + q.len()) == q {
        seq![from] + line_starts(text, q, from + q.len())
    } else {
        line_starts(text, q, from + 1)
    }
}

/// The match record for an occurrence: char offsets, not columns.
pub open spec fn match_at(line: int, start: int, qlen: int) -> SearchMatch {
    SearchMatch {
        line_index: line as usize,
        start_char: start as usize,
        end_char: (start + qlen) as usize,
    }
}

/// All matches on one line.
pub open spec fn line_matches(line: int, text: Seq<char>, q: Seq<char>) -> Seq<SearchMatch> {
    line_starts(text, q, 0).map_values(|s: int| match_at(line, s, q.len() as int))
}

/// All matches of the buffer from line `i` on, in line order.
pub open spec fn spec_search_from(texts: Seq<Seq<char>>, q: Seq<char>, i: int) -> Seq<SearchMatch>
    decreases texts.len() - i,
{
    if i < 0 || i >= texts.len() {
        Seq::empty()
    } else {
        line_matches(i, texts[i], q) + spec_search_from(texts, q, i + 1)
    }
}

/// Every match of the query in the buffer, line by line, left to right,
/// non-overlapping. An empty query has no matches.
pub open spec fn spec_search(texts: Seq<Seq<char>>, q: Seq<char>) -> Seq<SearchMatch> {
    spec_search_from(texts, q, 0)
}

/// Whether the window of `t` at `pos` equals `q`.
fn window_eq(t: &[char], pos: usize, q: &[char]) -> (r: bool)
    requires
        pos + q@.len() <= t@.len(),
    ensures
        r == (t@.subrange(pos as int, pos + q@.len()) == q@),
{
    let tl = t.len();
    let n = q.len();
    let mut j: usize = 0;
    while j < n
        invariant
            j <= n,
            n == q@.len(),
            tl == t@.len(),
            pos + n <= tl,
            forall|k: int| 0 <= k < j ==> t@[pos + k] == q@[k],
        decreases n - j,
    {
        if t[pos + j] != q[j] {
            proof {
                assert(t@.subrange(pos as int, pos + n)[j as int] == t@[pos + j]);
            }
            return false;
        }
        j = j + 1;
    }
    proof {
        assert(t@.subrange(pos as int, pos + n) =~= q@);
    }
    true
}

/// Scans one line and appends its matches, in scan order.
fn scan_line(out: &mut Vec<SearchMatch>, line: &Line, i: usize, q: &[char])
    requires
        q@.len() > 0,
    ensures
        final(out)@ == old(out)@ + line_matches(i as int, spans_text(line@), q@),
{
    let t = line.text_chars();
    let n = t.len();
    let qn = q.len();
    let ghost text = spans_text(line@);
    let mut pos: usize = 0;
    let ghost start0 = out@;
    while qn <= n && pos <= n - qn
        invariant
            qn == q@.len(),
            qn > 0,
            n == text.len(),
            t@ == text,
            line_matches(i as int, text, q@) == out@.skip(start0.len() as int) + line_starts(
                text,
                q@,
                pos as int,
            ).map_values(|s: int| match_at(i as int, s, qn as int)),
            out@.len() >= start0.len(),
            out@.subrange(0, start0.len() as int) == start0,
        decreases n - pos,
    {
        let ghost before = out@;
        if window_eq(t.as_slice(), pos, q) {
            out.push(
                SearchMatch { line_index: i, start_char: pos, end_char: pos + qn },
            );
            proof {
                assert(line_starts(text, q@, pos as int) == seq![pos as int] + line_starts(
                    text,
                    q@,
                    pos + qn,
                ));
                assert((seq![pos as int] + line_starts(text, q@, pos + qn)).map_values(
                    |s: int| match_at(i as int, s, qn as int),
                ) =~= seq![match_at(i as int, pos as int, qn as int)] + line_starts(
                    text,
                    q@,
                    pos + qn,
                ).map_values(|s: int| match_at(i as int, s, qn as int)));
                assert(out@.skip(start0.len() as int) =~= before.skip(start0.len() as int)
                    + seq![match_at(i as int, pos as int, qn as int)]);
                assert(before.skip(start0.len() as int) + (seq![
                    match_at(i as int, pos as int, qn as int),
                ] + line_starts(text, q@, pos + qn).map_values(
                    |s: int| match_at(i as int, s, qn as int),
                )) =~= (before.skip(start0.len() as int) + seq![
                    match_at(i as int, pos as int, qn as int),
                ]) + line_starts(text, q@, pos + qn).map_values(
                    |s: int| match_at(i as int, s, qn as int),
                ));
                assert(out@.subrange(0, start0.len() as int) =~= start0);
            }
            pos = pos + qn;
        } else {
            pos = pos + 1;
        }
    }
    proof {
        assert(line_starts(text, q@, pos as int) =~= Seq::<int>::empty());
        assert(line_starts(text, q@, pos as int).map_values(|s: int| match_at(i as int, s, qn as int))
            =~= Seq::<SearchMatch>::empty());
        assert(out@.skip(start0.len() as int) + Seq::<SearchMatch>::empty() =~= out@.skip(
            start0.len() as int,
        ));
        assert(out@ =~= start0 + out@.skip(start0.len() as int));
    }
}

/// An empty query never matches.
pub proof fn lemma_search_empty_query(texts: Seq<Seq<char>>, q: Seq<char>, i: int)
    requires
        q.len() == 0,
    ensures
        spec_search_from(texts, q, i) =~= Seq::<SearchMatch>::empty(),
    decreases texts.len() - i,
{
    if 0 <= i < texts.len() {
        assert(line_starts(texts[i], q, 0) =~= Seq::<int>::empty());
        assert(line_matches(i, texts[i], q) =~= Seq::<SearchMatch>::empty());
        lemma_search_empty_query(texts, q, i + 1);
        assert(line_matches(i, texts[i], q) + spec_search_from(texts, q, i + 1)
            =~= Seq::<SearchMatch>::empty());
    }
}

/// The scan's start positions are in range, each window really is the
/// query, and any two are at least a query length apart: matches never
/// overlap.
pub proof fn lemma_line_starts_props(text: Seq<char>, q: Seq<char>, from: int)
    requires
        q.len() > 0,
        from >= 0,
    ensures
        ({
            let starts = line_starts(text, q, from);
            &&& forall|j: int|
                0 <= j < starts.len() ==> from <= #[trigger] starts[j] && starts[j] + q.len()
                    <= text.len() && text.subrange(starts[j], starts[j] + q.len()) == q
            &&& forall|j: int, k: int|
                0 <= j < k < starts.len() ==> (#[trigger] starts[j]) + q.len() <= (
                #[trigger] starts[k])
        }),
    decreases text.len() - from,
{
    let starts = line_starts(text, q, from);
    if q.len() == 0 || from + q.len() > text.len() {
    } else if text.subrange(from, from + q.len()) == q {
        lemma_line_starts_props(text, q, from + q.len());
        let rest = line_starts(text, q, from + q.len());
        assert forall|j: int| 0 <= j < starts.len() implies from <= #[trigger] starts[j]
            && starts[j] + q.len() <= text.len() && text.subrange(starts[j], starts[j] + q.len())
            == q by {
            if j > 0 {
                assert(starts[j] == rest[j - 1]);
            }
        }
        assert forall|j: int, k: int| 0 <= j < k < starts.len() implies (#[trigger] starts[j])
            + q.len() <= (#[trigger] starts[k]) by {
            assert(starts[k] == rest[k - 1]);
            if j > 0 {
                assert(starts[j] == rest[j - 1]);
            }
        }
    } else {
        lemma_line_starts_props(text, q, from + 1);
        let rest = line_starts(text, q, from + 1);
        assert(starts == rest);
        assert forall|j: int| 0 <= j < starts.len() implies from <= #[trigger] starts[j]
            && starts[j] + q.len() <= text.len() && text.subrange(starts[j], starts[j] + q.len())
            == q by {
            assert(from + 1 <= rest[j]);
        }
    }
}

/// Every match lies on a line at or after `i`, its window is the query,
/// and any two matches are ordered: an earlier one is on an earlier
/// line, or ends at or before the start of a later one on the same line.
pub proof fn lemma_search_from_ordered(texts: Seq<Seq<char>>, q: Seq<char>, i: int)
    requires
        q.len() > 0,
        i >= 0,
        texts.len() <= usize::MAX,
        forall|k: int| 0 <= k < texts.len() ==> (#[trigger] texts[k]).len() <= usize::MAX,
    ensures
        ({
            let ms = spec_search_from(texts, q, i);
            &&& forall|a: int|
                0 <= a < ms.len() ==> i <= (#[trigger] ms[a]).line_index < texts.len()
                    && ms[a].start_char + q.len() == ms[a].end_char && ms[a].end_char
                    <= texts[ms[a].line_index as int].len() && texts[
                    ms[a].line_index as int
                ].subrange(ms[a].start_char as int, ms[a].end_char as int) == q
            &&& forall|a: int, b: int|
                0 <= a < b < ms.len() ==> ((#[trigger] ms[a]).line_index < (
                #[trigger] ms[b]).line_index || (ms[a].line_index == ms[b].line_index
                    && ms[a].end_char <= ms[b].start_char))
        }),
    decreases texts.len() - i,
{
    let ms = spec_search_from(texts, q, i);
    if 0 <= i < texts.len() {
        lemma_line_starts_props(texts[i], q, 0);
        lemma_search_from_ordered(texts, q, i + 1);
        let starts = line_starts(texts[i], q, 0);
        let here = line_matches(i, texts[i], q);
        let rest = spec_search_from(texts, q, i + 1);
        assert forall|a: int| 0 <= a < ms.len() implies i <= (#[trigger] ms[a]).line_index
            < texts.len() && ms[a].start_char + q.len() == ms[a].end_char && ms[a].end_char
            <= texts[ms[a].line_index as int].len() && texts[ms[a].line_index as int].subrange(
            ms[a].start_char as int,
            ms[a].end_char as int,
        ) == q by {
            if a < here.len() {
                assert(ms[a] == here[a]);
                assert(here[a] == match_at(i, starts[a], q.len() as int));
            } else {
                assert(ms[a] == rest[a - here.len()]);
            }
        }
        assert forall|a: int, b: int| 0 <= a < b < ms.len() implies ((
        #[trigger] ms[a]).line_index < (#[trigger] ms[b]).line_index || (ms[a].line_index
            == ms[b].line_index && ms[a].end_char <= ms[b].start_char)) by {
            if b < here.len() {
                assert(ms[a] == here[a]);
                assert(ms[b] == here[b]);
                assert(here[a] == match_at(i, starts[a], q.len() as int));
                assert(here[b] == match_at(i, starts[b], q.len() as int));
                assert(starts[a] + q.len() <= starts[b]);
            } else if a < here.len() {
                assert(ms[a] == here[a]);
                assert(here[a] == match_at(i, starts[a], q.len() as int));
                assert(ms[b] == rest[b - here.len()]);
            } else {
                assert(ms[a] == rest[a - here.len()]);
                assert(ms[b] == rest[b - here.len()]);
            }
        }
    }
}

/// The search law: in any buffer whose lines a machine can index, the
/// matches of a non-empty query are sorted by (line, start) and pairwise
/// non-overlapping, each one a true occurrence of the query.
pub proof fn lemma_search_matches_ordered(texts: Seq<Seq<char>>, q: Seq<char>)
    requires
        q.len() > 0,
        texts.len() <= usize::MAX,
        forall|k: int| 0 <= k < texts.len() ==> (#[trigger] texts[k]).len() <= usize::MAX,
    ensures
        ({
            let ms = spec_search(texts, q);
            &&& forall|a: int|
                0 <= a < ms.len() ==> (#[trigger] ms[a]).line_index < texts.len()
                    && ms[a].start_char + q.len() == ms[a].end_char && ms[a].end_char
                    <= texts[ms[a].line_index as int].len() && texts[
                    ms[a].line_index as int
                ].subrange(ms[a].start_char as int, ms[a].end_char as int) == q
            &&& forall|a: int, b: int|
                0 <= a < b < ms.len() ==> ((#[trigger] ms[a]).line_index < (
                #[trigger] ms[b]).line_index || (ms[a].line_index == ms[b].line_index
                    && ms[a].end_char <= ms[b].start_char))
        }),
{
    lemma_search_from_ordered(texts, q, 0);
}

/// Finds every match of `query` in the buffer: scanning each line left
/// to right, case-sensitively, resuming after each match at its end.
pub fn search_lines(lines: &Vec<Line>, query: &str) -> (r: Vec<SearchMatch>)
    ensures
        r@ == spec_search(buffer_texts(lines@), query@),
{
    let ghost texts = buffer_texts(lines@);
    let q = str_chars(query);
    let mut out: Vec<SearchMatch> = Vec::new();
    if q.len() == 0 {
        proof {
            lemma_search_empty_query(texts, query@, 0);
        }
        return out;
    }
    let n = lines.len();
    let mut i: usize = 0;
    while i < n
        invariant
            i <= n,
            n == lines@.len(),
            q@ == query@,
            q@.len() > 0,
            texts == buffer_texts(lines@),
            spec_search(texts, query@) == out@ + spec_search_from(texts, query@, i as int),
        decreases n - i,
    {
        let ghost before = out@;
        scan_line(&mut out, &lines[i], i, q.as_slice());
        proof {
            assert(texts[i as int] == spans_text(lines@[i as int]@));
            assert(before + (line_matches(i as int, texts[i as int], query@) + spec_search_from(
                texts,
                query@,
                i + 1,
            )) =~= (before + line_matches(i as int, texts[i as int], query@)) + spec_search_from(
                texts,
                query@,
                i + 1,
            ));
        }
        i = i + 1;
    }
    proof {
        assert(spec_search_from(texts, query@, n as int) =~= Seq::<SearchMatch>::empty());
        assert(out@ + Seq::<SearchMatch>::empty() =~= out@);
    }
    out
}

} // verus!
