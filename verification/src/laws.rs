use vstd::prelude::*;
use crate::dom::DomNode;
use crate::line::{lemma_spans_text_push, spans_text, SpanM};
use crate::renderer::{
    append_token_m, bullet_of, cur_ends_space, dashes, emit_pre_m, emit_text_m, emit_words_m,
    enter_tag_m, exit_tag_m, fit_len, flush_m, hard_split_m, indent_m, init_m, is_skip_tag,
    lemma_line_run_le, lemma_ws_run_le, lemma_word_run_le, line_run, opt_view, push_space_m,
    push_word_m, render_m, spaces, spec_layout, strip_cr, vspace_m, walk_m, walk_seq_m, word_run,
    ws_run, RegionM, RendM,
};
use crate::text::{char_col_width, lemma_str_width_concat, sat_add, str_width, width_sat};

verus! {

// ------------------------------------------------------------------
// The two laws of layout proved here, stated over the layout model that
// the executable renderer is proved equal to:
//  - every produced line keeps the width bound, except a line forced
//    through by the hard split, which is indentation plus one character;
//  - the produced link regions are non-degenerate, sorted by line and
//    column, and pairwise disjoint within a line.
// ------------------------------------------------------------------

/// The width invariant for one line's text: display width within the
/// bound, or a forced line (everything before its last character is
/// indentation spaces, so only a single oversized character can stand
/// beyond the bound).
pub open spec fn line_text_ok(text: Seq<char>, max: nat) -> bool {
    ||| str_width(text) <= max
    ||| (text.len() > 0 && (forall|j: int| 0 <= j < text.len() - 1 ==> text[j] == ' '))
}

pub open spec fn line_ok(line: Seq<SpanM>, max: nat) -> bool {
    line_text_ok(spans_text(line), max)
}

pub open spec fn lines_ok(lines: Seq<Seq<SpanM>>, max: nat) -> bool {
    forall|i: int| 0 <= i < lines.len() ==> line_ok(#[trigger] lines[i], max)
}

/// Region `a` lies strictly before region `b`: on an earlier line, or on
/// the same line and ending at or before where `b` starts.
pub open spec fn region_le(a: RegionM, b: RegionM) -> bool {
    ||| a.line_index < b.line_index
    ||| (a.line_index == b.line_index && a.x_end <= b.x_start)
}

/// Neighbouring regions are ordered (and therefore disjoint).
pub open spec fn links_adj_sorted(links: Seq<RegionM>) -> bool {
    forall|i: int| 0 <= i && i + 1 < links.len() ==> region_le(#[trigger] links[i], links[i + 1])
}

/// The link invariant carried through rendering: every region is
/// non-degenerate and lies on an already-produced line or on the line
/// being built; neighbours are ordered; and the most recent region never
/// reaches past the current column.
pub open spec fn links_wf(links: Seq<RegionM>, n_lines: nat, cur_width: nat) -> bool {
    &&& forall|i: int| 0 <= i < links.len() ==> (#[trigger] links[i]).x_start < links[i].x_end
    &&& forall|i: int| 0 <= i < links.len() ==> (#[trigger] links[i]).line_index <= n_lines
    &&& links_adj_sorted(links)
    &&& ((links.len() > 0 && links.last().line_index == n_lines) ==> links.last().x_end
        <= cur_width)
}

/// The renderer invariant, except for the line being built.
pub open spec fn rend_wf_base(m: RendM) -> bool {
    &&& m.max_width <= usize::MAX - 2
    &&& m.cur_width == width_sat(spans_text(m.cur))
    &&& lines_ok(m.lines, m.max_width)
    &&& links_wf(m.links, m.lines.len(), m.cur_width)
}

/// The full renderer invariant.
pub open spec fn rend_wf(m: RendM) -> bool {
    rend_wf_base(m) && line_ok(m.cur, m.max_width)
}

/// A line holding nothing but indentation spaces: what the hard split
/// starts each of its rows from.
pub open spec fn all_spaces(text: Seq<char>) -> bool {
    forall|j: int| 0 <= j < text.len() ==> text[j] == ' '
}

pub proof fn lemma_flush_wf(m: RendM)
    requires
        rend_wf(m),
    ensures
        rend_wf(flush_m(m)),
        spans_text(flush_m(m).cur) =~= Seq::<char>::empty(),
        flush_m(m).cur_width == 0,
{
    let m1 = flush_m(m);
    assert(spans_text(Seq::<SpanM>::empty()) =~= Seq::<char>::empty());
    if m.cur.len() == 0 {
        assert(spans_text(m.cur) =~= Seq::<char>::empty());
        assert(width_sat(spans_text(m.cur)) == 0);
    } else {
        assert forall|i: int| 0 <= i < m1.lines.len() implies line_ok(
            #[trigger] m1.lines[i],
            m1.max_width,
        ) by {
            if i < m.lines.len() {
                assert(line_ok(m.lines[i], m.max_width));
            } else {
                assert(m1.lines[i] == m.cur);
            }
        }
    }
}

pub proof fn lemma_vspace_wf(m: RendM)
    requires
        rend_wf(m),
    ensures
        rend_wf(vspace_m(m)),
        spans_text(vspace_m(m).cur) =~= Seq::<char>::empty(),
        vspace_m(m).cur_width == 0,
{
    lemma_flush_wf(m);
    let m1 = flush_m(m);
    let m2 = vspace_m(m);
    if m1.lines.len() > 0 && m1.lines.last().len() > 0 {
        assert(spans_text(Seq::<SpanM>::empty()) =~= Seq::<char>::empty());
        assert(line_ok(Seq::<SpanM>::empty(), m1.max_width));
        assert forall|i: int| 0 <= i < m2.lines.len() implies line_ok(
            #[trigger] m2.lines[i],
            m2.max_width,
        ) by {
            if i < m1.lines.len() {
                assert(line_ok(m1.lines[i], m1.max_width));
            }
        }
    }
}

/// Appending a token preserves the base invariant, and the width bound on
/// the open line whenever the token was checked to fit.
pub proof fn lemma_append_wf(m: RendM, tok: Seq<char>)
    requires
        rend_wf_base(m),
    ensures
        ({
            let m1 = append_token_m(m, tok);
            &&& rend_wf_base(m1)
            &&& m1.lines == m.lines
            &&& spans_text(m1.cur) == spans_text(m.cur) + tok
            &&& m.cur_width + str_width(tok) <= m.max_width ==> line_ok(m1.cur, m.max_width)
        }),
{
    let m1 = append_token_m(m, tok);
    let sp = SpanM { text: tok, style: m.style };
    lemma_spans_text_push(m.cur, sp);
    lemma_str_width_concat(spans_text(m.cur), tok);
    let xs = m.cur_width;
    let xe = sat_add(m.cur_width, str_width(tok));
    assert(m1.cur_width == width_sat(spans_text(m1.cur)));
    match m.active_link {
        None => {},
        Some(url) => {
            if xe <= xs {
            } else if m.links.len() > 0 && m.links.last().line_index == m.lines.len()
                && m.links.last().url == url && m.links.last().x_end == xs {
                let last = m.links.last();
                let ext = RegionM { x_end: xe, ..last };
                let nl = m.links.len() - 1;
                assert(m1.links == m.links.update(nl, ext));
                assert forall|i: int| 0 <= i && i + 1 < m1.links.len() implies region_le(
                    #[trigger] m1.links[i],
                    m1.links[i + 1],
                ) by {
                    assert(region_le(m.links[i], m.links[i + 1]));
                    if i + 1 == nl {
                        assert(m1.links[i + 1].x_start == m.links[i + 1].x_start);
                    }
                }
                assert forall|i: int| 0 <= i < m1.links.len() implies (#[trigger] m1.links[i]).x_start
                    < m1.links[i].x_end by {
                    assert(m.links[i].x_start < m.links[i].x_end);
                }
                assert forall|i: int| 0 <= i < m1.links.len() implies (#[trigger] m1.links[i]).line_index
                    <= m1.lines.len() by {
                    assert(m.links[i].line_index <= m.lines.len());
                }
            } else {
                let reg = RegionM { url: url, line_index: m.lines.len(), x_start: xs, x_end: xe };
                assert(m1.links == m.links.push(reg));
                assert forall|i: int| 0 <= i && i + 1 < m1.links.len() implies region_le(
                    #[trigger] m1.links[i],
                    m1.links[i + 1],
                ) by {
                    if i + 1 < m.links.len() {
                        assert(region_le(m.links[i], m.links[i + 1]));
                    } else {
                        assert(m1.links[i] == m.links.last());
                        assert(m1.links[i + 1] == reg);
                    }
                }
                assert forall|i: int| 0 <= i < m1.links.len() implies (#[trigger] m1.links[i]).x_start
                    < m1.links[i].x_end by {
                    if i < m.links.len() {
                        assert(m.links[i].x_start < m.links[i].x_end);
                    }
                }
                assert forall|i: int| 0 <= i < m1.links.len() implies (#[trigger] m1.links[i]).line_index
                    <= m1.lines.len() by {
                    if i < m.links.len() {
                        assert(m.links[i].line_index <= m.lines.len());
                    }
                }
            }
        },
    }
}

/// The indentation run keeps the invariant: an indentation-only line is
/// within the forced-line exception even when the indentation alone is
/// wider than the bound.
pub proof fn lemma_indent_wf(m: RendM)
    requires
        rend_wf_base(m),
        all_spaces(spans_text(m.cur)),
    ensures
        rend_wf(indent_m(m)),
        all_spaces(spans_text(indent_m(m).cur)),
        indent_m(m).lines == m.lines,
        indent_m(m).links == m.links,
{
    let m1 = indent_m(m);
    if m.list_depth == 0 {
        if spans_text(m.cur).len() == 0 {
            assert(str_width(spans_text(m.cur)) == 0);
        }
    } else {
        let sp = spaces(crate::renderer::indent_len(m.list_depth));
        lemma_spans_text_push(m.cur, SpanM { text: sp, style: crate::line::Style::spec_plain() });
        lemma_str_width_concat(spans_text(m.cur), sp);
        assert(all_spaces(spans_text(m1.cur))) by {
            assert forall|j: int| 0 <= j < spans_text(m1.cur).len() implies spans_text(m1.cur)[j]
                == ' ' by {
                if j < spans_text(m.cur).len() {
                } else {
                    assert(spans_text(m1.cur)[j] == sp[j - spans_text(m.cur).len()]);
                }
            }
        }
        assert(spans_text(m1.cur).len() > 0);
        assert(line_ok(m1.cur, m1.max_width));
    }
}

/// A space token is only ever appended when it fits.
pub proof fn lemma_push_space_wf(m: RendM)
    requires
        rend_wf(m),
    ensures
        rend_wf(push_space_m(m)),
{
    if !(m.cur_width == 0 || cur_ends_space(m.cur) || m.cur_width + char_col_width(' ')
        > m.max_width) {
        lemma_append_wf(m, seq![' ']);
        assert(str_width(seq![' ']) == char_col_width(' ')) by {
            assert(seq![' '][0] == ' ');
            assert(seq![' '].drop_first() =~= Seq::<char>::empty());
            assert(str_width(Seq::<char>::empty()) == 0);
        }
    }
}

/// A fitting prefix really fits: its width added to the current column
/// stays within the bound.
pub proof fn lemma_fit_width(s: Seq<char>, cur: nat, max: nat)
    ensures
        fit_len(s, cur, max) <= s.len(),
        fit_len(s, cur, max) > 0 ==> cur + str_width(s.take(fit_len(s, cur, max) as int)) <= max,
    decreases s.len(),
{
    crate::renderer::lemma_fit_len_le(s, cur, max);
    if s.len() > 0 && cur + char_col_width(s[0]) <= max {
        let w0 = char_col_width(s[0]);
        let f = fit_len(s, cur, max);
        lemma_fit_width(s.drop_first(), cur + w0, max);
        let f1 = fit_len(s.drop_first(), cur + w0, max);
        assert(f == 1 + f1);
        assert(s.take(f as int).drop_first() =~= s.drop_first().take(f1 as int));
        assert(s.take(f as int)[0] == s[0]);
        assert(str_width(s.take(f as int)) == w0 + str_width(s.drop_first().take(f1 as int)));
        if f1 == 0 {
            assert(s.drop_first().take(0) =~= Seq::<char>::empty());
        }
    }
}

/// Hard-splitting from a fresh (indentation-only) line keeps the whole
/// invariant: every row it closes is within the bound or a forced line.
pub proof fn lemma_hard_split_wf(m: RendM, w: Seq<char>)
    requires
        rend_wf_base(m),
        all_spaces(spans_text(m.cur)),
    ensures
        rend_wf(hard_split_m(m, w)),
    decreases w.len(),
{
    if w.len() == 0 {
        if spans_text(m.cur).len() == 0 {
            assert(str_width(spans_text(m.cur)) == 0);
        }
    } else {
        let k = fit_len(w, m.cur_width, m.max_width);
        lemma_fit_width(w, m.cur_width, m.max_width);
        let k1: int = if k == 0 {
            1
        } else if k > w.len() {
            w.len() as int
        } else {
            k as int
        };
        let piece = w.take(k1);
        lemma_append_wf(m, piece);
        let m1 = append_token_m(m, piece);
        if k == 0 {
            // forced character: indentation plus one char
            assert(line_ok(m1.cur, m1.max_width)) by {
                let t = spans_text(m1.cur);
                assert(t == spans_text(m.cur) + piece);
                assert(piece.len() == 1);
                assert(t.len() == spans_text(m.cur).len() + 1);
                assert forall|j: int| 0 <= j < t.len() - 1 implies t[j] == ' ' by {
                    assert(t[j] == spans_text(m.cur)[j]);
                }
            }
        } else {
            assert(line_ok(m1.cur, m1.max_width));
        }
        if k1 == w.len() {
        } else {
            lemma_flush_wf(m1);
            lemma_indent_wf(flush_m(m1));
            lemma_hard_split_wf(indent_m(flush_m(m1)), w.skip(k1));
        }
    }
}

/// The word-wrap policy keeps the whole invariant.
pub proof fn lemma_push_word_wf(m: RendM, w: Seq<char>)
    requires
        rend_wf(m),
    ensures
        rend_wf(push_word_m(m, w)),
{
    if m.cur_width + str_width(w) <= m.max_width {
        lemma_append_wf(m, w);
    } else {
        lemma_flush_wf(m);
        lemma_indent_wf(flush_m(m));
        let m1 = indent_m(flush_m(m));
        if m1.cur_width + str_width(w) <= m1.max_width {
            lemma_append_wf(m1, w);
        } else {
            lemma_hard_split_wf(m1, w);
        }
    }
}

pub proof fn lemma_emit_words_wf(m: RendM, t: Seq<char>)
    requires
        rend_wf(m),
    ensures
        rend_wf(emit_words_m(m, t)),
    decreases t.len(),
{
    if t.len() != 0 {
        lemma_ws_run_le(t);
        lemma_word_run_le(t);
        if crate::text::char_is_ws(t[0]) {
            lemma_push_space_wf(m);
            lemma_emit_words_wf(push_space_m(m), t.skip(ws_run(t) as int));
        } else {
            lemma_push_word_wf(m, t.take(word_run(t) as int));
            lemma_emit_words_wf(
                push_word_m(m, t.take(word_run(t) as int)),
                t.skip(word_run(t) as int),
            );
        }
    }
}

pub proof fn lemma_emit_pre_wf(m: RendM, t: Seq<char>)
    requires
        rend_wf(m),
    ensures
        rend_wf(emit_pre_m(m, t)),
    decreases t.len(),
{
    if t.len() != 0 {
        lemma_line_run_le(t);
        let nl = line_run(t) as int;
        lemma_push_word_wf(m, strip_cr(t.take(nl)));
        lemma_flush_wf(push_word_m(m, strip_cr(t.take(nl))));
        let m1 = flush_m(push_word_m(m, strip_cr(t.take(nl))));
        if nl != t.len() {
            lemma_emit_pre_wf(m1, t.skip(nl + 1));
        }
    }
}

pub proof fn lemma_emit_text_wf(m: RendM, t: Seq<char>)
    requires
        rend_wf(m),
    ensures
        rend_wf(emit_text_m(m, t)),
{
    if m.preserve_ws {
        lemma_emit_pre_wf(m, t);
    } else {
        lemma_emit_words_wf(m, t);
    }
}

#[verifier::rlimit(100)]
pub proof fn lemma_enter_tag_wf(m: RendM, tag: Seq<char>, href: Option<Seq<char>>, alt: Option<
    Seq<char>,
>)
    requires
        rend_wf(m),
    ensures
        rend_wf(enter_tag_m(m, tag, href, alt)),
{
    reveal_strlit("b");
    reveal_strlit("strong");
    reveal_strlit("i");
    reveal_strlit("em");
    reveal_strlit("a");
    reveal_strlit("h1");
    reveal_strlit("h2");
    reveal_strlit("h3");
    reveal_strlit("pre");
    reveal_strlit("code");
    reveal_strlit("ul");
    reveal_strlit("ol");
    reveal_strlit("li");
    reveal_strlit("img");
    reveal_strlit("br");
    reveal_strlit("p");
    reveal_strlit("main");
    reveal_strlit("article");
    reveal_strlit("section");
    reveal_strlit("table");
    reveal_strlit("aside");
    reveal_strlit("div");
    reveal_strlit("header");
    reveal_strlit("footer");
    reveal_strlit("nav");
    reveal_strlit("tr");
    reveal_strlit("td");
    reveal_strlit("th");
    reveal_strlit("hr");
    let r = enter_tag_m(m, tag, href, alt);
    if tag == "b"@ || tag == "strong"@ {
        assert(rend_wf(r));
    } else if tag == "i"@ || tag == "em"@ {
        assert(rend_wf(r));
    } else if tag == "a"@ {
        assert(rend_wf(r));
    } else if tag == "h1"@ || tag == "h2"@ || tag == "h3"@ {
        lemma_vspace_wf(m);
        assert(rend_wf(r));
    } else if tag == "pre"@ || tag == "code"@ {
        lemma_flush_wf(m);
        assert(rend_wf(r));
    } else if tag == "ul"@ || tag == "ol"@ {
        lemma_flush_wf(m);
        assert(rend_wf(r));
    } else if tag == "li"@ {
        lemma_flush_wf(m);
        lemma_push_word_wf(flush_m(m), bullet_of(flush_m(m).list_depth));
        assert(rend_wf(r));
    } else if tag == "img"@ {
        let label = seq!['['] + (match alt {
            Some(a) => a,
            None => "IMAGE"@,
        }) + seq![']', ' '];
        let m1 = RendM { style: crate::line::Style { fg: crate::line::ColorTag::DarkGray, ..m.style }, ..m };
        lemma_push_word_wf(m1, label);
        assert(rend_wf(r));
    } else if tag == "br"@ {
        lemma_flush_wf(m);
        assert(rend_wf(r));
    } else if tag == "p"@ || tag == "main"@ || tag == "article"@ || tag == "section"@ || tag
        == "table"@ || tag == "aside"@ {
        lemma_vspace_wf(m);
        assert(rend_wf(r));
    } else if tag == "div"@ || tag == "header"@ || tag == "footer"@ || tag == "nav"@ || tag
        == "tr"@ {
        lemma_flush_wf(m);
        assert(rend_wf(r));
    } else if tag == "td"@ || tag == "th"@ {
        lemma_push_word_wf(m, seq![' ', ' ']);
        assert(rend_wf(r));
    } else if tag == "hr"@ {
        lemma_vspace_wf(m);
        lemma_push_word_wf(vspace_m(m), dashes(vspace_m(m).max_width));
        lemma_vspace_wf(push_word_m(vspace_m(m), dashes(vspace_m(m).max_width)));
        assert(rend_wf(r));
    } else {
        assert(rend_wf(r));
    }
}

pub proof fn lemma_exit_tag_wf(m: RendM, tag: Seq<char>)
    requires
        rend_wf(m),
    ensures
        rend_wf(exit_tag_m(m, tag)),
{
    reveal_strlit("b");
    reveal_strlit("strong");
    reveal_strlit("i");
    reveal_strlit("em");
    reveal_strlit("a");
    reveal_strlit("h1");
    reveal_strlit("h2");
    reveal_strlit("h3");
    reveal_strlit("pre");
    reveal_strlit("code");
    reveal_strlit("ul");
    reveal_strlit("ol");
    reveal_strlit("li");
    reveal_strlit("img");
    reveal_strlit("br");
    reveal_strlit("p");
    reveal_strlit("main");
    reveal_strlit("article");
    reveal_strlit("section");
    reveal_strlit("table");
    reveal_strlit("aside");
    reveal_strlit("div");
    reveal_strlit("header");
    reveal_strlit("footer");
    reveal_strlit("nav");
    reveal_strlit("tr");
    reveal_strlit("td");
    reveal_strlit("th");
    reveal_strlit("hr");
    if tag == "ul"@ || tag == "ol"@ {
        let d: nat = if m.list_depth == 0 {
            0
        } else {
            (m.list_depth - 1) as nat
        };
        lemma_flush_wf(RendM { list_depth: d, ..m });
    } else if tag == "h1"@ || tag == "h2"@ || tag == "h3"@ || tag == "p"@ || tag == "main"@ || tag
        == "article"@ || tag == "section"@ || tag == "table"@ || tag == "aside"@ || tag
        == "pre"@ {
        lemma_vspace_wf(m);
    } else if tag == "div"@ || tag == "li"@ || tag == "header"@ || tag == "footer"@ || tag
        == "nav"@ || tag == "tr"@ {
        lemma_flush_wf(m);
    }
}

pub proof fn lemma_walk_wf(m: RendM, node: DomNode)
    requires
        rend_wf(m),
    ensures
        rend_wf(walk_m(m, node)),
    decreases node, 0nat,
{
    match node {
        DomNode::Text(t) => {
            lemma_emit_text_wf(m, t@);
        },
        DomNode::Element { tag, href, alt, hidden, children } => {
            if !(hidden || is_skip_tag(tag@)) {
                let m1 = enter_tag_m(m, tag@, opt_view(href), opt_view(alt));
                lemma_enter_tag_wf(m, tag@, opt_view(href), opt_view(alt));
                let m2 = walk_seq_m(m1, children@);
                lemma_walk_seq_wf(m1, children@);
                let m3 = RendM {
                    style: m.style,
                    active_link: m.active_link,
                    preserve_ws: m.preserve_ws,
                    ..m2
                };
                assert(rend_wf(m3));
                lemma_exit_tag_wf(m3, tag@);
            }
        },
    }
}

pub proof fn lemma_walk_seq_wf(m: RendM, nodes: Seq<DomNode>)
    requires
        rend_wf(m),
    ensures
        rend_wf(walk_seq_m(m, nodes)),
    decreases nodes, 1nat,
{
    if nodes.len() != 0 {
        lemma_walk_wf(m, nodes[0]);
        lemma_walk_seq_wf(walk_m(m, nodes[0]), nodes.drop_first());
    }
}

/// Ordering of neighbours gives ordering (and disjointness) of every
/// pair: the regions are sorted, and on one line they never overlap.
pub proof fn lemma_links_pairwise(links: Seq<RegionM>, i: int, j: int)
    requires
        links_adj_sorted(links),
        forall|k: int| 0 <= k < links.len() ==> (#[trigger] links[k]).x_start < links[k].x_end,
        0 <= i < j < links.len(),
    ensures
        region_le(links[i], links[j]),
    decreases j - i,
{
    if j == i + 1 {
    } else {
        lemma_links_pairwise(links, i, j - 1);
        assert(region_le(links[j - 1], links[j]));
    }
}

/// The two layout laws, for any document and any terminal width.
///
/// Width invariant: every produced line's display width stays within the
/// usable width, except a forced line, which carries exactly one
/// character beyond its indentation spaces.
///
/// Link regions: every region is non-degenerate, lies on a produced
/// line, and any two regions are ordered and disjoint: an earlier one
/// sits on an earlier line or ends on or before the start of a later
/// one on the same line.
pub proof fn lemma_layout_laws(node: DomNode, width: usize)
    ensures
        ({
            let r = spec_layout(node, width as nat);
            &&& lines_ok(r.lines, r.max_width)
            &&& forall|i: int|
                0 <= i < r.links.len() ==> (#[trigger] r.links[i]).x_start < r.links[i].x_end
            &&& forall|i: int|
                0 <= i < r.links.len() ==> (#[trigger] r.links[i]).line_index < r.lines.len()
            &&& forall|i: int, j: int|
                0 <= i < j < r.links.len() ==> region_le(#[trigger] r.links[i], #[trigger] r.links[j])
        }),
{
    let m0 = init_m(width as nat);
    assert(rend_wf(m0)) by {
        assert(spans_text(Seq::<SpanM>::empty()) =~= Seq::<char>::empty());
        assert(str_width(Seq::<char>::empty()) == 0);
    }
    lemma_walk_wf(m0, node);
    let mw = walk_m(m0, node);
    lemma_flush_wf(mw);
    let r = spec_layout(node, width as nat);
    assert(r == flush_m(mw));
    assert forall|i: int| 0 <= i < r.links.len() implies (#[trigger] r.links[i]).line_index
        < r.lines.len() by {
        assert(r.links[i].line_index <= r.lines.len());
        if r.links[i].line_index == r.lines.len() {
            // impossible: the buffer was flushed, so the open line is
            // empty, yet a region on it would have to end before column
            // zero and still be non-degenerate
            let n = r.links.len() as int;
            if i < n - 1 {
                lemma_links_pairwise(r.links, i, n - 1);
                assert(r.links[n - 1].line_index <= r.lines.len());
            }
            assert(r.links[n - 1].line_index == r.lines.len());
            assert(r.links.last().x_end <= r.cur_width);
            assert(r.links[n - 1].x_start < r.links[n - 1].x_end);
        }
    }
    assert forall|i: int, j: int| 0 <= i < j < r.links.len() implies region_le(
        #[trigger] r.links[i],
        #[trigger] r.links[j],
    ) by {
        lemma_links_pairwise(r.links, i, j);
    }
}

/// Laying out the same tree at the same width twice yields the same
/// lines and the same link regions: layout has no other input.
pub proof fn lemma_layout_deterministic(a: RendM, b: RendM, node: DomNode, width: usize)
    requires
        a == spec_layout(node, width as nat),
        b == spec_layout(node, width as nat),
    ensures
        a.lines == b.lines,
        a.links == b.links,
{
}

} // verus!
