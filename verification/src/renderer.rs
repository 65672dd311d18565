use vstd::prelude::*;
use crate::line::{spans_text, Line, SpanM, Style, StyledSpan, ColorTag};
use crate::models::LinkRegion;
use crate::text::{
    char_col_width, char_is_ws, char_width, chars_string, is_ws, sat_add, slice_width, str_chars,
    str_eq, str_width, width_sat,
};
use crate::dom::DomNode;

verus! {

/// The mathematical value of a recorded link region.
pub struct RegionM {
    pub url: Seq<char>,
    pub line_index: nat,
    pub x_start: nat,
    pub x_end: nat,
}

impl View for LinkRegion {
    type V = RegionM;

    open spec fn view(&self) -> RegionM {
        RegionM {
            url: self.url@,
            line_index: self.line_index as nat,
            x_start: self.x_start as nat,
            x_end: self.x_end as nat,
        }
    }
}

/// The mathematical value of the whole renderer state.
pub struct RendM {
    pub lines: Seq<Seq<SpanM>>,
    pub cur: Seq<SpanM>,
    pub cur_width: nat,
    pub style: Style,
    pub links: Seq<RegionM>,
    pub max_width: nat,
    pub active_link: Option<Seq<char>>,
    pub preserve_ws: bool,
    pub list_depth: nat,
}

/// Walks a document tree and emits wrapped, styled lines plus the link
/// regions they carry.
pub struct DomRenderer {
    pub lines: Vec<Line>,
    pub links: Vec<LinkRegion>,
    pub current_line: Vec<StyledSpan>,
    pub current_width: usize,
    pub current_style: Style,
    pub max_width: usize,
    pub active_link_url: Option<String>,
    pub preserve_whitespace: bool,
    pub list_depth: usize,
}

impl View for DomRenderer {
    type V = RendM;

    open spec fn view(&self) -> RendM {
        RendM {
            lines: self.lines@.map_values(|l: Line| l@),
            cur: self.current_line@.map_values(|s: StyledSpan| s@),
            cur_width: self.current_width as nat,
            style: self.current_style,
            links: self.links@.map_values(|r: LinkRegion| r@),
            max_width: self.max_width as nat,
            active_link: match self.active_link_url {
                Some(u) => Some(u@),
                None => None,
            },
            preserve_ws: self.preserve_whitespace,
            list_depth: self.list_depth as nat,
        }
    }
}

// ------------------------------------------------------------------
// The renderer's meaning: every mutating operation below is specified as
// a pure transition on `RendM`, and the executable code is proved equal
// to it. Layout is therefore a function of the tree and the width alone.
// ------------------------------------------------------------------

/// Closing the current line: it moves to the finished lines unless empty.
pub open spec fn flush_m(m: RendM) -> RendM {
    if m.cur.len() == 0 {
        m
    } else {
        RendM { lines: m.lines.push(m.cur), cur: Seq::empty(), cur_width: 0, ..m }
    }
}

/// Closing the current line and, when the previous line is non-empty,
/// emitting one blank separator line.
pub open spec fn vspace_m(m: RendM) -> RendM {
    let m1 = flush_m(m);
    if m1.lines.len() > 0 && m1.lines.last().len() > 0 {
        RendM { lines: m1.lines.push(Seq::empty()), ..m1 }
    } else {
        m1
    }
}

/// Whether the current line ends in a space: a following space token is
/// then redundant.
pub open spec fn cur_ends_space(cur: Seq<SpanM>) -> bool {
    cur.len() > 0 && cur.last().text.len() > 0 && cur.last().text.last() == ' '
}

/// Appending one token at the end of the current line, recording or
/// extending a link region when a link is active. No wrapping here.
pub open spec fn append_token_m(m: RendM, text: Seq<char>) -> RendM {
    let xs = m.cur_width;
    let xe = sat_add(m.cur_width, str_width(text));
    let cur1 = m.cur.push(SpanM { text: text, style: m.style });
    let m1 = RendM { cur: cur1, cur_width: xe, ..m };
    match m.active_link {
        None => m1,
        Some(url) => {
            if xe <= xs {
                m1
            } else if m.links.len() > 0 && m.links.last().line_index == m.lines.len()
                && m.links.last().url == url && m.links.last().x_end == xs {
                let ext = RegionM { x_end: xe, ..m.links.last() };
                RendM { links: m.links.update(m.links.len() - 1, ext), ..m1 }
            } else {
                let reg = RegionM {
                    url: url,
                    line_index: m.lines.len(),
                    x_start: xs,
                    x_end: xe,
                };
                RendM { links: m.links.push(reg), ..m1 }
            }
        },
    }
}

/// A run of `n` spaces.
pub open spec fn spaces(n: nat) -> Seq<char> {
    Seq::new(n, |i: int| ' ')
}

/// The number of indent columns re-applied to a wrapped line: two per
/// open list level, capped at what a `usize` holds.
pub open spec fn indent_len(depth: nat) -> nat {
    if 2 * depth > usize::MAX {
        usize::MAX as nat
    } else {
        2 * depth
    }
}

/// Starting a fresh wrapped line: when inside a list, the indent run is
/// placed first (with the plain style, and never recorded as link text).
pub open spec fn indent_m(m: RendM) -> RendM {
    if m.list_depth == 0 {
        m
    } else {
        let sp = spaces(indent_len(m.list_depth));
        RendM {
            cur: m.cur.push(SpanM { text: sp, style: Style::spec_plain() }),
            cur_width: sat_add(m.cur_width, str_width(sp)),
            ..m
        }
    }
}

/// A space token between words: dropped at the start of a line, after a
/// space, and when the line is already full, so wrapping leaves no
/// leading-space or trailing-space artifacts.
pub open spec fn push_space_m(m: RendM) -> RendM {
    if m.cur_width == 0 || cur_ends_space(m.cur) || m.cur_width + char_col_width(' ')
        > m.max_width {
        m
    } else {
        append_token_m(m, seq![' '])
    }
}

/// How many leading characters of `s` fit a line already `cur` columns
/// wide, consumed greedily left to right.
pub open spec fn fit_len(s: Seq<char>, cur: nat, max: nat) -> nat
    decreases s.len(),
{
    if s.len() == 0 {
        0
    } else if cur + char_col_width(s[0]) > max {
        0
    } else {
        1 + fit_len(s.drop_first(), cur + char_col_width(s[0]), max)
    }
}

/// Hard-splitting an oversized token: fill the current (fresh, possibly
/// indented) line with as many characters as fit, flushing and
/// re-indenting until the token is exhausted; when even one character
/// does not fit, exactly one is forced through so progress is guaranteed.
/// The final piece leaves the line open for later tokens.
pub open spec fn hard_split_m(m: RendM, w: Seq<char>) -> RendM
    decreases w.len(),
{
    if w.len() == 0 {
        m
    } else {
        let k = fit_len(w, m.cur_width, m.max_width);
        let k1: int = if k == 0 {
            1
        } else if k > w.len() {
            w.len() as int
        } else {
            k as int
        };
        let m1 = append_token_m(m, w.take(k1));
        if k1 == w.len() {
            m1
        } else {
            hard_split_m(indent_m(flush_m(m1)), w.skip(k1))
        }
    }
}

/// The word-wrap policy, in display-width units. A token that fits the
/// current line is appended; one that fits a fresh (re-indented) line
/// wraps onto it; one wider than that is hard-split.
pub open spec fn push_word_m(m: RendM, w: Seq<char>) -> RendM {
    if m.cur_width + str_width(w) <= m.max_width {
        append_token_m(m, w)
    } else {
        let m1 = indent_m(flush_m(m));
        if m1.cur_width + str_width(w) <= m1.max_width {
            append_token_m(m1, w)
        } else {
            hard_split_m(m1, w)
        }
    }
}

/// Length of the leading whitespace run of `t`.
pub open spec fn ws_run(t: Seq<char>) -> nat
    decreases t.len(),
{
    if t.len() == 0 || !char_is_ws(t[0]) {
        0
    } else {
        1 + ws_run(t.drop_first())
    }
}

/// Length of the leading word (non-whitespace run) of `t`.
pub open spec fn word_run(t: Seq<char>) -> nat
    decreases t.len(),
{
    if t.len() == 0 || char_is_ws(t[0]) {
        0
    } else {
        1 + word_run(t.drop_first())
    }
}

pub proof fn lemma_ws_run_le(t: Seq<char>)
    ensures
        ws_run(t) <= t.len(),
    decreases t.len(),
{
    if t.len() > 0 && char_is_ws(t[0]) {
        lemma_ws_run_le(t.drop_first());
    }
}

pub proof fn lemma_word_run_le(t: Seq<char>)
    ensures
        word_run(t) <= t.len(),
    decreases t.len(),
{
    if t.len() > 0 && !char_is_ws(t[0]) {
        lemma_word_run_le(t.drop_first());
    }
}

/// Flowed text: split on whitespace into word tokens, with one space
/// token for each whitespace run between, before or after them.
pub open spec fn emit_words_m(m: RendM, t: Seq<char>) -> RendM
    decreases t.len() via emit_words_m_dec
{
    if t.len() == 0 {
        m
    } else if char_is_ws(t[0]) {
        emit_words_m(push_space_m(m), t.skip(ws_run(t) as int))
    } else {
        emit_words_m(push_word_m(m, t.take(word_run(t) as int)), t.skip(word_run(t) as int))
    }
}

#[via_fn]
proof fn emit_words_m_dec(m: RendM, t: Seq<char>) {
    lemma_ws_run_le(t);
    lemma_word_run_le(t);
}

/// Length of the leading run of `t` up to (not including) a line feed.
pub open spec fn line_run(t: Seq<char>) -> nat
    decreases t.len(),
{
    if t.len() == 0 || t[0] == '\n' {
        0
    } else {
        1 + line_run(t.drop_first())
    }
}

pub proof fn lemma_line_run_le(t: Seq<char>)
    ensures
        line_run(t) <= t.len(),
    decreases t.len(),
{
    if t.len() > 0 && t[0] != '\n' {
        lemma_line_run_le(t.drop_first());
    }
}

/// Drops the carriage return a line piece ends with, as splitting on
/// `"\r\n"` line endings requires.
pub open spec fn strip_cr(p: Seq<char>) -> Seq<char> {
    if p.len() > 0 && p.last() == '\r' {
        p.drop_last()
    } else {
        p
    }
}

/// Preserved text (inside `pre`/`code`): each literal line of the text is
/// emitted as one hard token and flushed immediately.
pub open spec fn emit_pre_m(m: RendM, t: Seq<char>) -> RendM
    decreases t.len() via emit_pre_m_dec
{
    if t.len() == 0 {
        m
    } else {
        let nl = line_run(t) as int;
        let m1 = flush_m(push_word_m(m, strip_cr(t.take(nl))));
        if nl == t.len() {
            m1
        } else {
            emit_pre_m(m1, t.skip(nl + 1))
        }
    }
}

#[via_fn]
proof fn emit_pre_m_dec(m: RendM, t: Seq<char>) {
    lemma_line_run_le(t);
}

/// A text node: preserved literally inside `pre`/`code`, flowed and
/// wrapped everywhere else.
pub open spec fn emit_text_m(m: RendM, t: Seq<char>) -> RendM {
    if m.preserve_ws {
        emit_pre_m(m, t)
    } else {
        emit_words_m(m, t)
    }
}

/// Hard-splitting only touches the lines, the current line and the links:
/// the walk state (style, link, whitespace mode, list depth, width) is
/// untouched.
pub proof fn lemma_hard_split_frame(m: RendM, w: Seq<char>)
    ensures
        hard_split_m(m, w).max_width == m.max_width,
        hard_split_m(m, w).style == m.style,
        hard_split_m(m, w).active_link == m.active_link,
        hard_split_m(m, w).preserve_ws == m.preserve_ws,
        hard_split_m(m, w).list_depth == m.list_depth,
    decreases w.len(),
{
    if w.len() != 0 {
        let k = fit_len(w, m.cur_width, m.max_width);
        let k1: int = if k == 0 {
            1
        } else if k > w.len() {
            w.len() as int
        } else {
            k as int
        };
        let m1 = append_token_m(m, w.take(k1));
        if k1 != w.len() {
            lemma_hard_split_frame(indent_m(flush_m(m1)), w.skip(k1));
        }
    }
}

/// The word-wrap policy likewise leaves the walk state untouched.
pub proof fn lemma_push_word_frame(m: RendM, w: Seq<char>)
    ensures
        push_word_m(m, w).max_width == m.max_width,
        push_word_m(m, w).style == m.style,
        push_word_m(m, w).active_link == m.active_link,
        push_word_m(m, w).preserve_ws == m.preserve_ws,
        push_word_m(m, w).list_depth == m.list_depth,
{
    let m1 = indent_m(flush_m(m));
    if !(m.cur_width + str_width(w) <= m.max_width) && !(m1.cur_width + str_width(w)
        <= m1.max_width) {
        lemma_hard_split_frame(m1, w);
    }
}

/// `fit_len` never counts past the end of the token.
pub proof fn lemma_fit_len_le(s: Seq<char>, cur: nat, max: nat)
    ensures
        fit_len(s, cur, max) <= s.len(),
    decreases s.len(),
{
    if s.len() != 0 && cur + char_col_width(s[0]) <= max {
        lemma_fit_len_le(s.drop_first(), cur + char_col_width(s[0]), max);
    }
}

/// The view of an optional attribute value.
pub open spec fn opt_view(o: Option<String>) -> Option<Seq<char>> {
    match o {
        Some(s) => Some(s@),
        None => None,
    }
}

/// Tags whose whole subtree is invisible and skipped.
pub open spec fn is_skip_tag(tag: Seq<char>) -> bool {
    ||| tag == "script"@
    ||| tag == "style"@
    ||| tag == "head"@
    ||| tag == "meta"@
    ||| tag == "link"@
}

/// The bullet token a list item starts with: the item's indentation,
/// then a bullet and a space.
pub open spec fn bullet_of(depth: nat) -> Seq<char> {
    let pre = if depth == 0 {
        0nat
    } else {
        indent_len((depth - 1) as nat)
    };
    spaces(pre) + seq!['\u{2022}', ' ']
}

/// The full-width horizontal rule token.
pub open spec fn dashes(n: nat) -> Seq<char> {
    Seq::new(n, |i: int| '-')
}

/// What entering an element does to the render state, before its
/// children are walked.
pub open spec fn enter_tag_m(
    m: RendM,
    tag: Seq<char>,
    href: Option<Seq<char>>,
    alt: Option<Seq<char>>,
) -> RendM {
    if tag == "b"@ || tag == "strong"@ {
        RendM { style: Style { bold: true, ..m.style }, ..m }
    } else if tag == "i"@ || tag == "em"@ {
        RendM { style: Style { italic: true, ..m.style }, ..m }
    } else if tag == "a"@ {
        let st = Style { underline: true, fg: ColorTag::Cyan, is_link: true, ..m.style };
        let link = match href {
            Some(h) => Some(h),
            None => m.active_link,
        };
        RendM { style: st, active_link: link, ..m }
    } else if tag == "h1"@ || tag == "h2"@ || tag == "h3"@ {
        let m1 = vspace_m(m);
        RendM { style: Style { bold: true, fg: ColorTag::White, ..m1.style }, ..m1 }
    } else if tag == "pre"@ || tag == "code"@ {
        let m1 = flush_m(m);
        RendM { preserve_ws: true, style: Style { fg: ColorTag::Magenta, ..m1.style }, ..m1 }
    } else if tag == "ul"@ || tag == "ol"@ {
        let m1 = flush_m(m);
        RendM { list_depth: sat_add(m1.list_depth, 1), ..m1 }
    } else if tag == "li"@ {
        let m1 = flush_m(m);
        push_word_m(m1, bullet_of(m1.list_depth))
    } else if tag == "img"@ {
        let label = seq!['['] + (match alt {
            Some(a) => a,
            None => "IMAGE"@,
        }) + seq![']', ' '];
        let m1 = RendM { style: Style { fg: ColorTag::DarkGray, ..m.style }, ..m };
        let m2 = push_word_m(m1, label);
        RendM { style: m.style, ..m2 }
    } else if tag == "br"@ {
        flush_m(m)
    } else if tag == "p"@ || tag == "main"@ || tag == "article"@ || tag == "section"@ || tag
        == "table"@ || tag == "aside"@ {
        vspace_m(m)
    } else if tag == "div"@ || tag == "header"@ || tag == "footer"@ || tag == "nav"@ || tag
        == "tr"@ {
        flush_m(m)
    } else if tag == "td"@ || tag == "th"@ {
        push_word_m(m, seq![' ', ' '])
    } else if tag == "hr"@ {
        let m1 = vspace_m(m);
        let m2 = push_word_m(m1, dashes(m1.max_width));
        vspace_m(m2)
    } else {
        m
    }
}

/// What leaving an element does to the render state, after its children
/// were walked and the saved style, link and whitespace mode restored.
pub open spec fn exit_tag_m(m: RendM, tag: Seq<char>) -> RendM {
    if tag == "ul"@ || tag == "ol"@ {
        let d: nat = if m.list_depth == 0 {
            0
        } else {
            (m.list_depth - 1) as nat
        };
        flush_m(RendM { list_depth: d, ..m })
    } else if tag == "h1"@ || tag == "h2"@ || tag == "h3"@ || tag == "p"@ || tag == "main"@ || tag
        == "article"@ || tag == "section"@ || tag == "table"@ || tag == "aside"@ || tag
        == "pre"@ {
        vspace_m(m)
    } else if tag == "div"@ || tag == "li"@ || tag == "header"@ || tag == "footer"@ || tag
        == "nav"@ || tag == "tr"@ {
        flush_m(m)
    } else {
        m
    }
}

/// The depth-first walk of one node: styles, the active link, the
/// whitespace mode and the list depth are saved on entry and restored
/// after the children, so no state leaks across siblings.
pub open spec fn walk_m(m: RendM, node: DomNode) -> RendM
    decreases node,
{
    match node {
        DomNode::Text(t) => emit_text_m(m, t@),
        DomNode::Element { tag, href, alt, hidden, children } => {
            if hidden || is_skip_tag(tag@) {
                m
            } else {
                let m1 = enter_tag_m(m, tag@, opt_view(href), opt_view(alt));
                let m2 = walk_seq_m(m1, children@);
                let m3 = RendM {
                    style: m.style,
                    active_link: m.active_link,
                    preserve_ws: m.preserve_ws,
                    ..m2
                };
                exit_tag_m(m3, tag@)
            }
        },
    }
}

/// The walk of a node list, left to right.
pub open spec fn walk_seq_m(m: RendM, nodes: Seq<DomNode>) -> RendM
    decreases nodes,
{
    if nodes.len() == 0 {
        m
    } else {
        walk_seq_m(walk_m(m, nodes[0]), nodes.drop_first())
    }
}

/// The renderer's starting state for a terminal of the given width.
pub open spec fn init_m(width: nat) -> RendM {
    RendM {
        lines: Seq::empty(),
        cur: Seq::empty(),
        cur_width: 0,
        style: Style::spec_plain(),
        links: Seq::empty(),
        max_width: if width <= 3 {
            1nat
        } else {
            (width - 2) as nat
        },
        active_link: None,
        preserve_ws: false,
        list_depth: 0,
    }
}

/// Rendering a document: walk it, then close the last open line.
pub open spec fn render_m(m: RendM, node: DomNode) -> RendM {
    flush_m(walk_m(m, node))
}

/// The layout function itself: what rendering `node` at terminal width
/// `width` produces, as a value. Layout depends on nothing else.
pub open spec fn spec_layout(node: DomNode, width: nat) -> RendM {
    render_m(init_m(width), node)
}

// ------------------------------------------------------------------
// Frame lemmas: none of the emission steps touches the walk state the
// recursion saves and restores, nor the configured width.
// ------------------------------------------------------------------

pub proof fn lemma_emit_words_frame(m: RendM, t: Seq<char>)
    ensures
        emit_words_m(m, t).max_width == m.max_width,
        emit_words_m(m, t).style == m.style,
        emit_words_m(m, t).active_link == m.active_link,
        emit_words_m(m, t).preserve_ws == m.preserve_ws,
        emit_words_m(m, t).list_depth == m.list_depth,
    decreases t.len(),
{
    if t.len() != 0 {
        lemma_ws_run_le(t);
        lemma_word_run_le(t);
        if char_is_ws(t[0]) {
            lemma_emit_words_frame(push_space_m(m), t.skip(ws_run(t) as int));
        } else {
            lemma_push_word_frame(m, t.take(word_run(t) as int));
            lemma_emit_words_frame(
                push_word_m(m, t.take(word_run(t) as int)),
                t.skip(word_run(t) as int),
            );
        }
    }
}

pub proof fn lemma_emit_pre_frame(m: RendM, t: Seq<char>)
    ensures
        emit_pre_m(m, t).max_width == m.max_width,
        emit_pre_m(m, t).style == m.style,
        emit_pre_m(m, t).active_link == m.active_link,
        emit_pre_m(m, t).preserve_ws == m.preserve_ws,
        emit_pre_m(m, t).list_depth == m.list_depth,
    decreases t.len(),
{
    if t.len() != 0 {
        lemma_line_run_le(t);
        let nl = line_run(t) as int;
        lemma_push_word_frame(m, strip_cr(t.take(nl)));
        let m1 = flush_m(push_word_m(m, strip_cr(t.take(nl))));
        if nl != t.len() {
            lemma_emit_pre_frame(m1, t.skip(nl + 1));
        }
    }
}

pub proof fn lemma_emit_text_frame(m: RendM, t: Seq<char>)
    ensures
        emit_text_m(m, t).max_width == m.max_width,
        emit_text_m(m, t).style == m.style,
        emit_text_m(m, t).active_link == m.active_link,
        emit_text_m(m, t).preserve_ws == m.preserve_ws,
        emit_text_m(m, t).list_depth == m.list_depth,
{
    if m.preserve_ws {
        lemma_emit_pre_frame(m, t);
    } else {
        lemma_emit_words_frame(m, t);
    }
}

/// Entering a tag never changes the configured width.
pub proof fn lemma_enter_tag_width(
    m: RendM,
    tag: Seq<char>,
    href: Option<Seq<char>>,
    alt: Option<Seq<char>>,
)
    ensures
        enter_tag_m(m, tag, href, alt).max_width == m.max_width,
{
    if tag == "li"@ {
        lemma_push_word_frame(flush_m(m), bullet_of(flush_m(m).list_depth));
    }
    if tag == "img"@ {
        let label = seq!['['] + (match alt {
            Some(a) => a,
            None => "IMAGE"@,
        }) + seq![']', ' '];
        lemma_push_word_frame(RendM { style: Style { fg: ColorTag::DarkGray, ..m.style }, ..m }, label);
    }
    if tag == "td"@ || tag == "th"@ {
        lemma_push_word_frame(m, seq![' ', ' ']);
    }
    if tag == "hr"@ {
        lemma_push_word_frame(vspace_m(m), dashes(vspace_m(m).max_width));
    }
}

/// Walking never changes the configured width.
pub proof fn lemma_walk_width(m: RendM, node: DomNode)
    ensures
        walk_m(m, node).max_width == m.max_width,
    decreases node, 0nat,
{
    match node {
        DomNode::Text(t) => lemma_emit_text_frame(m, t@),
        DomNode::Element { tag, href, alt, hidden, children } => {
            if !(hidden || is_skip_tag(tag@)) {
                let m1 = enter_tag_m(m, tag@, opt_view(href), opt_view(alt));
                lemma_enter_tag_width(m, tag@, opt_view(href), opt_view(alt));
                lemma_walk_seq_width(m1, children@);
            }
        },
    }
}

pub proof fn lemma_walk_seq_width(m: RendM, nodes: Seq<DomNode>)
    ensures
        walk_seq_m(m, nodes).max_width == m.max_width,
    decreases nodes, 1nat,
{
    if nodes.len() != 0 {
        lemma_walk_width(m, nodes[0]);
        lemma_walk_seq_width(walk_m(m, nodes[0]), nodes.drop_first());
    }
}

impl DomRenderer {
    /// Whether the current line's last span ends in a space.
    fn line_ends_space(&self) -> (r: bool)
        ensures
            r == cur_ends_space(self@.cur),
    {
        let n = self.current_line.len();
        if n == 0 {
            return false;
        }
        let last = &self.current_line[n - 1];
        let tl: usize = last.text.as_str().unicode_len();
        if tl == 0 {
            return false;
        }
        last.text.as_str().get_char(tl - 1) == ' '
    }

    /// Emits the single inter-word space token.
    fn push_space(&mut self)
        requires
            old(self).max_width <= usize::MAX - 2,
        ensures
            final(self)@ == push_space_m(old(self)@),
    {
        if self.current_width == 0 {
            return;
        }
        if self.line_ends_space() {
            return;
        }
        let sw = char_width(' ');
        if self.current_width > self.max_width || sw > self.max_width - self.current_width {
            return;
        }
        let mut sp: Vec<char> = Vec::new();
        sp.push(' ');
        proof {
            assert(sp@ =~= seq![' ']);
        }
        self.append_token(sp.as_slice());
    }

    /// Greedy count of the characters of `word[from..]` that still fit:
    /// returns the count and their total width.
    fn fit_prefix(word: &[char], from: usize, cur: usize, max: usize) -> (r: (usize, usize))
        requires
            from <= word@.len(),
        ensures
            r.0 == fit_len(word@.skip(from as int), cur as nat, max as nat),
            from + r.0 <= word@.len(),
            r.1 == str_width(word@.subrange(from as int, from + r.0)),
            r.0 > 0 ==> cur + r.1 <= max,
    {
        let n = word.len();
        let mut k: usize = 0;
        let mut w: usize = 0;
        proof {
            assert(word@.subrange(from as int, from as int) =~= Seq::<char>::empty());
        }
        while from + k < n
            invariant_except_break
                from + k <= n,
                n == word@.len(),
                w == str_width(word@.subrange(from as int, from + k)),
                k > 0 ==> cur + w <= max,
                k == 0 ==> w == 0,
                fit_len(word@.skip(from as int), cur as nat, max as nat) == k + fit_len(
                    word@.skip(from + k),
                    (cur + w) as nat,
                    max as nat,
                ),
            ensures
                from + k <= n,
                n == word@.len(),
                w == str_width(word@.subrange(from as int, from + k)),
                k > 0 ==> cur + w <= max,
                fit_len(word@.skip(from as int), cur as nat, max as nat) == k,
            decreases n - from - k,
        {
            let c = word[from + k];
            let cw = char_width(c);
            proof {
                assert(word@.skip(from + k)[0] == word@[from + k]);
                assert(word@.skip(from + k).len() > 0);
            }
            if cur > max || w > max - cur || cw > max - cur - w {
                proof {
                    assert(cur + w + char_col_width(word@[from + k]) > max);
                    assert(fit_len(word@.skip(from + k), (cur + w) as nat, max as nat) == 0);
                }
                break ;
            }
            proof {
                assert(word@.skip(from + k).drop_first() =~= word@.skip(from + k + 1));
                assert(fit_len(word@.skip(from + k), (cur + w) as nat, max as nat) == 1 + fit_len(
                    word@.skip(from + k + 1),
                    (cur + w + char_col_width(word@[from + k])) as nat,
                    max as nat,
                ));
                crate::text::lemma_str_width_push(
                    word@.subrange(from as int, from + k),
                    word@[from + k],
                );
                assert(word@.subrange(from as int, from + k + 1) =~= word@.subrange(
                    from as int,
                    from + k,
                ).push(word@[from + k]));
            }
            w = w + cw;
            k = k + 1;
        }
        proof {
            if from + k == n {
                assert(word@.skip(from + k).len() == 0);
                assert(fit_len(word@.skip(from + k), (cur + w) as nat, max as nat) == 0);
            }
        }
        (k, w)
    }

    /// Emits one token under the word-wrap policy.
    fn push_word(&mut self, word: &[char])
        requires
            old(self).max_width <= usize::MAX - 2,
        ensures
            final(self)@ == push_word_m(old(self)@, word@),
    {
        let wlen = slice_width(word);
        if wlen <= self.max_width && self.current_width <= self.max_width - wlen {
            self.append_token(word);
            return;
        }
        proof {
            assert(old(self)@.cur_width + str_width(word@) > old(self)@.max_width);
        }
        self.flush_line();
        self.apply_indent();
        let ghost m1 = indent_m(flush_m(old(self)@));
        if wlen <= self.max_width && self.current_width <= self.max_width - wlen {
            self.append_token(word);
            return;
        }
        proof {
            assert(m1.cur_width + str_width(word@) > m1.max_width);
        }
        // hard split
        let ghost msplit = self@;
        let n = word.len();
        if n == 0 {
            proof {
                assert(hard_split_m(msplit, word@) == msplit);
            }
            return;
        }
        let mut pos: usize = 0;
        proof {
            assert(word@.skip(0) =~= word@);
        }
        loop
            invariant_except_break
                pos < n,
                n == word@.len(),
                hard_split_m(msplit, word@) == hard_split_m(self@, word@.skip(pos as int)),
            ensures
                self@ == hard_split_m(msplit, word@),
            decreases n - pos,
        {
            let ghost mstep = self@;
            let ghost rem = word@.skip(pos as int);
            let (k, _pw) = Self::fit_prefix(word, pos, self.current_width, self.max_width);
            let k1: usize = if k == 0 {
                1
            } else {
                k
            };
            proof {
                lemma_fit_len_le(rem, mstep.cur_width, mstep.max_width);
                assert(rem.take(k1 as int) =~= word@.subrange(pos as int, pos + k1));
            }
            let piece = vstd::slice::slice_subrange(word, pos, pos + k1);
            self.append_token(piece);
            proof {
                assert(self@ == append_token_m(mstep, rem.take(k1 as int)));
            }
            if pos + k1 == n {
                proof {
                    assert(k1 == rem.len());
                    assert(hard_split_m(mstep, rem) == self@);
                }
                break ;
            }
            self.flush_line();
            self.apply_indent();
            proof {
                assert(rem.skip(k1 as int) =~= word@.skip(pos + k1));
                assert(hard_split_m(mstep, rem) == hard_split_m(self@, word@.skip(pos + k1)));
            }
            pos = pos + k1;
        }
    }

    /// Length of the whitespace run of `chars` starting at `from`.
    fn ws_run_at(chars: &[char], from: usize) -> (r: usize)
        requires
            from <= chars@.len(),
        ensures
            r == ws_run(chars@.skip(from as int)),
            from + r <= chars@.len(),
    {
        let n = chars.len();
        let mut i: usize = from;
        loop
            invariant_except_break
                from <= i <= n,
                n == chars@.len(),
                ws_run(chars@.skip(from as int)) == (i - from) + ws_run(chars@.skip(i as int)),
            ensures
                from <= i <= n,
                ws_run(chars@.skip(from as int)) == i - from,
            decreases n - i,
        {
            if i == n {
                proof {
                    assert(chars@.skip(i as int).len() == 0);
                }
                break ;
            }
            proof {
                assert(chars@.skip(i as int)[0] == chars@[i as int]);
            }
            if !is_ws(chars[i]) {
                break ;
            }
            proof {
                assert(chars@.skip(i as int).drop_first() =~= chars@.skip(i + 1));
            }
            i = i + 1;
        }
        i - from
    }

    /// Length of the word run of `chars` starting at `from`.
    fn word_run_at(chars: &[char], from: usize) -> (r: usize)
        requires
            from <= chars@.len(),
        ensures
            r == word_run(chars@.skip(from as int)),
            from + r <= chars@.len(),
    {
        let n = chars.len();
        let mut i: usize = from;
        loop
            invariant_except_break
                from <= i <= n,
                n == chars@.len(),
                word_run(chars@.skip(from as int)) == (i - from) + word_run(chars@.skip(i as int)),
            ensures
                from <= i <= n,
                word_run(chars@.skip(from as int)) == i - from,
            decreases n - i,
        {
            if i == n {
                proof {
                    assert(chars@.skip(i as int).len() == 0);
                }
                break ;
            }
            proof {
                assert(chars@.skip(i as int)[0] == chars@[i as int]);
            }
            if is_ws(chars[i]) {
                break ;
            }
            proof {
                assert(chars@.skip(i as int).drop_first() =~= chars@.skip(i + 1));
            }
            i = i + 1;
        }
        i - from
    }

    /// Length of the literal line of `chars` starting at `from`.
    fn line_run_at(chars: &[char], from: usize) -> (r: usize)
        requires
            from <= chars@.len(),
        ensures
            r == line_run(chars@.skip(from as int)),
            from + r <= chars@.len(),
            from + r < chars@.len() ==> chars@[from + r] == '\n',
    {
        let n = chars.len();
        let mut i: usize = from;
        loop
            invariant_except_break
                from <= i <= n,
                n == chars@.len(),
                line_run(chars@.skip(from as int)) == (i - from) + line_run(chars@.skip(i as int)),
            ensures
                from <= i <= n,
                line_run(chars@.skip(from as int)) == i - from,
                i < n ==> chars@[i as int] == '\n',
            decreases n - i,
        {
            if i == n {
                proof {
                    assert(chars@.skip(i as int).len() == 0);
                }
                break ;
            }
            proof {
                assert(chars@.skip(i as int)[0] == chars@[i as int]);
            }
            if chars[i] == '\n' {
                break ;
            }
            proof {
                assert(chars@.skip(i as int).drop_first() =~= chars@.skip(i + 1));
            }
            i = i + 1;
        }
        i - from
    }

    /// Emits one text node.
    fn emit_text(&mut self, text: &str)
        requires
            old(self).max_width <= usize::MAX - 2,
        ensures
            final(self)@ == emit_text_m(old(self)@, text@),
    {
        let chars = str_chars(text);
        let n = chars.len();
        let ghost t = text@;
        if self.preserve_whitespace {
            let mut pos: usize = 0;
            proof {
                assert(t.skip(0) =~= t);
            }
            loop
                invariant_except_break
                    pos <= n,
                    n == t.len(),
                    chars@ == t,
                    self.max_width <= usize::MAX - 2,
                    emit_pre_m(old(self)@, t) == emit_pre_m(self@, t.skip(pos as int)),
                ensures
                    self@ == emit_pre_m(old(self)@, t),
                decreases n - pos,
            {
                if pos == n {
                    proof {
                        assert(t.skip(pos as int).len() == 0);
                    }
                    break ;
                }
                let ghost mstep = self@;
                let ghost rem = t.skip(pos as int);
                let r = Self::line_run_at(chars.as_slice(), pos);
                let piece_end = if r > 0 && chars[pos + r - 1] == '\r' {
                    pos + r - 1
                } else {
                    pos + r
                };
                proof {
                    assert(rem.take(r as int) =~= t.subrange(pos as int, pos + r));
                    assert(strip_cr(rem.take(r as int)) =~= t.subrange(
                        pos as int,
                        piece_end as int,
                    ));
                }
                let piece = vstd::slice::slice_subrange(chars.as_slice(), pos, piece_end);
                self.push_word(piece);
                proof {
                    lemma_push_word_frame(mstep, piece@);
                }
                self.flush_line();
                if pos + r == n {
                    proof {
                        assert(emit_pre_m(mstep, rem) == self@);
                    }
                    break ;
                }
                proof {
                    assert(rem.skip(r + 1) =~= t.skip(pos + r + 1));
                    assert(emit_pre_m(mstep, rem) == emit_pre_m(self@, t.skip(pos + r + 1)));
                }
                pos = pos + r + 1;
            }
        } else {
            let mut pos: usize = 0;
            proof {
                assert(t.skip(0) =~= t);
            }
            loop
                invariant_except_break
                    pos <= n,
                    n == t.len(),
                    chars@ == t,
                    self.max_width <= usize::MAX - 2,
                    emit_words_m(old(self)@, t) == emit_words_m(self@, t.skip(pos as int)),
                ensures
                    self@ == emit_words_m(old(self)@, t),
                decreases n - pos,
            {
                if pos == n {
                    proof {
                        assert(t.skip(pos as int).len() == 0);
                    }
                    break ;
                }
                let ghost mstep = self@;
                let ghost rem = t.skip(pos as int);
                proof {
                    assert(rem[0] == t[pos as int]);
                }
                if is_ws(chars[pos]) {
                    let r = Self::ws_run_at(chars.as_slice(), pos);
                    proof {
                        assert(r >= 1);
                    }
                    self.push_space();
                    proof {
                        assert(rem.skip(r as int) =~= t.skip(pos + r));
                        assert(emit_words_m(mstep, rem) == emit_words_m(self@, t.skip(pos + r)));
                    }
                    pos = pos + r;
                } else {
                    let r = Self::word_run_at(chars.as_slice(), pos);
                    proof {
                        assert(r >= 1);
                        assert(rem.take(r as int) =~= t.subrange(pos as int, pos + r));
                    }
                    let piece = vstd::slice::slice_subrange(chars.as_slice(), pos, pos + r);
                    self.push_word(piece);
                    proof {
                        lemma_push_word_frame(mstep, piece@);
                        assert(rem.skip(r as int) =~= t.skip(pos + r));
                        assert(emit_words_m(mstep, rem) == emit_words_m(self@, t.skip(pos + r)));
                    }
                    pos = pos + r;
                }
            }
        }
    }
}

impl DomRenderer {
    /// Applies an element's on-entry effects: style pushes, flushes,
    /// separators, bullets and the tokens some tags emit themselves.
    #[verifier::rlimit(100)]
    fn enter_tag(&mut self, tag: &String, href: &Option<String>, alt: &Option<String>)
        requires
            old(self).max_width <= usize::MAX - 2,
        ensures
            final(self)@ == enter_tag_m(old(self)@, tag@, opt_view(*href), opt_view(*alt)),
    {
        let t = tag.as_str();
        if str_eq(t, "b") || str_eq(t, "strong") {
            self.current_style = Style { bold: true, ..self.current_style };
        } else if str_eq(t, "i") || str_eq(t, "em") {
            self.current_style = Style { italic: true, ..self.current_style };
        } else if str_eq(t, "a") {
            self.current_style = Style {
                underline: true,
                fg: ColorTag::Cyan,
                is_link: true,
                ..self.current_style
            };
            match href {
                Some(h) => {
                    self.active_link_url = Some(h.clone());
                },
                None => {},
            }
        } else if str_eq(t, "h1") || str_eq(t, "h2") || str_eq(t, "h3") {
            self.add_vertical_space();
            self.current_style = Style { bold: true, fg: ColorTag::White, ..self.current_style };
        } else if str_eq(t, "pre") || str_eq(t, "code") {
            self.flush_line();
            self.preserve_whitespace = true;
            self.current_style = Style { fg: ColorTag::Magenta, ..self.current_style };
        } else if str_eq(t, "ul") || str_eq(t, "ol") {
            self.flush_line();
            self.list_depth = self.list_depth.saturating_add(1);
        } else if str_eq(t, "li") {
            self.flush_line();
            let n_sp: usize = if self.list_depth == 0 {
                0
            } else {
                match (self.list_depth - 1).checked_mul(2) {
                    Some(n) => n,
                    None => usize::MAX,
                }
            };
            let mut bullet: Vec<char> = Vec::new();
            let mut i: usize = 0;
            while i < n_sp
                invariant
                    i <= n_sp,
                    bullet@ =~= spaces(i as nat),
                decreases n_sp - i,
            {
                bullet.push(' ');
                assert(bullet@ =~= spaces((i + 1) as nat));
                i = i + 1;
            }
            bullet.push('\u{2022}');
            bullet.push(' ');
            proof {
                assert(bullet@ =~= bullet_of(self@.list_depth));
            }
            self.push_word(bullet.as_slice());
        } else if str_eq(t, "img") {
            let saved = self.current_style;
            self.current_style = Style { fg: ColorTag::DarkGray, ..self.current_style };
            let mut label: Vec<char> = Vec::new();
            label.push('[');
            let mut alt_chars = match alt {
                Some(a) => str_chars(a.as_str()),
                None => str_chars("IMAGE"),
            };
            label.append(&mut alt_chars);
            label.push(']');
            label.push(' ');
            proof {
                assert(label@ =~= seq!['['] + (match *alt {
                    Some(a) => a@,
                    None => "IMAGE"@,
                }) + seq![']', ' ']);
            }
            self.push_word(label.as_slice());
            self.current_style = saved;
        } else if str_eq(t, "br") {
            self.flush_line();
        } else if str_eq(t, "p") || str_eq(t, "main") || str_eq(t, "article") || str_eq(
            t,
            "section",
        ) || str_eq(t, "table") || str_eq(t, "aside") {
            self.add_vertical_space();
        } else if str_eq(t, "div") || str_eq(t, "header") || str_eq(t, "footer") || str_eq(
            t,
            "nav",
        ) || str_eq(t, "tr") {
            self.flush_line();
        } else if str_eq(t, "td") || str_eq(t, "th") {
            let mut sep: Vec<char> = Vec::new();
            sep.push(' ');
            sep.push(' ');
            proof {
                assert(sep@ =~= seq![' ', ' ']);
            }
            self.push_word(sep.as_slice());
        } else if str_eq(t, "hr") {
            self.add_vertical_space();
            let n = self.max_width;
            let mut rule: Vec<char> = Vec::new();
            let mut i: usize = 0;
            while i < n
                invariant
                    i <= n,
                    rule@ =~= dashes(i as nat),
                decreases n - i,
            {
                rule.push('-');
                assert(rule@ =~= dashes((i + 1) as nat));
                i = i + 1;
            }
            self.push_word(rule.as_slice());
            self.add_vertical_space();
        }
    }

    /// Applies an element's on-exit effects, after the saved state was
    /// restored.
    fn exit_tag(&mut self, tag: &String)
        ensures
            final(self)@ == exit_tag_m(old(self)@, tag@),
    {
        let t = tag.as_str();
        if str_eq(t, "ul") || str_eq(t, "ol") {
            self.list_depth = self.list_depth.saturating_sub(1);
            self.flush_line();
        } else if str_eq(t, "h1") || str_eq(t, "h2") || str_eq(t, "h3") || str_eq(t, "p")
            || str_eq(t, "main") || str_eq(t, "article") || str_eq(t, "section") || str_eq(
            t,
            "table",
        ) || str_eq(t, "aside") || str_eq(t, "pre") {
            self.add_vertical_space();
        } else if str_eq(t, "div") || str_eq(t, "li") || str_eq(t, "header") || str_eq(
            t,
            "footer",
        ) || str_eq(t, "nav") || str_eq(t, "tr") {
            self.flush_line();
        }
    }

    /// The depth-first walk: saves the style, the active link and the
    /// whitespace mode, applies the tag, walks the children, restores.
    pub fn walk(&mut self, node: &DomNode)
        requires
            old(self).max_width <= usize::MAX - 2,
        ensures
            final(self)@ == walk_m(old(self)@, *node),
        decreases node,
    {
        match node {
            DomNode::Text(t) => {
                self.emit_text(t.as_str());
            },
            DomNode::Element { tag, href, alt, hidden, children } => {
                if *hidden {
                    return ;
                }
                let ts = tag.as_str();
                if str_eq(ts, "script") || str_eq(ts, "style") || str_eq(ts, "head") || str_eq(
                    ts,
                    "meta",
                ) || str_eq(ts, "link") {
                    return ;
                }
                let saved_style = self.current_style;
                let saved_link = match &self.active_link_url {
                    Some(u) => Some(u.clone()),
                    None => None,
                };
                let saved_preserve = self.preserve_whitespace;
                self.enter_tag(tag, href, alt);
                proof {
                    lemma_enter_tag_width(old(self)@, tag@, opt_view(*href), opt_view(*alt));
                }
                let ghost m1 = self@;
                let n = children.len();
                let mut i: usize = 0;
                proof {
                    assert(children@.skip(0) =~= children@);
                }
                while i < n
                    invariant
                        i <= n,
                        n == children@.len(),
                        self.max_width <= usize::MAX - 2,
                        *node is Element,
                        (*node)->Element_children == *children,
                        walk_seq_m(m1, children@) == walk_seq_m(self@, children@.skip(i as int)),
                    decreases n - i,
                {
                    let ghost mstep = self@;
                    proof {
                        assert(children@.skip(i as int)[0] == children@[i as int]);
                        assert(decreases_to!(*node => (*node)->Element_children));
                        assert(decreases_to!((*node)->Element_children => (*node)->Element_children@));
                        assert(decreases_to!((*node)->Element_children@ => (*node)->Element_children@[i as int]));
                        assert(decreases_to!(*node => children@[i as int]));
                    }
                    self.walk(&children[i]);
                    proof {
                        lemma_walk_width(mstep, children@[i as int]);
                        assert(children@.skip(i as int).drop_first() =~= children@.skip(i + 1));
                        assert(walk_seq_m(mstep, children@.skip(i as int)) == walk_seq_m(
                            self@,
                            children@.skip(i + 1),
                        ));
                    }
                    i = i + 1;
                }
                proof {
                    assert(children@.skip(n as int).len() == 0);
                    assert(self@ == walk_seq_m(m1, children@));
                }
                self.current_style = saved_style;
                self.active_link_url = saved_link;
                self.preserve_whitespace = saved_preserve;
                self.exit_tag(tag);
            },
        }
    }

    /// Lays the document out: walks it and closes the last open line.
    pub fn render(&mut self, document: &DomNode)
        requires
            old(self).max_width <= usize::MAX - 2,
        ensures
            final(self)@ == render_m(old(self)@, *document),
    {
        self.walk(document);
        self.flush_line();
    }
}

/// Lays a parsed document out at the given terminal width and hands back
/// the renderer holding the line buffer and the link regions. The result
/// is a function of the tree and the width alone, so laying the same
/// document out twice at the same width yields the same lines and links.
pub fn layout(document: &DomNode, width: usize) -> (r: DomRenderer)
    ensures
        r@ == spec_layout(*document, width as nat),
{
    let mut rend = DomRenderer::new(width);
    rend.render(document);
    rend
}

impl DomRenderer {
    /// A renderer for the given terminal width: two columns are reserved
    /// for the surrounding border, and the usable width never drops
    /// below one column.
    pub fn new(width: usize) -> (r: DomRenderer)
        ensures
            r@ == init_m(width as nat),
            r@.max_width <= usize::MAX - 2,
    {
        let usable = if width <= 3 {
            1
        } else {
            width - 2
        };
        let r = DomRenderer {
            lines: Vec::new(),
            links: Vec::new(),
            current_line: Vec::new(),
            current_width: 0,
            current_style: Style::plain(),
            max_width: usable,
            active_link_url: None,
            preserve_whitespace: false,
            list_depth: 0,
        };
        proof {
            assert(r@.lines =~= Seq::<Seq<SpanM>>::empty());
            assert(r@.cur =~= Seq::<SpanM>::empty());
            assert(r@.links =~= Seq::<RegionM>::empty());
        }
        r
    }

    fn flush_line(&mut self)
        ensures
            final(self)@ == flush_m(old(self)@),
    {
        if self.current_line.len() > 0 {
            let mut done: Vec<StyledSpan> = Vec::new();
            core::mem::swap(&mut done, &mut self.current_line);
            self.lines.push(Line { spans: done });
            self.current_width = 0;
            proof {
                assert(self@.lines =~= flush_m(old(self)@).lines);
                assert(self@.cur =~= flush_m(old(self)@).cur);
                assert(self@ == flush_m(old(self)@));
            }
        } else {
            proof {
                assert(self@ == flush_m(old(self)@));
            }
        }
    }

    fn add_vertical_space(&mut self)
        ensures
            final(self)@ == vspace_m(old(self)@),
    {
        self.flush_line();
        let n = self.lines.len();
        if n > 0 && self.lines[n - 1].spans.len() > 0 {
            self.lines.push(Line { spans: Vec::new() });
            proof {
                assert(self@.lines =~~= vspace_m(old(self)@).lines);
                assert(self@ == vspace_m(old(self)@));
            }
        } else {
            proof {
                assert(self@ == vspace_m(old(self)@));
            }
        }
    }

    /// Appends one token to the current line and records its link region.
    fn append_token(&mut self, word: &[char])
        ensures
            final(self)@ == append_token_m(old(self)@, word@),
    {
        let w = slice_width(word);
        let xs = self.current_width;
        let xe = self.current_width.saturating_add(w);
        let text = chars_string(word);
        self.current_line.push(StyledSpan { text, style: self.current_style });
        self.current_width = xe;
        proof {
            assert(sat_add(old(self)@.cur_width, str_width(word@)) == xe as nat);
            assert(self@.cur =~= append_token_m(old(self)@, word@).cur);
        }
        let ghost m1 = append_token_m(old(self)@, word@);
        if xe > xs {
            let is_linked = self.active_link_url.is_some();
            if is_linked {
                let n = self.links.len();
                let mut extended = false;
                if n > 0 {
                    let last = &self.links[n - 1];
                    if last.line_index == self.lines.len() && last.x_end == xs && str_eq(
                        last.url.as_str(),
                        self.active_link_url.as_ref().unwrap().as_str(),
                    ) {
                        let mut ext = self.links.pop().unwrap();
                        ext.x_end = xe;
                        self.links.push(ext);
                        proof {
                            assert(self@.links =~= m1.links);
                        }
                        extended = true;
                    }
                }
                if !extended {
                    let url = self.active_link_url.as_ref().unwrap().clone();
                    self.links.push(LinkRegion {
                        url,
                        line_index: self.lines.len(),
                        x_start: xs,
                        x_end: xe,
                    });
                }
            }
        }
        proof {
            assert(self@.links =~= m1.links);
            assert(self@ == m1);
        }
    }

    /// Re-applies list indentation at the start of a fresh line.
    fn apply_indent(&mut self)
        ensures
            final(self)@ == indent_m(old(self)@),
    {
        if self.list_depth > 0 {
            let n_sp = match self.list_depth.checked_mul(2) {
                Some(n) => n,
                None => usize::MAX,
            };
            let mut sp: Vec<char> = Vec::new();
            let mut i: usize = 0;
            while i < n_sp
                invariant
                    i <= n_sp,
                    sp@ =~= spaces(i as nat),
                decreases n_sp - i,
            {
                sp.push(' ');
                assert(sp@ =~= spaces((i + 1) as nat));
                i = i + 1;
            }
            let w = slice_width(sp.as_slice());
            let text = chars_string(sp.as_slice());
            self.current_line.push(StyledSpan { text, style: Style::plain() });
            self.current_width = self.current_width.saturating_add(w);
            proof {
                assert(indent_len(old(self)@.list_depth) == n_sp as nat);
                assert(self@.cur =~= indent_m(old(self)@).cur);
                assert(self@ == indent_m(old(self)@));
            }
        } else {
            proof {
                assert(self@ == indent_m(old(self)@));
            }
        }
    }
}

} // verus!
