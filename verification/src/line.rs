use vstd::prelude::*;
use crate::text::{
    char_col_width, chars_string, lemma_str_width_concat, slice_width, str_chars, str_width,
    width_sat,
};

verus! {

/// A terminal foreground color used by the renderer.
#[derive(Clone, Copy, PartialEq, Eq, Structural, Debug)]
pub enum ColorTag {
    Default,
    Cyan,
    White,
    Magenta,
    DarkGray,
}

/// Inheritable text attributes in effect while emitting a token.
#[derive(Clone, Copy, PartialEq, Eq, Structural, Debug)]
pub struct Style {
    pub bold: bool,
    pub italic: bool,
    pub underline: bool,
    pub fg: ColorTag,
    pub is_link: bool,
}

impl Style {
    /// The style with no attribute set: what text outside any styled
    /// element is rendered with.
    pub open spec fn spec_plain() -> Style {
        Style { bold: false, italic: false, underline: false, fg: ColorTag::Default, is_link: false }
    }

    pub fn plain() -> (s: Style)
        ensures
            s == Style::spec_plain(),
    {
        Style { bold: false, italic: false, underline: false, fg: ColorTag::Default, is_link: false }
    }
}

/// A run of text sharing one style. Immutable once emitted.
pub struct StyledSpan {
    pub text: String,
    pub style: Style,
}

/// The mathematical value of a span: its characters and its style.
pub struct SpanM {
    pub text: Seq<char>,
    pub style: Style,
}

impl View for StyledSpan {
    type V = SpanM;

    open spec fn view(&self) -> SpanM {
        SpanM { text: self.text@, style: self.style }
    }
}

impl Clone for StyledSpan {
    fn clone(&self) -> (r: Self)
        ensures
            r@ == self@,
    {
        StyledSpan { text: self.text.clone(), style: self.style }
    }
}

/// One visual row: an ordered sequence of spans, left to right.
pub struct Line {
    pub spans: Vec<StyledSpan>,
}

impl View for Line {
    type V = Seq<SpanM>;

    open spec fn view(&self) -> Seq<SpanM> {
        self.spans@.map_values(|s: StyledSpan| s@)
    }
}

/// The text of a line: its spans' characters, concatenated.
pub open spec fn spans_text(spans: Seq<SpanM>) -> Seq<char>
    decreases spans.len(),
{
    if spans.len() == 0 {
        Seq::empty()
    } else {
        spans[0].text + spans_text(spans.drop_first())
    }
}

/// Display width of a line, as the sum of its characters' widths.
pub open spec fn line_width(spans: Seq<SpanM>) -> nat {
    str_width(spans_text(spans))
}

/// Appending one span appends its text.
pub proof fn lemma_spans_text_push(spans: Seq<SpanM>, s: SpanM)
    ensures
        spans_text(spans.push(s)) == spans_text(spans) + s.text,
    decreases spans.len(),
{
    if spans.len() == 0 {
        assert(spans_text(Seq::<SpanM>::empty()) =~= Seq::<char>::empty());
        assert(spans.push(s)[0] == s);
        assert(spans.push(s).drop_first() =~= Seq::<SpanM>::empty());
        assert(spans_text(spans.push(s)) == spans.push(s)[0].text + spans_text(
            spans.push(s).drop_first(),
        ));
        assert(spans_text(spans.push(s)) =~= s.text + Seq::<char>::empty());
        assert(s.text + Seq::<char>::empty() =~= s.text);
        assert(spans_text(spans) + s.text =~= s.text);
    } else {
        assert(spans.push(s).drop_first() =~= spans.drop_first().push(s));
        lemma_spans_text_push(spans.drop_first(), s);
        assert(spans[0].text + (spans_text(spans.drop_first()) + s.text) =~= (spans[0].text
            + spans_text(spans.drop_first())) + s.text);
    }
}

impl Line {
    pub fn new() -> (l: Line)
        ensures
            l@ =~= Seq::<SpanM>::empty(),
            spans_text(l@) =~= Seq::<char>::empty(),
    {
        let l = Line { spans: Vec::new() };
        l
    }

    /// The line's text as a vector of characters.
    pub fn text_chars(&self) -> (v: Vec<char>)
        ensures
            v@ == spans_text(self@),
    {
        let mut v: Vec<char> = Vec::new();
        let n = self.spans.len();
        let mut i: usize = 0;
        proof {
            assert(self@.subrange(0, 0) =~= Seq::<SpanM>::empty());
        }
        while i < n
            invariant
                i <= n,
                n == self.spans@.len(),
                self@.len() == n,
                v@ == spans_text(self@.subrange(0, i as int)),
            decreases n - i,
        {
            let mut cs = str_chars(self.spans[i].text.as_str());
            proof {
                lemma_spans_text_push_sub(self@, i as int);
            }
            v.append(&mut cs);
            i = i + 1;
        }
        proof {
            assert(self@.subrange(0, n as int) =~= self@);
        }
        v
    }

    /// The line's text as a string.
    pub fn text_string(&self) -> (s: String)
        ensures
            s@ == spans_text(self@),
    {
        let v = self.text_chars();
        chars_string(v.as_slice())
    }

    /// The line's display width, capped at `usize::MAX`.
    pub fn width(&self) -> (w: usize)
        ensures
            w == width_sat(spans_text(self@)),
    {
        let v = self.text_chars();
        slice_width(v.as_slice())
    }
}

/// Helper for `text_chars`: extending the prefix by one span appends its text.
proof fn lemma_spans_text_push_sub(spans: Seq<SpanM>, i: int)
    requires
        0 <= i < spans.len(),
    ensures
        spans_text(spans.subrange(0, i + 1)) == spans_text(spans.subrange(0, i))
            + spans[i].text,
{
    assert(spans.subrange(0, i + 1) =~= spans.subrange(0, i).push(spans[i]));
    lemma_spans_text_push(spans.subrange(0, i), spans[i]);
}

impl Clone for Line {
    fn clone(&self) -> (r: Self)
        ensures
            r@ == self@,
    {
        let mut spans: Vec<StyledSpan> = Vec::new();
        let n = self.spans.len();
        let mut i: usize = 0;
        while i < n
            invariant
                i <= n,
                n == self.spans@.len(),
                spans@.len() == i,
                forall|j: int| 0 <= j < i ==> spans@[j]@ == self.spans@[j]@,
            decreases n - i,
        {
            spans.push(self.spans[i].clone());
            i = i + 1;
        }
        let r = Line { spans };
        proof {
            assert(r@ =~= self@);
        }
        r
    }
}

/// The slice of the buffer a viewport shows:
/// `lines[scroll .. min(scroll + height, total)]`, empty when the scroll
/// offset lies past the end.
pub open spec fn spec_visible_range(total: nat, scroll: nat, height: nat) -> (nat, nat) {
    if scroll >= total {
        (total, total)
    } else if scroll + height > total {
        (scroll, total)
    } else {
        (scroll, scroll + height)
    }
}

/// Copies the visible slice of the buffer for rendering.
pub fn visible_lines(lines: &Vec<Line>, scroll: usize, height: usize) -> (r: Vec<Line>)
    ensures
        ({
            let (lo, hi) = spec_visible_range(lines@.len(), scroll as nat, height as nat);
            &&& r@.len() == hi - lo
            &&& forall|j: int| 0 <= j < r@.len() ==> r@[j]@ == lines@[lo + j]@
        }),
{
    let total = lines.len();
    let mut r: Vec<Line> = Vec::new();
    if scroll >= total {
        return r;
    }
    let end = if height > total - scroll {
        total
    } else {
        scroll + height
    };
    let mut i: usize = scroll;
    while i < end
        invariant
            scroll <= i <= end <= lines@.len(),
            r@.len() == i - scroll,
            forall|j: int| 0 <= j < r@.len() ==> r@[j]@ == lines@[scroll + j]@,
        decreases end - i,
    {
        r.push(lines[i].clone());
        i = i + 1;
    }
    r
}

} // verus!
