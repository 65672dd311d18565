use vstd::prelude::*;
use crate::line::{spans_text, Line, SpanM};
use crate::models::Selection;
use crate::text::chars_string;

verus! {

/// The text of each line of a buffer.
pub open spec fn buffer_texts(lines: Seq<Line>) -> Seq<Seq<char>> {
    lines.map_values(|l: Line| spans_text(l@))
}

/// Endpoints ordered by (line, char): the anchor and the cursor may come
/// in either order, so extraction first normalizes them.
pub open spec fn spec_normalize(sel: Selection) -> Selection {
    if sel.start_line < sel.end_line || (sel.start_line == sel.end_line && sel.start_char
        <= sel.end_char) {
        sel
    } else {
        Selection {
            start_line: sel.end_line,
            start_char: sel.end_char,
            end_line: sel.start_line,
            end_char: sel.start_char,
        }
    }
}

/// A char index clamped to a line's length: a stale coordinate never
/// reaches past the line.
pub open spec fn clamp_to(c: int, len: int) -> int {
    if c <= len {
        c
    } else {
        len
    }
}

/// The characters a normalized selection covers on line `i`: from its
/// start char on the first line, to its end char on the last, the whole
/// line in between.
pub open spec fn frag(texts: Seq<Seq<char>>, i: int, sel: Selection) -> Seq<char> {
    let t = texts[i];
    let f = if i == sel.start_line {
        clamp_to(sel.start_char as int, t.len() as int)
    } else {
        0
    };
    let e = if i == sel.end_line {
        clamp_to(sel.end_char as int, t.len() as int)
    } else {
        t.len() as int
    };
    t.subrange(f, e)
}

/// The covered fragments of lines `i ..= last`, joined by one line feed
/// each, with none after the last.
pub open spec fn spec_extract_from(texts: Seq<Seq<char>>, sel: Selection, i: int, last: int) -> Seq<
    char,
>
    decreases last - i,
{
    if i >= last {
        frag(texts, i, sel)
    } else {
        frag(texts, i, sel) + seq!['\n'] + spec_extract_from(texts, sel, i + 1, last)
    }
}

/// What a selection extracts from a buffer: nothing when it starts past
/// the end; otherwise the covered fragments of its lines (the end line
/// clamped to the buffer), joined with single line feeds.
pub open spec fn spec_extract(texts: Seq<Seq<char>>, sel: Selection) -> Seq<char> {
    let s = spec_normalize(sel);
    if s.start_line >= texts.len() {
        Seq::empty()
    } else {
        let last = if s.end_line < texts.len() {
            s.end_line as int
        } else {
            texts.len() as int - 1
        };
        spec_extract_from(texts, s, s.start_line as int, last)
    }
}

impl Selection {
    /// Extracts the selected text from the buffer, whole characters only,
    /// fragments joined by single line feeds and no trailing line feed.
    pub fn extract_text(&self, lines: &Vec<Line>) -> (r: String)
        ensures
            r@ == spec_extract(buffer_texts(lines@), *self),
    {
        let ghost texts = buffer_texts(lines@);
        let s = if self.start_line < self.end_line || (self.start_line == self.end_line
            && self.start_char <= self.end_char) {
            *self
        } else {
            Selection {
                start_line: self.end_line,
                start_char: self.end_char,
                end_line: self.start_line,
                end_char: self.start_char,
            }
        };
        proof {
            assert(s == spec_normalize(*self));
        }
        if s.start_line >= lines.len() {
            let r = String::new();
            proof {
                assert(r@ =~= spec_extract(texts, *self));
            }
            return r;
        }
        let last: usize = if s.end_line < lines.len() {
            s.end_line
        } else {
            lines.len() - 1
        };
        let mut out: Vec<char> = Vec::new();
        let mut i: usize = s.start_line;
        while i < last
            invariant
                s.start_line <= i <= last,
                last < lines@.len(),
                s == spec_normalize(*self),
                s.start_line == spec_normalize(*self).start_line,
                texts == buffer_texts(lines@),
                spec_extract_from(texts, s, s.start_line as int, last as int) == out@
                    + spec_extract_from(texts, s, i as int, last as int),
            decreases last - i,
        {
            let ghost before = out@;
            self.append_frag(&mut out, lines, i, &s);
            out.push('\n');
            proof {
                assert(out@ =~= before + frag(texts, i as int, s) + seq!['\n']);
                assert(before + (frag(texts, i as int, s) + seq!['\n'] + spec_extract_from(
                    texts,
                    s,
                    i + 1,
                    last as int,
                )) =~= (before + frag(texts, i as int, s) + seq!['\n']) + spec_extract_from(
                    texts,
                    s,
                    i + 1,
                    last as int,
                ));
            }
            i = i + 1;
        }
        let ghost before = out@;
        self.append_frag(&mut out, lines, last, &s);
        proof {
            assert(out@ == before + frag(texts, last as int, s));
            assert(spec_extract_from(texts, s, last as int, last as int) == frag(
                texts,
                last as int,
                s,
            ));
            assert(out@ =~= spec_extract(texts, *self));
        }
        chars_string(out.as_slice())
    }

    /// Appends the covered fragment of line `i` to `out`.
    fn append_frag(&self, out: &mut Vec<char>, lines: &Vec<Line>, i: usize, s: &Selection)
        requires
            i < lines@.len(),
            s.start_line == s.end_line ==> s.start_char <= s.end_char,
        ensures
            final(out)@ == old(out)@ + frag(buffer_texts(lines@), i as int, *s),
    {
        let t = lines[i].text_chars();
        let tl = t.len();
        let f: usize = if i == s.start_line {
            if s.start_char <= tl {
                s.start_char
            } else {
                tl
            }
        } else {
            0
        };
        let e: usize = if i == s.end_line {
            if s.end_char <= tl {
                s.end_char
            } else {
                tl
            }
        } else {
            tl
        };
        proof {
            assert(buffer_texts(lines@)[i as int] == spans_text(lines@[i as int]@));
            assert(f <= e <= t@.len());
        }
        let mut piece = vstd::slice::slice_to_vec(vstd::slice::slice_subrange(
            t.as_slice(),
            f,
            e,
        ));
        out.append(&mut piece);
    }
}

} // verus!
