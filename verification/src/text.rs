use vstd::prelude::*;

verus! {

/// Display width of one character, in terminal columns.
/// Given meaning only through `char_width` below, which computes it with
/// the unicode-width crate.
pub uninterp spec fn char_col_width(c: char) -> nat;

/// Whether a character has the Unicode `White_Space` property.
/// Given meaning only through `is_ws` below.
pub uninterp spec fn char_is_ws(c: char) -> bool;

/// Display width of a character sequence: the sum of its characters' widths.
pub open spec fn str_width(s: Seq<char>) -> nat
    decreases s.len(),
{
    if s.len() == 0 {
        0
    } else {
        char_col_width(s[0]) + str_width(s.drop_first())
    }
}

/// A `usize` sum that stops at `usize::MAX` instead of wrapping.
pub open spec fn sat_add(a: nat, b: nat) -> nat {
    if a + b > usize::MAX {
        usize::MAX as nat
    } else {
        a + b
    }
}

/// `str_width`, capped at `usize::MAX`: what a `usize` accumulator can hold.
pub open spec fn width_sat(s: Seq<char>) -> nat {
    if str_width(s) > usize::MAX {
        usize::MAX as nat
    } else {
        str_width(s)
    }
}

/// Relies on unicode_width::UnicodeWidthChar::width: the displayed width of
/// a character in columns, per Unicode Standard Annex #11, with a control
/// character (for which the crate answers `None`) counting as zero columns.
/// The crate's tables answer 1 for every printable ASCII character and its
/// documented rules never exceed three columns for a single character.
#[verifier::external_body]
pub fn char_width(c: char) -> (w: usize)
    ensures
        w == char_col_width(c),
        w <= 3,
        (0x20 <= c as u32 && c as u32 <= 0x7e) ==> w == 1,
{
    unicode_width::UnicodeWidthChar::width(c).unwrap_or(0)
}

/// Relies on char::is_whitespace: true exactly for characters with the
/// Unicode `White_Space` property. Space, tab, line feed and carriage
/// return have the property; no other printable ASCII character does.
#[verifier::external_body]
pub fn is_ws(c: char) -> (r: bool)
    ensures
        r == char_is_ws(c),
        (c == ' ' || c == '\t' || c == '\n' || c == '\r') ==> r,
        (0x21 <= c as u32 && c as u32 <= 0x7e) ==> !r,
{
    c.is_whitespace()
}

/// Relies on String::push: appends one character at the end.
pub assume_specification[ String::push ](s: &mut String, c: char)
    ensures
        final(s)@ == old(s)@.push(c),
;

/// The characters of a string slice, in order, as a vector.
pub fn str_chars(s: &str) -> (v: Vec<char>)
    ensures
        v@ == s@,
{
    let n: usize = s.unicode_len();
    let mut v: Vec<char> = Vec::new();
    let mut i: usize = 0;
    while i < n
        invariant
            i <= n,
            n == s@.len(),
            v@ == s@.subrange(0, i as int),
        decreases n - i,
    {
        v.push(s.get_char(i));
        assert(v@ =~= s@.subrange(0, i + 1 as int));
        i = i + 1;
    }
    assert(v@ =~= s@);
    v
}

/// The characters of a slice, collected into a string.
pub fn chars_string(v: &[char]) -> (s: String)
    ensures
        s@ == v@,
{
    let mut s = String::new();
    let mut i: usize = 0;
    while i < v.len()
        invariant
            i <= v@.len(),
            s@ == v@.subrange(0, i as int),
        decreases v@.len() - i,
    {
        s.push(v[i]);
        assert(s@ =~= v@.subrange(0, i + 1 as int));
        i = i + 1;
    }
    assert(s@ =~= v@);
    s
}

/// Character-for-character equality of two string slices.
pub fn str_eq(a: &str, b: &str) -> (r: bool)
    ensures
        r == (a@ == b@),
{
    let na: usize = a.unicode_len();
    let nb: usize = b.unicode_len();
    if na != nb {
        return false;
    }
    let mut i: usize = 0;
    while i < na
        invariant
            i <= na,
            na == a@.len(),
            na == b@.len(),
            forall|j: int| 0 <= j < i ==> a@[j] == b@[j],
        decreases na - i,
    {
        if a.get_char(i) != b.get_char(i) {
            return false;
        }
        i = i + 1;
    }
    proof {
        assert(a@ =~= b@);
    }
    true
}

/// A verified copy of a string slice.
pub fn string_from(s: &str) -> (r: String)
    ensures
        r@ == s@,
{
    let v = str_chars(s);
    chars_string(v.as_slice())
}

/// Whether `s` begins with `p`.
pub open spec fn spec_starts_with(s: Seq<char>, p: Seq<char>) -> bool {
    s.len() >= p.len() && s.subrange(0, p.len() as int) == p
}

/// Whether `s` ends with `p`.
pub open spec fn spec_ends_with(s: Seq<char>, p: Seq<char>) -> bool {
    s.len() >= p.len() && s.subrange(s.len() - p.len(), s.len() as int) == p
}

/// Whether `s` holds `p` as a contiguous subsequence.
pub open spec fn spec_contains(s: Seq<char>, p: Seq<char>) -> bool {
    exists|i: int| 0 <= i <= s.len() - p.len() && #[trigger] s.subrange(i, i + p.len()) == p
}

/// Whether `s` holds the character `c`.
pub open spec fn spec_has_char(s: Seq<char>, c: char) -> bool {
    exists|i: int| 0 <= i < s.len() && #[trigger] s[i] == c
}

pub fn str_starts_with(s: &str, p: &str) -> (r: bool)
    ensures
        r == spec_starts_with(s@, p@),
{
    let n: usize = s.unicode_len();
    let pn: usize = p.unicode_len();
    if pn > n {
        return false;
    }
    let mut i: usize = 0;
    while i < pn
        invariant
            i <= pn <= n,
            n == s@.len(),
            pn == p@.len(),
            forall|j: int| 0 <= j < i ==> s@[j] == p@[j],
        decreases pn - i,
    {
        if s.get_char(i) != p.get_char(i) {
            proof {
                assert(s@.subrange(0, pn as int)[i as int] == s@[i as int]);
            }
            return false;
        }
        i = i + 1;
    }
    proof {
        assert(s@.subrange(0, pn as int) =~= p@);
    }
    true
}

/// Whether the character slice `s` begins with `p` at offset `at`.
fn window_matches(s: &[char], at: usize, p: &[char]) -> (r: bool)
    requires
        at + p@.len() <= s@.len(),
    ensures
        r == (s@.subrange(at as int, at + p@.len()) == p@),
{
    let sn = s.len();
    let pn = p.len();
    let mut i: usize = 0;
    while i < pn
        invariant
            i <= pn,
            pn == p@.len(),
            sn == s@.len(),
            at + pn <= sn,
            forall|j: int| 0 <= j < i ==> s@[at + j] == p@[j],
        decreases pn - i,
    {
        if s[at + i] != p[i] {
            proof {
                assert(s@.subrange(at as int, at + pn)[i as int] == s@[at + i]);
            }
            return false;
        }
        i = i + 1;
    }
    proof {
        assert(s@.subrange(at as int, at + pn) =~= p@);
    }
    true
}

/// Whether the character slice `s` ends with `p`.
pub fn chars_end_with(s: &[char], p: &[char]) -> (r: bool)
    ensures
        r == spec_ends_with(s@, p@),
{
    let sn = s.len();
    let pn = p.len();
    if pn > sn {
        return false;
    }
    window_matches(s, sn - pn, p)
}

/// Whether the character slice `s` holds `p` as a contiguous run.
pub fn chars_contain(s: &[char], p: &[char]) -> (r: bool)
    ensures
        r == spec_contains(s@, p@),
{
    let sn = s.len();
    let pn = p.len();
    if pn > sn {
        proof {
            assert(!spec_contains(s@, p@));
        }
        return false;
    }
    if pn == 0 {
        proof {
            let w: int = 0;
            assert(s@.subrange(w, w + p@.len()) =~= p@);
            assert(spec_contains(s@, p@));
        }
        return true;
    }
    let mut i: usize = 0;
    while i <= sn - pn
        invariant
            0 < pn <= sn,
            i <= sn - pn + 1,
            sn == s@.len(),
            pn == p@.len(),
            forall|j: int| 0 <= j < i ==> #[trigger] s@.subrange(j, j + p@.len()) != p@,
        decreases sn - pn + 1 - i,
    {
        if window_matches(s, i, p) {
            return true;
        }
        i = i + 1;
    }
    false
}

/// Whether the character slice `s` holds the character `c`.
pub fn chars_have_char(s: &[char], c: char) -> (r: bool)
    ensures
        r == spec_has_char(s@, c),
{
    let n = s.len();
    let mut i: usize = 0;
    while i < n
        invariant
            i <= n,
            n == s@.len(),
            forall|j: int| 0 <= j < i ==> s@[j] != c,
        decreases n - i,
    {
        if s[i] == c {
            return true;
        }
        i = i + 1;
    }
    false
}

/// Whether the character slice `s` equals the view of `lit`.
pub fn chars_eq_str(s: &[char], lit: &str) -> (r: bool)
    ensures
        r == (s@ == lit@),
{
    let n = s.len();
    let ln: usize = lit.unicode_len();
    if n != ln {
        return false;
    }
    let mut i: usize = 0;
    while i < n
        invariant
            i <= n,
            n == s@.len(),
            n == lit@.len(),
            forall|j: int| 0 <= j < i ==> s@[j] == lit@[j],
        decreases n - i,
    {
        if s[i] != lit.get_char(i) {
            return false;
        }
        i = i + 1;
    }
    proof {
        assert(s@ =~= lit@);
    }
    true
}

/// Removes the last character, if any.
pub fn string_pop(s: &mut String)
    ensures
        final(s)@ == (if old(s)@.len() == 0 {
            old(s)@
        } else {
            old(s)@.drop_last()
        }),
{
    let v = str_chars(s.as_str());
    let n = v.len();
    if n == 0 {
        return ;
    }
    let head = vstd::slice::slice_subrange(v.as_slice(), 0, n - 1);
    *s = chars_string(head);
    proof {
        assert(old(s)@.drop_last() =~= old(s)@.subrange(0, n - 1));
    }
}

/// The character for one decimal digit.
pub open spec fn digit_char(d: int) -> char {
    if d == 0 {
        '0'
    } else if d == 1 {
        '1'
    } else if d == 2 {
        '2'
    } else if d == 3 {
        '3'
    } else if d == 4 {
        '4'
    } else if d == 5 {
        '5'
    } else if d == 6 {
        '6'
    } else if d == 7 {
        '7'
    } else if d == 8 {
        '8'
    } else {
        '9'
    }
}

/// The decimal notation of a number, most significant digit first, no
/// leading zeros (a lone zero for 0).
pub open spec fn dec_str(n: int) -> Seq<char>
    decreases n,
{
    if n < 10 {
        seq![digit_char(n)]
    } else {
        dec_str(n / 10).push(digit_char(n % 10))
    }
}

fn digit_to_char(d: u64) -> (c: char)
    requires
        d < 10,
    ensures
        c == digit_char(d as int),
{
    if d == 0 {
        '0'
    } else if d == 1 {
        '1'
    } else if d == 2 {
        '2'
    } else if d == 3 {
        '3'
    } else if d == 4 {
        '4'
    } else if d == 5 {
        '5'
    } else if d == 6 {
        '6'
    } else if d == 7 {
        '7'
    } else if d == 8 {
        '8'
    } else {
        '9'
    }
}

/// The decimal notation of `n`.
pub fn u64_to_string(n: u64) -> (r: String)
    ensures
        r@ == dec_str(n as int),
{
    let mut rev: Vec<char> = Vec::new();
    let mut m: u64 = n;
    proof {
        assert(rev@.reverse() =~= Seq::<char>::empty());
        assert(dec_str(n as int) + rev@.reverse() =~= dec_str(n as int));
    }
    loop
        invariant_except_break
            dec_str(n as int) == dec_str(m as int) + rev@.reverse(),
        ensures
            dec_str(n as int) == rev@.reverse(),
        decreases m,
    {
        let d = m % 10;
        let c = digit_to_char(d);
        rev.push(c);
        proof {
            assert(rev@.reverse() =~= seq![c] + rev@.drop_last().reverse());
            if m >= 10 {
                assert(dec_str(m as int) == dec_str(m as int / 10).push(digit_char(m as int % 10)));
                assert(dec_str(m as int / 10).push(c) + rev@.drop_last().reverse()
                    =~= dec_str(m as int / 10) + (seq![c] + rev@.drop_last().reverse()));
            } else {
                assert(dec_str(m as int) =~= seq![c]);
                assert(seq![c] + rev@.drop_last().reverse() =~= dec_str(m as int)
                    + rev@.drop_last().reverse());
            }
        }
        if m < 10 {
            break ;
        }
        m = m / 10;
    }
    let mut out: Vec<char> = Vec::new();
    let n_digits = rev.len();
    let mut i: usize = n_digits;
    while i > 0
        invariant
            i <= n_digits,
            n_digits == rev@.len(),
            out@ =~= rev@.reverse().take((n_digits - i) as int),
        decreases i,
    {
        out.push(rev[i - 1]);
        proof {
            assert(rev@.reverse()[(n_digits - i) as int] == rev@[i - 1]);
            assert(out@ =~= rev@.reverse().take((n_digits - i + 1) as int));
        }
        i = i - 1;
    }
    proof {
        assert(out@ =~= rev@.reverse());
    }
    chars_string(out.as_slice())
}

/// Display width of `s[from..to]`, capped at `usize::MAX`.
pub fn range_width(s: &[char], from: usize, to: usize) -> (w: usize)
    requires
        from <= to <= s@.len(),
    ensures
        w == width_sat(s@.subrange(from as int, to as int)),
{
    let mut w: usize = 0;
    let mut i: usize = from;
    while i < to
        invariant
            from <= i <= to <= s@.len(),
            w == width_sat(s@.subrange(from as int, i as int)),
        decreases to - i,
    {
        let cw = char_width(s[i]);
        proof {
            lemma_str_width_push(s@.subrange(from as int, i as int), s@[i as int]);
            assert(s@.subrange(from as int, i + 1 as int) =~= s@.subrange(
                from as int,
                i as int,
            ).push(s@[i as int]));
        }
        w = w.saturating_add(cw);
        i = i + 1;
    }
    w
}

/// Display width of a whole character slice, capped at `usize::MAX`.
pub fn slice_width(s: &[char]) -> (w: usize)
    ensures
        w == width_sat(s@),
{
    let w = range_width(s, 0, s.len());
    proof {
        assert(s@.subrange(0, s@.len() as int) =~= s@);
    }
    w
}

/// Appending one character adds exactly that character's width.
pub proof fn lemma_str_width_push(s: Seq<char>, c: char)
    ensures
        str_width(s.push(c)) == str_width(s) + char_col_width(c),
    decreases s.len(),
{
    if s.len() == 0 {
        assert(s.push(c).drop_first() =~= s);
    } else {
        assert(s.push(c).drop_first() =~= s.drop_first().push(c));
        lemma_str_width_push(s.drop_first(), c);
    }
}

/// Width distributes over concatenation.
pub proof fn lemma_str_width_concat(a: Seq<char>, b: Seq<char>)
    ensures
        str_width(a + b) == str_width(a) + str_width(b),
    decreases a.len(),
{
    if a.len() == 0 {
        assert(a + b =~= b);
    } else {
        assert((a + b).drop_first() =~= a.drop_first() + b);
        lemma_str_width_concat(a.drop_first(), b);
    }
}

} // verus!
