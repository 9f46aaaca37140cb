//! The pixel buffer and its textual image serialization.
//!
//! A canvas is a row-major grid of colors.  `to_ppm` renders it into the
//! plain-text pixel format: a three-line header, then each row's channel
//! values in decimal, wrapped so no output line exceeds 70 characters and
//! no number is split across lines.  The line-wrapping writer and the
//! helpers it is built from carry exact contracts, so the produced text is
//! pinned down character by character.

use crate::scalar::{Scalar, SCALE};
use crate::tuples::{tup, Tuple};
use vstd::prelude::*;
use vstd::std_specs::iter::IteratorSpec;
use vstd::string::StringExecFns;

verus! {

/// An 8-bit channel value: the unit-interval value scaled to 255 with
/// round half up, clamping anything outside the interval.
pub open spec fn to_8bit(value: int) -> int {
    if value > SCALE {
        255
    } else if value < 0 {
        0
    } else {
        (value * 255 + SCALE / 2) / (SCALE as int)
    }
}

/// Clamp a channel to the unit interval and scale it to 0..=255, rounding
/// half up.
pub fn color_value_to_8bit(value: Scalar) -> (r: u8)
    ensures
        r == to_8bit(value.v as int),
{
    if value.v > SCALE {
        255
    } else if value.v < 0 {
        0
    } else {
        let scaled: u64 = (value.v as u64) * 255 + (SCALE as u64) / 2;
        let q: u64 = scaled / (SCALE as u64);
        proof {
            assert(q <= 255) by (nonlinear_arith)
                requires
                    q as int == ((value.v as int) * 255 + (SCALE as int) / 2) / (SCALE as int),
                    0 <= value.v as int <= SCALE as int,
                    SCALE as int == 1000000000,
            ;
        }
        q as u8
    }
}

/// The decimal digit characters of a nonnegative number, most significant
/// first.
pub open spec fn dec_chars(n: int) -> Seq<char>
    decreases n,
{
    if n < 10 {
        seq![digit_char(n)]
    } else {
        dec_chars(n / 10).push(digit_char(n % 10))
    }
}

/// The character for one decimal digit.
pub open spec fn digit_char(d: int) -> char {
    if d == 0 {
        '0'
    } else if d == 1 {
        '1'
    } else if d == 2 {
        '2'
    } else if d == 3 {
        '3'
    } else if d == 4 {
        '4'
    } else if d == 5 {
        '5'
    } else if d == 6 {
        '6'
    } else if d == 7 {
        '7'
    } else if d == 8 {
        '8'
    } else {
        '9'
    }
}

/// The string slice holding one decimal digit.
fn digit_str(d: u32) -> (r: &'static str)
    requires
        d < 10,
    ensures
        r@ == seq![digit_char(d as int)],
{
    proof {
        reveal_strlit("0");
        reveal_strlit("1");
        reveal_strlit("2");
        reveal_strlit("3");
        reveal_strlit("4");
        reveal_strlit("5");
        reveal_strlit("6");
        reveal_strlit("7");
        reveal_strlit("8");
        reveal_strlit("9");
    }
    if d == 0 {
        "0"
    } else if d == 1 {
        "1"
    } else if d == 2 {
        "2"
    } else if d == 3 {
        "3"
    } else if d == 4 {
        "4"
    } else if d == 5 {
        "5"
    } else if d == 6 {
        "6"
    } else if d == 7 {
        "7"
    } else if d == 8 {
        "8"
    } else {
        "9"
    }
}

/// Append the decimal form of `n` to the string.
fn append_decimal(s: &mut String, n: u32)
    ensures
        final (s)@ == old(s)@ + dec_chars(n as int),
    decreases n,
{
    if n < 10 {
        s.append(digit_str(n));
    } else {
        append_decimal(s, n / 10);
        s.append(digit_str(n % 10));
    }
}

/// How many characters the decimal form of an 8-bit value takes.
pub open spec fn digits_len(num: int) -> int {
    if num > 99 {
        3
    } else if num > 9 {
        2
    } else {
        1
    }
}

/// The writer state after pushing a pre-measured piece: a newline first
/// when the piece would overflow the current line.
pub open spec fn lls_push_str(
    s: Seq<char>,
    tll: int,
    limit: int,
    piece: Seq<char>,
    n: int,
) -> (Seq<char>, int) {
    if tll + n > limit {
        (s + seq!['\n'] + piece, n)
    } else {
        (s + piece, tll + n)
    }
}

/// The writer state after pushing one decimal number: wrapped to a fresh
/// line when it (plus its leading space) would overflow, else padded with
/// one space when `padded` asks for it.
pub open spec fn lls_push_num(
    s: Seq<char>,
    tll: int,
    limit: int,
    padded: bool,
    num: int,
) -> (Seq<char>, int) {
    let pad: int = if padded {
        1
    } else {
        0
    };
    let n = digits_len(num);
    if tll + n + pad > limit {
        (s + seq!['\n'] + dec_chars(num), n)
    } else if padded {
        (s + seq![' '] + dec_chars(num), tll + n + 1)
    } else {
        (s + dec_chars(num), tll + n)
    }
}

/// The writer state after a forced line break.
pub open spec fn lls_newline(s: Seq<char>, tll: int) -> (Seq<char>, int) {
    (s + seq!['\n'], 0)
}

/// A string builder that wraps its content at a line-length limit.  The
/// caller measures what it pushes; numbers measure themselves.
pub struct LineLengthLimitedString {
    pub limit: usize,
    pub this_line_length: usize,
    pub string: String,
}

impl LineLengthLimitedString {
    /// An empty writer with the given line-length limit.
    pub fn new(limit: usize) -> (r: LineLengthLimitedString)
        ensures
            r.limit == limit,
            r.this_line_length == 0,
            r.string@ == Seq::<char>::empty(),
    {
        LineLengthLimitedString { limit, this_line_length: 0, string: String::new() }
    }

    /// Push a piece whose display width the caller declares as `n`,
    /// breaking the line first if the declared width would overflow it.
    pub fn push_str(&mut self, s: &str, n: usize)
        requires
            old(self).this_line_length + n <= usize::MAX,
        ensures
            final (self).limit == old(self).limit,
            (final (self).string@, final (self).this_line_length as int) == lls_push_str(
                old(self).string@,
                old(self).this_line_length as int,
                old(self).limit as int,
                s@,
                n as int,
            ),
    {
        if self.this_line_length + n > self.limit {
            proof {
                reveal_strlit("\n");
            }
            self.string.append("\n");
            self.this_line_length = 0;
        }
        self.string.append(s);
        self.this_line_length = self.this_line_length + n;
    }

    /// Push one 8-bit number in decimal, preceded by a space when
    /// `padded_front` holds, wrapping to a fresh (unpadded) line when the
    /// number would not fit on this one.
    pub fn push_num(&mut self, padded_front: bool, num: u8)
        requires
            old(self).this_line_length + 4 <= usize::MAX,
        ensures
            final (self).limit == old(self).limit,
            (final (self).string@, final (self).this_line_length as int) == lls_push_num(
                old(self).string@,
                old(self).this_line_length as int,
                old(self).limit as int,
                padded_front,
                num as int,
            ),
    {
        let mut padded = padded_front;
        let padding_n: usize = if padded {
            1
        } else {
            0
        };
        let n: usize = if num > 99 {
            3
        } else if num > 9 {
            2
        } else {
            1
        };
        if self.this_line_length + n + padding_n > self.limit {
            proof {
                reveal_strlit("\n");
            }
            self.string.append("\n");
            self.this_line_length = 0;
            padded = false;
        }
        if padded {
            proof {
                reveal_strlit(" ");
            }
            self.string.append(" ");
        }
        append_decimal(&mut self.string, num as u32);
        proof {
            lemma_dec_chars_len(num as int);
        }
        self.this_line_length = self.this_line_length + n;
        if padded {
            self.this_line_length = self.this_line_length + 1;
        }
    }

    /// End the current line.
    pub fn newline(&mut self)
        ensures
            final (self).limit == old(self).limit,
            (final (self).string@, final (self).this_line_length as int) == lls_newline(
                old(self).string@,
                old(self).this_line_length as int,
            ),
    {
        proof {
            reveal_strlit("\n");
        }
        self.string.append("\n");
        self.this_line_length = 0;
    }
}

/// An 8-bit value's decimal form is as long as `digits_len` says.
proof fn lemma_dec_chars_len(num: int)
    requires
        0 <= num <= 255,
    ensures
        dec_chars(num).len() == digits_len(num),
{
    if num >= 100 {
        assert(dec_chars(num / 10).len() == 2) by {
            assert(dec_chars((num / 10) / 10).len() == 1);
        }
    } else if num >= 10 {
        assert(dec_chars(num / 10).len() == 1);
    }
}

/// The writer state after the serialization header: the magic line, the
/// width and height in decimal, and the maximum channel value.
pub open spec fn ppm_header_st(w: int, h: int) -> (Seq<char>, int) {
    let st1 = lls_push_str(Seq::empty(), 0, 70, "P3\n"@, 0);
    let s2 = st1.0 + dec_chars(w) + seq![' '] + dec_chars(h) + seq!['\n'];
    lls_push_str(s2, st1.1, 70, "255\n"@, 0)
}

/// The writer state after one pixel: its three channels as 8-bit decimals,
/// the first unpadded at a row start, the rest padded with one space.
pub open spec fn ppm_pixel_s(
    st: (Seq<char>, int),
    p: Tuple,
    first: bool,
    limit: int,
) -> (Seq<char>, int) {
    let s1 = lls_push_num(st.0, st.1, limit, !first, to_8bit(p.x.v as int));
    let s2 = lls_push_num(s1.0, s1.1, limit, true, to_8bit(p.y.v as int));
    lls_push_num(s2.0, s2.1, limit, true, to_8bit(p.z.v as int))
}

/// The writer state after the first `ncols` pixels of the row starting at
/// `base`.
pub open spec fn ppm_row_s(
    st: (Seq<char>, int),
    pixels: Seq<Tuple>,
    base: int,
    ncols: int,
    limit: int,
) -> (Seq<char>, int)
    decreases ncols,
{
    if ncols <= 0 {
        st
    } else {
        ppm_pixel_s(
            ppm_row_s(st, pixels, base, ncols - 1, limit),
            pixels[base + (ncols - 1)],
            ncols - 1 == 0,
            limit,
        )
    }
}

/// The writer state after the first `nrows` rows, each ended by a newline.
pub open spec fn ppm_rows_s(
    st: (Seq<char>, int),
    pixels: Seq<Tuple>,
    width: int,
    nrows: int,
    limit: int,
) -> (Seq<char>, int)
    decreases nrows,
{
    if nrows <= 0 {
        st
    } else {
        let r = ppm_row_s(
            ppm_rows_s(st, pixels, width, nrows - 1, limit),
            pixels,
            (nrows - 1) * width,
            width,
            limit,
        );
        lls_newline(r.0, r.1)
    }
}

/// The full serialized text of a canvas.
pub open spec fn ppm_spec(c: Canvas) -> Seq<char> {
    ppm_rows_s(
        ppm_header_st(c.width as int, c.height as int),
        c.pixels@,
        c.width as int,
        c.height as int,
        70,
    ).0
}

/// The line-splitting scan: characters fold into the current line, each
/// newline closes it, and a nonempty final line is kept.  This matches how
/// text is split into lines for comparison: a trailing newline ends the
/// last line instead of opening an empty one.
pub open spec fn lines_acc(
    s: Seq<char>,
    i: int,
    cur: Seq<char>,
    acc: Seq<Seq<char>>,
) -> Seq<Seq<char>>
    decreases s.len() - i,
{
    if i < 0 || i >= s.len() {
        if cur.len() > 0 {
            acc.push(cur)
        } else {
            acc
        }
    } else if s[i] == '\n' {
        lines_acc(s, i + 1, Seq::empty(), acc.push(cur))
    } else {
        lines_acc(s, i + 1, cur.push(s[i]), acc)
    }
}

/// The lines of a text.
pub open spec fn lines_of(s: Seq<char>) -> Seq<Seq<char>> {
    lines_acc(s, 0, Seq::empty(), Seq::empty())
}

/// Whether lines `from..=to` of `actual` exist and agree with the first
/// lines of `expected`.
pub open spec fn string_lines_match(actual: Seq<char>, expected: Seq<char>, from: int, to: int) -> bool {
    let la = lines_of(actual);
    let le = lines_of(expected);
    &&& la.len() > to
    &&& le.len() >= to + 1 - from
    &&& forall|i: int| from <= i <= to ==> le[i - from] == #[trigger] la[i]
}

/// Split a text into its lines.
fn split_lines(s: &str) -> (r: Vec<Vec<char>>)
    ensures
        r@.len() == lines_of(s@).len(),
        forall|i: int| 0 <= i < r@.len() ==> #[trigger] r@[i]@ == lines_of(s@)[i],

{
    broadcast use vstd::string::next_postcondition;
    broadcast use vstd::string::axiom_spec_iter;

    let ghost all = s@;
    let mut it = s.chars();
    let ghost mut i: int = 0;
    let mut cur: Vec<char> = Vec::new();
    let mut acc: Vec<Vec<char>> = Vec::new();
    let mut done = false;
    proof {
        assert(it.remaining() =~= all.subrange(0, all.len() as int));
        assert(cur@ =~= Seq::<char>::empty());
        assert(lines_partial_of(acc@) =~= Seq::<Seq<char>>::empty());
    }
    while !done
        invariant
            0 <= i <= all.len(),
            s@ == all,
            it.obeys_prophetic_iter_laws(),
            it.remaining() == all.subrange(i, all.len() as int),
            !done ==> lines_acc(all, i, cur@, lines_partial_of(acc@)) == lines_of(all),
            done ==> i == all.len() && lines_partial_of(acc@) == lines_of(all),
        decreases all.len() - i + (if done { 0int } else { 1int }),
    {
        let ghost rem_before = it.remaining();
        let step = it.next();
        match step {
            Option::Some(c) => {
                proof {
                    assert(rem_before.len() > 0);
                    assert(c == all[i]);
                    assert(it.remaining() =~= all.subrange(i + 1, all.len() as int));
                }
                if c == '\n' {
                    let ghost acc_before = lines_partial_of(acc@);
                    let ghost acc_seq = acc@;
                    acc.push(cur);
                    cur = Vec::new();
                    proof {
                        assert(acc@.drop_last() =~= acc_seq);
                        lemma_lines_partial_push(acc, acc_before);
                    }
                } else {
                    cur.push(c);
                }
                proof {
                    i = i + 1;
                }
            },
            Option::None => {
                proof {
                    assert(rem_before.len() == 0);
                    assert(i == all.len());
                }
                if cur.len() > 0 {
                    let ghost acc_before = lines_partial_of(acc@);
                    let ghost acc_seq = acc@;
                    acc.push(cur);
                    cur = Vec::new();
                    proof {
                        assert(acc@.drop_last() =~= acc_seq);
                        lemma_lines_partial_push(acc, acc_before);
                    }
                }
                done = true;
            },
        }
    }
    proof {
        assert forall|k: int| 0 <= k < acc@.len() implies #[trigger] acc@[k]@ == lines_of(all)[k] by {
            assert(lines_partial_of(acc@)[k] == acc@[k]@);
        }
    }
    acc
}

/// The views of a sequence of character vectors.
pub open spec fn lines_partial_of(s: Seq<Vec<char>>) -> Seq<Seq<char>> {
    s.map(|i: int, v: Vec<char>| v@)
}

/// Pushing one line extends the mapped views by that line's view.
proof fn lemma_lines_partial_push(acc: Vec<Vec<char>>, before: Seq<Seq<char>>)
    requires
        acc@.len() > 0,
        before == lines_partial_of(acc@.drop_last()),
    ensures
        lines_partial_of(acc@) == before.push(acc@.last()@),
{
    assert(lines_partial_of(acc@) =~= lines_partial_of(acc@.drop_last()).push(acc@.last()@));
}

/// Whether two lines hold the same characters.
fn chars_eq(a: &Vec<char>, b: &Vec<char>) -> (r: bool)
    ensures
        r == (a@ == b@),
{
    if a.len() != b.len() {
        proof {
            assert(a@ != b@);
        }
        return false;
    }
    let mut i: usize = 0;
    while i < a.len()
        invariant
            i <= a@.len(),
            a@.len() == b@.len(),
            forall|j: int| 0 <= j < i ==> a@[j] == b@[j],
        decreases a@.len() - i,
    {
        if a[i] != b[i] {
            proof {
                assert(a@[i as int] != b@[i as int]);
                assert(a@ != b@);
            }
            return false;
        }
        i = i + 1;
    }
    proof {
        assert(a@ =~= b@);
    }
    true
}

/// Whether lines `from..=to` of `actual` agree with the leading lines of
/// `expected`, as a checked comparison for serialized text.
pub fn assert_string_eq_for_range(actual: String, expected: String, from: usize, to: usize) -> (r:
    bool)
    requires
        from <= to,
        to < usize::MAX,
    ensures
        r == string_lines_match(actual@, expected@, from as int, to as int),
{
    let actual_lines = split_lines(actual.as_str());
    let expected_lines = split_lines(expected.as_str());
    if actual_lines.len() <= to {
        return false;
    }
    if expected_lines.len() < to + 1 - from {
        return false;
    }
    let mut i: usize = from;
    while i <= to
        invariant
            from <= i <= to + 1,
            to < usize::MAX,
            to < actual_lines@.len(),
            to + 1 - from <= expected_lines@.len(),
            actual_lines@.len() == lines_of(actual@).len(),
            forall|j: int|
                0 <= j < actual_lines@.len() ==> #[trigger] actual_lines@[j]@ == lines_of(
                    actual@,
                )[j],
            expected_lines@.len() == lines_of(expected@).len(),
            forall|j: int|
                0 <= j < expected_lines@.len() ==> #[trigger] expected_lines@[j]@ == lines_of(
                    expected@,
                )[j],
            forall|j: int|
                from <= j < i ==> lines_of(expected@)[j - from] == #[trigger] lines_of(actual@)[j],
        decreases to + 1 - i,
    {
        if !chars_eq(&expected_lines[i - from], &actual_lines[i]) {
            proof {
                assert(lines_of(expected@)[i - from] != lines_of(actual@)[i as int]);
            }
            return false;
        }
        i = i + 1;
    }
    true
}

/// A 32-bit coordinate pair's row-major index fits in 64 bits.
proof fn lemma_flat_index_fits(y: int, w: int, x: int)
    requires
        0 <= y <= 4294967295,
        0 <= w <= 4294967295,
        0 <= x <= 4294967295,
    ensures
        0 <= y * w + x < 18446744073709551616,
{
    assert(y * w <= 4294967295 * 4294967295) by (nonlinear_arith)
        requires
            0 <= y <= 4294967295,
            0 <= w <= 4294967295,
    ;
    assert(y * w >= 0) by (nonlinear_arith)
        requires
            y >= 0,
            w >= 0,
    ;
}

/// A row-major grid of colors.
pub struct Canvas {
    pub width: u32,
    pub height: u32,
    pub pixels: Vec<Tuple>,
}

impl Canvas {
    /// A black canvas of the given size.
    pub fn new(width: u32, height: u32) -> (r: Canvas)
        requires
            width as int * height as int <= usize::MAX,
        ensures
            r.width == width,
            r.height == height,
            r.pixels@.len() == width as int * height as int,
            forall|i: int| 0 <= i < r.pixels@.len() ==> #[trigger] r.pixels@[i] == tup(0, 0, 0, 0),
    {
        let num: u64 = (width as u64) * (height as u64);
        let mut pixels: Vec<Tuple> = Vec::new();
        let mut i: u64 = 0;
        while i < num
            invariant
                i <= num,
                num == width as int * height as int,
                pixels@.len() == i,
                forall|j: int| 0 <= j < pixels@.len() ==> #[trigger] pixels@[j] == tup(0, 0, 0, 0),
            decreases num - i,
        {
            pixels.push(Tuple::color(Scalar { v: 0 }, Scalar { v: 0 }, Scalar { v: 0 }));
            i = i + 1;
        }
        Canvas { width, height, pixels }
    }

    /// The row-major index of a coordinate pair, unconstrained by bounds.
    pub open spec fn index_of(&self, x: int, y: int) -> int {
        y * (self.width as int) + x
    }

    /// Store a color at `(x, y)`; writes outside the buffer are ignored.
    pub fn write_pixel(&mut self, x: u32, y: u32, color: &Tuple)
        ensures
            final (self).width == old(self).width,
            final (self).height == old(self).height,
            old(self).index_of(x as int, y as int) < old(self).pixels@.len() ==> final (self).pixels@
                == old(self).pixels@.update(old(self).index_of(x as int, y as int), *color),
            old(self).index_of(x as int, y as int) >= old(self).pixels@.len() ==> final (self).pixels@
                == old(self).pixels@,
    {
        proof {
            lemma_flat_index_fits(y as int, self.width as int, x as int);
        }
        let idx: u64 = (y as u64) * (self.width as u64) + (x as u64);
        if idx < self.pixels.len() as u64 {
            let i: usize = idx as usize;
            self.pixels[i] = *color;
        }
    }

    /// The color at `(x, y)`, or nothing outside the buffer.
    pub fn pixel_at(&self, x: u32, y: u32) -> (r: Option<&Tuple>)
        ensures
            self.index_of(x as int, y as int) < self.pixels@.len() ==> r is Some && *r->0
                == self.pixels@[self.index_of(x as int, y as int)],
            self.index_of(x as int, y as int) >= self.pixels@.len() ==> r is None,
    {
        proof {
            lemma_flat_index_fits(y as int, self.width as int, x as int);
        }
        let idx: u64 = (y as u64) * (self.width as u64) + (x as u64);
        if idx < self.pixels.len() as u64 {
            let i: usize = idx as usize;
            Some(&self.pixels[i])
        } else {
            None
        }
    }

    /// Serialize the canvas to the plain-text pixel format: the header
    /// (magic line, width and height, maximum channel value), then each
    /// row's channel values in decimal, wrapped at 70 characters.
    pub fn to_ppm(&self) -> (r: String)
        requires
            self.width >= 1,
            self.pixels@.len() == self.width as int * self.height as int,
        ensures
            r@ == ppm_spec(*self),
    {
        let mut ppm = LineLengthLimitedString::new(70);
        ppm.push_str("P3\n", 0);
        append_decimal(&mut ppm.string, self.width);
        proof {
            reveal_strlit(" ");
            reveal_strlit("\n");
        }
        ppm.string.append(" ");
        append_decimal(&mut ppm.string, self.height);
        ppm.string.append("\n");
        ppm.push_str("255\n", 0);
        let ghost header = (ppm.string@, ppm.this_line_length as int);
        proof {
            assert(header == ppm_header_st(self.width as int, self.height as int));
        }
        let w: u32 = self.width;
        let h: u32 = self.height;
        let mut row: u32 = 0;
        while row < h
            invariant
                row <= h,
                w == self.width,
                h == self.height,
                w >= 1,
                self.pixels@.len() == w as int * h as int,
                ppm.limit == 70,
                (ppm.string@, ppm.this_line_length as int) == ppm_rows_s(
                    header,
                    self.pixels@,
                    w as int,
                    row as int,
                    70,
                ),
                ppm.this_line_length <= 74,
            decreases h - row,
        {
            let ghost row_start = (ppm.string@, ppm.this_line_length as int);
            let mut col: u32 = 0;
            while col < w
                invariant
                    col <= w,
                    row < h,
                    w == self.width,
                    h == self.height,
                    w >= 1,
                    self.pixels@.len() == w as int * h as int,
                    ppm.limit == 70,
                    (ppm.string@, ppm.this_line_length as int) == ppm_row_s(
                        row_start,
                        self.pixels@,
                        row as int * w as int,
                        col as int,
                        70,
                    ),
                    ppm.this_line_length <= 74,
                decreases w - col,
            {
                proof {
                    lemma_flat_index_fits(row as int, w as int, col as int);
                    assert((row as int) * (w as int) + (col as int) < (w as int) * (h as int))
                        by (nonlinear_arith)
                        requires
                            0 <= (col as int) && (col as int) < (w as int),
                            0 <= (row as int) && (row as int) < (h as int),
                    ;
                    assert((row as int) * (w as int) >= 0) by (nonlinear_arith)
                        requires
                            row as int >= 0,
                            w as int >= 0,
                    ;
                }
                let idx: u64 = (row as u64) * (w as u64) + (col as u64);
                let len: usize = self.pixels.len();
                proof {
                    assert(idx < len as u64);
                }
                let i: usize = idx as usize;
                let pixel = self.pixels[i];
                let ghost st_before = (ppm.string@, ppm.this_line_length as int);
                ppm.push_num(col > 0, color_value_to_8bit(pixel.x));
                ppm.push_num(true, color_value_to_8bit(pixel.y));
                ppm.push_num(true, color_value_to_8bit(pixel.z));
                proof {
                    assert((ppm.string@, ppm.this_line_length as int) == ppm_pixel_s(
                        st_before,
                        self.pixels@[row as int * w as int + col as int],
                        col == 0,
                        70,
                    ));
                    assert((ppm.string@, ppm.this_line_length as int) == ppm_row_s(
                        row_start,
                        self.pixels@,
                        row as int * w as int,
                        col as int + 1,
                        70,
                    ));
                }
                col = col + 1;
            }
            ppm.newline();
            row = row + 1;
        }
        ppm.string
    }

    /// The row-major coordinates of a flat pixel index: the column is the
    /// remainder by the width, the row the quotient.
    pub fn index_to_coords(&self, idx: usize) -> (r: (u32, u32))
        requires
            self.width != 0,
            idx <= u32::MAX,
        ensures
            r.0 == (idx as int) % (self.width as int),
            r.1 == (idx as int) / (self.width as int),
    {
        ((idx as u32) % self.width, (idx as u32) / self.width)
    }
}

} // verus!
