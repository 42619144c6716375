//! A hexadecimal viewer for buffers of 8-bit or 16-bit elements: rows of
//! sixteen elements, each row led by the decimal position of its first
//! element.

use vstd::prelude::*;
use crate::digits::{digit_count, lemma_digit_count_monotone, DigitLength};

verus! {

/// `String::push` of the standard library: the string afterwards is the
/// string before with the character appended at its end.
pub assume_specification[ String::push ](s: &mut String, c: char)
    ensures
        final(s)@ == old(s)@.push(c),
;

/// The character for a decimal digit `v < 10`.
pub open spec fn decimal_digit(v: nat) -> char {
    (48 + v) as char
}

/// The character for a hexadecimal digit `v < 16`, in the given case.
pub open spec fn hex_digit(v: nat, lower: bool) -> char {
    if v < 10 {
        (48 + v) as char
    } else if lower {
        (87 + v) as char
    } else {
        (55 + v) as char
    }
}

/// `n` printed in decimal, without leading zeros.
pub open spec fn decimal(n: nat) -> Seq<char>
    decreases n,
{
    if n < 10 {
        seq![decimal_digit(n)]
    } else {
        decimal(n / 10).push(decimal_digit(n % 10))
    }
}

/// The lowest `width` hexadecimal digits of `v`, most significant first.
pub open spec fn hex_fixed(v: nat, width: nat, lower: bool) -> Seq<char>
    decreases width,
{
    if width == 0 {
        Seq::empty()
    } else {
        hex_fixed(v / 16, (width - 1) as nat, lower).push(hex_digit(v % 16, lower))
    }
}

/// `k` spaces.
pub open spec fn spaces(k: nat) -> Seq<char> {
    Seq::new(k, |i: int| ' ')
}

/// What follows the element at index `j` of a row: two spaces after the
/// last of each group of four, else one space. The rule is the same for
/// every element, the last of a row included.
pub open spec fn separator(j: nat) -> Seq<char> {
    if j % 4 == 3 {
        seq![' ', ' ']
    } else {
        seq![' ']
    }
}

/// An element of a buffer that can be viewed.
pub trait HexElement: Copy {
    /// The number that the element holds.
    spec fn value(self) -> nat;

    /// The number of hexadecimal digits that print an element.
    spec fn hex_width() -> nat;

    fn word(self) -> (r: u16)
        ensures
            r == self.value(),
    ;

    fn width() -> (r: usize)
        ensures
            r == Self::hex_width(),
    ;
}

impl HexElement for u8 {
    open spec fn value(self) -> nat {
        self as nat
    }

    open spec fn hex_width() -> nat {
        2
    }

    fn word(self) -> (r: u16) {
        self as u16
    }

    fn width() -> (r: usize) {
        2
    }
}

impl HexElement for u16 {
    open spec fn value(self) -> nat {
        self as nat
    }

    open spec fn hex_width() -> nat {
        4
    }

    fn word(self) -> (r: u16) {
        self
    }

    fn width() -> (r: usize) {
        4
    }
}

/// The elements of one row, each followed by its separator.
pub open spec fn elements<T: HexElement>(chunk: Seq<T>, lower: bool) -> Seq<char>
    decreases chunk.len(),
{
    if chunk.len() == 0 {
        Seq::empty()
    } else {
        elements(chunk.drop_last(), lower) + hex_fixed(
            chunk.last().value(),
            T::hex_width(),
            lower,
        ) + separator((chunk.len() - 1) as nat)
    }
}

/// The number of rows for a buffer of `len` elements.
pub open spec fn row_count(len: nat) -> nat {
    (len + 15) / 16
}

/// The number of elements in row `i` of a buffer of `len` elements.
pub open spec fn row_len(len: nat, i: nat) -> nat {
    if len >= 16 * i + 16 {
        16
    } else {
        (len - 16 * i) as nat
    }
}

/// Whether the position just past the buffer, `start + len`, fits in 64
/// bits; every row's position then fits too.
pub open spec fn positions_fit(start: nat, len: nat) -> bool {
    start + len <= u64::MAX
}

/// The width of the position column: the digit count of the position just
/// past the buffer, which no row's position exceeds.
pub open spec fn column_width(start: nat, len: nat) -> nat {
    digit_count(start + len)
}

/// Row `i` of the view: position, padding up to the column width, the bar
/// and a space, the elements, and a line feed.
pub open spec fn row<T: HexElement>(start: nat, buffer: Seq<T>, lower: bool, i: nat) -> Seq<char> {
    let position = start + 16 * i;
    let first = 16 * i;
    decimal(position) + spaces((column_width(start, buffer.len()) - digit_count(position)) as nat)
        + seq!['│', ' '] + elements(
        buffer.subrange(first as int, (first + row_len(buffer.len(), i)) as int),
        lower,
    ) + seq!['\n']
}

/// The first `k` rows, one after the other.
pub open spec fn rows_text<T: HexElement>(start: nat, buffer: Seq<T>, lower: bool, k: nat) -> Seq<
    char,
>
    decreases k,
{
    if k == 0 {
        Seq::empty()
    } else {
        rows_text(start, buffer, lower, (k - 1) as nat) + row(start, buffer, lower, (k - 1) as nat)
    }
}

/// The whole view of a buffer.
pub open spec fn dump<T: HexElement>(start: nat, buffer: Seq<T>, lower: bool) -> Seq<char> {
    rows_text(start, buffer, lower, row_count(buffer.len()))
}

/// A number prints with as many characters as it has digits.
pub proof fn lemma_decimal_len(n: nat)
    ensures
        decimal(n).len() == digit_count(n),
    decreases n,
{
    if n >= 10 {
        lemma_decimal_len(n / 10);
    }
}

/// A buffer of `len` elements has `ceil(len / 16)` rows; every row but the
/// last holds sixteen elements, and the last holds `len mod 16`, or sixteen
/// where that is zero. An empty buffer has no row.
pub proof fn lemma_row_partition(len: nat, i: nat)
    requires
        i < row_count(len),
    ensures
        row_count(len) == len / 16 + (if len % 16 == 0 { 0nat } else { 1nat }),
        i + 1 < row_count(len) ==> row_len(len, i) == 16,
        i + 1 == row_count(len) ==> row_len(len, i) == (if len % 16 == 0 { 16 } else { len % 16 }),
        16 * i + row_len(len, i) <= len,
        1 <= row_len(len, i) <= 16,
{
}

/// The bar stands in the same column of every row: at index
/// `column_width`, after the position and its padding.
pub proof fn lemma_bar_aligned<T: HexElement>(start: nat, buffer: Seq<T>, lower: bool, i: nat)
    requires
        i < row_count(buffer.len()),
    ensures
        row(start, buffer, lower, i).len() > column_width(start, buffer.len()),
        row(start, buffer, lower, i)[column_width(start, buffer.len()) as int] == '│',
        forall|c: int|
            digit_count(start + 16 * i) <= c < column_width(start, buffer.len()) ==> row(
                start,
                buffer,
                lower,
                i,
            )[c] == ' ',
{
    let position = start + 16 * i;
    let width = column_width(start, buffer.len());
    lemma_decimal_len(position);
    lemma_digit_count_monotone(position, start + buffer.len());
    let head = decimal(position) + spaces((width - digit_count(position)) as nat);
    assert(head.len() == width);
}

/// Appends `n` in decimal.
fn push_decimal(out: &mut String, n: u64)
    ensures
        final(out)@ == old(out)@ + decimal(n as nat),
    decreases n,
{
    if n >= 10 {
        push_decimal(out, n / 10);
    }
    let digit: u8 = (n % 10) as u8;
    out.push((48u8 + digit) as char);
    proof {
        assert(final(out)@ =~= old(out)@ + decimal(n as nat));
    }
}

/// Appends the lowest `width` hexadecimal digits of `v`.
fn push_hex(out: &mut String, v: u16, width: usize, lower: bool)
    ensures
        final(out)@ == old(out)@ + hex_fixed(v as nat, width as nat, lower),
    decreases width,
{
    if width > 0 {
        push_hex(out, v / 16, width - 1, lower);
        let digit: u8 = (v % 16) as u8;
        let c: char = if digit < 10 {
            (48u8 + digit) as char
        } else if lower {
            (87u8 + digit) as char
        } else {
            (55u8 + digit) as char
        };
        out.push(c);
    }
    proof {
        assert(final(out)@ =~= old(out)@ + hex_fixed(v as nat, width as nat, lower));
    }
}

/// Appends `k` spaces.
fn push_spaces(out: &mut String, k: usize)
    ensures
        final(out)@ == old(out)@ + spaces(k as nat),
{
    let mut done: usize = 0;
    while done < k
        invariant
            done <= k,
            out@ =~= old(out)@ + spaces(done as nat),
        decreases k - done,
    {
        out.push(' ');
        done = done + 1;
    }
}

/// Appends what follows the element at index `j` of a row.
fn push_separator(out: &mut String, j: usize)
    ensures
        final(out)@ == old(out)@ + separator(j as nat),
{
    out.push(' ');
    if j % 4 == 3 {
        out.push(' ');
    }
    proof {
        assert(final(out)@ =~= old(out)@ + separator(j as nat));
    }
}

/// Appends row `i` of the view, with its position padded to `column`
/// characters.
fn push_row<T: HexElement>(
    out: &mut String,
    start: u64,
    buffer: &[T],
    lower: bool,
    i: usize,
    column: usize,
)
    requires
        positions_fit(start as nat, buffer@.len()),
        i < row_count(buffer@.len()),
        column == column_width(start as nat, buffer@.len()),
    ensures
        final(out)@ == old(out)@ + row(start as nat, buffer@, lower, i as nat),
{
    let len = buffer.len();
    let first: usize = i * 16;
    let count: usize = if len - first >= 16 {
        16
    } else {
        len - first
    };
    let position: u64 = start + first as u64;
    proof {
        lemma_digit_count_monotone(position as nat, start as nat + len as nat);
    }
    push_decimal(out, position);
    push_spaces(out, column - position.length());
    out.push('│');
    out.push(' ');
    let ghost head = out@;
    let ghost chunk = buffer@.subrange(first as int, first + count);
    let mut j: usize = 0;
    while j < count
        invariant
            j <= count,
            first + count <= len,
            len == buffer@.len(),
            chunk == buffer@.subrange(first as int, first + count),
            out@ == head + elements(chunk.subrange(0, j as int), lower),
        decreases count - j,
    {
        let ghost before = out@;
        push_hex(out, buffer[first + j].word(), T::width(), lower);
        push_separator(out, j);
        proof {
            let part = chunk.subrange(0, j + 1);
            assert(part.drop_last() =~= chunk.subrange(0, j as int));
            assert(part.last() == buffer@[first + j]);
            assert(out@ =~= head + elements(part, lower));
        }
        j = j + 1;
    }
    out.push('\n');
    proof {
        assert(chunk.subrange(0, count as int) =~= chunk);
        assert(final(out)@ =~= old(out)@ + row(start as nat, buffer@, lower, i as nat));
    }
}

/// The number of rows for a buffer of `len` elements.
fn count_rows(len: usize) -> (total: usize)
    ensures
        total == row_count(len as nat),
{
    len / 16 + if len % 16 == 0 {
        0
    } else {
        1
    }
}

/// Tells whether a buffer of `len` elements that starts at `start` can be
/// rendered: whether the position just past it fits in 64 bits.
pub fn can_render(start: u64, len: usize) -> (b: bool)
    ensures
        b == positions_fit(start as nat, len as nat),
{
    len as u64 <= u64::MAX - start
}

/// The width of the position column for `len` elements from `start`.
fn column_of(start: u64, len: usize) -> (column: usize)
    requires
        positions_fit(start as nat, len as nat),
    ensures
        column == column_width(start as nat, len as nat),
{
    let past: u64 = start + len as u64;
    past.length()
}

/// Renders the rows of a buffer whose first element stands at position
/// `start`, one string per row.
pub fn render_rows<T: HexElement>(lower: bool, start: u64, buffer: &[T]) -> (rows: Vec<String>)
    requires
        positions_fit(start as nat, buffer@.len()),
    ensures
        rows@.len() == row_count(buffer@.len()),
        forall|i: int|
            0 <= i < rows@.len() ==> (#[trigger] rows@[i])@ == row(
                start as nat,
                buffer@,
                lower,
                i as nat,
            ),
{
    let total: usize = count_rows(buffer.len());
    let column: usize = column_of(start, buffer.len());
    let mut rows: Vec<String> = Vec::new();
    let mut i: usize = 0;
    while i < total
        invariant
            i <= total,
            total == row_count(buffer@.len()),
            column == column_width(start as nat, buffer@.len()),
            positions_fit(start as nat, buffer@.len()),
            rows@.len() == i,
            forall|k: int|
                0 <= k < i ==> (#[trigger] rows@[k])@ == row(start as nat, buffer@, lower, k as nat),
        decreases total - i,
    {
        let mut line = String::new();
        push_row(&mut line, start, buffer, lower, i, column);
        rows.push(line);
        i = i + 1;
    }
    rows
}

/// Renders the whole view of a buffer whose first element stands at
/// position `start`: every row, each ended by a line feed.
pub fn render<T: HexElement>(lower: bool, start: u64, buffer: &[T]) -> (text: String)
    requires
        positions_fit(start as nat, buffer@.len()),
    ensures
        text@ == dump(start as nat, buffer@, lower),
{
    let total: usize = count_rows(buffer.len());
    let column: usize = column_of(start, buffer.len());
    let mut text = String::new();
    let mut i: usize = 0;
    while i < total
        invariant
            i <= total,
            total == row_count(buffer@.len()),
            column == column_width(start as nat, buffer@.len()),
            positions_fit(start as nat, buffer@.len()),
            text@ == rows_text(start as nat, buffer@, lower, i as nat),
        decreases total - i,
    {
        push_row(&mut text, start, buffer, lower, i, column);
        i = i + 1;
    }
    text
}

/// A view of a buffer of bytes.
pub struct HexViewer8<'i> {
    pub lower: bool,
    pub start: u64,
    pub buffer: &'i [u8],
}

/// A view of a buffer of 16-bit words.
pub struct HexViewer16<'i> {
    pub lower: bool,
    pub start: u64,
    pub buffer: &'i [u16],
}

impl<'i> HexViewer8<'i> {
    /// Whether the position just past the buffer fits in 64 bits.
    pub open spec fn fits(&self) -> bool {
        positions_fit(self.start as nat, self.buffer@.len())
    }

    /// The text of the view.
    pub open spec fn text(&self) -> Seq<char> {
        dump(self.start as nat, self.buffer@, self.lower)
    }

    /// The rows of the view, two hexadecimal digits per byte.
    pub fn rows(&self) -> (rows: Vec<String>)
        requires
            self.fits(),
        ensures
            rows@.len() == row_count(self.buffer@.len()),
            forall|i: int|
                0 <= i < rows@.len() ==> (#[trigger] rows@[i])@ == row(
                    self.start as nat,
                    self.buffer@,
                    self.lower,
                    i as nat,
                ),
    {
        render_rows(self.lower, self.start, self.buffer)
    }

    /// The view as one text.
    pub fn to_string(&self) -> (text: String)
        requires
            self.fits(),
        ensures
            text@ == self.text(),
    {
        render(self.lower, self.start, self.buffer)
    }
}

impl<'i> HexViewer16<'i> {
    /// Whether the position just past the buffer fits in 64 bits.
    pub open spec fn fits(&self) -> bool {
        positions_fit(self.start as nat, self.buffer@.len())
    }

    /// The text of the view.
    pub open spec fn text(&self) -> Seq<char> {
        dump(self.start as nat, self.buffer@, self.lower)
    }

    /// The rows of the view, four hexadecimal digits per word.
    pub fn rows(&self) -> (rows: Vec<String>)
        requires
            self.fits(),
        ensures
            rows@.len() == row_count(self.buffer@.len()),
            forall|i: int|
                0 <= i < rows@.len() ==> (#[trigger] rows@[i])@ == row(
                    self.start as nat,
                    self.buffer@,
                    self.lower,
                    i as nat,
                ),
    {
        render_rows(self.lower, self.start, self.buffer)
    }

    /// The view as one text.
    pub fn to_string(&self) -> (text: String)
        requires
            self.fits(),
        ensures
            text@ == self.text(),
    {
        render(self.lower, self.start, self.buffer)
    }
}

} // verus!
