//! Plain PPM text encoding of a clamped pixel grid.
//!
//! The encoder receives the pixel grid with each channel already clamped
//! to a byte (the embedding renderer maps its unbounded linear colors to
//! 0..=255 before handing the grid over) and produces the complete text of
//! a plain PPM file: the magic number `P3`, a comment line, the dimensions,
//! the maximum channel value, and then one text line per pixel row, each
//! pixel written as three decimal channel values. Within a row a line
//! break is inserted after every fifth pixel to keep lines short, and the
//! file always ends with a newline.

use crate::canvas::Canvas;
use vstd::prelude::*;

verus! {

/// Maximum color channel value of the produced PPM text.
pub const COLOR_MAXVAL: u16 = 255;

/// One pixel with its three channels clamped to 0..=COLOR_MAXVAL.
#[derive(Debug, PartialEq, Eq, Structural, Clone, Copy)]
pub struct Rgb {
    /// Red channel.
    pub r: u8,
    /// Green channel.
    pub g: u8,
    /// Blue channel.
    pub b: u8,
}

impl Rgb {
    /// A clamped pixel from its three channels.
    pub fn new(r: u8, g: u8, b: u8) -> (p: Self)
        ensures
            p == (Rgb { r, g, b }),
    {
        Rgb { r, g, b }
    }
}

/// The decimal digit `d` as a character.
pub open spec fn digit_char(d: int) -> char {
    if d == 0 {
        '0'
    } else if d == 1 {
        '1'
    } else if d == 2 {
        '2'
    } else if d == 3 {
        '3'
    } else if d == 4 {
        '4'
    } else if d == 5 {
        '5'
    } else if d == 6 {
        '6'
    } else if d == 7 {
        '7'
    } else if d == 8 {
        '8'
    } else {
        '9'
    }
}

/// The decimal notation of `n`, without leading zeros (except for 0
/// itself).
pub open spec fn dec_chars(n: int) -> Seq<char>
    decreases n,
{
    if n < 10 {
        seq![digit_char(n)]
    } else {
        dec_chars(n / 10) + seq![digit_char(n % 10)]
    }
}

/// The text of one pixel: the three channel values in decimal, separated
/// by single spaces and followed by two spaces.
pub open spec fn pixel_chars(p: Rgb) -> Seq<char> {
    dec_chars(p.r as int) + seq![' '] + dec_chars(p.g as int) + seq![' '] + dec_chars(
        p.b as int,
    ) + seq![' ', ' ']
}

/// The text of the first `n` pixels of one row, with a line break after
/// every fifth pixel.
pub open spec fn row_chars(row: Seq<Rgb>, n: int) -> Seq<char>
    decreases n,
{
    if n <= 0 {
        Seq::empty()
    } else {
        row_chars(row, n - 1) + pixel_chars(row[n - 1]) + if n % 5 == 0 {
            seq!['\n']
        } else {
            Seq::empty()
        }
    }
}

/// The text of the first `n` rows of the grid, each preceded by the line
/// break that separates it from the previous line of the file.
pub open spec fn rows_chars(grid: Seq<Seq<Rgb>>, n: int) -> Seq<char>
    decreases n,
{
    if n <= 0 {
        Seq::empty()
    } else {
        rows_chars(grid, n - 1) + seq!['\n'] + row_chars(grid[n - 1], grid[n - 1].len() as int)
    }
}

/// The header of the file: magic number, comment, dimensions and maximum
/// channel value.
pub open spec fn header_chars(width: int, height: int) -> Seq<char> {
    "P3\n# automatically generated plain ppm file\n"@ + dec_chars(width) + seq![' ']
        + dec_chars(height) + seq!['\n'] + dec_chars(COLOR_MAXVAL as int)
}

/// The complete PPM text of a grid: header, pixel rows, and a final
/// newline if the last line did not already end in one.
pub open spec fn ppm_chars(width: int, height: int, grid: Seq<Seq<Rgb>>) -> Seq<char> {
    let base = header_chars(width, height) + rows_chars(grid, height);
    if base.last() == '\n' {
        base
    } else {
        base + seq!['\n']
    }
}

/// Appends the single decimal digit `d` to `s`.
fn append_digit(s: &mut String, d: u8)
    requires
        d < 10,
    ensures
        final(s)@ == old(s)@ + seq![digit_char(d as int)],
{
    proof {
        reveal_strlit("0");
        reveal_strlit("1");
        reveal_strlit("2");
        reveal_strlit("3");
        reveal_strlit("4");
        reveal_strlit("5");
        reveal_strlit("6");
        reveal_strlit("7");
        reveal_strlit("8");
        reveal_strlit("9");
    }
    match d {
        0 => s.append("0"),
        1 => s.append("1"),
        2 => s.append("2"),
        3 => s.append("3"),
        4 => s.append("4"),
        5 => s.append("5"),
        6 => s.append("6"),
        7 => s.append("7"),
        8 => s.append("8"),
        _ => s.append("9"),
    }
    assert(final(s)@ =~= old(s)@ + seq![digit_char(d as int)]);
}

/// Appends the decimal notation of `n` to `s`.
fn append_dec(s: &mut String, n: u64)
    ensures
        final(s)@ == old(s)@ + dec_chars(n as int),
    decreases n,
{
    if n >= 10 {
        append_dec(s, n / 10);
        append_digit(s, (n % 10) as u8);
        assert(final(s)@ =~= old(s)@ + dec_chars(n as int));
    } else {
        append_digit(s, n as u8);
    }
}

/// Appends the text of one pixel to `s`.
fn append_pixel(s: &mut String, p: Rgb)
    ensures
        final(s)@ == old(s)@ + pixel_chars(p),
{
    proof {
        reveal_strlit(" ");
        reveal_strlit("  ");
    }
    append_dec(s, p.r as u64);
    s.append(" ");
    append_dec(s, p.g as u64);
    s.append(" ");
    append_dec(s, p.b as u64);
    s.append("  ");
    assert(final(s)@ =~= old(s)@ + pixel_chars(p));
}

/// The maximum channel value written out in decimal.
proof fn lemma_dec_chars_maxval()
    ensures
        dec_chars(COLOR_MAXVAL as int) =~= seq!['2', '5', '5'],
{
    assert(dec_chars(2) =~= seq!['2']);
    assert(dec_chars(25) =~= dec_chars(2) + seq![digit_char(5)]);
    assert(dec_chars(255) =~= dec_chars(25) + seq![digit_char(5)]);
}

/// The decimal notation is never empty.
proof fn lemma_dec_chars_len(n: int)
    ensures
        dec_chars(n).len() >= 1,
{
    if n < 10 {
    } else {
        assert(dec_chars(n) == dec_chars(n / 10) + seq![digit_char(n % 10)]);
    }
}

impl Canvas<Rgb> {
    /// Encodes the grid as the complete text of a plain PPM file.
    pub fn canvas_to_ppm(&self) -> (s: String)
        requires
            self.wf(),
        ensures
            s@ == ppm_chars(self.width as int, self.height as int, self.grid_view()),
    {
        let ghost grid = self.grid_view();
        let mut s = String::new();
        s.append("P3\n# automatically generated plain ppm file\n");
        append_dec(&mut s, self.width as u64);
        s.append(" ");
        append_dec(&mut s, self.height as u64);
        s.append("\n");
        s.append("255");
        proof {
            reveal_strlit(" ");
            reveal_strlit("\n");
            lemma_dec_chars_maxval();
            assert("255"@ =~= seq!['2', '5', '5']) by {
                reveal_strlit("255");
            }
            assert(s@ =~= header_chars(self.width as int, self.height as int));
        }
        let mut y: usize = 0;
        while y < self.height
            invariant
                self.wf(),
                grid == self.grid_view(),
                y <= self.height,
                s@ == header_chars(self.width as int, self.height as int) + rows_chars(
                    grid,
                    y as int,
                ),
            decreases self.height - y,
        {
            proof {
                reveal_strlit("\n");
            }
            s.append("\n");
            let ghost row_base = s@;
            let mut x: usize = 0;
            while x < self.width
                invariant
                    self.wf(),
                    grid == self.grid_view(),
                    y < self.height,
                    x <= self.width,
                    row_base == header_chars(self.width as int, self.height as int)
                        + rows_chars(grid, y as int) + seq!['\n'],
                    s@ == row_base + row_chars(grid[y as int], x as int),
                decreases self.width - x,
            {
                let p = *self.read(x, y);
                assert(p == grid[y as int][x as int]);
                append_pixel(&mut s, p);
                if (x + 1) % 5 == 0 {
                    proof {
                        reveal_strlit("\n");
                    }
                    s.append("\n");
                }
                assert(s@ =~= row_base + row_chars(grid[y as int], x as int + 1));
                x = x + 1;
            }
            proof {
                assert(grid[y as int].len() == self.width);
                assert(s@ =~= header_chars(self.width as int, self.height as int) + rows_chars(
                    grid,
                    y as int + 1,
                ));
            }
            y = y + 1;
        }
        // The text so far ends in a line break exactly when there is a
        // final row whose width is zero or a multiple of five; otherwise
        // one more is owed.
        if self.height == 0 || (self.width > 0 && self.width % 5 != 0) {
            proof {
                reveal_strlit("\n");
                lemma_base_last(self.width as int, self.height as int, grid, s@);
            }
            s.append("\n");
        } else {
            proof {
                lemma_base_last(self.width as int, self.height as int, grid, s@);
            }
        }
        assert(s@ =~= ppm_chars(self.width as int, self.height as int, grid));
        s
    }
}

impl Canvas<Rgb> {
    /// Row `y` of the grid as a flat byte buffer in RGBA order, one
    /// opaque pixel per grid cell, for incremental display of a render.
    pub fn get_row_pixels(&self, y: usize) -> (buf: Vec<u8>)
        requires
            self.wf(),
            y < self.height,
            self.width * 4 <= usize::MAX,
        ensures
            buf@.len() == self.width * 4,
            forall|x: int|
                0 <= x < self.width ==> {
                    &&& buf@[4 * x] == (#[trigger] self.pix(x, y as int)).r
                    &&& buf@[4 * x + 1] == self.pix(x, y as int).g
                    &&& buf@[4 * x + 2] == self.pix(x, y as int).b
                    &&& buf@[4 * x + 3] == 255u8
                },
    {
        let mut buf: Vec<u8> = Vec::new();
        let mut x: usize = 0;
        while x < self.width
            invariant
                self.wf(),
                y < self.height,
                self.width * 4 <= usize::MAX,
                x <= self.width,
                buf@.len() == x * 4,
                forall|xx: int|
                    0 <= xx < x ==> {
                        &&& buf@[4 * xx] == (#[trigger] self.pix(xx, y as int)).r
                        &&& buf@[4 * xx + 1] == self.pix(xx, y as int).g
                        &&& buf@[4 * xx + 2] == self.pix(xx, y as int).b
                        &&& buf@[4 * xx + 3] == 255u8
                    },
            decreases self.width - x,
        {
            let p = *self.read(x, y);
            buf.push(p.r);
            buf.push(p.g);
            buf.push(p.b);
            buf.push(255);
            proof {
                lemma_quad_bound(x as int, self.width as int);
            }
            x = x + 1;
        }
        buf
    }
}

/// Bounds of the byte index of a pixel within its row buffer.
proof fn lemma_quad_bound(x: int, width: int)
    by (nonlinear_arith)
    requires
        0 <= x < width,
    ensures
        (x + 1) * 4 <= width * 4,
        x * 4 + 4 == (x + 1) * 4,
{
}

/// Which character the text of header and rows ends with: a line break
/// exactly when there is a final row with zero or a multiple of five
/// pixels.
proof fn lemma_base_last(width: int, height: int, grid: Seq<Seq<Rgb>>, base: Seq<char>)
    requires
        base == header_chars(width, height) + rows_chars(grid, height),
        grid.len() == height,
        forall|y: int| 0 <= y < height ==> (#[trigger] grid[y]).len() == width,
    ensures
        base.len() > 0,
        (base.last() == '\n') == !(height == 0 || (width > 0 && width % 5 != 0)),
{
    reveal_strlit("P3\n# automatically generated plain ppm file\n");
    lemma_dec_chars_maxval();
    if height == 0 {
        assert(base.last() == '5');
    } else {
        let row = grid[height - 1];
        let tail = seq!['\n'] + row_chars(row, width);
        assert(rows_chars(grid, height) == rows_chars(grid, height - 1) + tail);
        if width <= 0 {
            assert(row_chars(row, width) =~= Seq::<char>::empty());
            assert(base.last() == '\n');
        } else {
            lemma_row_chars_last(row, width);
            assert(base.last() == tail.last());
        }
    }
}

/// The text of a non-empty row prefix ends with a line break after a
/// fifth pixel and with a space otherwise.
proof fn lemma_row_chars_last(row: Seq<Rgb>, n: int)
    requires
        n >= 1,
    ensures
        row_chars(row, n).len() >= 1,
        row_chars(row, n).last() == if n % 5 == 0 { '\n' } else { ' ' },
{
    lemma_dec_chars_len(row[n - 1].b as int);
    assert(pixel_chars(row[n - 1]).last() == ' ');
    assert(row_chars(row, n) == row_chars(row, n - 1) + pixel_chars(row[n - 1]) + if n % 5 == 0 {
        seq!['\n']
    } else {
        Seq::<char>::empty()
    });
}

} // verus!
