//! A raster of pixels stored row by row, and its rendering as plain-text PPM.

use vstd::prelude::*;

verus! {

/// A raster of `width` by `height` pixels.
#[derive(Clone, Debug)]
pub struct Canvas<P: Copy> {
    pub width: usize,
    pub height: usize,
    /// The pixels row by row, the top row first.
    pub pixels: Vec<P>,
}

/// A pixel as it is written out: three channels from 0 to 255.
#[derive(Clone, Copy, Debug, PartialEq, Eq, Structural)]
pub struct Rgb {
    pub r: u8,
    pub g: u8,
    pub b: u8,
}

impl<P: Copy> Canvas<P> {
    /// The pixels row by row, the top row first.
    pub open spec fn pixels(self) -> Seq<P> {
        self.pixels@
    }

    /// There is one pixel for each column of each row.
    pub open spec fn wf(self) -> bool {
        self.pixels().len() == self.width * self.height
    }

    /// The pixel in column `x` of row `y`.
    pub open spec fn pixel_at(self, x: int, y: int) -> P {
        self.pixels()[y * self.width + x]
    }

    /// A raster with every pixel set to `fill`.
    pub fn new(w: usize, h: usize, fill: P) -> (c: Self)
        requires
            w * h <= usize::MAX,
        ensures
            c.wf(),
            c.width == w,
            c.height == h,
            forall|k: int| 0 <= k < w * h ==> c.pixels()[k] == fill,
    {
        let n: usize = w * h;
        let mut pixels: Vec<P> = Vec::new();
        let mut k: usize = 0;
        while k < n
            invariant
                k <= n,
                pixels@.len() == k,
                forall|a: int| 0 <= a < k ==> pixels@[a] == fill,
            decreases n - k,
        {
            pixels.push(fill);
            k += 1;
        }
        Canvas { width: w, height: h, pixels }
    }

    /// The pixel in column `x` of row `y`.
    pub fn get(&self, x: usize, y: usize) -> (p: P)
        requires
            self.wf(),
            x < self.width,
            y < self.height,
        ensures
            p == self.pixel_at(x as int, y as int),
    {
        let len: usize = self.pixels.len();
        proof {
            lemma_cell_in_range(x as int, y as int, self.width as int, self.height as int);
            assert(y * self.width + x < len);
        }
        self.pixels[y * self.width + x]
    }

    /// Sets the pixel in column `x` of row `y` to `c` and leaves every other
    /// pixel as it was.
    pub fn set(&mut self, x: usize, y: usize, c: P)
        requires
            old(self).wf(),
            x < old(self).width,
            y < old(self).height,
        ensures
            final(self).wf(),
            final(self).width == old(self).width,
            final(self).height == old(self).height,
            final(self).pixels() == old(self).pixels().update(y * old(self).width + x, c),
            final(self).pixel_at(x as int, y as int) == c,
            forall|a: int, b: int|
                0 <= a < old(self).width && 0 <= b < old(self).height && (a != x || b != y)
                    ==> #[trigger] final(self).pixel_at(a, b) == old(self).pixel_at(a, b),
    {
        let len: usize = self.pixels.len();
        proof {
            lemma_cell_in_range(x as int, y as int, self.width as int, self.height as int);
            assert(y * self.width + x < len);
        }
        let index: usize = y * self.width + x;
        self.pixels.set(index, c);
        proof {
            assert forall|a: int, b: int|
                0 <= a < old(self).width && 0 <= b < old(self).height && (a != x || b != y) implies #[trigger] self.pixel_at(
                a,
                b,
            ) == old(self).pixel_at(a, b) by {
                lemma_cell_in_range(a, b, self.width as int, self.height as int);
                lemma_cells_apart(a, b, x as int, y as int, self.width as int);
            }
        }
    }
}

/// The decimal digits of `n` as ASCII, without leading zeros.
pub open spec fn decimal(n: nat) -> Seq<u8>
    decreases n,
{
    if n < 10 {
        seq![(48 + n) as u8]
    } else {
        decimal(n / 10).push((48 + n % 10) as u8)
    }
}

/// The number that a run of ASCII digits writes.
pub open spec fn decimal_value(digits: Seq<u8>) -> nat
    decreases digits.len(),
{
    if digits.len() == 0 {
        0
    } else {
        (10 * decimal_value(digits.drop_last()) + (digits.last() - 48)) as nat
    }
}

/// The digits of a number are ASCII digits that write that number, and
/// they begin with a zero only where the number is zero.
pub proof fn lemma_decimal_reads_back(n: nat)
    ensures
        decimal(n).len() >= 1,
        forall|k: int| 0 <= k < decimal(n).len() ==> 48 <= #[trigger] decimal(n)[k] <= 57,
        decimal_value(decimal(n)) == n,
        decimal(n)[0] == 48 <==> n == 0,
    decreases n,
{
    if n < 10 {
        assert(decimal(n).drop_last() =~= Seq::<u8>::empty());
        assert(decimal_value(decimal(n).drop_last()) == 0);
    } else {
        lemma_decimal_reads_back(n / 10);
        let front = decimal(n / 10);
        assert(decimal(n).drop_last() =~= front);
        assert(decimal(n)[0] == front[0]);
    }
}

/// The text of one pixel: its three channels in decimal, a space between.
pub open spec fn pixel_text(p: Rgb) -> Seq<u8> {
    decimal(p.r as nat) + seq![32u8] + decimal(p.g as nat) + seq![32u8] + decimal(p.b as nat)
}

/// What follows pixel number `index` of `len`: a line break after the last
/// pixel and after each pixel whose number is a multiple of 20, a space after
/// any other.
pub open spec fn separator(index: int, len: int) -> u8 {
    if index == len - 1 || index % 20 == 0 {
        10u8
    } else {
        32u8
    }
}

/// The text of the first `n` pixels, each with what follows it.
pub open spec fn body_text(pixels: Seq<Rgb>, n: nat) -> Seq<u8>
    decreases n,
{
    if n == 0 || n > pixels.len() {
        Seq::empty()
    } else {
        body_text(pixels, (n - 1) as nat) + pixel_text(pixels[n - 1]).push(
            separator(n - 1, pixels.len() as int),
        )
    }
}

/// The three header lines: the format's name, the raster's size, and the
/// greatest channel value.
pub open spec fn header_text(width: nat, height: nat) -> Seq<u8> {
    seq![80u8, 51u8, 10u8] + decimal(width) + seq![32u8] + decimal(height) + seq![
        10u8,
        50u8,
        53u8,
        53u8,
        10u8,
    ]
}

/// A whole raster as plain-text PPM.
pub open spec fn ppm_text(width: nat, height: nat, pixels: Seq<Rgb>) -> Seq<u8> {
    header_text(width, height) + body_text(pixels, pixels.len())
}

/// Appends the decimal digits of `n` to `out`.
pub fn push_decimal(n: usize, out: &mut Vec<u8>)
    ensures
        final(out)@ == old(out)@ + decimal(n as nat),
    decreases n,
{
    if n < 10 {
        let digit: u8 = 48 + (n as u8);
        out.push(digit);
        assert(final(out)@ =~= old(out)@ + decimal(n as nat));
    } else {
        push_decimal(n / 10, out);
        let digit: u8 = 48 + ((n % 10) as u8);
        out.push(digit);
        assert(final(out)@ =~= old(out)@ + decimal(n as nat));
    }
}

impl Canvas<Rgb> {
    /// Appends the text of `pixel` to `out`.
    pub fn write_pixel(pixel: &Rgb, out: &mut Vec<u8>)
        ensures
            final(out)@ == old(out)@ + pixel_text(*pixel),
    {
        push_decimal(pixel.r as usize, out);
        out.push(32);
        push_decimal(pixel.g as usize, out);
        out.push(32);
        push_decimal(pixel.b as usize, out);
        assert(final(out)@ =~= old(out)@ + pixel_text(*pixel));
    }

    /// Appends the raster to `out` as plain-text PPM: the header, then
    /// every pixel in storage order.
    pub fn to_ppm(&self, out: &mut Vec<u8>)
        requires
            self.pixels().len() > 0,
        ensures
            final(out)@ == old(out)@ + ppm_text(
                self.width as nat,
                self.height as nat,
                self.pixels(),
            ),
    {
        out.push(80);
        out.push(51);
        out.push(10);
        push_decimal(self.width, out);
        out.push(32);
        push_decimal(self.height, out);
        out.push(10);
        out.push(50);
        out.push(53);
        out.push(53);
        out.push(10);
        assert(out@ =~= old(out)@ + header_text(self.width as nat, self.height as nat));
        let ghost start = out@;
        let n: usize = self.pixels.len();
        let mut count: usize = 0;
        while count < n
            invariant
                n == self.pixels@.len(),
                count <= n,
                out@ == start + body_text(self.pixels@, count as nat),
            decreases n - count,
        {
            let ghost before = out@;
            Self::write_pixel(&self.pixels[count], out);
            if count == n - 1 || count % 20 == 0 {
                out.push(10);
            } else {
                out.push(32);
            }
            count += 1;
            assert(out@ =~= start + body_text(self.pixels@, count as nat));
        }
        assert(out@ =~= old(out)@ + ppm_text(
            self.width as nat,
            self.height as nat,
            self.pixels(),
        ));
    }
}

/// Row `y`, column `x` of a `width` by `height` raster stored row by row has
/// a position of its own within the raster.
pub proof fn lemma_cell_in_range(x: int, y: int, width: int, height: int)
    requires
        0 <= x < width,
        0 <= y < height,
    ensures
        0 <= y * width <= y * width + x < width * height,
{
    assert(y * width + width == (y + 1) * width) by (nonlinear_arith);
    assert((y + 1) * width <= height * width) by (nonlinear_arith)
        requires
            y + 1 <= height,
            width >= 0,
    ;
    assert(height * width == width * height) by (nonlinear_arith);
    assert(0 <= y * width) by (nonlinear_arith)
        requires
            y >= 0,
            width >= 0,
    ;
}

/// Two different cells of a raster stored row by row have different
/// positions.
pub proof fn lemma_cells_apart(a: int, b: int, x: int, y: int, width: int)
    requires
        0 <= a < width,
        0 <= x < width,
        0 <= b,
        0 <= y,
        a != x || b != y,
    ensures
        b * width + a != y * width + x,
{
    if b < y {
        assert(b * width + width <= y * width) by (nonlinear_arith)
            requires
                b + 1 <= y,
                width >= 0,
        ;
    } else if y < b {
        assert(y * width + width <= b * width) by (nonlinear_arith)
            requires
                y + 1 <= b,
                width >= 0,
        ;
    }
}

} // verus!
