//! The mathematical model of a frame: a rectangle of pixels laid out row by
//! row, each pixel a fixed number of bytes, and the geometric maps on it.

use vstd::prelude::*;
use vstd::arithmetic::div_mod::{
    lemma_fundamental_div_mod, lemma_fundamental_div_mod_converse, lemma_mod_bound,
    lemma_multiply_divide_lt,
};
use vstd::arithmetic::mul::lemma_mul_is_commutative;

verus! {

/// What a frame holds: its extents in pixels, the byte width of one pixel
/// and the buffer.
pub struct Raster {
    pub width: nat,
    pub height: nat,
    pub bpp: nat,
    pub bytes: Seq<u8>,
}

impl Raster {
    /// The number of pixels the extents describe.
    pub open spec fn pixel_count(self) -> nat {
        self.width * self.height
    }

    /// The number of bytes the extents describe.
    pub open spec fn byte_len(self) -> nat {
        self.width * self.height * self.bpp
    }

    /// The buffer holds exactly one pixel per position.
    pub open spec fn pixelable(self) -> bool {
        self.bytes.len() == self.byte_len()
    }

    /// The position in the buffer of channel `c` of the pixel in column `x`
    /// of row `y`.
    pub open spec fn offset(self, x: int, y: int, c: int) -> int {
        (y * self.width + x) * self.bpp + c
    }

    /// Channel `c` of the pixel in column `x` of row `y`.
    pub open spec fn byte(self, x: int, y: int, c: int) -> u8 {
        self.bytes[self.offset(x, y, c)]
    }

    /// The column of the pixel that buffer position `k` belongs to.
    pub open spec fn col_of(self, k: int) -> int {
        (k / self.bpp as int) % self.width as int
    }

    /// The row of the pixel that buffer position `k` belongs to.
    pub open spec fn row_of(self, k: int) -> int {
        (k / self.bpp as int) / self.width as int
    }

    /// The channel that buffer position `k` holds.
    pub open spec fn chan_of(self, k: int) -> int {
        k % self.bpp as int
    }

    /// The bytes of the pixel with row-major index `index`.
    pub open spec fn pixel(self, index: int) -> Seq<u8> {
        self.bytes.subrange(index * self.bpp, (index + 1) * self.bpp)
    }

    /// The same extents and pixel width around another buffer.
    pub open spec fn with_bytes(self, bytes: Seq<u8>) -> Raster {
        Raster { bytes, ..self }
    }

    /// The extents of a quarter turn: width and height exchanged.
    pub open spec fn turned(self) -> Raster {
        Raster { width: self.height, height: self.width, ..self }
    }

    /// A quarter turn clockwise: the pixel at `(x, y)` moves to
    /// `(height - 1 - y, x)`.
    pub open spec fn rotate90(self) -> Raster {
        let shape = self.turned();
        shape.with_bytes(
            Seq::new(
                self.bytes.len(),
                |k: int|
                    self.byte(shape.row_of(k), self.height - 1 - shape.col_of(k), shape.chan_of(k)),
            ),
        )
    }

    /// A half turn: the pixel at `(x, y)` moves to
    /// `(width - 1 - x, height - 1 - y)`.
    pub open spec fn rotate180(self) -> Raster {
        self.with_bytes(
            Seq::new(
                self.bytes.len(),
                |k: int|
                    self.byte(
                        self.width - 1 - self.col_of(k),
                        self.height - 1 - self.row_of(k),
                        self.chan_of(k),
                    ),
            ),
        )
    }

    /// A quarter turn counter-clockwise: the pixel at `(x, y)` moves to
    /// `(y, width - 1 - x)`.
    pub open spec fn rotate270(self) -> Raster {
        let shape = self.turned();
        shape.with_bytes(
            Seq::new(
                self.bytes.len(),
                |k: int|
                    self.byte(self.width - 1 - shape.row_of(k), shape.col_of(k), shape.chan_of(k)),
            ),
        )
    }

    /// Top and bottom exchanged: the pixel at `(x, y)` moves to
    /// `(x, height - 1 - y)`.
    pub open spec fn flip_vertical(self) -> Raster {
        self.with_bytes(
            Seq::new(
                self.bytes.len(),
                |k: int| self.byte(self.col_of(k), self.height - 1 - self.row_of(k), self.chan_of(k)),
            ),
        )
    }

    /// Left and right exchanged: the pixel at `(x, y)` moves to
    /// `(width - 1 - x, y)`.
    pub open spec fn flip_horizontal(self) -> Raster {
        self.with_bytes(
            Seq::new(
                self.bytes.len(),
                |k: int| self.byte(self.width - 1 - self.col_of(k), self.row_of(k), self.chan_of(k)),
            ),
        )
    }
}

/// A position inside the extents has an offset inside the buffer, and the
/// offset determines the position.
pub proof fn lemma_offset(r: Raster, x: int, y: int, c: int)
    requires
        0 <= x < r.width,
        0 <= y < r.height,
        0 <= c < r.bpp,
    ensures
        0 <= r.offset(x, y, c) < r.byte_len(),
        r.col_of(r.offset(x, y, c)) == x,
        r.row_of(r.offset(x, y, c)) == y,
        r.chan_of(r.offset(x, y, c)) == c,
{
    let w = r.width as int;
    let h = r.height as int;
    let b = r.bpp as int;
    let p = y * w + x;
    assert(0 <= y * w && y * w + w <= h * w) by (nonlinear_arith)
        requires
            0 <= y < h,
            0 < w,
    ;
    assert(0 <= p * b && p * b + b <= h * w * b) by (nonlinear_arith)
        requires
            0 <= p < h * w,
            0 < b,
    ;
    assert(w * h * b == h * w * b) by (nonlinear_arith);
    lemma_fundamental_div_mod_converse(p * b + c, b, p, c);
    lemma_fundamental_div_mod_converse(p, w, y, x);
}

/// A buffer position inside the extents belongs to exactly one channel of
/// one pixel.
pub proof fn lemma_coords(r: Raster, k: int)
    requires
        0 <= k < r.byte_len(),
    ensures
        0 <= r.col_of(k) < r.width,
        0 <= r.row_of(k) < r.height,
        0 <= r.chan_of(k) < r.bpp,
        r.offset(r.col_of(k), r.row_of(k), r.chan_of(k)) == k,
{
    let w = r.width as int;
    let h = r.height as int;
    let b = r.bpp as int;
    assert(b > 0 && w > 0 && h > 0) by (nonlinear_arith)
        requires
            0 <= k < w * h * b,
            w >= 0,
            h >= 0,
            b >= 0,
    ;
    let p = k / b;
    lemma_fundamental_div_mod(k, b);
    lemma_mod_bound(k, b);
    assert(w * h * b == b * (w * h)) by (nonlinear_arith);
    lemma_multiply_divide_lt(k, b, w * h);
    assert(0 <= p) by (nonlinear_arith)
        requires
            k == b * p + k % b,
            0 <= k,
            0 <= k % b < b,
    ;
    lemma_fundamental_div_mod(p, w);
    lemma_mod_bound(p, w);
    lemma_multiply_divide_lt(p, w, h);
    assert(0 <= p / w) by (nonlinear_arith)
        requires
            p == w * (p / w) + p % w,
            0 <= p,
            0 <= p % w < w,
    ;
    lemma_mul_is_commutative(b, p);
    lemma_mul_is_commutative(w, p / w);
}

/// Exchanging width and height keeps the number of bytes.
pub proof fn lemma_turned_len(r: Raster)
    ensures
        r.turned().byte_len() == r.byte_len(),
        r.turned().pixel_count() == r.pixel_count(),
        r.turned().turned() == r,
{
    assert(r.height * r.width == r.width * r.height) by (nonlinear_arith);
    assert(r.height * r.width * r.bpp == r.width * r.height * r.bpp) by (nonlinear_arith);
}

/// After a quarter turn clockwise the pixel at `(x, y)` of the result is
/// the pixel at `(y, height - 1 - x)` of the raster it was made of.
pub proof fn lemma_rotate90_at(r: Raster, x: int, y: int, c: int)
    requires
        r.pixelable(),
        0 <= x < r.height,
        0 <= y < r.width,
        0 <= c < r.bpp,
    ensures
        r.rotate90().pixelable(),
        r.rotate90().byte(x, y, c) == r.byte(y, r.height - 1 - x, c),
{
    lemma_turned_len(r);
    lemma_offset(r.turned(), x, y, c);
}

/// After a half turn the pixel at `(x, y)` of the result is the pixel at
/// `(width - 1 - x, height - 1 - y)` of the raster it was made of.
pub proof fn lemma_rotate180_at(r: Raster, x: int, y: int, c: int)
    requires
        r.pixelable(),
        0 <= x < r.width,
        0 <= y < r.height,
        0 <= c < r.bpp,
    ensures
        r.rotate180().pixelable(),
        r.rotate180().byte(x, y, c) == r.byte(r.width - 1 - x, r.height - 1 - y, c),
{
    lemma_offset(r, x, y, c);
}

/// After a quarter turn counter-clockwise the pixel at `(x, y)` of the
/// result is the pixel at `(width - 1 - y, x)` of the raster it was made of.
pub proof fn lemma_rotate270_at(r: Raster, x: int, y: int, c: int)
    requires
        r.pixelable(),
        0 <= x < r.height,
        0 <= y < r.width,
        0 <= c < r.bpp,
    ensures
        r.rotate270().pixelable(),
        r.rotate270().byte(x, y, c) == r.byte(r.width - 1 - y, x, c),
{
    lemma_turned_len(r);
    lemma_offset(r.turned(), x, y, c);
}

/// After a vertical flip the pixel at `(x, y)` of the result is the pixel
/// at `(x, height - 1 - y)` of the raster it was made of.
pub proof fn lemma_flip_vertical_at(r: Raster, x: int, y: int, c: int)
    requires
        r.pixelable(),
        0 <= x < r.width,
        0 <= y < r.height,
        0 <= c < r.bpp,
    ensures
        r.flip_vertical().pixelable(),
        r.flip_vertical().byte(x, y, c) == r.byte(x, r.height - 1 - y, c),
{
    lemma_offset(r, x, y, c);
}

/// After a horizontal flip the pixel at `(x, y)` of the result is the
/// pixel at `(width - 1 - x, y)` of the raster it was made of.
pub proof fn lemma_flip_horizontal_at(r: Raster, x: int, y: int, c: int)
    requires
        r.pixelable(),
        0 <= x < r.width,
        0 <= y < r.height,
        0 <= c < r.bpp,
    ensures
        r.flip_horizontal().pixelable(),
        r.flip_horizontal().byte(x, y, c) == r.byte(r.width - 1 - x, y, c),
{
    lemma_offset(r, x, y, c);
}

/// Two rasters of the same shape that agree at every position are equal.
pub proof fn lemma_same_bytes(a: Raster, b: Raster)
    requires
        a.pixelable(),
        b.pixelable(),
        a.width == b.width,
        a.height == b.height,
        a.bpp == b.bpp,
        forall|x: int, y: int, c: int|
            0 <= x < a.width && 0 <= y < a.height && 0 <= c < a.bpp ==> a.byte(x, y, c)
                == b.byte(x, y, c),
    ensures
        a == b,
{
    assert forall|k: int| 0 <= k < a.bytes.len() implies a.bytes[k] == b.bytes[k] by {
        lemma_coords(a, k);
        assert(a.byte(a.col_of(k), a.row_of(k), a.chan_of(k)) == b.byte(
            a.col_of(k),
            a.row_of(k),
            a.chan_of(k),
        ));
    }
    assert(a.bytes =~= b.bytes);
}

/// A quarter turn counter-clockwise undoes a quarter turn clockwise, and
/// the other way round.
pub proof fn lemma_quarter_turns_cancel(r: Raster)
    requires
        r.pixelable(),
    ensures
        r.rotate90().rotate270() == r,
        r.rotate270().rotate90() == r,
{
    lemma_turned_len(r);
    let a = r.rotate90();
    let b = r.rotate270();
    assert forall|x: int, y: int, c: int|
        0 <= x < r.width && 0 <= y < r.height && 0 <= c < r.bpp implies a.rotate270().byte(x, y, c)
        == r.byte(x, y, c) && b.rotate90().byte(x, y, c) == r.byte(x, y, c) by {
        lemma_rotate270_at(a, x, y, c);
        lemma_rotate90_at(r, a.width - 1 - y, x, c);
        lemma_rotate90_at(b, x, y, c);
        lemma_rotate270_at(r, y, b.height - 1 - x, c);
    }
    lemma_same_bytes(a.rotate270(), r);
    lemma_same_bytes(b.rotate90(), r);
}

/// Two quarter turns clockwise make a half turn.
pub proof fn lemma_two_quarter_turns(r: Raster)
    requires
        r.pixelable(),
    ensures
        r.rotate90().rotate90() == r.rotate180(),
{
    lemma_turned_len(r);
    let a = r.rotate90();
    assert forall|x: int, y: int, c: int|
        0 <= x < r.width && 0 <= y < r.height && 0 <= c < r.bpp implies a.rotate90().byte(x, y, c)
        == r.rotate180().byte(x, y, c) by {
        lemma_rotate90_at(a, x, y, c);
        lemma_rotate90_at(r, y, a.height - 1 - x, c);
        lemma_rotate180_at(r, x, y, c);
    }
    lemma_same_bytes(a.rotate90(), r.rotate180());
}

/// A half turn is its own inverse.
pub proof fn lemma_half_turn_twice(r: Raster)
    requires
        r.pixelable(),
    ensures
        r.rotate180().rotate180() == r,
{
    let a = r.rotate180();
    assert forall|x: int, y: int, c: int|
        0 <= x < r.width && 0 <= y < r.height && 0 <= c < r.bpp implies a.rotate180().byte(x, y, c)
        == r.byte(x, y, c) by {
        lemma_rotate180_at(a, x, y, c);
        lemma_rotate180_at(r, r.width - 1 - x, r.height - 1 - y, c);
    }
    lemma_same_bytes(a.rotate180(), r);
}

/// Four quarter turns clockwise give the raster back.
pub proof fn lemma_four_quarter_turns(r: Raster)
    requires
        r.pixelable(),
    ensures
        r.rotate90().rotate90().rotate90().rotate90() == r,
{
    lemma_two_quarter_turns(r);
    lemma_maps_keep_pixelable(r);
    lemma_two_quarter_turns(r.rotate180());
    lemma_half_turn_twice(r);
}

/// Every map keeps a pixelable raster pixelable.
pub proof fn lemma_maps_keep_pixelable(r: Raster)
    requires
        r.pixelable(),
    ensures
        r.rotate180().pixelable(),
        r.flip_vertical().pixelable(),
        r.flip_horizontal().pixelable(),
        r.rotate90().pixelable(),
        r.rotate270().pixelable(),
{
    lemma_turned_len(r);
}

/// A vertical flip is its own inverse.
pub proof fn lemma_flip_vertical_twice(r: Raster)
    requires
        r.pixelable(),
    ensures
        r.flip_vertical().flip_vertical() == r,
{
    let a = r.flip_vertical();
    assert forall|x: int, y: int, c: int|
        0 <= x < r.width && 0 <= y < r.height && 0 <= c < r.bpp implies a.flip_vertical().byte(
        x,
        y,
        c,
    ) == r.byte(x, y, c) by {
        lemma_flip_vertical_at(a, x, y, c);
        lemma_flip_vertical_at(r, x, r.height - 1 - y, c);
    }
    lemma_same_bytes(a.flip_vertical(), r);
}

/// A horizontal flip is its own inverse.
pub proof fn lemma_flip_horizontal_twice(r: Raster)
    requires
        r.pixelable(),
    ensures
        r.flip_horizontal().flip_horizontal() == r,
{
    let a = r.flip_horizontal();
    assert forall|x: int, y: int, c: int|
        0 <= x < r.width && 0 <= y < r.height && 0 <= c < r.bpp implies a.flip_horizontal().byte(
        x,
        y,
        c,
    ) == r.byte(x, y, c) by {
        lemma_flip_horizontal_at(a, x, y, c);
        lemma_flip_horizontal_at(r, r.width - 1 - x, y, c);
    }
    lemma_same_bytes(a.flip_horizontal(), r);
}

} // verus!
