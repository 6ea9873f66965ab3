//! Frames read back from the rendering surface.
//!
//! A GL read-back delivers rows bottom-up; before the pixels are shown they are
//! turned upright by swapping row `r` with row `height - 1 - r` in place.
use vstd::prelude::*;
use vstd::arithmetic::div_mod::lemma_fundamental_div_mod;
use vstd::arithmetic::div_mod::lemma_fundamental_div_mod_converse;
use vstd::arithmetic::mul::lemma_mul_inequality;
use image::RgbaImage;

verus! {

/// Width and height in physical pixels of a rendering surface or viewport.
#[derive(Clone, Copy, Debug, PartialEq, Eq, Structural)]
pub struct FrameSize {
    pub width: u32,
    pub height: u32,
}

/// A frame as plain RGBA bytes, ready to hand to the user interface.
pub struct FramePixels {
    pub width: u32,
    pub height: u32,
    pub pixels: Vec<u8>,
}

/// `image::ImageBuffer::from_raw` for RGBA bytes.  The image is made exactly
/// when `buf` holds at least `4 * width * height` bytes; it keeps `buf` and
/// the dimensions it was given, which come back here as plain values.
#[verifier::external_body]
fn rgba_image_from_raw(width: u32, height: u32, buf: Vec<u8>) -> (res: Option<FramePixels>)
    ensures
        res is Some <==> 4 * width * height <= buf@.len(),
        res matches Some(frame) ==> frame.pixels@ == buf@ && frame.width == width && frame.height
            == height,
{
    match RgbaImage::from_raw(width, height, buf) {
        Some(image) => Some(
            FramePixels { width: image.width(), height: image.height(), pixels: image.into_raw() },
        ),
        None => None,
    }
}

/// Where the byte at flat index `i` of an upright image comes from in a
/// bottom-up one: same column, mirrored row.
pub open spec fn mirrored_index(i: int, stride: int, height: int) -> int {
    (height - 1 - i / stride) * stride + i % stride
}

/// `pixels` with its first `height` rows of `stride` bytes in reverse order;
/// bytes past those rows stay where they are.
pub open spec fn rows_flipped(pixels: Seq<u8>, stride: int, height: int) -> Seq<u8> {
    Seq::new(
        pixels.len(),
        |i: int|
            if i < height * stride {
                pixels[mirrored_index(i, stride, height)]
            } else {
                pixels[i]
            },
    )
}

/// Splits a flat index into row and column.
proof fn lemma_row_col(row: int, col: int, stride: int)
    requires
        0 <= col < stride,
    ensures
        (row * stride + col) / stride == row,
        (row * stride + col) % stride == col,
{
    lemma_fundamental_div_mod_converse(row * stride + col, stride, row, col);
}

/// Index `i` lies in row `row` exactly when `row * stride <= i < (row + 1) * stride`.
proof fn lemma_row_band(i: int, row: int, stride: int)
    requires
        0 <= i,
        stride > 0,
    ensures
        (i / stride == row) <==> (row * stride <= i < row * stride + stride),
        (i / stride < row) <==> (i < row * stride),
{
    lemma_fundamental_div_mod(i, stride);
    let q = i / stride;
    assert(q * stride == stride * q) by (nonlinear_arith);
    assert(0 <= i % stride < stride);
    if q < row {
        lemma_mul_inequality(q + 1, row, stride);
        assert((q + 1) * stride == q * stride + stride) by (nonlinear_arith);
    } else if q > row {
        lemma_mul_inequality(row + 1, q, stride);
        assert((row + 1) * stride == row * stride + stride) by (nonlinear_arith);
    }
}

/// The mirror of an index inside the first `height` rows stays inside them
/// and mirrors back to the index itself.
proof fn lemma_mirror_involutive(i: int, stride: int, height: int)
    requires
        stride > 0,
        0 <= i < height * stride,
    ensures
        0 <= mirrored_index(i, stride, height) < height * stride,
        mirrored_index(mirrored_index(i, stride, height), stride, height) == i,
{
    let row = i / stride;
    let col = i % stride;
    lemma_fundamental_div_mod(i, stride);
    assert(row * stride == stride * row) by (nonlinear_arith);
    lemma_row_band(i, height, stride);
    lemma_row_band(i, 0, stride);
    let m = mirrored_index(i, stride, height);
    assert(0 <= col < stride);
    lemma_row_col(height - 1 - row, col, stride);
    lemma_mul_inequality(0, height - 1 - row, stride);
    lemma_mul_inequality(height - 1 - row, height - 1, stride);
    assert((height - 1) * stride + stride == height * stride) by (nonlinear_arith);
    assert(m / stride == height - 1 - row);
    assert(m % stride == col);
}

/// Flipping moves whole rows: row `row` of the result is row
/// `height - 1 - row` of the input, column for column, and every byte past
/// the rows stays where it is.
pub proof fn lemma_rows_flipped_moves_rows(pixels: Seq<u8>, stride: int, height: int)
    requires
        stride > 0,
        height >= 0,
        height * stride <= pixels.len(),
    ensures
        rows_flipped(pixels, stride, height).len() == pixels.len(),
        forall|row: int, col: int|
            0 <= row < height && 0 <= col < stride ==> #[trigger] rows_flipped(
                pixels,
                stride,
                height,
            )[row * stride + col] == pixels[(height - 1 - row) * stride + col],
        forall|i: int|
            height * stride <= i < pixels.len() ==> #[trigger] rows_flipped(pixels, stride, height)[i]
                == pixels[i],
{
    assert forall|row: int, col: int| 0 <= row < height && 0 <= col < stride implies #[trigger] rows_flipped(
        pixels,
        stride,
        height,
    )[row * stride + col] == pixels[(height - 1 - row) * stride + col] by {
        lemma_row_col(row, col, stride);
        lemma_mul_inequality(0, row, stride);
        lemma_mul_inequality(row + 1, height, stride);
        assert((row + 1) * stride == row * stride + stride) by (nonlinear_arith);
    }
}

/// Turning the rows over twice gives back the original bytes.
pub proof fn lemma_rows_flipped_twice(pixels: Seq<u8>, stride: int, height: int)
    requires
        stride > 0,
        height >= 0,
        height * stride <= pixels.len(),
    ensures
        rows_flipped(rows_flipped(pixels, stride, height), stride, height) == pixels,
{
    let once = rows_flipped(pixels, stride, height);
    let twice = rows_flipped(once, stride, height);
    assert forall|i: int| 0 <= i < pixels.len() implies #[trigger] twice[i] == pixels[i] by {
        if i < height * stride {
            lemma_mirror_involutive(i, stride, height);
        }
    }
    assert(twice =~= pixels);
}

/// Reverses the order of the first `height` rows of `stride` bytes in place.
pub fn flip_rows_in_place(pixels: &mut Vec<u8>, stride: usize, height: usize)
    requires
        height <= 1 || height * stride <= old(pixels).len(),
    ensures
        final(pixels)@ == rows_flipped(old(pixels)@, stride as int, height as int),
{
    let ghost orig = pixels@;
    let ghost h = height as int;
    let ghost s = stride as int;
    let half = height / 2;
    if half == 0 || stride == 0 {
        proof {
            assert forall|i: int| 0 <= i < orig.len() implies #[trigger] rows_flipped(orig, s, h)[i]
                == orig[i] by {
                if i < h * s {
                    assert(s > 0) by (nonlinear_arith)
                        requires
                            0 <= i < h * s,
                            s >= 0,
                            h >= 0,
                    ;
                    assert(h == 1) by (nonlinear_arith)
                        requires
                            0 <= i < h * s,
                            h <= 1,
                            h >= 0,
                    ;
                    assert(h * s == s);
                    assert(i < s);
                    lemma_row_col(0, i, s);
                    assert(mirrored_index(i, s, h) == i);
                }
            }
            assert(pixels@ =~= rows_flipped(orig, s, h));
        }
        return;
    }
    let total = pixels.len();
    assert(h * s <= orig.len());
    proof {
        assert forall|i: int| 0 <= i < orig.len() implies #[trigger] pixels@[i] == if i / s < 0
            || (h - 0 <= i / s && i < h * s) {
            orig[mirrored_index(i, s, h)]
        } else {
            orig[i]
        } by {
            lemma_row_band(i, h, s);
            lemma_row_band(i, 0, s);
        }
    }
    let mut row: usize = 0;
    while row < half
        invariant
            half == height / 2,
            h == height,
            s == stride,
            s > 0,
            h >= 2,
            h * s <= orig.len(),
            total == orig.len(),
            row <= half,
            pixels@.len() == orig.len(),
            forall|i: int|
                0 <= i < orig.len() ==> #[trigger] pixels@[i] == if i / s < row || (h - row <= i / s
                    && i < h * s) {
                    orig[mirrored_index(i, s, h)]
                } else {
                    orig[i]
                },
        decreases half - row,
    {
        proof {
            lemma_mul_inequality(row as int + 1, h, s);
            lemma_mul_inequality(h - 1 - row, h - 1, s);
            lemma_mul_inequality(row as int + 1, h - 1 - row, s);
            assert((row + 1) * s == row * s + s) by (nonlinear_arith);
            assert((h - 1) * s + s == h * s) by (nonlinear_arith);
        }
        let top = row * stride;
        let bottom = (height - 1 - row) * stride;
        assert(top + stride <= bottom);
        assert(bottom + stride <= h * s);
        let mut col: usize = 0;
        while col < stride
            invariant
                half == height / 2,
                h == height,
                s == stride,
                s > 0,
                h >= 2,
                h * s <= orig.len(),
                total == orig.len(),
                row < half,
                top == row * s,
                bottom == (h - 1 - row) * s,
                top + s <= bottom,
                bottom + s <= h * s,
                col <= stride,
                pixels@.len() == orig.len(),
                forall|i: int|
                    0 <= i < orig.len() ==> #[trigger] pixels@[i] == if i / s < row || (h - row
                        <= i / s && i < h * s) || (top <= i < top + col) || (bottom <= i < bottom
                        + col) {
                        orig[mirrored_index(i, s, h)]
                    } else {
                        orig[i]
                    },
            decreases stride - col,
        {
            let a = top + col;
            let b = bottom + col;
            proof {
                lemma_row_col(row as int, col as int, s);
                lemma_row_col(h - 1 - row, col as int, s);
                assert(mirrored_index(a as int, s, h) == b);
                assert(mirrored_index(b as int, s, h) == a);
                assert(pixels@[a as int] == orig[a as int]);
                assert(pixels@[b as int] == orig[b as int]);
            }
            let upper = pixels[a];
            let lower = pixels[b];
            pixels[a] = lower;
            pixels[b] = upper;
            col = col + 1;
        }
        proof {
            assert forall|i: int| 0 <= i < orig.len() implies #[trigger] pixels@[i] == if i / s
                < row + 1 || (h - (row + 1) <= i / s && i < h * s) {
                orig[mirrored_index(i, s, h)]
            } else {
                orig[i]
            } by {
                lemma_row_band(i, row as int, s);
                lemma_row_band(i, row as int + 1, s);
                lemma_row_band(i, h - 1 - row, s);
                lemma_row_band(i, h - row, s);
                lemma_row_band(i, h, s);
                assert((row + 1) * s == row * s + s) by (nonlinear_arith);
                assert((h - 1 - row) * s + s == (h - row) * s) by (nonlinear_arith);
            }
        }
        row = row + 1;
    }
    proof {
        assert forall|i: int| 0 <= i < orig.len() implies #[trigger] pixels@[i] == rows_flipped(
            orig,
            s,
            h,
        )[i] by {
            if i < h * s {
                lemma_row_band(i, h, s);
                lemma_row_band(i, half as int, s);
                lemma_row_band(i, h - half, s);
                lemma_fundamental_div_mod(i, s);
                if !(i / s < half || h - half <= i / s) {
                    assert(i / s == h - 1 - i / s);
                    assert((i / s) * s == s * (i / s)) by (nonlinear_arith);
                }
            } else {
                lemma_row_band(i, h, s);
            }
        }
        assert(pixels@ =~= rows_flipped(orig, s, h));
    }
}

/// The signed extent used to read a surface of `size` back: `None` when
/// either side is zero or does not fit in an `i32` (nothing is read then).
pub fn readback_extent(size: FrameSize) -> (res: Option<(i32, i32)>)
    ensures
        res == (if 0 < size.width <= i32::MAX && 0 < size.height <= i32::MAX {
            Some((size.width as i32, size.height as i32))
        } else {
            None
        }),
{
    if size.width == 0 || size.height == 0 || size.width > 0x7fff_ffffu32 || size.height
        > 0x7fff_ffffu32 {
        None
    } else {
        Some((size.width as i32, size.height as i32))
    }
}

/// Turns a bottom-up read-back of `width` x `height` RGBA pixels upright and
/// wraps it as an image.  The image is made exactly when `pixels` holds the
/// whole frame; its bytes are then `pixels` with the rows reversed.
pub fn orient_readback(width: i32, height: i32, pixels: Vec<u8>) -> (res: Option<FramePixels>)
    requires
        width > 0,
        height > 0,
        width * 4 <= usize::MAX,
        height <= 1 || height * (width * 4) <= pixels@.len(),
    ensures
        res is Some <==> 4 * width * height <= pixels@.len(),
        res matches Some(frame) ==> frame.pixels@ == rows_flipped(pixels@, 4 * width, height as int)
            && frame.width == width && frame.height == height,
{
    let mut pixels = pixels;
    let stride = (width as usize) * 4;
    flip_rows_in_place(&mut pixels, stride, height as usize);
    assert(4 * width * height == height * (width * 4)) by (nonlinear_arith);
    rgba_image_from_raw(width as u32, height as u32, pixels)
}

/// One read-back on a frame counter: the version goes from `before` to
/// `after`, up by one exactly when a frame was `read`.
pub open spec fn readback_step(before: u64, read: bool, after: u64) -> bool {
    after == before + (if read {
        1int
    } else {
        0int
    })
}

/// How many of the read-backs in `reads` produced a frame.
pub open spec fn count_reads(reads: Seq<bool>) -> nat
    decreases reads.len(),
{
    if reads.len() == 0 {
        0
    } else {
        count_reads(reads.drop_last()) + (if reads.last() {
            1nat
        } else {
            0nat
        })
    }
}

/// Over a run of read-backs on a frame counter (`versions[i]` before
/// read-back `i`, `reads[i]` whether it produced a frame), the version after
/// any stretch of the run is the version before it plus the number of frames
/// read in it: the version never goes down, and it changes exactly when a
/// frame was read.
pub proof fn lemma_version_counts_readbacks(versions: Seq<u64>, reads: Seq<bool>)
    requires
        versions.len() == reads.len() + 1,
        forall|i: int|
            0 <= i < reads.len() ==> #[trigger] readback_step(versions[i], reads[i], versions[i + 1]),
    ensures
        forall|i: int, j: int|
            0 <= i <= j < versions.len() ==> #[trigger] versions[j] == #[trigger] versions[i]
                + count_reads(reads.subrange(i, j)),
    decreases reads.len(),
{
    if reads.len() > 0 {
        let n = reads.len() as int;
        let shorter = versions.drop_last();
        let fewer = reads.drop_last();
        assert forall|i: int| 0 <= i < fewer.len() implies #[trigger] readback_step(
            shorter[i],
            fewer[i],
            shorter[i + 1],
        ) by {
            assert(readback_step(versions[i], reads[i], versions[i + 1]));
        }
        lemma_version_counts_readbacks(shorter, fewer);
        assert forall|i: int, j: int| 0 <= i <= j < versions.len() implies #[trigger] versions[j]
            == #[trigger] versions[i] + count_reads(reads.subrange(i, j)) by {
            if j < n {
                assert(shorter[j] == shorter[i] + count_reads(fewer.subrange(i, j)));
                assert(fewer.subrange(i, j) =~= reads.subrange(i, j));
            } else if i == j {
                assert(reads.subrange(i, j).len() == 0);
            } else {
                assert(shorter[n - 1] == shorter[i] + count_reads(fewer.subrange(i, n - 1)));
                assert(fewer.subrange(i, n - 1) =~= reads.subrange(i, n).drop_last());
                assert(readback_step(versions[n - 1], reads[n - 1], versions[n]));
                assert(reads.subrange(i, n).last() == reads[n - 1]);
            }
        }
    } else {
        assert forall|i: int, j: int| 0 <= i <= j < versions.len() implies #[trigger] versions[j]
            == #[trigger] versions[i] + count_reads(reads.subrange(i, j)) by {
            assert(reads.subrange(i, j).len() == 0);
        }
    }
}

/// Counts the frames read back from a rendering surface.
pub struct FrameCounter {
    version: u64,
}

impl FrameCounter {
    /// The number of frames read back so far.
    pub closed spec fn spec_version(&self) -> u64 {
        self.version
    }

    /// A counter that has seen no frame.
    pub fn new() -> (counter: Self)
        ensures
            counter.spec_version() == 0,
    {
        FrameCounter { version: 0 }
    }

    /// The number of frames read back so far.
    pub fn frame_version(&self) -> (version: u64)
        ensures
            version == self.spec_version(),
    {
        self.version
    }

    /// Takes the outcome of one read-back.  A frame that was read bumps the
    /// version by one and comes back as plain pixels; a failed read-back
    /// (`None`) leaves the version as it was.
    pub fn record_readback(&mut self, readback: Option<FramePixels>) -> (res: Option<FramePixels>)
        requires
            readback is Some ==> old(self).spec_version() < u64::MAX,
        ensures
            res == readback,
            readback_step(old(self).spec_version(), readback is Some, final(self).spec_version()),
            readback is Some ==> final(self).spec_version() == old(self).spec_version() + 1,
            readback is None ==> final(self).spec_version() == old(self).spec_version(),
    {
        if readback.is_some() {
            self.version = self.version + 1;
        }
        readback
    }
}

} // verus!
