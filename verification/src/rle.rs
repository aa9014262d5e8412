//! Run-length pixel compression.
//!
//! A BGRA8888 buffer is converted pixel by pixel to 16-bit RGB565 and
//! encoded as a sequence of records:
//!
//! * a run of `k` equal pixels, `2 <= k <= 255`, becomes
//!   `[k, pixel-low, pixel-high]`;
//! * a single pixel that no run extends becomes the raw escape
//!   `[0xAF, 0x00, pixel-low, pixel-high]`.
//!
//! The escape byte `0xAF` can never be confused with a run length on the
//! encoding side, because the run-length slot only ever carries values in
//! `[2, 255]` and the raw record is distinguished by its second byte `0x00`
//! standing where a run record carries the pixel's low byte; the receiving
//! hardware resolves the format by position, and the encoder must keep
//! exactly this shape.

use vstd::prelude::*;

verus! {

/// Escape byte that opens a raw (single-pixel) record.
pub const RLE_RAW_MARKER: u8 = 0xAF;

/// Mathematical value of one converted pixel: the top 5 bits of red,
/// the top 6 of green and the top 5 of blue, packed r:g:b from the
/// high bit down. The alpha byte does not enter.
pub open spec fn rgb565_spec(b: u8, g: u8, r: u8) -> u16 {
    (((r >> 3) as u16) << 11) | (((g >> 2) as u16) << 5) | ((b >> 3) as u16)
}

/// The two little-endian bytes of a 16-bit value.
pub open spec fn le16(p: u16) -> Seq<u8> {
    seq![(p % 256) as u8, (p / 256) as u8]
}

/// Pixel `i` of a BGRA buffer, as RGB565.
pub open spec fn pixel_at(fb: Seq<u8>, i: int) -> u16 {
    rgb565_spec(fb[4 * i], fb[4 * i + 1], fb[4 * i + 2])
}

/// How many whole pixels the encoder reads: the requested pixel count,
/// or as many complete 4-byte pixels as the buffer holds, whichever is
/// smaller. A short buffer truncates the frame; it is never an error.
pub open spec fn avail_pixels(len: int, pixels: int) -> int {
    if pixels <= len / 4 {
        pixels
    } else {
        len / 4
    }
}

/// Number of consecutive pixels equal to `p`, starting at pixel `i`,
/// among the first `n` pixels.
pub open spec fn run_count(fb: Seq<u8>, n: int, i: int, p: u16) -> int
    decreases n - i when i <= n
{
    if i < n && pixel_at(fb, i) == p {
        1 + run_count(fb, n, i + 1, p)
    } else {
        0
    }
}

/// The run the encoder emits at pixel `i`: the maximal run of the pixel's
/// own colour, capped at 255 so the length fits one byte.
pub open spec fn spec_run_len(fb: Seq<u8>, n: int, i: int) -> int {
    let c = run_count(fb, n, i, pixel_at(fb, i));
    if c <= 255 {
        c
    } else {
        255
    }
}

/// One encoded record: a run record for `len >= 2`, the raw escape for a
/// single pixel.
pub open spec fn run_record(len: int, p: u16) -> Seq<u8> {
    if len >= 2 {
        seq![len as u8] + le16(p)
    } else {
        seq![RLE_RAW_MARKER, 0x00u8] + le16(p)
    }
}

/// The whole encoding of pixels `i..n`: record after record, each run
/// consumed before the next record starts.
pub open spec fn rle_spec(fb: Seq<u8>, n: int, i: int) -> Seq<u8>
    decreases n - i when 0 <= i <= n
    via rle_spec_decreases
{
    if i < n {
        run_record(spec_run_len(fb, n, i), pixel_at(fb, i)) + rle_spec(
            fb,
            n,
            i + spec_run_len(fb, n, i),
        )
    } else {
        Seq::empty()
    }
}

#[via_fn]
proof fn rle_spec_decreases(fb: Seq<u8>, n: int, i: int) {
    if 0 <= i && i < n {
        lemma_run_count_bounds(fb, n, i, pixel_at(fb, i));
    }
}

/// `run_count` stays between 0 and `n - i`, and is at least 1 where the
/// pixel at `i` itself matches.
proof fn lemma_run_count_bounds(fb: Seq<u8>, n: int, i: int, p: u16)
    requires
        i <= n,
    ensures
        0 <= run_count(fb, n, i, p) <= n - i,
        i < n && pixel_at(fb, i) == p ==> run_count(fb, n, i, p) >= 1,
    decreases n - i,
{
    if i < n && pixel_at(fb, i) == p {
        lemma_run_count_bounds(fb, n, i + 1, p);
    }
}

/// Every pixel inside the counted run matches `p`.
proof fn lemma_run_count_all_equal(fb: Seq<u8>, n: int, i: int, p: u16)
    requires
        i <= n,
    ensures
        forall|j: int|
            i <= j < i + run_count(fb, n, i, p) ==> pixel_at(fb, j) == p,
    decreases n - i,
{
    if i < n && pixel_at(fb, i) == p {
        lemma_run_count_all_equal(fb, n, i + 1, p);
    }
}

/// A block of `r` matching pixels makes the count at least `r`.
proof fn lemma_run_count_at_least(fb: Seq<u8>, n: int, i: int, p: u16, r: int)
    requires
        0 <= r,
        i + r <= n,
        forall|j: int| i <= j < i + r ==> pixel_at(fb, j) == p,
    ensures
        run_count(fb, n, i, p) >= r,
    decreases r,
{
    if r > 0 {
        assert(pixel_at(fb, i) == p);
        lemma_run_count_at_least(fb, n, i + 1, p, r - 1);
    } else {
        lemma_run_count_bounds(fb, n, i, p);
    }
}

/// A block of `r` matching pixels that the next pixel (or the end of the
/// frame) closes off is counted exactly.
proof fn lemma_run_count_exact(fb: Seq<u8>, n: int, i: int, p: u16, r: int)
    requires
        0 <= r,
        i + r <= n,
        forall|j: int| i <= j < i + r ==> pixel_at(fb, j) == p,
        i + r == n || pixel_at(fb, i + r) != p,
    ensures
        run_count(fb, n, i, p) == r,
    decreases r,
{
    if r == 0 {
    } else {
        assert(pixel_at(fb, i) == p);
        lemma_run_count_exact(fb, n, i + 1, p, r - 1);
    }
}

/// Every record is at least 3 bytes, so one available pixel already makes
/// the encoding non-empty.
pub proof fn lemma_rle_nonempty(fb: Seq<u8>, n: int)
    requires
        0 < n,
    ensures
        rle_spec(fb, n, 0).len() >= 3,
{
    assert(run_record(spec_run_len(fb, n, 0), pixel_at(fb, 0)).len() >= 3);
}

/// What the encoder's look-ahead establishes pins the run length: a block
/// of matching pixels that is maximal, ends the frame, or hits the cap.
proof fn lemma_run_len_characterize(fb: Seq<u8>, n: int, i: int, r: int)
    requires
        0 <= i < n,
        1 <= r <= 255,
        i + r <= n,
        forall|j: int| i <= j < i + r ==> pixel_at(fb, j) == pixel_at(fb, i),
        r == 255 || i + r == n || pixel_at(fb, i + r) != pixel_at(fb, i),
    ensures
        r == spec_run_len(fb, n, i),
{
    let p = pixel_at(fb, i);
    if i + r == n || pixel_at(fb, i + r) != p {
        lemma_run_count_exact(fb, n, i, p, r);
    } else {
        lemma_run_count_at_least(fb, n, i, p, r);
    }
}

/// Every pixel among the first `n` has colour `p`.
pub open spec fn uniform_pixels(fb: Seq<u8>, n: int, p: u16) -> bool {
    forall|i: int| 0 <= i < n ==> pixel_at(fb, i) == p
}

/// The encoding of a uniform frame: full 255-pixel run records, then one
/// record covering the remainder.
pub open spec fn uniform_encoding(n: int, p: u16) -> Seq<u8>
    decreases n,
{
    if n <= 0 {
        Seq::empty()
    } else if n <= 255 {
        run_record(n, p)
    } else {
        run_record(255, p) + uniform_encoding(n - 255, p)
    }
}

/// Number of records in the encoding of a uniform frame of `n` pixels.
pub open spec fn uniform_record_count(n: int) -> int
    decreases n,
{
    if n <= 0 {
        0
    } else if n <= 255 {
        1
    } else {
        1 + uniform_record_count(n - 255)
    }
}

proof fn lemma_uniform_rle_from(fb: Seq<u8>, n: int, i: int, p: u16)
    requires
        0 <= i <= n,
        uniform_pixels(fb, n, p),
    ensures
        rle_spec(fb, n, i) == uniform_encoding(n - i, p),
    decreases n - i,
{
    if i < n {
        assert(pixel_at(fb, i) == p);
        lemma_run_count_exact(fb, n, i, p, n - i);
        if n - i <= 255 {
            lemma_uniform_rle_from(fb, n, n, p);
            assert(run_record(n - i, p) + Seq::<u8>::empty() =~= run_record(n - i, p));
        } else {
            lemma_uniform_rle_from(fb, n, i + 255, p);
        }
    }
}

/// Law: a uniform-colour frame of `n` pixels compresses to exactly
/// `uniform_record_count(n)` records — that is `(n + 254) / 255` of them,
/// the last covering the remainder — and for `2 <= n <= 255` to the single
/// run record `[n, pixel-low, pixel-high]`. (A lone pixel, `n == 1`, is
/// emitted as the 4-byte raw escape instead of a run record.)
pub proof fn lemma_uniform_compression(fb: Seq<u8>, n: int, p: u16)
    requires
        0 <= n,
        uniform_pixels(fb, n, p),
    ensures
        rle_spec(fb, n, 0) == uniform_encoding(n, p),
        2 <= n <= 255 ==> rle_spec(fb, n, 0) == seq![
            n as u8,
            (p % 256) as u8,
            (p / 256) as u8,
        ],
        uniform_record_count(n) == (n + 254) / 255,
{
    lemma_uniform_rle_from(fb, n, 0, p);
    if 2 <= n <= 255 {
        assert(run_record(n, p) =~= seq![n as u8, (p % 256) as u8, (p / 256) as u8]);
    }
    lemma_uniform_count_is_ceil(n);
}

proof fn lemma_uniform_count_is_ceil(n: int)
    requires
        0 <= n,
    ensures
        uniform_record_count(n) == (n + 254) / 255,
    decreases n,
{
    if n > 255 {
        lemma_uniform_count_is_ceil(n - 255);
    }
}

/// Run-length pixel compressor. The output buffer is owned by the
/// compressor and reused across calls; its view is the byte sequence the
/// buffer currently holds.
pub struct RLECompressor {
    buffer: Vec<u8>,
}

impl View for RLECompressor {
    type V = Seq<u8>;

    closed spec fn view(&self) -> Seq<u8> {
        self.buffer@
    }
}

impl RLECompressor {
    pub fn new() -> (c: Self)
        ensures
            c@.len() == 0,
    {
        RLECompressor { buffer: Vec::with_capacity(crate::DL_MAX_TRANSFER_SIZE) }
    }

    /// Convert one BGRA pixel to 16-bit RGB565; the alpha byte is discarded.
    pub fn bgra_to_rgb565(b: u8, g: u8, r: u8, _a: u8) -> (p: u16)
        ensures
            p == rgb565_spec(b, g, r),
    {
        let r5 = (r >> 3) as u16;
        let g6 = (g >> 2) as u16;
        let b5 = (b >> 3) as u16;
        (r5 << 11) | (g6 << 5) | b5
    }

    /// Append the two little-endian bytes of `p` to the output buffer.
    fn push_le16(&mut self, p: u16)
        ensures
            final(self)@ == old(self)@ + le16(p),
    {
        self.buffer.push((p % 256) as u8);
        self.buffer.push((p / 256) as u8);
        proof {
            assert(final(self)@ =~= old(self)@ + le16(p));
        }
    }

    /// Compress a BGRA8888 buffer of `width * height` pixels into the run
    /// and raw records of [`rle_spec`]. A buffer shorter than
    /// `width * height * 4` bytes truncates the frame at the last complete
    /// pixel; the compressed stream never reads past the supplied bytes,
    /// and is non-empty whenever at least one complete pixel is available.
    pub fn compress(&mut self, framebuffer: &[u8], width: usize, height: usize) -> (out: &[u8])
        requires
            width * height <= usize::MAX,
        ensures
            final(self)@ == rle_spec(
                framebuffer@,
                avail_pixels(framebuffer@.len() as int, width * height),
                0,
            ),
            out@ == final(self)@,
            avail_pixels(framebuffer@.len() as int, width * height) > 0 ==> final(self)@.len()
                >= 3,
    {
        self.buffer.clear();
        let pixels: usize = width * height;
        let len4: usize = framebuffer.len() / 4;
        let n: usize = if pixels <= len4 {
            pixels
        } else {
            len4
        };
        let ghost fb: Seq<u8> = framebuffer@;
        let ghost gn: int = n as int;
        proof {
            assert(gn == avail_pixels(fb.len() as int, width * height));
            assert(4 * gn <= fb.len());
        }
        let mut i: usize = 0;
        while i < n
            invariant
                0 <= i <= n,
                n == gn,
                fb == framebuffer@,
                gn == avail_pixels(fb.len() as int, width * height),
                4 * gn <= fb.len(),
                fb.len() <= usize::MAX,
                self.buffer@ + rle_spec(fb, gn, i as int) == rle_spec(fb, gn, 0),
            decreases n - i,
        {
            let off: usize = i * 4;
            let pixel: u16 = Self::bgra_to_rgb565(
                framebuffer[off],
                framebuffer[off + 1],
                framebuffer[off + 2],
                framebuffer[off + 3],
            );
            proof {
                assert(pixel == pixel_at(fb, i as int));
            }
            let mut run_length: usize = 1;
            while run_length < 255 && i + run_length < n
                invariant_except_break
                    i < n,
                    n == gn,
                    fb == framebuffer@,
                    4 * gn <= fb.len(),
                    fb.len() <= usize::MAX,
                    1 <= run_length <= 255,
                    i + run_length <= n,
                    pixel == pixel_at(fb, i as int),
                    forall|j: int|
                        i <= j < i + run_length ==> pixel_at(fb, j) == pixel,
                ensures
                    i < n,
                    n == gn,
                    fb == framebuffer@,
                    1 <= run_length <= 255,
                    i + run_length <= n,
                    pixel == pixel_at(fb, i as int),
                    forall|j: int|
                        i <= j < i + run_length ==> pixel_at(fb, j) == pixel,
                    run_length == 255 || i + run_length == n || pixel_at(
                        fb,
                        i + run_length,
                    ) != pixel,
                decreases n - i - run_length,
            {
                let noff: usize = (i + run_length) * 4;
                let next: u16 = Self::bgra_to_rgb565(
                    framebuffer[noff],
                    framebuffer[noff + 1],
                    framebuffer[noff + 2],
                    framebuffer[noff + 3],
                );
                proof {
                    assert(next == pixel_at(fb, i + run_length));
                }
                if next != pixel {
                    break;
                }
                run_length = run_length + 1;
            }
            proof {
                lemma_run_len_characterize(fb, gn, i as int, run_length as int);
            }
            let ghost before: Seq<u8> = self.buffer@;
            if run_length >= 2 {
                self.buffer.push(run_length as u8);
                self.push_le16(pixel);
            } else {
                self.buffer.push(RLE_RAW_MARKER);
                self.buffer.push(0x00);
                self.push_le16(pixel);
            }
            proof {
                assert(self.buffer@ =~= before + run_record(
                    run_length as int,
                    pixel,
                ));
                assert(rle_spec(fb, gn, i as int) == run_record(
                    spec_run_len(fb, gn, i as int),
                    pixel_at(fb, i as int),
                ) + rle_spec(fb, gn, i + run_length));
                assert((before + run_record(run_length as int, pixel)) + rle_spec(
                    fb,
                    gn,
                    i + run_length,
                ) =~= before + rle_spec(fb, gn, i as int));
            }
            i = i + run_length;
        }
        proof {
            assert(rle_spec(fb, gn, gn) =~= Seq::<u8>::empty());
            assert(self.buffer@ + rle_spec(fb, gn, gn) =~= self.buffer@);
            if gn > 0 {
                lemma_rle_nonempty(fb, gn);
            }
        }
        self.buffer.as_slice()
    }

    /// Drop the contents of the output buffer.
    pub fn reset(&mut self)
        ensures
            final(self)@.len() == 0,
    {
        self.buffer.clear();
    }
}

} // verus!
