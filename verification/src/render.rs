//! The frame renderer: every pixel of a frame gets the colour of its point,
//! the frame cut into chunks that are filled in parallel.
//!
//! A frame is a row of bytes, four to a pixel (red, green, blue, opacity),
//! the pixels row by row. The pixel with index `i` lies in column
//! `i % width` of row `i / width`.

use vstd::prelude::*;
use rayon::iter::IndexedParallelIterator;
use rayon::iter::ParallelIterator;
use rayon::slice::ParallelSliceMut;
use crate::binary64::Complex;
use crate::mandelbrot_settings::MandelbrotSettings;
use crate::pixel_colour::get_colour_mandelbrot;
use crate::pixel_colour::is_colour_at;
use crate::pixel_colour::kernel_fits;
use crate::pixel_colour::kernel_is_single_valued;
use crate::pixel_colour::lemma_colour_is_unique;
use crate::pixel_colour::Kernel;
use crate::size::Size;

verus! {

/// Whether `chunk` is the chunk length for `len` bytes and `threads` workers:
/// the least multiple of 4, and at least 4, of which `threads` cover `len`.
pub open spec fn is_chunk_size(chunk: int, len: int, threads: int) -> bool {
    &&& chunk >= 4
    &&& chunk % 4 == 0
    &&& chunk * threads >= len
    &&& chunk == 4 || (chunk - 4) * threads < len
}

/// The number of chunks of length `chunk` that `len` bytes fall into, the
/// last one maybe shorter.
pub open spec fn chunk_count(len: int, chunk: int) -> int {
    (len + chunk - 1) / chunk
}

/// The `k`-th chunk of `frame`.
pub open spec fn chunk_of(frame: Seq<u8>, k: int, chunk: int) -> Seq<u8> {
    frame.subrange(
        k * chunk,
        if (k + 1) * chunk <= frame.len() {
            (k + 1) * chunk
        } else {
            frame.len() as int
        },
    )
}

/// The four bytes of the `i`-th pixel of `bytes`.
pub open spec fn pixel(bytes: Seq<u8>, i: int) -> Seq<u8> {
    bytes.subrange(4 * i, 4 * i + 4)
}

/// Whether `colour` is a pixel for index `index` of a frame: the colour of
/// its column and row.
pub open spec fn is_pixel_at<P, S, B, H>(
    colour: Seq<u8>,
    index: int,
    size: &Size,
    mbs: &MandelbrotSettings,
    kernel: &Kernel<P, S, B, H>,
) -> bool where
    P: Fn(&Size, usize, usize, &MandelbrotSettings) -> Complex,
    S: Fn(Complex, Complex) -> Complex,
    B: Fn(Complex) -> bool,
    H: Fn(i32, i32) -> (u8, u8, u8),
 {
    is_colour_at(
        colour,
        size,
        (index % size.width as int) as usize,
        (index / size.width as int) as usize,
        mbs,
        kernel,
    )
}

/// Whether `bytes` hold, pixel after pixel, the colours of the frame's pixels
/// from index `first` on.
pub open spec fn is_filled_from<P, S, B, H>(
    bytes: Seq<u8>,
    first: int,
    size: &Size,
    mbs: &MandelbrotSettings,
    kernel: &Kernel<P, S, B, H>,
) -> bool where
    P: Fn(&Size, usize, usize, &MandelbrotSettings) -> Complex,
    S: Fn(Complex, Complex) -> Complex,
    B: Fn(Complex) -> bool,
    H: Fn(i32, i32) -> (u8, u8, u8),
 {
    forall|j: int|
        0 <= j < bytes.len() / 4 ==> is_pixel_at(
            #[trigger] pixel(bytes, j),
            first + j,
            size,
            mbs,
            kernel,
        )
}

/// Whether `frame` is a rendering of `mbs` at `size`: of the right length,
/// every pixel with its colour.
pub open spec fn is_frame_of<P, S, B, H>(
    frame: Seq<u8>,
    size: &Size,
    mbs: &MandelbrotSettings,
    kernel: &Kernel<P, S, B, H>,
) -> bool where
    P: Fn(&Size, usize, usize, &MandelbrotSettings) -> Complex,
    S: Fn(Complex, Complex) -> Complex,
    B: Fn(Complex) -> bool,
    H: Fn(i32, i32) -> (u8, u8, u8),
 {
    frame.len() == size.bytes() && is_filled_from(frame, 0, size, mbs, kernel)
}

/// The length of the chunks that a frame of `len` bytes is cut into for
/// `threads` workers. It is a multiple of 4, so that no pixel lies across two
/// chunks.
pub fn chunk_size(len: usize, threads: usize) -> (chunk: usize)
    requires
        threads >= 1,
        len % 4 == 0,
    ensures
        is_chunk_size(chunk as int, len as int, threads as int),
{
    let pixels: usize = len / 4;
    let whole: usize = pixels / threads;
    let rest: usize = pixels % threads;
    proof {
        lemma_shares(pixels as int, threads as int);
    }
    if pixels == 0 {
        4
    } else if rest == 0 {
        4 * whole
    } else {
        4 * (whole + 1)
    }
}

/// Fills one chunk of a frame: the `chunk_index`-th of those of length
/// `chunk_size`. Each of its pixels gets the colour of its point; which pixel
/// of the frame it is follows from the chunk's place and the pixel's place in
/// the chunk.
pub fn fill_chunk<P, S, B, H>(
    chunk: &mut [u8],
    chunk_index: usize,
    chunk_size: usize,
    size: &Size,
    mbs: &MandelbrotSettings,
    kernel: &Kernel<P, S, B, H>,
) where
    P: Fn(&Size, usize, usize, &MandelbrotSettings) -> Complex,
    S: Fn(Complex, Complex) -> Complex,
    B: Fn(Complex) -> bool,
    H: Fn(i32, i32) -> (u8, u8, u8),

    requires
        chunk_size % 4 == 0,
        old(chunk)@.len() % 4 == 0,
        chunk_index * chunk_size + old(chunk)@.len() <= size.bytes(),
        size.bytes() <= usize::MAX,
        kernel_fits(size, mbs, kernel),
    ensures
        final(chunk)@.len() == old(chunk)@.len(),
        is_filled_from(final(chunk)@, chunk_index * (chunk_size / 4), size, mbs, kernel),
{
    let count: usize = chunk.len() / 4;
    let pixels_per_chunk: usize = chunk_size / 4;
    assert(chunk_index * pixels_per_chunk * 4 == chunk_index * chunk_size) by (nonlinear_arith)
        requires
            pixels_per_chunk * 4 == chunk_size,
    ;
    assert(chunk_index * pixels_per_chunk >= 0) by (nonlinear_arith);
    let first: usize = chunk_index * pixels_per_chunk;
    let width: usize = size.width as usize;
    let mut j: usize = 0;
    while j < count
        invariant
            j <= count,
            count == chunk@.len() / 4,
            chunk@.len() == old(chunk)@.len(),
            chunk@.len() % 4 == 0,
            width == size.width,
            4 * first + chunk@.len() <= size.bytes(),
            size.bytes() <= usize::MAX,
            kernel_fits(size, mbs, kernel),
            forall|p: int|
                0 <= p < j ==> is_pixel_at(#[trigger] pixel(chunk@, p), first + p, size, mbs, kernel),
        decreases count - j,
    {
        let index: usize = first + j;
        proof {
            lemma_column_and_row(index as int, size.width as int, size.height as int);
        }
        let x: usize = index % width;
        let y: usize = index / width;
        let colour = get_colour_mandelbrot(size, x, y, mbs, kernel);
        let ghost before = chunk@;
        chunk[4 * j] = colour[0];
        chunk[4 * j + 1] = colour[1];
        chunk[4 * j + 2] = colour[2];
        chunk[4 * j + 3] = colour[3];
        proof {
            assert(pixel(chunk@, j as int) =~= colour@);
            assert forall|p: int| 0 <= p < j implies is_pixel_at(
                #[trigger] pixel(chunk@, p),
                first + p,
                size,
                mbs,
                kernel,
            ) by {
                assert(pixel(chunk@, p) =~= pixel(before, p));
            }
        }
        j += 1;
    }
}

/// The pixel with index `index` of a frame `width` wide and `height` high
/// lies in a column and a row inside the frame.
proof fn lemma_column_and_row(index: int, width: int, height: int)
    requires
        0 <= index,
        0 <= width,
        0 <= height,
        index < width * height,
    ensures
        width > 0,
        0 <= index % width < width,
        0 <= index / width < height,
{
    assert(width > 0) by (nonlinear_arith)
        requires
            0 <= index < width * height,
            0 <= width,
    ;
    vstd::arithmetic::div_mod::lemma_fundamental_div_mod(index, width);
    vstd::arithmetic::div_mod::lemma_mod_bound(index, width);
    let row = index / width;
    assert(0 <= row < height) by (nonlinear_arith)
        requires
            index == width * row + index % width,
            0 <= index % width < width,
            0 <= index < width * height,
            height >= 0,
    ;
}

/// Runs `fill_chunk` on every chunk of `buffer`, in parallel, by rayon's
/// `par_chunks_mut`, `enumerate` and `for_each`.
///
/// Trusted: that rayon cuts the buffer into pieces of `chunk_size` bytes, the
/// last one possibly shorter, hands each piece once, with its index counted
/// from 0, to the closure, and returns when every call has; so that each
/// piece is left as `fill_chunk` leaves it, and the length stays. A chunk
/// size of 0 makes rayon panic and is kept out.
#[verifier::external_body]
fn par_fill_chunks<P, S, B, H>(
    buffer: &mut [u8],
    chunk_size: usize,
    size: &Size,
    mbs: &MandelbrotSettings,
    kernel: &Kernel<P, S, B, H>,
) where
    P: Fn(&Size, usize, usize, &MandelbrotSettings) -> Complex + Sync,
    S: Fn(Complex, Complex) -> Complex + Sync,
    B: Fn(Complex) -> bool + Sync,
    H: Fn(i32, i32) -> (u8, u8, u8) + Sync,

    requires
        chunk_size >= 4,
        chunk_size % 4 == 0,
        old(buffer)@.len() == size.bytes(),
        kernel_fits(size, mbs, kernel),
    ensures
        final(buffer)@.len() == old(buffer)@.len(),
        forall|k: int|
            0 <= k < chunk_count(old(buffer)@.len() as int, chunk_size as int) ==> is_filled_from(
                #[trigger] chunk_of(final(buffer)@, k, chunk_size as int),
                k * (chunk_size / 4),
                size,
                mbs,
                kernel,
            ),
{
    buffer.par_chunks_mut(chunk_size).enumerate().for_each(
        |(chunk_index, chunk)| fill_chunk(chunk, chunk_index, chunk_size, size, mbs, kernel),
    );
}

/// Renders a frame: fills `buffer`, which holds a frame of `size`, with the
/// colour of every pixel's point under `mbs`, on up to `threads` workers.
/// What comes out does not depend on `threads`.
pub fn draw_cpu_multithreaded<P, S, B, H>(
    mbs: &MandelbrotSettings,
    size: &Size,
    buffer: &mut [u8],
    threads: usize,
    kernel: &Kernel<P, S, B, H>,
) where
    P: Fn(&Size, usize, usize, &MandelbrotSettings) -> Complex + Sync,
    S: Fn(Complex, Complex) -> Complex + Sync,
    B: Fn(Complex) -> bool + Sync,
    H: Fn(i32, i32) -> (u8, u8, u8) + Sync,

    requires
        threads >= 1,
        old(buffer)@.len() == size.bytes(),
        kernel_fits(size, mbs, kernel),
    ensures
        is_frame_of(final(buffer)@, size, mbs, kernel),
{
    let len: usize = buffer.len();
    assert(len % 4 == 0);
    let chunk: usize = chunk_size(len, threads);
    par_fill_chunks(buffer, chunk, size, mbs, kernel);
    proof {
        let frame = buffer@;
        assert forall|i: int| 0 <= i < frame.len() / 4 implies is_pixel_at(
            #[trigger] pixel(frame, i),
            0 + i,
            size,
            mbs,
            kernel,
        ) by {
            lemma_pixel_in_chunk(frame, i, chunk as int);
            let k = i / (chunk as int / 4);
            let j = i % (chunk as int / 4);
            assert(is_filled_from(
                chunk_of(frame, k, chunk as int),
                k * (chunk / 4),
                size,
                mbs,
                kernel,
            ));
            assert(pixel(chunk_of(frame, k, chunk as int), j) == pixel(frame, i));
        }
    }
}

/// No pixel lies across two chunks. Where `n` pixels make a chunk, pixel `i`
/// of the frame is, with all four bytes, pixel `i % n` of chunk `i / n`.
pub proof fn lemma_pixel_in_chunk(frame: Seq<u8>, i: int, chunk: int)
    requires
        chunk >= 4,
        chunk % 4 == 0,
        frame.len() % 4 == 0,
        0 <= i < frame.len() / 4,
    ensures
        0 <= i / (chunk / 4) < chunk_count(frame.len() as int, chunk),
        0 <= i % (chunk / 4) < chunk_of(frame, i / (chunk / 4), chunk).len() / 4,
        (i / (chunk / 4)) * (chunk / 4) + i % (chunk / 4) == i,
        pixel(chunk_of(frame, i / (chunk / 4), chunk), i % (chunk / 4)) == pixel(frame, i),
{
    let n = chunk / 4;
    let k = i / n;
    let j = i % n;
    let len = frame.len() as int;
    vstd::arithmetic::div_mod::lemma_fundamental_div_mod(i, n);
    vstd::arithmetic::div_mod::lemma_mod_bound(i, n);
    assert(k >= 0 && k * n == n * k && k * chunk == 4 * (n * k) && (k + 1) * chunk == 4 * (n * k)
        + chunk) by (nonlinear_arith)
        requires
            i == n * k + j,
            0 <= j < n,
            i >= 0,
            chunk == 4 * n,
    ;
    // the chunk starts at or before the pixel, and inside the frame
    assert(k * chunk + 4 * j == 4 * i);
    assert(k * chunk < len);
    // there are enough chunks to reach it
    assert(k < chunk_count(len, chunk)) by {
        vstd::arithmetic::div_mod::lemma_fundamental_div_mod(len + chunk - 1, chunk);
        vstd::arithmetic::div_mod::lemma_mod_bound(len + chunk - 1, chunk);
        let c = (len + chunk - 1) / chunk;
        assert(k < c) by (nonlinear_arith)
            requires
                len + chunk - 1 == chunk * c + (len + chunk - 1) % chunk,
                0 <= (len + chunk - 1) % chunk < chunk,
                k * chunk < len,
                chunk >= 4,
        ;
    }
    let end = if (k + 1) * chunk <= len {
        (k + 1) * chunk
    } else {
        len
    };
    let piece = chunk_of(frame, k, chunk);
    assert(piece.len() == end - k * chunk);
    assert(4 * j + 4 <= piece.len());
    assert(pixel(piece, j) =~= pixel(frame, i));
}

/// Rendering is repeatable. Two frames rendered from the same settings at the
/// same size, by a kernel whose functions give one answer each, are equal
/// byte for byte: whatever the number of workers was, and in whatever order
/// they ran.
pub proof fn lemma_frames_agree<P, S, B, H>(
    first: Seq<u8>,
    second: Seq<u8>,
    size: &Size,
    mbs: &MandelbrotSettings,
    kernel: &Kernel<P, S, B, H>,
) where
    P: Fn(&Size, usize, usize, &MandelbrotSettings) -> Complex,
    S: Fn(Complex, Complex) -> Complex,
    B: Fn(Complex) -> bool,
    H: Fn(i32, i32) -> (u8, u8, u8),

    requires
        is_frame_of(first, size, mbs, kernel),
        is_frame_of(second, size, mbs, kernel),
        kernel_is_single_valued(size, mbs, kernel),
    ensures
        first == second,
{
    assert forall|b: int| 0 <= b < first.len() implies first[b] == second[b] by {
        let i = b / 4;
        let x = (i % size.width as int) as usize;
        let y = (i / size.width as int) as usize;
        assert(is_pixel_at(pixel(first, i), 0 + i, size, mbs, kernel));
        assert(is_pixel_at(pixel(second, i), 0 + i, size, mbs, kernel));
        lemma_colour_is_unique(pixel(first, i), pixel(second, i), size, x, y, mbs, kernel);
        assert(first[b] == pixel(first, i)[b - 4 * i]);
        assert(second[b] == pixel(second, i)[b - 4 * i]);
    }
    assert(first =~= second);
}

/// Every pixel of a rendered frame is opaque: its fourth byte is 255.
pub proof fn lemma_frame_is_opaque<P, S, B, H>(
    frame: Seq<u8>,
    size: &Size,
    mbs: &MandelbrotSettings,
    kernel: &Kernel<P, S, B, H>,
    i: int,
) where
    P: Fn(&Size, usize, usize, &MandelbrotSettings) -> Complex,
    S: Fn(Complex, Complex) -> Complex,
    B: Fn(Complex) -> bool,
    H: Fn(i32, i32) -> (u8, u8, u8),

    requires
        is_frame_of(frame, size, mbs, kernel),
        0 <= i < size.pixels(),
    ensures
        frame[4 * i + 3] == 255,
{
    assert(is_pixel_at(pixel(frame, i), 0 + i, size, mbs, kernel));
    assert(frame[4 * i + 3] == pixel(frame, i)[3]);
}

/// A frame is cut into no more chunks than there are workers.
pub proof fn lemma_chunks_fit_threads(len: int, threads: int, chunk: int)
    requires
        len >= 0,
        threads >= 1,
        is_chunk_size(chunk, len, threads),
    ensures
        0 <= chunk_count(len, chunk) <= threads,
{
    let count = chunk_count(len, chunk);
    vstd::arithmetic::div_mod::lemma_fundamental_div_mod(len + chunk - 1, chunk);
    vstd::arithmetic::div_mod::lemma_mod_bound(len + chunk - 1, chunk);
    assert(0 <= count <= threads) by (nonlinear_arith)
        requires
            len + chunk - 1 == chunk * count + (len + chunk - 1) % chunk,
            0 <= (len + chunk - 1) % chunk < chunk,
            chunk * threads >= len,
            chunk >= 4,
            len >= 0,
    ;
}

/// For given length and workers there is one chunk length only.
pub proof fn lemma_chunk_size_is_unique(len: int, threads: int, a: int, b: int)
    requires
        threads >= 1,
        is_chunk_size(a, len, threads),
        is_chunk_size(b, len, threads),
    ensures
        a == b,
{
    if a < b {
        assert(a <= b - 4);
        assert((b - 4) * threads >= a * threads) by (nonlinear_arith)
            requires
                a <= b - 4,
                threads >= 1,
        ;
    }
    if b < a {
        assert(b <= a - 4);
        assert((a - 4) * threads >= b * threads) by (nonlinear_arith)
            requires
                b <= a - 4,
                threads >= 1,
        ;
    }
}

/// `pixels` pixels dealt out to `threads` workers: with the quotient each,
/// and one more where the division leaves a rest, all are covered, and with
/// one fewer each they are not.
proof fn lemma_shares(pixels: int, threads: int)
    requires
        pixels >= 0,
        threads >= 1,
    ensures
        0 <= pixels / threads <= pixels,
        0 <= pixels % threads < threads,
        pixels % threads > 0 ==> pixels / threads + 1 <= pixels,
        pixels > 0 && pixels % threads == 0 ==> is_chunk_size(
            4 * (pixels / threads),
            4 * pixels,
            threads,
        ),
        pixels % threads > 0 ==> is_chunk_size(4 * (pixels / threads + 1), 4 * pixels, threads),
        pixels == 0 ==> is_chunk_size(4, 4 * pixels, threads),
{
    vstd::arithmetic::div_mod::lemma_fundamental_div_mod(pixels, threads);
    vstd::arithmetic::div_mod::lemma_mod_bound(pixels, threads);
    let q = pixels / threads;
    let r = pixels % threads;
    assert(q >= 0 && q <= pixels && (r > 0 ==> q + 1 <= pixels) && (pixels > 0 && r == 0 ==> q
        >= 1)) by (nonlinear_arith)
        requires
            pixels == threads * q + r,
            0 <= r < threads,
            threads >= 1,
            pixels >= 0,
    ;
    assert((4 * q) * threads == 4 * (threads * q) && (4 * (q + 1)) * threads == 4 * (threads * q)
        + 4 * threads && (4 * q - 4) * threads == 4 * (threads * q) - 4 * threads)
        by (nonlinear_arith);
}

} // verus!
