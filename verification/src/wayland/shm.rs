//! Shared-memory buffers for the compositor to write captures into.
//!
//! A pool can be built over any file, not only one this program allocated, so one file may carry
//! several images.

use crate::wayland::capture::Constraints;
use vstd::prelude::*;

verus! {

/// Bytes per pixel for every format this backend deals in. All of them are 32-bit.
pub const BYTES_PER_PIXEL: usize = 4;

/// Where in a file an image sits.
///
/// Grouped rather than passed as loose integers: `pool_size` is the whole file while `offset` is
/// this image's place in it, and swapping them silently yields a pool too small for the image.
#[derive(Debug, Clone, Copy, PartialEq, Eq, Structural)]
pub struct Region {
    /// The size of the whole file backing the pool.
    pub pool_size: usize,
    /// Where this image starts within it. Zero when the file holds one image.
    pub offset: i32,
}

impl Region {
    /// A file holding exactly one image.
    pub fn whole(pool_size: usize) -> (region: Self)
        ensures
            region.pool_size == pool_size,
            region.offset == 0,
    {
        Region { pool_size, offset: 0 }
    }
}

/// A buffer and the pool behind it, as the protocol is told about them.
#[derive(Debug, Clone, Copy, PartialEq, Eq, Structural)]
pub struct Buffer {
    pub pool_size: i32,
    pub offset: i32,
    pub width: i32,
    pub height: i32,
    pub stride: i32,
    pub format: u32,
}

impl Buffer {
    /// How an image in a file is described as a buffer the compositor can write to.
    pub open spec fn told(memory: Region, constraints: Constraints) -> Self {
        Buffer {
            pool_size: memory.pool_size as i32,
            offset: memory.offset,
            width: constraints.width as i32,
            height: constraints.height as i32,
            stride: ((constraints.width as i32) * 4) as i32,
            format: constraints.format,
        }
    }

    /// Describe an image in a file as a buffer the compositor can write to.
    pub fn new(memory: Region, constraints: Constraints) -> (buffer: Self)
        requires
            i32::MIN <= (constraints.width as i32) * 4 <= i32::MAX,
        ensures
            buffer == Self::told(memory, constraints),
    {
        let width = #[verifier::truncate] (constraints.width as i32);
        let height = #[verifier::truncate] (constraints.height as i32);
        Buffer {
            pool_size: #[verifier::truncate] (memory.pool_size as i32),
            offset: memory.offset,
            width,
            height,
            stride: width * BYTES_PER_PIXEL as i32,
            format: constraints.format,
        }
    }

    /// How many bytes an image of this size takes.
    pub open spec fn bytes_for(width: int, height: int) -> int {
        width * height * 4
    }

    /// How many bytes an image of this size needs.
    pub fn size_for(width: i32, height: i32) -> (size: usize)
        requires
            Self::bytes_for(width as usize as int, height as usize as int) <= usize::MAX,
        ensures
            size == Self::bytes_for(width as usize as int, height as usize as int),
    {
        let w: usize = #[verifier::truncate] (width as usize);
        let h: usize = #[verifier::truncate] (height as usize);
        assert(w * h <= w * h * 4) by (nonlinear_arith)
            requires
                w >= 0,
                h >= 0,
        ;
        w * h * BYTES_PER_PIXEL
    }
}

/// Whether the protocol, which counts in 32 signed bits, can be told about an image of this size.
pub open spec fn can_be_told(constraints: Constraints) -> bool {
    &&& constraints.width * 4 <= i32::MAX
    &&& constraints.height <= i32::MAX
    &&& Buffer::bytes_for(constraints.width as int, constraints.height as int) <= i32::MAX
}

/// How many bytes an image takes, where the protocol can be told about it.
pub fn image_size(constraints: Constraints) -> (size: Option<usize>)
    ensures
        match size {
            Some(size) => can_be_told(constraints) && size == Buffer::bytes_for(
                constraints.width as int,
                constraints.height as int,
            ),
            None => !can_be_told(constraints),
        },
{
    let (w, h): (u128, u128) = (constraints.width as u128, constraints.height as u128);
    let most: u128 = i32::MAX as u128;
    assert(0 <= w * h <= u32::MAX * u32::MAX) by (nonlinear_arith)
        requires
            0 <= w <= u32::MAX,
            0 <= h <= u32::MAX,
    ;
    let size: u128 = w * h * 4;
    if w * 4 <= most && h <= most && size <= most {
        Some(size as usize)
    } else {
        None
    }
}

/// An image as large as its constraints say fits exactly in the memory that is asked for it, row
/// after row.
pub proof fn an_image_fills_its_memory(constraints: Constraints)
    requires
        constraints.width * 4 <= i32::MAX,
        constraints.height <= i32::MAX,
    ensures
        ((constraints.width as i32) * 4) * (constraints.height as i32) == Buffer::bytes_for(
            constraints.width as int,
            constraints.height as int,
        ),
{
    let w = constraints.width as int;
    let h = constraints.height as int;
    assert((w * 4) * h == w * h * 4) by (nonlinear_arith);
}

/// An image takes four bytes for each of its pixels, and only one that 32 signed bits can count
/// is told of.
pub proof fn an_image_takes_four_bytes_a_pixel(constraints: Constraints, rows: nat)
    ensures
        Buffer::bytes_for(constraints.width as int, 0) == 0,
        Buffer::bytes_for(constraints.width as int, rows as int + 1) == Buffer::bytes_for(
            constraints.width as int,
            rows as int,
        ) + 4 * constraints.width,
        can_be_told(constraints) ==> 4 * constraints.width <= 2147483647 && constraints.height
            <= 2147483647,
        can_be_told(constraints) <==> constraints.width * 4 <= 2147483647 && constraints.height
            <= 2147483647 && (constraints.width * constraints.height) * 4 <= 2147483647,
{
    let w = constraints.width as int;
    assert(w * 0 * 4 == 0) by (nonlinear_arith);
    assert(w * (rows + 1) * 4 == w * rows * 4 + 4 * w) by (nonlinear_arith);
}

/// The compositor is told an image as wide and as high as it wants it, in its own format, four
/// bytes to the pixel, at its place in the whole file.
pub proof fn an_image_is_described_as_it_is(memory: Region, constraints: Constraints)
    requires
        can_be_told(constraints),
    ensures
        ({
            let buffer = Buffer::told(memory, constraints);
            &&& buffer.width == constraints.width
            &&& buffer.height == constraints.height
            &&& buffer.stride == 4 * constraints.width
            &&& buffer.format == constraints.format
            &&& buffer.offset == memory.offset
            &&& memory.pool_size <= i32::MAX ==> buffer.pool_size == memory.pool_size
            &&& buffer.stride * buffer.height == Buffer::bytes_for(
                constraints.width as int,
                constraints.height as int,
            )
        }),
{
    an_image_fills_its_memory(constraints);
}

} // verus!
