//! Sizing and scheduling of the render and post-processing passes. The
//! device work itself is driven by the caller; these say what to dispatch.
use vstd::prelude::*;

use crate::layout::u32_le;

verus! {

/// Width and height of a workgroup tile, in pixels.
pub const TILE: u32 = 16;

/// Largest image dimension that can be rounded up to a whole tile.
pub const MAX_DIMENSION: u32 = 0xffff_fff0;

/// `n` rounded up to the next multiple of the tile size.
pub fn tile_aligned(n: u32) -> (r: u32)
    requires
        n <= MAX_DIMENSION,
    ensures
        r % 16 == 0,
        n <= r < n + 16,
{
    (n + 15) / 16 * 16
}

/// The 4-byte per-dispatch value that carries a sample index (little-endian).
pub fn sample_constant(sample: u32) -> (r: [u8; 4])
    ensures
        r@ == u32_le(sample),
{
    let r = [
        (sample % 256) as u8,
        ((sample / 256) % 256) as u8,
        ((sample / 65536) % 256) as u8,
        (sample / 16777216) as u8,
    ];
    assert(r@ =~= u32_le(sample));
    r
}

/// The state of a render: the tile-aligned target size, the number of samples
/// asked for, and the index of the next sample to dispatch. Samples are
/// dispatched in order, each exactly once.
pub struct RenderPlan {
    width: u32,
    height: u32,
    samples: u32,
    next: u32,
}

/// What a caller sees of a render plan.
pub struct RenderState {
    pub width: nat,
    pub height: nat,
    pub samples: nat,
    pub next: nat,
}

impl View for RenderPlan {
    type V = RenderState;

    closed spec fn view(&self) -> RenderState {
        RenderState {
            width: self.width as nat,
            height: self.height as nat,
            samples: self.samples as nat,
            next: self.next as nat,
        }
    }
}

impl RenderPlan {
    pub closed spec fn wf(&self) -> bool {
        self.width % 16 == 0 && self.height % 16 == 0 && self.next <= self.samples
    }

    /// A plan for an image of `width` by `height` pixels, rounded up to whole
    /// tiles, and `samples` samples, none dispatched yet.
    pub fn new(width: u32, height: u32, samples: u32) -> (r: RenderPlan)
        requires
            width <= MAX_DIMENSION,
            height <= MAX_DIMENSION,
        ensures
            r.wf(),
            r@.width % 16 == 0 && width <= r@.width < width + 16,
            r@.height % 16 == 0 && height <= r@.height < height + 16,
            r@.samples == samples,
            r@.next == 0,
    {
        RenderPlan { width: tile_aligned(width), height: tile_aligned(height), samples, next: 0 }
    }

    pub fn width(&self) -> (r: u32)
        ensures
            r == self@.width,
    {
        self.width
    }

    pub fn height(&self) -> (r: u32)
        ensures
            r == self@.height,
    {
        self.height
    }

    pub fn samples(&self) -> (r: u32)
        ensures
            r == self@.samples,
    {
        self.samples
    }

    /// Workgroups per dispatch on each axis; they cover the target exactly.
    pub fn workgroups(&self) -> (r: (u32, u32))
        requires
            self.wf(),
        ensures
            r.0 * 16 == self@.width,
            r.1 * 16 == self@.height,
    {
        (self.width / 16, self.height / 16)
    }

    /// The next sample to dispatch, or `None` once all have been.
    pub fn next_sample(&mut self) -> (r: Option<u32>)
        requires
            old(self).wf(),
        ensures
            final(self).wf(),
            final(self)@.width == old(self)@.width,
            final(self)@.height == old(self)@.height,
            final(self)@.samples == old(self)@.samples,
            old(self)@.next < old(self)@.samples ==> r == Some(old(self)@.next as u32)
                && final(self)@.next == old(self)@.next + 1,
            old(self)@.next >= old(self)@.samples ==> r is None && final(self)@.next
                == old(self)@.next,
    {
        if self.next < self.samples {
            let s = self.next;
            self.next = self.next + 1;
            Some(s)
        } else {
            None
        }
    }

    /// Every sample has been dispatched; the target may be read once the
    /// device has finished.
    pub fn is_complete(&self) -> (r: bool)
        ensures
            r == (self@.next >= self@.samples),
    {
        self.next >= self.samples
    }
}

/// Workgroups on each axis for the post-processing pass; only images whose
/// sides are whole tiles can be processed.
pub fn dispatch_grid(width: u32, height: u32) -> (r: Option<(u32, u32)>)
    ensures
        r is Some <==> width % 16 == 0 && height % 16 == 0,
        r matches Some(g) ==> g.0 * 16 == width && g.1 * 16 == height,
{
    if width % 16 == 0 && height % 16 == 0 {
        Some((width / 16, height / 16))
    } else {
        None
    }
}

/// Row pitches of buffer copies must be a multiple of this many bytes.
pub const ROW_ALIGNMENT: u32 = 256;

/// The row pitch of a `width`-pixel row of 4-byte pixels, padded up to the
/// copy alignment.
pub open spec fn padded_pitch(width: int) -> int {
    (width * 4 + 255) / 256 * 256
}

/// Row pitch, unpadded row length and total size of the host buffer that a
/// finished image of 4-byte pixels is copied into.
#[derive(Clone, Copy, Debug, PartialEq, Eq, Structural)]
pub struct Readback {
    pub bytes_per_row: u32,
    pub row_bytes: u32,
    pub size: u64,
}

/// The readback layout of a `width` by `height` image, or `None` when the
/// padded row pitch does not fit 32 bits.
pub fn readback_layout(width: u32, height: u32) -> (r: Option<Readback>)
    ensures
        r is Some <==> padded_pitch(width as int) <= u32::MAX,
        r matches Some(b) ==> {
            &&& b.bytes_per_row == padded_pitch(width as int)
            &&& b.bytes_per_row % 256 == 0
            &&& width * 4 <= b.bytes_per_row < width * 4 + 256
            &&& b.row_bytes == width * 4
            &&& b.size == b.bytes_per_row * height
        },
{
    let row = width as u64 * 4;
    let pitch = (row + 255) / 256 * 256;
    if pitch > u32::MAX as u64 {
        None
    } else {
        assert(pitch * height as u64 <= u64::MAX) by (nonlinear_arith)
            requires
                pitch <= u32::MAX,
                height <= u32::MAX,
        ;
        Some(Readback { bytes_per_row: pitch as u32, row_bytes: row as u32, size: pitch * height as u64 })
    }
}

/// The first `row` bytes of each of the first `rows` rows of `pitch` bytes.
pub open spec fn unpadded(data: Seq<u8>, row: int, pitch: int, rows: nat) -> Seq<u8>
    decreases rows,
{
    if rows == 0 {
        Seq::empty()
    } else {
        unpadded(data, row, pitch, (rows - 1) as nat) + data.subrange(
            (rows - 1) * pitch,
            (rows - 1) * pitch + row,
        )
    }
}

/// Drops the row padding of a read-back `width` by `height` image; `None`
/// when its layout does not exist or `data` is shorter than it.
pub fn strip_row_padding(data: &Vec<u8>, width: u32, height: u32) -> (r: Option<Vec<u8>>)
    ensures
        r is Some <==> padded_pitch(width as int) <= u32::MAX && data@.len() >= padded_pitch(
            width as int,
        ) * height,
        r matches Some(v) ==> v@ == unpadded(
            data@,
            width * 4,
            padded_pitch(width as int),
            height as nat,
        ),
{
    let layout = match readback_layout(width, height) {
        Some(l) => l,
        None => {
            return None;
        },
    };
    if (data.len() as u64) < layout.size {
        return None;
    }
    let pitch = layout.bytes_per_row as usize;
    let row = layout.row_bytes as usize;
    let dlen = data.len();
    let mut out: Vec<u8> = Vec::new();
    let mut y: u32 = 0;
    let mut start: usize = 0;
    while y < height
        invariant
            y <= height,
            pitch == padded_pitch(width as int),
            row == width * 4,
            row <= pitch,
            pitch * height <= data@.len(),
            dlen == data@.len(),
            start == y * pitch,
            out@ == unpadded(data@, row as int, pitch as int, y as nat),
        decreases height - y,
    {
        assert(start + pitch <= pitch * height) by (nonlinear_arith)
            requires
                start == y * pitch,
                y < height,
        ;
        let mut x: usize = 0;
        while x < row
            invariant
                x <= row <= pitch,
                start + pitch <= data@.len(),
                dlen == data@.len(),
                out@ == unpadded(data@, row as int, pitch as int, y as nat) + data@.subrange(
                    start as int,
                    start + x,
                ),
            decreases row - x,
        {
            out.push(data[start + x]);
            assert(data@.subrange(start as int, start + x + 1) =~= data@.subrange(
                start as int,
                start + x,
            ).push(data@[start + x]));
            x = x + 1;
        }
        assert(start + pitch == (y + 1) * pitch) by (nonlinear_arith)
            requires
                start == y * pitch,
        ;
        start = start + pitch;
        y = y + 1;
    }
    Some(out)
}

} // verus!
