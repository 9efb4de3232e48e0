//! Buffers in graphics memory: which protocol version is offered, and how their
//! pixels are taken over.

use vstd::prelude::*;

use crate::pixels::ClientSurfaceData;
use crate::state::{SpikeState, SpikeView};
use crate::surface::SurfaceId;
use crate::surface_import::SurfacePixels;

verus! {

/// How such buffers are offered to clients.
#[derive(Clone, Copy, Debug, PartialEq, Eq, Structural)]
pub enum DmabufGlobal {
    /// Not at all: clients use shared memory.
    Absent,
    /// The formats only.
    Formats,
    /// The formats, and the device to allocate on.
    Feedback,
}

/// How a buffer's pixels are stored.
#[derive(Clone, Copy, Debug, PartialEq, Eq, Structural)]
pub enum BufferFormat {
    Xrgb8888,
    Xbgr8888,
    Rgbx8888,
    Bgrx8888,
    Rgb888,
    Bgr888,
    /// Any format with an alpha channel.
    Alpha,
}

/// A buffer's pixels as they were read back: R, G, B, A bytes.
#[derive(Debug)]
pub struct Readback {
    pub pixels: Vec<u8>,
    pub width: u32,
    pub height: u32,
}

pub open spec fn offered(formats: Option<usize>, has_node: bool, feedback_built: bool) -> DmabufGlobal {
    match formats {
        Some(n) => if n == 0 {
            DmabufGlobal::Absent
        } else if has_node && feedback_built {
            DmabufGlobal::Feedback
        } else {
            DmabufGlobal::Formats
        },
        None => DmabufGlobal::Absent,
    }
}

/// What to offer: `formats` counts what the renderer can import, if there is a
/// renderer; `has_node` tells that its device is known, `feedback_built` that it
/// could be described.
pub fn create_dmabuf_global(formats: Option<usize>, has_node: bool, feedback_built: bool) -> (r: DmabufGlobal)
    ensures
        r == offered(formats, has_node, feedback_built),
{
    match formats {
        Some(n) => if n == 0 {
            DmabufGlobal::Absent
        } else if has_node && feedback_built {
            DmabufGlobal::Feedback
        } else {
            DmabufGlobal::Formats
        },
        None => DmabufGlobal::Absent,
    }
}

/// Whether a new buffer is accepted: the renderer is there and could import it.
pub fn dmabuf_imported(has_renderer: bool, imported: bool) -> (accepted: bool)
    ensures
        accepted == (has_renderer && imported),
{
    has_renderer && imported
}

/// The bytes with every whole pixel made opaque, where the format stores no
/// alpha: what such a buffer holds in its place means nothing.
pub open spec fn opaque_bytes(pixels: Seq<u8>, format: BufferFormat) -> Seq<u8> {
    if format == BufferFormat::Alpha {
        pixels
    } else {
        Seq::new(
            pixels.len(),
            |i: int|
                if i % 4 == 3 {
                    255u8
                } else {
                    pixels[i]
                },
        )
    }
}

pub fn force_opaque(pixels: &mut Vec<u8>, format: BufferFormat)
    ensures
        final(pixels)@ == opaque_bytes(old(pixels)@, format),
{
    if format == BufferFormat::Alpha {
        return;
    }
    let n: usize = pixels.len();
    let mut p: usize = 0;
    while p < n / 4
        invariant
            0 <= p <= n / 4,
            n == pixels@.len(),
            n == old(pixels)@.len(),
            forall|i: int|
                0 <= i < n ==> #[trigger] pixels@[i] == if i % 4 == 3 && i < 4 * p {
                    255u8
                } else {
                    old(pixels)@[i]
                },
        decreases n / 4 - p,
    {
        pixels.set(4 * p + 3, 0xff);
        p += 1;
    }
    assert(pixels@ =~= opaque_bytes(old(pixels)@, format));
}

/// The pixels that wait for the commit of their surface.
pub open spec fn pending_pixels(read: Readback, format: BufferFormat) -> SurfacePixels {
    SurfacePixels {
        pixels: opaque_bytes(read.pixels@, format),
        width: read.width,
        height: read.height,
        dirty: true,
        version: 1,
        last_commit: None,
    }
}

impl SpikeState {
    /// Keeps what was read of a buffer that is about to be committed to `surface`;
    /// nothing when it could not be read.
    pub fn import_dmabuf_for_surface(&mut self, surface: SurfaceId, read: Option<Readback>, format: BufferFormat)
        ensures
            match read {
                Some(r) => {
                    let d = final(self)@.dmabuf_pending[surface];
                    &&& d@ == pending_pixels(r, format)
                    &&& final(self)@ == SpikeView {
                        dmabuf_pending: old(self)@.dmabuf_pending.insert(surface, d),
                        ..old(self)@
                    }
                },
                None => final(self)@ == old(self)@,
            },
    {
        broadcast use vstd::std_specs::hash::group_hash_axioms;

        if let Some(r) = read {
            let mut pixels = r.pixels;
            force_opaque(&mut pixels, format);
            let data = ClientSurfaceData {
                pixels,
                width: r.width,
                height: r.height,
                dirty: true,
                version: 1,
                last_commit: None,
            };
            assert(data@ =~= pending_pixels(read->0, format));
            self.dmabuf_pending.insert(surface, data);
            assert(self@ =~= SpikeView {
                dmabuf_pending: old(self)@.dmabuf_pending.insert(surface, data),
                ..old(self)@
            });
        }
    }
}

/// In a format without alpha every pixel is opaque and keeps its colour.
pub proof fn law_opaque_keeps_colour(pixels: Seq<u8>, format: BufferFormat, p: int)
    requires
        format != BufferFormat::Alpha,
        0 <= p,
        4 * p + 3 < pixels.len(),
    ensures
        opaque_bytes(pixels, format)[4 * p + 3] == 255,
        opaque_bytes(pixels, format)[4 * p] == pixels[4 * p],
        opaque_bytes(pixels, format)[4 * p + 1] == pixels[4 * p + 1],
        opaque_bytes(pixels, format)[4 * p + 2] == pixels[4 * p + 2],
{
}

/// Direct buffers are offered where the renderer can read some format, with the device that
/// it renders on where that is known.
pub proof fn law_offer_needs_formats(n: usize, has_node: bool, feedback_built: bool)
    ensures
        offered(None, has_node, feedback_built) is Absent,
        offered(Some(0), has_node, feedback_built) is Absent,
        n > 0 ==> (offered(Some(n), has_node, feedback_built) is Feedback <==> has_node && feedback_built),
        n > 0 ==> !(offered(Some(n), has_node, feedback_built) is Absent),
{
}

/// Pixels that were read from a direct buffer keep their size and count as new; only a
/// format with alpha leaves it as it is.
pub proof fn law_read_pixels_are_new(read: Readback, format: BufferFormat)
    ensures
        ({
            let p = pending_pixels(read, format);
            &&& p.width == read.width && p.height == read.height && p.dirty && p.last_commit is None
            &&& p.pixels.len() == read.pixels@.len()
            &&& format is Alpha ==> p.pixels == read.pixels@
            &&& !(format is Alpha) ==> forall|i: int|
                0 <= i < read.pixels@.len() && i % 4 != 3 ==> #[trigger] p.pixels[i] == read.pixels@[i]
        }),
{
}

} // verus!
