//! The bookkeeping of background artwork decoding: job numbers handed out
//! on submission, and finished decodes waiting to be picked up by number.
//! The worker thread, the channel and the decoding itself run outside the
//! library.

use std::collections::HashMap;
use vstd::prelude::*;

verus! {

broadcast use vstd::std_specs::hash::group_hash_axioms;

/// Square edge (pixels) of the current track's cover texture.
pub const ARTWORK_TEXTURE_SIZE: u32 = 320;

/// Largest width or height (pixels) of artwork that is decoded.
pub const MAX_DECODE_DIMENSION: u32 = 8_192;

/// Largest allocation (bytes) that decoding one artwork may make.
pub const MAX_DECODE_ALLOCATION: u64 = 100_663_296;

/// The square RGBA texture that the `image` crate makes of `encoded`:
/// decoded (format guessed from the bytes) under the given width, height
/// and allocation limits, scaled to cover a `size` x `size` square and
/// cropped to it; `None` where the bytes do not decode within the limits.
pub uninterp spec fn square_texture(encoded: Seq<u8>, max_dimension: u32, max_alloc: u64, size: u32) -> Option<(u32, u32, Seq<u8>)>;

/// Decodes `encoded` with `image::ImageReader` (format guessed, width,
/// height and allocation limits set), then scales and crops it with
/// `DynamicImage::resize_to_fill` (Lanczos3) and takes its RGBA bytes with
/// `into_rgba8`. The result is named; the contract states in addition what
/// `into_raw` of an RGBA buffer gives, four bytes per pixel. Which bytes
/// decode and the exact dimensions (rounding can make them smaller than
/// `size`) are not spelled out.
#[verifier::external_body]
fn decode_square_texture(encoded: &[u8], max_dimension: u32, max_alloc: u64, size: u32) -> (texture: Option<(u32, u32, Vec<u8>)>)
    ensures
        match texture {
            Some(t) => square_texture(encoded@, max_dimension, max_alloc, size) == Some(
                (t.0, t.1, t.2@),
            ) && t.2@.len() == 4 * t.0 * t.1,
            None => square_texture(encoded@, max_dimension, max_alloc, size) is None,
        },
{
    let mut reader = image::ImageReader::new(std::io::Cursor::new(encoded)).with_guessed_format().ok()?;
    let mut limits = image::Limits::default();
    limits.max_image_width = Some(max_dimension);
    limits.max_image_height = Some(max_dimension);
    limits.max_alloc = Some(max_alloc);
    reader.limits(limits);
    let rgba = reader.decode().ok()?.resize_to_fill(size, size, image::imageops::FilterType::Lanczos3).into_rgba8();
    let (width, height) = rgba.dimensions();
    Some((width, height, rgba.into_raw()))
}

/// Decodes artwork into a square RGBA texture of edge `size`, refusing
/// images above 8192 pixels a side or 96 MiB of decoding memory.
pub fn decode_artwork(encoded: &[u8], size: u32) -> (decoded: DecodedArtwork)
    ensures
        match decoded {
            Some(d) => square_texture(encoded@, MAX_DECODE_DIMENSION, MAX_DECODE_ALLOCATION, size)
                == Some((d.0, d.1, d.2@)) && d.2@.len() == 4 * d.0 * d.1,
            None => square_texture(encoded@, MAX_DECODE_DIMENSION, MAX_DECODE_ALLOCATION, size) is None,
        },
{
    decode_square_texture(encoded, MAX_DECODE_DIMENSION, MAX_DECODE_ALLOCATION, size)
}

/// Decoded pixels: width, height and RGBA bytes, or nothing when the track
/// has no usable artwork.
pub type DecodedArtwork = Option<(u32, u32, Vec<u8>)>;

/// Job numbers and finished decodes.
pub struct ArtworkLedger {
    next_id: u64,
    completed: HashMap<u64, DecodedArtwork>,
}

impl ArtworkLedger {
    /// The number the next submitted job gets.
    pub closed spec fn next_view(&self) -> u64 {
        self.next_id
    }

    /// Finished decodes not yet taken, by job number.
    pub closed spec fn completed_view(&self) -> Map<u64, DecodedArtwork> {
        self.completed@
    }

    /// No job yet; numbering starts at 1.
    pub fn new() -> (ledger: ArtworkLedger)
        ensures
            ledger.next_view() == 1,
            ledger.completed_view() == Map::<u64, DecodedArtwork>::empty(),
    {
        ArtworkLedger { next_id: 1, completed: HashMap::new() }
    }

    /// Numbers a new job (numbers wrap around after `u64::MAX`).
    pub fn submit(&mut self) -> (id: u64)
        ensures
            id == old(self).next_view(),
            final(self).next_view() == (if old(self).next_view() == u64::MAX {
                0
            } else {
                old(self).next_view() + 1
            }),
            final(self).completed_view() == old(self).completed_view(),
    {
        let id = self.next_id;
        self.next_id = if id == u64::MAX {
            0
        } else {
            id + 1
        };
        id
    }

    /// Records a finished decode, unless the job was cancelled meanwhile (its
    /// pixels are then dropped instead of parked forever).
    pub fn complete(&mut self, id: u64, decoded: DecodedArtwork, cancelled: bool)
        ensures
            completes(*old(self), *final(self), id, decoded, cancelled),
    {
        if !cancelled {
            self.completed.insert(id, decoded);
        }
    }

    /// Removes and returns the finished decode of job `id`, or `None` while
    /// the job is still queued or decoding.
    pub fn take(&mut self, id: u64) -> (decoded: Option<DecodedArtwork>)
        ensures
            takes(*old(self), *final(self), id, decoded),
    {
        self.completed.remove(&id)
    }
}

/// Recording a decode: dropped when cancelled, kept under its number
/// otherwise.
pub open spec fn completes(before: ArtworkLedger, after: ArtworkLedger, id: u64, decoded: DecodedArtwork, cancelled: bool) -> bool {
    &&& after.next_view() == before.next_view()
    &&& cancelled ==> after.completed_view() == before.completed_view()
    &&& !cancelled ==> after.completed_view() == before.completed_view().insert(id, decoded)
}

/// Taking a decode: it leaves the ledger and is returned if it was there.
pub open spec fn takes(before: ArtworkLedger, after: ArtworkLedger, id: u64, decoded: Option<DecodedArtwork>) -> bool {
    &&& after.next_view() == before.next_view()
    &&& after.completed_view() == before.completed_view().remove(id)
    &&& match decoded {
        Some(d) => before.completed_view().contains_key(id) && before.completed_view()[id] == d,
        None => !before.completed_view().contains_key(id),
    }
}

/// A finished decode is handed out exactly once: taking it returns what
/// was recorded, taking it again finds nothing; a cancelled job's decode
/// is never handed out.
pub proof fn a_decode_is_taken_once(
    l0: ArtworkLedger,
    l1: ArtworkLedger,
    l2: ArtworkLedger,
    l3: ArtworkLedger,
    id: u64,
    decoded: DecodedArtwork,
    first: Option<DecodedArtwork>,
    second: Option<DecodedArtwork>,
)
    requires
        completes(l0, l1, id, decoded, false),
        takes(l1, l2, id, first),
        takes(l2, l3, id, second),
    ensures
        first == Some(decoded),
        second is None,
{
}

/// A cancelled job leaves nothing to take unless a decode for its number
/// was already waiting.
pub proof fn a_cancelled_decode_is_dropped(
    l0: ArtworkLedger,
    l1: ArtworkLedger,
    l2: ArtworkLedger,
    id: u64,
    decoded: DecodedArtwork,
    taken: Option<DecodedArtwork>,
)
    requires
        !l0.completed_view().contains_key(id),
        completes(l0, l1, id, decoded, true),
        takes(l1, l2, id, taken),
    ensures
        taken is None,
{
}

} // verus!
