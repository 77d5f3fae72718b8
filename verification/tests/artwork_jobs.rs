use image::{DynamicImage, ImageFormat, RgbaImage};
use std::io::Cursor;
use wavora::artwork::{decode_artwork, ArtworkLedger, ARTWORK_TEXTURE_SIZE};

#[test]
fn decoded_artwork_is_square_and_bounded() {
    let source = DynamicImage::ImageRgba8(RgbaImage::new(640, 320));
    let mut encoded = Cursor::new(Vec::new());
    source
        .write_to(&mut encoded, ImageFormat::Png)
        .expect("encode png");
    let (width, height, pixels) =
        decode_artwork(encoded.get_ref(), ARTWORK_TEXTURE_SIZE).expect("decode artwork");
    assert_eq!((width, height), (ARTWORK_TEXTURE_SIZE, ARTWORK_TEXTURE_SIZE));
    assert_eq!(pixels.len(), (width * height * 4) as usize);
}

#[test]
fn undecodable_artwork_gives_nothing() {
    assert!(decode_artwork(b"not an image", 64).is_none());
}

#[test]
fn finished_decodes_are_taken_once_by_job_number() {
    let mut ledger = ArtworkLedger::new();
    let first = ledger.submit();
    let second = ledger.submit();
    assert_eq!((first, second), (1, 2));
    assert!(ledger.take(first).is_none());
    ledger.complete(first, Some((1, 1, vec![1, 2, 3, 4])), false);
    ledger.complete(second, None, true);
    assert_eq!(ledger.take(first), Some(Some((1, 1, vec![1, 2, 3, 4]))));
    assert_eq!(ledger.take(first), None);
    assert_eq!(ledger.take(second), None);
}
