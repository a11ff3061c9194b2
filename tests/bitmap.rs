use imageflow_codecs::bitmap::{
    has_raster_len, BitmapCompositing, BitmapKey, BitmapStore, ColorSpace, PixelLayout,
};
use imageflow_codecs::error::CodecError;

fn store_with_one() -> (BitmapStore, BitmapKey) {
    let mut s = BitmapStore::new();
    let k = s
        .create_bitmap(3, 2, PixelLayout::Bgra, true, ColorSpace::StandardRGB, BitmapCompositing::BlendWithSelf)
        .unwrap();
    (s, k)
}

#[test]
fn create_allocates_zeroed_bitmap() {
    let (s, k) = store_with_one();
    assert_eq!(k, BitmapKey { index: 0 });
    let b = s.get(k).unwrap();
    assert_eq!((b.width, b.height), (3, 2));
    assert_eq!(b.stride(), 12);
    assert_eq!(b.size_usize(), (3, 2));
    assert!(b.has_alpha);
    assert_eq!(b.pixels, vec![0u8; 24]);
    assert!(has_raster_len(b));
}

#[test]
fn create_refuses_unaddressable_size() {
    let mut s = BitmapStore::new();
    let r = s.create_bitmap(u32::MAX, u32::MAX, PixelLayout::Bgra, false, ColorSpace::StandardRGB, BitmapCompositing::ReplaceSelf);
    assert_eq!(r, Err(CodecError::AllocationFailure));
    assert_eq!(s.slots.len(), 0);
}

#[test]
fn empty_bitmap_is_allowed() {
    let mut s = BitmapStore::new();
    let k = s.create_bitmap(0, 5, PixelLayout::Bgra, false, ColorSpace::StandardRGB, BitmapCompositing::ReplaceSelf).unwrap();
    assert!(s.get(k).unwrap().pixels.is_empty());
}

#[test]
fn second_exclusive_borrow_conflicts() {
    let (mut s, k) = store_with_one();
    let b = s.borrow_exclusive(k).unwrap();
    assert!(matches!(s.borrow_exclusive(k), Err(CodecError::BorrowConflict)));
    assert!(s.get(k).is_none());
    assert_eq!(s.release(k, b), Ok(()));
    assert!(s.borrow_exclusive(k).is_ok());
}

#[test]
fn unknown_key_is_invalid() {
    let (mut s, _) = store_with_one();
    assert!(matches!(s.borrow_exclusive(BitmapKey { index: 5 }), Err(CodecError::InvalidKey)));
    assert!(s.get(BitmapKey { index: 5 }).is_none());
}

#[test]
fn release_requires_checked_out_and_matching_length() {
    let (mut s, k) = store_with_one();
    let mut b = s.borrow_exclusive(k).unwrap();
    b.pixels.push(1);
    assert_eq!(s.release(k, b), Err(CodecError::InternalConsistency));
    assert!(s.get(k).is_none());
    let k2 = s.create_bitmap(1, 1, PixelLayout::Bgra, false, ColorSpace::StandardRGB, BitmapCompositing::ReplaceSelf).unwrap();
    let mut b2 = s.borrow_exclusive(k2).unwrap();
    b2.pixels[0] = 9;
    assert_eq!(s.release(k2, b2), Ok(()));
    assert_eq!(s.get(k2).unwrap().pixels, vec![9, 0, 0, 0]);
    let b3 = s.borrow_exclusive(k2).unwrap();
    let b4 = s.borrow_exclusive(k2);
    assert!(b4.is_err());
    assert_eq!(s.release(k2, b3), Ok(()));
    let extra = s.borrow_exclusive(k2).unwrap();
    s.release(k2, extra).unwrap();
    let (mut other, ok) = store_with_one();
    let spare = other.borrow_exclusive(ok).unwrap();
    assert_eq!(s.release(k2, spare), Err(CodecError::InvalidKey));
}

#[test]
fn store_well_formedness_is_checkable() {
    let (mut s, k) = store_with_one();
    assert!(s.is_wf());
    if let imageflow_codecs::bitmap::Slot::Available(b) = &mut s.slots[k.index] {
        b.pixels.pop();
    }
    assert!(!s.is_wf());
}
