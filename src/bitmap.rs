use vstd::prelude::*;
use crate::error::CodecError;

verus! {

/// Handle of a bitmap held by a `BitmapStore`.
#[derive(Debug, Clone, Copy, PartialEq, Eq, Structural)]
pub struct BitmapKey {
    pub index: usize,
}

/// Memory layout of a pixel.
#[derive(Debug, Clone, Copy, PartialEq, Eq, Structural)]
pub enum PixelLayout {
    Bgra,
    Bgr,
    Gray,
}

#[derive(Debug, Clone, Copy, PartialEq, Eq, Structural)]
pub enum ColorSpace {
    StandardRGB,
    LinearRGB,
}

#[derive(Debug, Clone, Copy, PartialEq, Eq, Structural)]
pub enum BitmapCompositing {
    ReplaceSelf,
    BlendWithSelf,
    BlendWithMatte,
}

/// A raster of 4-byte BGRA pixels, rows packed with no padding.
pub struct Bitmap {
    pub width: u32,
    pub height: u32,
    pub layout: PixelLayout,
    pub has_alpha: bool,
    pub color_space: ColorSpace,
    pub compositing: BitmapCompositing,
    pub pixels: Vec<u8>,
}

impl Bitmap {
    pub open spec fn pixel_count(&self) -> nat {
        (self.width as nat) * (self.height as nat)
    }

    /// The buffer holds exactly four bytes per pixel.
    pub open spec fn wf(&self) -> bool {
        self.pixels@.len() == 4 * self.pixel_count()
    }

    /// Bytes between the starts of two consecutive rows.
    pub fn stride(&self) -> (r: usize)
        requires
            self.wf(),
            self.height > 0,
        ensures
            r == 4 * self.width,
    {
        let _len = self.pixels.len();
        proof {
            assert((self.width as nat) <= self.pixel_count()) by (nonlinear_arith)
                requires self.height > 0;
        }
        4 * (self.width as usize)
    }

    /// Width and height as `usize`.
    pub fn size_usize(&self) -> (r: (usize, usize))
        ensures
            r.0 == self.width,
            r.1 == self.height,
    {
        (self.width as usize, self.height as usize)
    }
}

/// Where a slot's bitmap is: in the store, or lent out exclusively.
pub enum Slot {
    Available(Bitmap),
    CheckedOut,
}

/// Keyed registry of bitmaps with runtime-checked exclusive borrows.
pub struct BitmapStore {
    pub slots: Vec<Slot>,
}

/// Number of bytes of a `width` by `height` BGRA raster.
pub open spec fn raster_len(width: u32, height: u32) -> nat {
    4 * ((width as nat) * (height as nat))
}

impl BitmapStore {
    /// Every bitmap held in the store is well formed.
    pub open spec fn wf(&self) -> bool {
        forall|i: int| 0 <= i < self.slots@.len() && (#[trigger] self.slots@[i]) is Available
            ==> self.slots@[i]->Available_0.wf()
    }

    pub open spec fn contains(&self, key: BitmapKey) -> bool {
        key.index < self.slots@.len()
    }

    pub open spec fn is_borrowed(&self, key: BitmapKey) -> bool {
        self.contains(key) && self.slots@[key.index as int] is CheckedOut
    }

    pub open spec fn bitmap(&self, key: BitmapKey) -> Bitmap {
        self.slots@[key.index as int]->Available_0
    }

    pub fn new() -> (r: BitmapStore)
        ensures
            r.wf(),
            r.slots@.len() == 0,
    {
        BitmapStore { slots: Vec::new() }
    }

    /// Allocates a zero-filled bitmap and returns its key; fails when the
    /// buffer size does not fit in `usize`.
    pub fn create_bitmap(
        &mut self,
        width: u32,
        height: u32,
        layout: PixelLayout,
        has_alpha: bool,
        color_space: ColorSpace,
        compositing: BitmapCompositing,
    ) -> (r: Result<BitmapKey, CodecError>)
        requires
            old(self).wf(),
        ensures
            final(self).wf(),
            r is Err <==> raster_len(width, height) > usize::MAX,
            r is Err ==> r == Err::<BitmapKey, CodecError>(CodecError::AllocationFailure)
                && final(self).slots@ == old(self).slots@,
            r is Ok ==> {
                let k = r->Ok_0;
                &&& k.index == old(self).slots@.len()
                &&& final(self).slots@.len() == old(self).slots@.len() + 1
                &&& forall|i: int| 0 <= i < old(self).slots@.len()
                    ==> final(self).slots@[i] == old(self).slots@[i]
                &&& final(self).slots@[k.index as int] is Available
                &&& final(self).bitmap(k).width == width
                &&& final(self).bitmap(k).height == height
                &&& final(self).bitmap(k).layout == layout
                &&& final(self).bitmap(k).has_alpha == has_alpha
                &&& final(self).bitmap(k).color_space == color_space
                &&& final(self).bitmap(k).compositing == compositing
                &&& forall|j: int| 0 <= j < final(self).bitmap(k).pixels@.len()
                    ==> final(self).bitmap(k).pixels@[j] == 0
            },
    {
        let n = (width as u64).checked_mul(height as u64);
        let len: usize = match n {
            Some(n) => {
                if n > (usize::MAX / 4) as u64 {
                    return Err(CodecError::AllocationFailure);
                }
                (n as usize) * 4
            },
            None => {
                proof {
                    assert((width as nat) * (height as nat) > u64::MAX) by (nonlinear_arith)
                        requires (width as nat) * (height as nat) == (width as u64) as nat * (height as u64) as nat,
                            (width as u64) as nat * (height as u64) as nat > u64::MAX;
                }
                return Err(CodecError::AllocationFailure);
            },
        };
        let mut pixels: Vec<u8> = Vec::with_capacity(len);
        let mut i: usize = 0;
        while i < len
            invariant
                i <= len,
                pixels@.len() == i,
                forall|j: int| 0 <= j < i ==> pixels@[j] == 0,
            decreases len - i,
        {
            pixels.push(0);
            i = i + 1;
        }
        let key = BitmapKey { index: self.slots.len() };
        let bitmap = Bitmap { width, height, layout, has_alpha, color_space, compositing, pixels };
        self.slots.push(Slot::Available(bitmap));
        Ok(key)
    }

    /// Takes the bitmap out for exclusive use. A second borrow of the same key
    /// fails at once with `BorrowConflict`, until the bitmap is returned.
    pub fn borrow_exclusive(&mut self, key: BitmapKey) -> (r: Result<Bitmap, CodecError>)
        requires
            old(self).wf(),
        ensures
            final(self).wf(),
            !old(self).contains(key) ==> r == Err::<Bitmap, CodecError>(CodecError::InvalidKey)
                && final(self).slots@ == old(self).slots@,
            old(self).is_borrowed(key) ==> r == Err::<Bitmap, CodecError>(CodecError::BorrowConflict)
                && final(self).slots@ == old(self).slots@,
            old(self).contains(key) && !old(self).is_borrowed(key) ==> r is Ok
                && r->Ok_0 == old(self).bitmap(key)
                && r->Ok_0.wf()
                && final(self).slots@ == old(self).slots@.update(key.index as int, Slot::CheckedOut),
    {
        if key.index >= self.slots.len() {
            return Err(CodecError::InvalidKey);
        }
        if let Slot::CheckedOut = &self.slots[key.index] {
            return Err(CodecError::BorrowConflict);
        }
        let slot = self.slots.remove(key.index);
        self.slots.insert(key.index, Slot::CheckedOut);
        proof {
            assert(self.slots@ =~= old(self).slots@.update(key.index as int, Slot::CheckedOut));
        }
        match slot {
            Slot::Available(b) => Ok(b),
            Slot::CheckedOut => Err(CodecError::BorrowConflict),
        }
    }

    /// Returns a borrowed bitmap to its slot. Fails with `InvalidKey` when the
    /// slot is not checked out, and with `InternalConsistency` when the buffer
    /// does not match the dimensions; the store is then unchanged.
    pub fn release(&mut self, key: BitmapKey, bitmap: Bitmap) -> (r: Result<(), CodecError>)
        requires
            old(self).wf(),
        ensures
            final(self).wf(),
            !old(self).is_borrowed(key) ==> r == Err::<(), CodecError>(CodecError::InvalidKey),
            old(self).is_borrowed(key) && !bitmap.wf() ==> r == Err::<(), CodecError>(
                CodecError::InternalConsistency,
            ),
            old(self).is_borrowed(key) && bitmap.wf() ==> r is Ok,
            r is Err ==> final(self).slots@ == old(self).slots@,
            r is Ok ==> old(self).is_borrowed(key) && final(self).slots@ == old(self).slots@.update(
                key.index as int,
                Slot::Available(bitmap),
            ),
    {
        if key.index >= self.slots.len() {
            return Err(CodecError::InvalidKey);
        }
        match &self.slots[key.index] {
            Slot::Available(_) => {
                return Err(CodecError::InvalidKey);
            },
            Slot::CheckedOut => {},
        }
        if !has_raster_len(&bitmap) {
            return Err(CodecError::InternalConsistency);
        }
        self.slots.set(key.index, Slot::Available(bitmap));
        Ok(())
    }

    /// Whether every bitmap held in the store is well formed.
    pub fn is_wf(&self) -> (r: bool)
        ensures
            r == self.wf(),
    {
        let mut i: usize = 0;
        while i < self.slots.len()
            invariant
                i <= self.slots@.len(),
                forall|j: int| 0 <= j < i && (#[trigger] self.slots@[j]) is Available
                    ==> self.slots@[j]->Available_0.wf(),
            decreases self.slots@.len() - i,
        {
            match &self.slots[i] {
                Slot::Available(b) => {
                    if !has_raster_len(b) {
                        return false;
                    }
                },
                Slot::CheckedOut => {},
            }
            i = i + 1;
        }
        true
    }

    /// The bitmap under `key`, unless the key is unknown or the bitmap is lent out.
    pub fn get(&self, key: BitmapKey) -> (r: Option<&Bitmap>)
        ensures
            self.contains(key) && !self.is_borrowed(key) ==> r == Some(&self.bitmap(key)),
            !(self.contains(key) && !self.is_borrowed(key)) ==> r is None,
    {
        if key.index >= self.slots.len() {
            return None;
        }
        match &self.slots[key.index] {
            Slot::Available(b) => Some(b),
            Slot::CheckedOut => None,
        }
    }
}

/// Whether the buffer length equals four bytes per pixel.
pub fn has_raster_len(b: &Bitmap) -> (r: bool)
    ensures
        r == b.wf(),
{
    let len = b.pixels.len();
    let n = (b.width as u64).checked_mul(b.height as u64);
    match n {
        Some(n) => {
            if n > (usize::MAX / 4) as u64 {
                assert(len < 4 * (n as nat));
                false
            } else {
                len == (n as usize) * 4
            }
        },
        None => {
            proof {
                assert((b.width as nat) * (b.height as nat) > u64::MAX) by (nonlinear_arith)
                    requires (b.width as nat) * (b.height as nat) == (b.width as u64) as nat * (b.height as u64) as nat,
                        (b.width as u64) as nat * (b.height as u64) as nat > u64::MAX;
            }
            false
        },
    }
}

} // verus!
