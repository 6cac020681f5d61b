//! One displayed page's editing state: its OCR working copy and the drag
//! session that may be running over the page background. A drag over the
//! background draws a new text block; the dirty threshold keeps a plain
//! click from creating one.
//!
//! Geometry is integer pixel arithmetic over injected measurements: the
//! rendered page rectangle and the stored image height come in as
//! arguments, never from a live widget tree. A screen distance `d` maps to
//! image space as `d * img_height / rect_height`.

use vstd::prelude::*;

use crate::drag::{coord_in_range, Drag};
use crate::models::{OcrBlock, PageOcr};

verus! {

/// New blocks are clamped to at least this many image pixels per side.
pub const MIN_BLOCK_SIZE: u32 = 26;

/// New blocks start at this font size.
pub const NEW_BLOCK_FONT: u32 = 20;

/// The rendered page image's rectangle, in screen pixels.
#[derive(Clone, Copy, Debug, PartialEq, Eq, Structural)]
pub struct RectPx {
    pub left: i32,
    pub top: i32,
    pub width: i32,
    pub height: i32,
}

impl RectPx {
    /// Screen rectangles this library accepts: on-screen coordinates and a
    /// visible, reasonably sized image.
    pub open spec fn wf(self) -> bool {
        coord_in_range(self.left as int) && coord_in_range(self.top as int) && 0 < self.width
            <= 0x2000_0000 && 0 < self.height <= 0x2000_0000
    }
}

/// A screen distance scaled into image space, at `img_h / rect_h`.
pub open spec fn to_image_scale(d: int, img_h: int, rect_h: int) -> int {
    d * img_h / rect_h
}

/// A screen distance scaled into image space, clamped into `u32` and to
/// zero from below, as [`scale_to_image`] computes it.
pub open spec fn spec_scale_or_zero(d: int, img_h: int, rect_h: int) -> int {
    if d <= 0 {
        0
    } else if to_image_scale(d, img_h, rect_h) > u32::MAX {
        u32::MAX as int
    } else {
        to_image_scale(d, img_h, rect_h)
    }
}

/// The box a background drag draws, in image space: the drag rectangle's
/// origin scaled, its extent scaled and clamped up to the minimum size,
/// the far edges saturating at the image-coordinate maximum.
pub open spec fn drawn_block_box(d: crate::drag::Drag, rect: RectPx, img_height: u32) -> (
    u32,
    u32,
    u32,
    u32,
) {
    let ih = img_height as int;
    let rh = rect.height as int;
    let dx = d.spec_pos().0 - d.spec_start().0;
    let dy = d.spec_pos().1 - d.spec_start().1;
    let left = spec_scale_or_zero(
        (if d.spec_pos().0 <= d.spec_start().0 {
            d.spec_pos().0
        } else {
            d.spec_start().0
        }) - rect.left,
        ih,
        rh,
    );
    let top = spec_scale_or_zero(
        (if d.spec_pos().1 <= d.spec_start().1 {
            d.spec_pos().1
        } else {
            d.spec_start().1
        }) - rect.top,
        ih,
        rh,
    );
    let w0 = spec_scale_or_zero(
        if dx < 0 {
            -dx
        } else {
            dx
        },
        ih,
        rh,
    );
    let w = if w0 < MIN_BLOCK_SIZE {
        MIN_BLOCK_SIZE as int
    } else {
        w0
    };
    let h0 = spec_scale_or_zero(
        if dy < 0 {
            -dy
        } else {
            dy
        },
        ih,
        rh,
    );
    let h = if h0 < MIN_BLOCK_SIZE {
        MIN_BLOCK_SIZE as int
    } else {
        h0
    };
    (
        left as u32,
        top as u32,
        (if left + w > u32::MAX {
            u32::MAX as int
        } else {
            left + w
        }) as u32,
        (if top + h > u32::MAX {
            u32::MAX as int
        } else {
            top + h
        }) as u32,
    )
}

/// A screen distance scaled into image space; negative distances clamp to
/// zero (a drag may start left of or above the image).
pub fn scale_to_image(d: i32, img_h: u32, rect_h: i32) -> (r: u32)
    requires
        -0x6000_0000 <= d <= 0x6000_0000,
        0 < rect_h,
        img_h <= 0x4000_0000,
    ensures
        r == if d <= 0 {
            0
        } else if to_image_scale(d as int, img_h as int, rect_h as int) > u32::MAX {
            u32::MAX as int
        } else {
            to_image_scale(d as int, img_h as int, rect_h as int)
        },
{
    if d <= 0 {
        return 0;
    }
    proof {
        assert(0 <= (d as int) * (img_h as int) <= 0x6000_0000 * 0x4000_0000)
            by (nonlinear_arith)
            requires
                0 < d <= 0x6000_0000,
                0 <= img_h <= 0x4000_0000,
        ;
    }
    let prod: i64 = (d as i64) * (img_h as i64);
    let wide: i64 = prod / (rect_h as i64);
    proof {
        assert(wide >= 0);
    }
    if wide > u32::MAX as i64 {
        u32::MAX
    } else {
        wide as u32
    }
}

/// The block a background drag draws: its rectangle mapped into image
/// space, each side at least [`MIN_BLOCK_SIZE`], text vertical when the
/// drag ran leftward (vertical text is read right to left).
pub fn create_block(drag: &Drag, rect: &RectPx, img_height: u32) -> (r: OcrBlock)
    requires
        drag.wf(),
        rect.wf(),
        img_height <= 0x4000_0000,
    ensures
        r.wf(),
        r@.box_ == drawn_block_box(*drag, *rect, img_height),
        r@.vertical == (drag.spec_pos().0 - drag.spec_start().0 < 0),
        r@.font_size == NEW_BLOCK_FONT,
        r@.lines.len() == 0,
        r@.uuid.len() == 32,
        r@.box_.0 <= r@.box_.2 && r@.box_.2 - r@.box_.0 >= MIN_BLOCK_SIZE || r@.box_.2
            == u32::MAX,
        r@.box_.1 <= r@.box_.3 && r@.box_.3 - r@.box_.1 >= MIN_BLOCK_SIZE || r@.box_.3
            == u32::MAX,
    {
    let dx = drag.delta_x();
    let dy = drag.delta_y();
    let vertical = dx < 0;
    let drag_w = if dx < 0 {
        -dx
    } else {
        dx
    };
    let drag_h = if dy < 0 {
        -dy
    } else {
        dy
    };
    let left = scale_to_image(drag.left() - rect.left, img_height, rect.height);
    let top = scale_to_image(drag.top() - rect.top, img_height, rect.height);
    let mut w = scale_to_image(drag_w, img_height, rect.height);
    if w < MIN_BLOCK_SIZE {
        w = MIN_BLOCK_SIZE;
    }
    let mut h = scale_to_image(drag_h, img_height, rect.height);
    if h < MIN_BLOCK_SIZE {
        h = MIN_BLOCK_SIZE;
    }
    let right = if left > u32::MAX - w {
        u32::MAX
    } else {
        left + w
    };
    let bottom = if top > u32::MAX - h {
        u32::MAX
    } else {
        top + h
    };
    OcrBlock::new(top, left, bottom, right, NEW_BLOCK_FONT, vertical)
}

/// The editing state of one displayed page: its OCR working copy and the
/// background drag session, if one is running.
pub struct PageState {
    pub drag: Option<Drag>,
    pub ocr: PageOcr,
}

impl PageState {
    /// A page before its OCR row arrives: an empty working copy.
    pub fn new() -> (s: PageState)
        ensures
            s.drag is None,
            s.ocr@.blocks.len() == 0,
    {
        let ocr = PageOcr { img_width: 0, img_height: 0, blocks: Vec::new() };
        proof {
            assert(ocr.blocks.deep_view() =~= Seq::<crate::models::OcrBlockV>::empty());
        }
        PageState { drag: None, ocr }
    }

    /// The fetched OCR row replaces the working copy; no drag survives it.
    pub fn set_ocr(&mut self, ocr: PageOcr)
        ensures
            final(self).ocr == ocr,
            final(self).drag is None,
    {
        self.ocr = ocr;
        self.drag = None;
    }

    /// A mouse-down on the page background begins a drag session at the
    /// cursor; it is not yet dirty.
    pub fn begin_drag(&mut self, x: i32, y: i32)
        requires
            coord_in_range(x as int),
            coord_in_range(y as int),
        ensures
            final(self).ocr == old(self).ocr,
            final(self).drag matches Some(d) && d == Drag::new_spec(x, y),
    {
        self.drag = Some(Drag::new(x, y));
    }

    /// A mouse-move extends the running drag session, if any.
    pub fn update_drag(&mut self, x: i32, y: i32) -> (redraw: bool)
        requires
            coord_in_range(x as int),
            coord_in_range(y as int),
            old(self).drag matches Some(d) ==> d.wf(),
        ensures
            final(self).ocr == old(self).ocr,
            redraw == (old(self).drag is Some),
            old(self).drag is None ==> *final(self) == *old(self),
            old(self).drag matches Some(d) ==> final(self).drag == Some(d.move_to_spec(x, y)),
    {
        match self.drag {
            Some(d) => {
                self.drag = Some(d.move_to(x, y));
                true
            }
            None => false,
        }
    }

    /// A mouse-up ends the drag session. Only a *dirty* session — one that
    /// crossed the movement threshold — creates a block; a plain click
    /// leaves the OCR working copy untouched and commits nothing.
    pub fn end_drag(&mut self, rect: &RectPx, img_height: u32) -> (commit: bool)
        requires
            rect.wf(),
            img_height <= 0x4000_0000,
            old(self).drag matches Some(d) ==> d.wf(),
        ensures
            final(self).drag is None,
            commit == (old(self).drag matches Some(d) && d.spec_dirty()),
            !commit ==> final(self).ocr == old(self).ocr,
            commit ==> final(self).ocr@.blocks.len() == old(self).ocr@.blocks.len() + 1
                && final(self).ocr@.blocks.subrange(0, old(self).ocr@.blocks.len() as int)
                == old(self).ocr@.blocks && final(self).ocr@.img_width == old(self).ocr@.img_width
                && final(self).ocr@.img_height == old(self).ocr@.img_height,
            old(self).drag matches Some(d) ==> (d.spec_dirty() ==> ({
                let b = final(self).ocr@.blocks.last();
                &&& b.box_ == drawn_block_box(d, *rect, img_height)
                &&& b.vertical == (d.spec_pos().0 - d.spec_start().0 < 0)
                &&& b.font_size == NEW_BLOCK_FONT
                &&& b.lines.len() == 0
                &&& b.uuid.len() == 32
            })),
    {
        let mut taken: Option<Drag> = None;
        core::mem::swap(&mut taken, &mut self.drag);
        match taken {
            Some(d) => {
                if d.dirty() {
                    let block = create_block(&d, rect, img_height);
                    let ghost pre = self.ocr.blocks.deep_view();
                    self.ocr.blocks.push(block);
                    proof {
                        assert(self.ocr.blocks.deep_view() =~= pre.push(block@));
                        assert(self.ocr.blocks.deep_view().subrange(0, pre.len() as int) =~= pre);
                    }
                    true
                } else {
                    false
                }
            }
            None => false,
        }
    }

    /// Replace the block carrying the given block's identity; fails, with
    /// nothing changed, when no held block carries it — a caller asking for
    /// a block that is gone indicates corrupted state, not user input.
    pub fn update_block(&mut self, block: OcrBlock) -> (r: Result<(), crate::errors::AppError>)
        ensures
            final(self).drag == old(self).drag,
            match r {
                Ok(()) => (exists|i: int|
                    0 <= i < old(self).ocr@.blocks.len() && old(self).ocr@.blocks[i].uuid
                        == block@.uuid && final(self).ocr@.blocks == old(self).ocr@.blocks.update(
                        i,
                        block@,
                    )) && final(self).ocr@.img_width == old(self).ocr@.img_width
                    && final(self).ocr@.img_height == old(self).ocr@.img_height,
                Err(e) => *final(self) == *old(self) && e@
                    == crate::errors::AppErrorV::MissingRecord && (forall|i: int|
                    0 <= i < old(self).ocr@.blocks.len()
                        ==> (#[trigger] old(self).ocr@.blocks[i]).uuid != block@.uuid),
            },
    {
        let n = self.ocr.blocks.len();
        let ghost bv = self.ocr@.blocks;
        for i in 0..n
            invariant
                n == self.ocr.blocks@.len(),
                bv == self.ocr@.blocks,
                *self == *old(self),
                forall|j: int| 0 <= j < i ==> (#[trigger] bv[j]).uuid != block@.uuid,
        {
            proof {
                assert(self.ocr.blocks.deep_view()[i as int] == self.ocr.blocks@[
                    i as int
                ].deep_view());
                assert(self.ocr.blocks@[i as int].uuid@ =~= bv[i as int].uuid);
                assert(block.uuid@ =~= block@.uuid);
            }
            if crate::store::bytes_eq(&self.ocr.blocks[i].uuid, &block.uuid) {
                let ghost pre = self.ocr.blocks.deep_view();
                self.ocr.blocks[i] = block;
                proof {
                    assert(self.ocr.blocks.deep_view() =~= pre.update(i as int, block@));
                }
                return Ok(());
            }
        }
        Err(crate::errors::AppError::MissingRecord)
    }

    /// Remove the block carrying the given identity; fails, with nothing
    /// changed, when no held block carries it.
    pub fn delete_block(&mut self, uuid: &Vec<u8>) -> (r: Result<(), crate::errors::AppError>)
        ensures
            final(self).drag == old(self).drag,
            match r {
                Ok(()) => (exists|i: int|
                    0 <= i < old(self).ocr@.blocks.len() && old(self).ocr@.blocks[i].uuid == uuid@
                        && final(self).ocr@.blocks == old(self).ocr@.blocks.remove(i))
                    && final(self).ocr@.img_width == old(self).ocr@.img_width
                    && final(self).ocr@.img_height == old(self).ocr@.img_height,
                Err(e) => *final(self) == *old(self) && e@
                    == crate::errors::AppErrorV::MissingRecord && (forall|i: int|
                    0 <= i < old(self).ocr@.blocks.len()
                        ==> (#[trigger] old(self).ocr@.blocks[i]).uuid != uuid@),
            },
    {
        let n = self.ocr.blocks.len();
        let ghost bv = self.ocr@.blocks;
        for i in 0..n
            invariant
                n == self.ocr.blocks@.len(),
                bv == self.ocr@.blocks,
                *self == *old(self),
                forall|j: int| 0 <= j < i ==> (#[trigger] bv[j]).uuid != uuid@,
        {
            proof {
                assert(self.ocr.blocks.deep_view()[i as int] == self.ocr.blocks@[
                    i as int
                ].deep_view());
                assert(self.ocr.blocks@[i as int].uuid@ =~= bv[i as int].uuid);
            }
            if crate::store::bytes_eq(&self.ocr.blocks[i].uuid, uuid) {
                let ghost pre = self.ocr.blocks.deep_view();
                self.ocr.blocks.remove(i);
                proof {
                    assert(self.ocr.blocks.deep_view() =~= pre.remove(i as int));
                }
                return Ok(());
            }
        }
        Err(crate::errors::AppError::MissingRecord)
    }
}

/// A mouse-down immediately followed by a mouse-up — zero net movement —
/// never creates a block: the fresh session is clean, and a clean session
/// commits nothing and leaves the working copy untouched.
pub proof fn lemma_click_creates_nothing(x: i32, y: i32)
    requires
        coord_in_range(x as int),
        coord_in_range(y as int),
    ensures
        !Drag::new_spec(x, y).spec_dirty(),
{
}

} // verus!
