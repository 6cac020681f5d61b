//! One text block's editing state machine. While global edit mode is on, a
//! block is *editable*; focusing it makes it *focused* (it takes key
//! commands: nudge, font size, autosize, delete); a further command opens
//! *content editing*, where the text itself is mutable. Losing focus always
//! falls back to editable — never all the way to idle while edit mode is on
//! — and leaving content editing commits any changed line text.
//!
//! All geometry comes in as arguments (the rendered rectangle of the page
//! and of the block's text lines); the machine never queries a live widget
//! tree.

use vstd::prelude::*;

use crate::drag::{coord_in_range, Drag};
use crate::models::OcrBlock;
use crate::page::{scale_to_image, spec_scale_or_zero, RectPx};

verus! {

/// The commands a text block takes. The holder maps each command to the
/// method of the same name below; commands that need a measurement (the
/// rendered rectangles, the edited line text) hand it to that method as an
/// argument.
pub enum TextBlockMessage {
    RemoveFocus,
    SetContentEditing(bool),
    ToggleTransparency,
    IncreaseFontSize,
    DecreaseFontSize,
    BeginDrag(i32, i32),
    UpdateDrag(i32, i32),
    EndDrag,
    Autosize,
    Move(Direction),
    CommitLines,
    DeleteBlock,
}

/// Where a nudge moves a block: one image pixel at a time.
pub enum Direction {
    Up,
    Down,
    Left,
    Right,
}

/// What the holder must do after a command: nothing, commit the changed
/// block to the page's OCR row, or delete the block by its identity.
pub enum BlockEffect {
    Keep,
    Commit(OcrBlock),
    Delete(Vec<u8>),
}

/// One block's transient editing state.
pub struct TextBlock {
    /// Whether the block's text is directly editable (the content
    /// sub-state of focus).
    pub contenteditable: bool,
    /// The move/resize drag running over the block, if any.
    pub drag: Option<Drag>,
    /// Whether the block holds focus.
    pub should_be_focused: bool,
    /// Whether the block is drawn translucent while being adjusted.
    pub transparent: bool,
}

/// The nudged box: shifted one image pixel in the given direction, except
/// where the shift would leave image space.
pub open spec fn nudged_box(b: (u32, u32, u32, u32), d: Direction) -> (u32, u32, u32, u32) {
    match d {
        Direction::Up => if b.1 > 0 && b.3 > 0 {
            (b.0, (b.1 - 1) as u32, b.2, (b.3 - 1) as u32)
        } else {
            b
        },
        Direction::Down => if b.1 < u32::MAX && b.3 < u32::MAX {
            (b.0, (b.1 + 1) as u32, b.2, (b.3 + 1) as u32)
        } else {
            b
        },
        Direction::Left => if b.0 > 0 && b.2 > 0 {
            ((b.0 - 1) as u32, b.1, (b.2 - 1) as u32, b.3)
        } else {
            b
        },
        Direction::Right => if b.0 < u32::MAX && b.2 < u32::MAX {
            ((b.0 + 1) as u32, b.1, (b.2 + 1) as u32, b.3)
        } else {
            b
        },
    }
}

/// Where a block-move drag stands after the cursor reaches `(x, y)`: each
/// axis of the move is taken only if it keeps the block's rendered
/// rectangle strictly inside the page image (with a one-pixel margin);
/// an axis that would leave the page keeps its old position.
pub open spec fn clamped_moved(d: Drag, x: i32, y: i32, block: RectPx, page: RectPx) -> Drag {
    let mx = d.move_x_spec(x);
    let shift_x = x - d.spec_pos().0;
    let within_x = block.left + shift_x > page.left && block.left + block.width + shift_x
        < page.left + page.width;
    let d2 = if within_x {
        mx
    } else {
        d
    };
    let my = d2.move_y_spec(y);
    let shift_y = y - d2.spec_pos().1;
    let within_y = block.top + shift_y > page.top && block.top + block.height + shift_y
        < page.top + page.height;
    if within_y {
        my
    } else {
        d2
    }
}

impl TextBlock {
    /// A block as edit mode first sees it: unfocused, opaque, no drag.
    pub fn new() -> (s: TextBlock)
        ensures
            !s.contenteditable,
            s.drag is None,
            !s.should_be_focused,
            !s.transparent,
    {
        TextBlock { contenteditable: false, drag: None, should_be_focused: false, transparent: false }
    }

    /// Losing focus: back to plain editable, opaque, content editing
    /// closed. The holder commits line text separately before this where
    /// content was being edited.
    pub fn remove_focus(&mut self)
        ensures
            !final(self).contenteditable,
            !final(self).should_be_focused,
            !final(self).transparent,
            final(self).drag == old(self).drag,
    {
        self.should_be_focused = false;
        self.transparent = false;
        self.contenteditable = false;
    }

    /// Open or close direct text editing.
    pub fn set_content_editing(&mut self, value: bool)
        ensures
            final(self).contenteditable == value,
            final(self).drag == old(self).drag,
            final(self).should_be_focused == old(self).should_be_focused,
            final(self).transparent == old(self).transparent,
    {
        self.contenteditable = value;
    }

    /// Flip translucency.
    pub fn toggle_transparency(&mut self)
        ensures
            final(self).transparent == !old(self).transparent,
            final(self).contenteditable == old(self).contenteditable,
            final(self).drag == old(self).drag,
            final(self).should_be_focused == old(self).should_be_focused,
    {
        self.transparent = !self.transparent;
    }

    /// A mouse-down on the block: it takes focus and a drag session
    /// begins.
    pub fn begin_drag(&mut self, x: i32, y: i32)
        requires
            coord_in_range(x as int),
            coord_in_range(y as int),
        ensures
            final(self).should_be_focused,
            final(self).drag == Some(Drag::new_spec(x, y)),
            final(self).contenteditable == old(self).contenteditable,
            final(self).transparent == old(self).transparent,
    {
        self.should_be_focused = true;
        self.drag = Some(Drag::new(x, y));
    }

    /// A mouse-move while dragging the block. Where the block's rendered
    /// size no longer matches its stored box — the mouse is on a resize
    /// handle, not moving the block — the drag is abandoned and the
    /// browser's resize wins. Otherwise the drag follows the cursor, but
    /// never past the page image's edges.
    pub fn update_drag(
        &mut self,
        x: i32,
        y: i32,
        block_rect: &RectPx,
        page_rect: &RectPx,
        resizing: bool,
    ) -> (redraw: bool)
        requires
            coord_in_range(x as int),
            coord_in_range(y as int),
            block_rect.wf(),
            page_rect.wf(),
            old(self).drag matches Some(d) ==> d.wf(),
        ensures
            final(self).contenteditable == old(self).contenteditable,
            final(self).should_be_focused == old(self).should_be_focused,
            final(self).transparent == old(self).transparent,
            old(self).drag is None ==> *final(self) == *old(self) && !redraw,
            old(self).drag is Some && resizing ==> final(self).drag is None && redraw,
            old(self).drag matches Some(d) ==> (!resizing ==> redraw && final(self).drag == Some(
                clamped_moved(d, x, y, *block_rect, *page_rect),
            )),
    {
        match self.drag {
            Some(d) => {
                if resizing {
                    self.drag = None;
                    return true;
                }
                let moved_x = d.move_x(x);
                let shift_x = (moved_x.delta_x() as i64) - (d.delta_x() as i64);
                let within_x = (block_rect.left as i64) + shift_x > (page_rect.left as i64)
                    && (block_rect.left as i64) + (block_rect.width as i64) + shift_x
                    < (page_rect.left as i64) + (page_rect.width as i64);
                let d2 = if within_x {
                    moved_x
                } else {
                    d
                };
                let moved_y = d2.move_y(y);
                let shift_y = (moved_y.delta_y() as i64) - (d2.delta_y() as i64);
                let within_y = (block_rect.top as i64) + shift_y > (page_rect.top as i64)
                    && (block_rect.top as i64) + (block_rect.height as i64) + shift_y
                    < (page_rect.top as i64) + (page_rect.height as i64);
                let d3 = if within_y {
                    moved_y
                } else {
                    d2
                };
                self.drag = Some(d3);
                true
            }
            None => false,
        }
    }

    /// A mouse-up over the block: the drag session ends. The holder
    /// recomputes the box from the rendered rectangle (see
    /// [`moved_box`]) and commits it only if it differs.
    pub fn end_drag(&mut self) -> (had: bool)
        ensures
            final(self).drag is None,
            had == (old(self).drag is Some),
            final(self).contenteditable == old(self).contenteditable,
            final(self).should_be_focused == old(self).should_be_focused,
            final(self).transparent == old(self).transparent,
    {
        let had = self.drag.is_some();
        self.drag = None;
        had
    }

    /// Grow the font one point; the block is committed.
    pub fn increase_font(&mut self, block: &OcrBlock) -> (r: OcrBlock)
        ensures
            r@ == (crate::models::OcrBlockV {
                font_size: if block@.font_size < u32::MAX {
                    (block@.font_size + 1) as u32
                } else {
                    u32::MAX
                },
                ..block@
            }),
            final(self).transparent,
            final(self).contenteditable == old(self).contenteditable,
            final(self).drag == old(self).drag,
            final(self).should_be_focused == old(self).should_be_focused,
    {
        self.transparent = true;
        let mut b = block.clone();
        if b.font_size < u32::MAX {
            b.font_size = b.font_size + 1;
        }
        b
    }

    /// Shrink the font one point, stopping at zero; the block is
    /// committed.
    pub fn decrease_font(&mut self, block: &OcrBlock) -> (r: OcrBlock)
        ensures
            r@ == (crate::models::OcrBlockV {
                font_size: if block@.font_size > 0 {
                    (block@.font_size - 1) as u32
                } else {
                    0
                },
                ..block@
            }),
            final(self).transparent,
            final(self).contenteditable == old(self).contenteditable,
            final(self).drag == old(self).drag,
            final(self).should_be_focused == old(self).should_be_focused,
    {
        self.transparent = true;
        let mut b = block.clone();
        if b.font_size > 0 {
            b.font_size = b.font_size - 1;
        }
        b
    }

    /// Shift the block one image pixel; the block is committed.
    pub fn nudge(&mut self, block: &OcrBlock, direction: Direction) -> (r: OcrBlock)
        ensures
            r@ == (crate::models::OcrBlockV { box_: nudged_box(block@.box_, direction), ..block@ }),
            final(self).transparent,
            final(self).contenteditable == old(self).contenteditable,
            final(self).drag == old(self).drag,
            final(self).should_be_focused == old(self).should_be_focused,
    {
        self.transparent = true;
        let mut b = block.clone();
        let (l, t, rr, bb) = b.box_;
        b.box_ = match direction {
            Direction::Up => if t > 0 && bb > 0 {
                (l, t - 1, rr, bb - 1)
            } else {
                (l, t, rr, bb)
            },
            Direction::Down => if t < u32::MAX && bb < u32::MAX {
                (l, t + 1, rr, bb + 1)
            } else {
                (l, t, rr, bb)
            },
            Direction::Left => if l > 0 && rr > 0 {
                (l - 1, t, rr - 1, bb)
            } else {
                (l, t, rr, bb)
            },
            Direction::Right => if l < u32::MAX && rr < u32::MAX {
                (l + 1, t, rr + 1, bb)
            } else {
                (l, t, rr, bb)
            },
        };
        b
    }

    /// Commit edited line text: where the measured lines differ from the
    /// stored ones (or all lines were deleted), the block is committed with
    /// the new lines; the block then loses content editing via
    /// [`Self::remove_focus`].
    pub fn commit_lines(&mut self, block: &OcrBlock, lines: Vec<Vec<u8>>) -> (r: Option<OcrBlock>)
        ensures
            final(self).contenteditable == old(self).contenteditable,
            final(self).drag == old(self).drag,
            final(self).should_be_focused == old(self).should_be_focused,
            final(self).transparent == old(self).transparent,
            lines.deep_view() == block@.lines && lines@.len() != 0 ==> r is None,
            !(lines.deep_view() == block@.lines && lines@.len() != 0) ==> (r matches Some(b) && b@
                == (crate::models::OcrBlockV { lines: lines.deep_view(), ..block@ })),
    {
        let same = lines_eq(&lines, &block.lines);
        if same && lines.len() != 0 {
            None
        } else {
            let mut b = block.clone();
            b.lines = lines;
            proof {
                assert(b@.lines =~= b.lines.deep_view());
            }
            Some(b)
        }
    }
    /// Leave content editing: commit the measured line text where it changed
    /// (or was emptied), exactly as [`Self::commit_lines`] says, and then
    /// return the block to plain editable — the focus-removal that always
    /// follows a commit of line text.
    pub fn finish_content_editing(&mut self, block: &OcrBlock, lines: Vec<Vec<u8>>) -> (r: Option<
        OcrBlock,
    >)
        ensures
            !final(self).contenteditable,
            !final(self).should_be_focused,
            !final(self).transparent,
            final(self).drag == old(self).drag,
            lines.deep_view() == block@.lines && lines@.len() != 0 ==> r is None,
            !(lines.deep_view() == block@.lines && lines@.len() != 0) ==> (r matches Some(b) && b@
                == (crate::models::OcrBlockV { lines: lines.deep_view(), ..block@ })),
    {
        let r = self.commit_lines(block, lines);
        self.remove_focus();
        r
    }
}

/// The measurements a command may need, all taken by the holder: the
/// rendered rectangles of the block and the page, whether a browser resize
/// is in progress, the rendered rectangles of the block's text lines, the
/// text lines as edited, and the stored image height.
pub struct Measurements {
    pub block_rect: RectPx,
    pub page_rect: RectPx,
    pub resizing: bool,
    pub line_rects: Vec<RectPx>,
    pub lines: Vec<Vec<u8>>,
    pub img_height: u32,
}

impl Measurements {
    pub open spec fn wf(self) -> bool {
        self.block_rect.wf() && self.page_rect.wf() && self.img_height <= 0x4000_0000 && (forall|
            i: int,
        |
            0 <= i < self.line_rects@.len() ==> (#[trigger] self.line_rects@[i]).wf())
    }
}

/// Dispatch one command to the machine: the state moves as the method of
/// the same name says, and the returned effect tells the holder what to do
/// with the block — keep it, commit a changed copy, or delete it by
/// identity. Leaving content editing through [`TextBlockMessage::CommitLines`]
/// commits changed text and then removes focus, in that order.
pub fn apply(
    state: &mut TextBlock,
    block: &OcrBlock,
    msg: TextBlockMessage,
    m: Measurements,
) -> (e: BlockEffect)
    requires
        m.wf(),
        old(state).drag matches Some(d) ==> d.wf(),
        msg matches TextBlockMessage::BeginDrag(x, y) ==> coord_in_range(x as int)
            && coord_in_range(y as int),
        msg matches TextBlockMessage::UpdateDrag(x, y) ==> coord_in_range(x as int)
            && coord_in_range(y as int),
    ensures
        msg matches TextBlockMessage::RemoveFocus ==> !final(state).contenteditable && !final(state).should_be_focused && !final(state).transparent && e is Keep,
        msg matches TextBlockMessage::SetContentEditing(v) ==> final(state).contenteditable == v
            && e is Keep,
        msg matches TextBlockMessage::ToggleTransparency ==> final(state).transparent == !old(state).transparent && e is Keep,
        msg matches TextBlockMessage::IncreaseFontSize ==> (e matches BlockEffect::Commit(b) && b@
            == (crate::models::OcrBlockV {
            font_size: if block@.font_size < u32::MAX {
                (block@.font_size + 1) as u32
            } else {
                u32::MAX
            },
            ..block@
        })),
        msg matches TextBlockMessage::DecreaseFontSize ==> (e matches BlockEffect::Commit(b) && b@
            == (crate::models::OcrBlockV {
            font_size: if block@.font_size > 0 {
                (block@.font_size - 1) as u32
            } else {
                0
            },
            ..block@
        })),
        msg matches TextBlockMessage::BeginDrag(x, y) ==> final(state).should_be_focused && final(state).drag == Some(Drag::new_spec(x, y)) && e is Keep,
        msg matches TextBlockMessage::UpdateDrag(x, y) ==> ((old(state).drag matches Some(d)
            ==> (!m.resizing ==> final(state).drag == Some(
            clamped_moved(d, x, y, m.block_rect, m.page_rect),
        ))) && e is Keep),
        msg matches TextBlockMessage::EndDrag ==> final(state).drag is None && e is Keep,
        msg matches TextBlockMessage::Autosize ==> (e matches BlockEffect::Commit(b) && (
        m.line_rects@.len() == 0 ==> b@ == block@) && (m.line_rects@.len() > 0 ==> b@.box_
            == autosized_box_spec(block@, m.line_rects@, m.page_rect, m.img_height))),
        msg matches TextBlockMessage::Move(d) ==> (e matches BlockEffect::Commit(b) && b@
            == (crate::models::OcrBlockV { box_: nudged_box(block@.box_, d), ..block@ })),
        msg matches TextBlockMessage::CommitLines ==> (!final(state).contenteditable && !final(state).should_be_focused && (m.lines.deep_view() == block@.lines && m.lines@.len() != 0
            ==> e is Keep) && (!(m.lines.deep_view() == block@.lines && m.lines@.len() != 0)
            ==> (e matches BlockEffect::Commit(b) && b@ == (crate::models::OcrBlockV {
            lines: m.lines.deep_view(),
            ..block@
        })))),
        msg matches TextBlockMessage::DeleteBlock ==> (e matches BlockEffect::Delete(u) && u@
            == block@.uuid),
{
    match msg {
        TextBlockMessage::RemoveFocus => {
            state.remove_focus();
            BlockEffect::Keep
        }
        TextBlockMessage::SetContentEditing(v) => {
            state.set_content_editing(v);
            BlockEffect::Keep
        }
        TextBlockMessage::ToggleTransparency => {
            state.toggle_transparency();
            BlockEffect::Keep
        }
        TextBlockMessage::IncreaseFontSize => BlockEffect::Commit(state.increase_font(block)),
        TextBlockMessage::DecreaseFontSize => BlockEffect::Commit(state.decrease_font(block)),
        TextBlockMessage::BeginDrag(x, y) => {
            state.begin_drag(x, y);
            BlockEffect::Keep
        }
        TextBlockMessage::UpdateDrag(x, y) => {
            state.update_drag(x, y, &m.block_rect, &m.page_rect, m.resizing);
            BlockEffect::Keep
        }
        TextBlockMessage::EndDrag => {
            state.end_drag();
            BlockEffect::Keep
        }
        TextBlockMessage::Autosize => BlockEffect::Commit(
            autosize_box(block, &m.line_rects, &m.page_rect, m.img_height),
        ),
        TextBlockMessage::Move(d) => BlockEffect::Commit(state.nudge(block, d)),
        TextBlockMessage::CommitLines => {
            match state.finish_content_editing(block, m.lines) {
                Some(b) => BlockEffect::Commit(b),
                None => BlockEffect::Keep,
            }
        }
        TextBlockMessage::DeleteBlock => {
            let uuid = block.uuid.clone();
            proof {
                assert(uuid@ =~= block@.uuid);
            }
            BlockEffect::Delete(uuid)
        }
    }
}

/// Compare two line lists byte for byte.
fn lines_eq(a: &Vec<Vec<u8>>, b: &Vec<Vec<u8>>) -> (r: bool)
    ensures
        r <==> a.deep_view() == b.deep_view(),
{
    if a.len() != b.len() {
        proof {
            assert(a.deep_view().len() == a@.len());
            assert(b.deep_view().len() == b@.len());
        }
        return false;
    }
    let n = a.len();
    for i in 0..n
        invariant
            n == a@.len(),
            n == b@.len(),
            forall|j: int| 0 <= j < i ==> #[trigger] a.deep_view()[j] == b.deep_view()[j],
    {
        proof {
            assert(a.deep_view()[i as int] =~= a@[i as int]@);
            assert(b.deep_view()[i as int] =~= b@[i as int]@);
        }
        if !crate::store::bytes_eq(&a[i], &b[i]) {
            proof {
                assert(a.deep_view()[i as int] != b.deep_view()[i as int]);
            }
            return false;
        }
    }
    proof {
        assert(a.deep_view() =~= b.deep_view());
    }
    true
}

/// The box a finished move commits: the rendered rectangle mapped back to
/// image space through the active scale, kept only where it differs from
/// the stored box. The holder measures the rendered rectangle; this
/// function does the arithmetic.
pub fn moved_box(block: &OcrBlock, rendered: &RectPx, page: &RectPx, img_height: u32) -> (r:
    Option<OcrBlock>)
    requires
        rendered.wf(),
        page.wf(),
        img_height <= 0x4000_0000,
    ensures
        ({
            let left = spec_scale_or_zero(rendered.left - page.left, img_height as int, page.height as int);
            let top = spec_scale_or_zero(rendered.top - page.top, img_height as int, page.height as int);
            let w = spec_scale_or_zero(rendered.width as int, img_height as int, page.height as int);
            let h = spec_scale_or_zero(rendered.height as int, img_height as int, page.height as int);
            let bx = (
                left as u32,
                top as u32,
                (if left + w > u32::MAX {
                    u32::MAX as int
                } else {
                    left + w
                }) as u32,
                (if top + h > u32::MAX {
                    u32::MAX as int
                } else {
                    top + h
                }) as u32,
            );
            if bx == block@.box_ {
                r is None
            } else {
                r matches Some(b) && b@ == (crate::models::OcrBlockV { box_: bx, ..block@ })
            }
        }),
{
    let left = scale_to_image(rendered.left - page.left, img_height, page.height);
    let top = scale_to_image(rendered.top - page.top, img_height, page.height);
    let w = scale_to_image(rendered.width, img_height, page.height);
    let h = scale_to_image(rendered.height, img_height, page.height);
    let right = if left > u32::MAX - w {
        u32::MAX
    } else {
        left + w
    };
    let bottom = if top > u32::MAX - h {
        u32::MAX
    } else {
        top + h
    };
    let bx = (left, top, right, bottom);
    if left == block.box_.0 && top == block.box_.1 && right == block.box_.2 && bottom
        == block.box_.3 {
        proof {
            assert(bx == block@.box_);
        }
        None
    } else {
        let mut b = block.clone();
        b.box_ = bx;
        Some(b)
    }
}

/// The autosized box: the union of the rendered rectangles of the block's
/// text lines, mapped back into image space. The union is taken in screen
/// space, then each edge is scaled; an empty line list leaves the box
/// unchanged.
pub fn autosize_box(block: &OcrBlock, line_rects: &Vec<RectPx>, page: &RectPx, img_height: u32)
    -> (r: OcrBlock)
    requires
        page.wf(),
        img_height <= 0x4000_0000,
        forall|i: int| 0 <= i < line_rects@.len() ==> (#[trigger] line_rects@[i]).wf(),
    ensures
        line_rects@.len() == 0 ==> r@ == block@,
        line_rects@.len() > 0 ==> r@ == (crate::models::OcrBlockV {
            box_: autosized_box_spec(block@, line_rects@, *page, img_height),
            ..block@
        }),
{
    let n = line_rects.len();
    if n == 0 {
        return block.clone();
    }
    let mut left = line_rects[0].left;
    let mut top = line_rects[0].top;
    let mut right = line_rects[0].left + line_rects[0].width;
    let mut bottom = line_rects[0].top + line_rects[0].height;
    for i in 1..n
        invariant
            n == line_rects@.len(),
            forall|j: int| 0 <= j < n ==> (#[trigger] line_rects@[j]).wf(),
            left as int == union_left(line_rects@.subrange(0, i as int)),
            top as int == union_top(line_rects@.subrange(0, i as int)),
            right as int == union_right(line_rects@.subrange(0, i as int)),
            bottom as int == union_bottom(line_rects@.subrange(0, i as int)),
            -0x2000_0000 <= left <= 0x2000_0000,
            -0x2000_0000 <= top <= 0x2000_0000,
            -0x4000_0000 <= right <= 0x4000_0000,
            -0x4000_0000 <= bottom <= 0x4000_0000,
    {
        proof {
            assert(line_rects@.subrange(0, i + 1).drop_last() =~= line_rects@.subrange(
                0,
                i as int,
            ));
            assert(line_rects@.subrange(0, i + 1).last() == line_rects@[i as int]);
        }
        let r0 = &line_rects[i];
        if r0.left < left {
            left = r0.left;
        }
        if r0.top < top {
            top = r0.top;
        }
        if r0.left + r0.width > right {
            right = r0.left + r0.width;
        }
        if r0.top + r0.height > bottom {
            bottom = r0.top + r0.height;
        }
    }
    proof {
        assert(line_rects@.subrange(0, n as int) =~= line_rects@);
    }
    let mut b = block.clone();
    b.box_ = (
        scale_to_image(left - page.left, img_height, page.height),
        scale_to_image(top - page.top, img_height, page.height),
        scale_to_image(right - page.left, img_height, page.height),
        scale_to_image(bottom - page.top, img_height, page.height),
    );
    b
}

/// The autosized box: each edge of the screen-space union of the line
/// rectangles, mapped back into image space.
pub open spec fn autosized_box_spec(
    b: crate::models::OcrBlockV,
    rs: Seq<RectPx>,
    page: RectPx,
    img_height: u32,
) -> (u32, u32, u32, u32) {
    (
        spec_scale_or_zero(union_left(rs) - page.left, img_height as int, page.height as int)
            as u32,
        spec_scale_or_zero(union_top(rs) - page.top, img_height as int, page.height as int)
            as u32,
        spec_scale_or_zero(union_right(rs) - page.left, img_height as int, page.height as int)
            as u32,
        spec_scale_or_zero(union_bottom(rs) - page.top, img_height as int, page.height as int)
            as u32,
    )
}

/// The left edge of the union of the rectangles.
pub open spec fn union_left(rs: Seq<RectPx>) -> int
    decreases rs.len(),
{
    if rs.len() <= 1 {
        rs[0].left as int
    } else {
        let rest = union_left(rs.drop_last());
        if (rs.last().left as int) < rest {
            rs.last().left as int
        } else {
            rest
        }
    }
}

/// The top edge of the union of the rectangles.
pub open spec fn union_top(rs: Seq<RectPx>) -> int
    decreases rs.len(),
{
    if rs.len() <= 1 {
        rs[0].top as int
    } else {
        let rest = union_top(rs.drop_last());
        if (rs.last().top as int) < rest {
            rs.last().top as int
        } else {
            rest
        }
    }
}

/// The right edge of the union of the rectangles.
pub open spec fn union_right(rs: Seq<RectPx>) -> int
    decreases rs.len(),
{
    if rs.len() <= 1 {
        rs[0].left + rs[0].width
    } else {
        let rest = union_right(rs.drop_last());
        if rs.last().left + rs.last().width > rest {
            rs.last().left + rs.last().width
        } else {
            rest
        }
    }
}

/// The bottom edge of the union of the rectangles.
pub open spec fn union_bottom(rs: Seq<RectPx>) -> int
    decreases rs.len(),
{
    if rs.len() <= 1 {
        rs[0].top + rs[0].height
    } else {
        let rest = union_bottom(rs.drop_last());
        if rs.last().top + rs.last().height > rest {
            rs.last().top + rs.last().height
        } else {
            rest
        }
    }
}

/// An image-space distance mapped onto the screen, at `rect_h / img_h`:
/// the inverse of [`crate::page::to_image_scale`].
pub open spec fn to_screen_scale(d: int, rect_h: int, img_h: int) -> int {
    d * rect_h / img_h
}

/// Where a block stands on screen, derived on every render and never
/// stored.
#[derive(Clone, Copy, Debug, PartialEq, Eq, Structural)]
pub struct ScreenBox {
    /// Top edge, screen pixels.
    pub top: i64,
    /// Left edge, screen pixels.
    pub left: i64,
    /// For vertical text, the distance from the screen's right edge the
    /// block anchors at; vertical blocks keep their right edge fixed as
    /// their width changes.
    pub right: i64,
    pub width: i64,
    pub height: i64,
    /// The font size scaled to the rendered page.
    pub font_px: i64,
}

/// The on-screen geometry of a block: the page rectangle's origin plus the
/// stored coordinates scaled down to the rendered page, plus the running
/// drag's delta; a vertical block anchors to the right edge of the screen
/// rather than the left.
pub fn block_screen_box(
    block: &OcrBlock,
    drag: &Option<Drag>,
    page: &RectPx,
    screen_w: i32,
    img_height: u32,
) -> (g: ScreenBox)
    requires
        page.wf(),
        0 < img_height <= 0x4000_0000,
        drag matches Some(d) ==> d.wf(),
    ensures
        ({
            let rh = page.height as int;
            let ih = img_height as int;
            let dx = match drag {
                Some(d) => d.spec_pos().0 - d.spec_start().0,
                None => 0int,
            };
            let dy = match drag {
                Some(d) => d.spec_pos().1 - d.spec_start().1,
                None => 0int,
            };
            let bw = if block@.box_.0 <= block@.box_.2 {
                block@.box_.2 - block@.box_.0
            } else {
                0int
            };
            let bh = if block@.box_.1 <= block@.box_.3 {
                block@.box_.3 - block@.box_.1
            } else {
                0int
            };
            &&& g.top == page.top + to_screen_scale(block@.box_.1 as int, rh, ih) + dy
            &&& g.left == page.left + to_screen_scale(block@.box_.0 as int, rh, ih) + dx
            &&& g.width == to_screen_scale(bw, rh, ih)
            &&& g.height == to_screen_scale(bh, rh, ih)
            &&& g.right == screen_w - g.left - g.width
            &&& g.font_px == to_screen_scale(block@.font_size as int, rh, ih)
        }),
{
    let rh = page.height as i64;
    let ih = img_height as i64;
    let (dx, dy) = match drag {
        Some(d) => ((d.delta_x()) as i64, (d.delta_y()) as i64),
        None => (0i64, 0i64),
    };
    proof {
        assert(0 <= (block@.box_.1 as i64) * rh <= 0xFFFF_FFFFi64 * 0x2000_0000i64)
            by (nonlinear_arith)
            requires
                0 <= block@.box_.1 <= 0xFFFF_FFFFu32,
                0 < rh <= 0x2000_0000,
        ;
        assert(0 <= (block@.box_.0 as i64) * rh <= 0xFFFF_FFFFi64 * 0x2000_0000i64)
            by (nonlinear_arith)
            requires
                0 <= block@.box_.0 <= 0xFFFF_FFFFu32,
                0 < rh <= 0x2000_0000,
        ;
        assert(0 <= (block@.font_size as i64) * rh <= 0xFFFF_FFFFi64 * 0x2000_0000i64)
            by (nonlinear_arith)
            requires
                0 <= block@.font_size <= 0xFFFF_FFFFu32,
                0 < rh <= 0x2000_0000,
        ;
    }
    let top = (page.top as i64) + ((block.box_.1 as i64) * rh) / ih + dy;
    let left = (page.left as i64) + ((block.box_.0 as i64) * rh) / ih + dx;
    let bw: i64 = if block.box_.0 <= block.box_.2 {
        ((block.box_.2 - block.box_.0) as i64)
    } else {
        0
    };
    let bh: i64 = if block.box_.1 <= block.box_.3 {
        ((block.box_.3 - block.box_.1) as i64)
    } else {
        0
    };
    proof {
        assert(0 <= bw * rh <= 0xFFFF_FFFFi64 * 0x2000_0000i64) by (nonlinear_arith)
            requires
                0 <= bw <= 0xFFFF_FFFFi64,
                0 < rh <= 0x2000_0000,
        ;
        assert(0 <= bh * rh <= 0xFFFF_FFFFi64 * 0x2000_0000i64) by (nonlinear_arith)
            requires
                0 <= bh <= 0xFFFF_FFFFi64,
                0 < rh <= 0x2000_0000,
        ;
    }
    let width = bw * rh / ih;
    let height = bh * rh / ih;
    let font_px = ((block.font_size as i64) * rh) / ih;
    ScreenBox { top, left, right: (screen_w as i64) - left - width, width, height, font_px }
}

} // verus!
