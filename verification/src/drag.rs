//! A drag session: the pair of a mouse-down point and the cursor's current
//! position, together with the *dirty* flag that tells an intentional
//! move/resize apart from a plain click. The session becomes dirty once the
//! cursor has strayed more than a small pixel threshold from its start point
//! on either axis, and never becomes clean again.

use vstd::prelude::*;

verus! {

/// Cumulative movement beyond this many pixels (on either axis) marks a drag
/// session as dirty.
pub const DRAG_THRESHOLD: i32 = 2;

/// Coordinates this far from the origin are accepted; screen coordinates are
/// always well inside this range, and it keeps every pixel difference within
/// `i32`.
pub open spec fn coord_in_range(c: int) -> bool {
    -0x2000_0000 <= c <= 0x2000_0000
}

#[derive(Clone, Copy, Debug, PartialEq, Eq, Structural)]
pub struct Drag {
    pub start_x: i32,
    pub start_y: i32,
    pub pos_x: i32,
    pub pos_y: i32,
    pub dirty: bool,
}

impl Drag {
    /// All four stored coordinates are within the accepted coordinate range.
    pub open spec fn wf(self) -> bool {
        coord_in_range(self.start_x as int) && coord_in_range(self.start_y as int)
            && coord_in_range(self.pos_x as int) && coord_in_range(self.pos_y as int)
    }

    /// The mouse-down point of the session.
    pub open spec fn spec_start(self) -> (int, int) {
        (self.start_x as int, self.start_y as int)
    }

    /// The cursor's current position.
    pub open spec fn spec_pos(self) -> (int, int) {
        (self.pos_x as int, self.pos_y as int)
    }

    pub open spec fn spec_dirty(self) -> bool {
        self.dirty
    }

    /// A fresh session at `(x, y)`, as [`Self::new`] builds it.
    pub open spec fn new_spec(x: i32, y: i32) -> Drag {
        Drag { start_x: x, start_y: y, pos_x: x, pos_y: y, dirty: false }
    }

    /// The session after a move to `(x, y)`, as [`Self::move_to`] builds
    /// it.
    pub open spec fn move_to_spec(self, x: i32, y: i32) -> Drag {
        Drag {
            start_x: self.start_x,
            start_y: self.start_y,
            pos_x: x,
            pos_y: y,
            dirty: self.dirty || self.exceeds_threshold_x(x as int) || self.exceeds_threshold_y(
                y as int,
            ),
        }
    }

    /// The session after a horizontal move to `x`, as [`Self::move_x`]
    /// builds it.
    pub open spec fn move_x_spec(self, x: i32) -> Drag {
        Drag {
            start_x: self.start_x,
            start_y: self.start_y,
            pos_x: x,
            pos_y: self.pos_y,
            dirty: self.dirty || self.exceeds_threshold_x(x as int),
        }
    }

    /// The session after a vertical move to `y`, as [`Self::move_y`]
    /// builds it.
    pub open spec fn move_y_spec(self, y: i32) -> Drag {
        Drag {
            start_x: self.start_x,
            start_y: self.start_y,
            pos_x: self.pos_x,
            pos_y: y,
            dirty: self.dirty || self.exceeds_threshold_y(y as int),
        }
    }

    /// Whether a move to `(x, y)` crosses the dirty threshold relative to the
    /// start point.
    pub open spec fn exceeds_threshold_x(self, x: int) -> bool {
        self.start_x - x > DRAG_THRESHOLD || x - self.start_x > DRAG_THRESHOLD
    }

    /// Whether a move to `(x, y)` crosses the dirty threshold on the y axis.
    pub open spec fn exceeds_threshold_y(self, y: int) -> bool {
        self.start_y - y > DRAG_THRESHOLD || y - self.start_y > DRAG_THRESHOLD
    }

    /// Begin a drag session at the mouse-down point `(x, y)`. A fresh session
    /// is never dirty: a click with no movement commits nothing.
    pub fn new(x: i32, y: i32) -> (d: Drag)
        requires
            coord_in_range(x as int),
            coord_in_range(y as int),
        ensures
            d.wf(),
            d == Drag::new_spec(x, y),
            d.spec_start() == (x as int, y as int),
            d.spec_pos() == (x as int, y as int),
            !d.spec_dirty(),
    {
        Drag { start_x: x, start_y: y, pos_x: x, pos_y: y, dirty: false }
    }

    /// Move the cursor to `(x, y)`, marking the session dirty once the
    /// movement from the start point exceeds the threshold on either axis.
    pub fn move_to(self, x: i32, y: i32) -> (d: Drag)
        requires
            self.wf(),
            coord_in_range(x as int),
            coord_in_range(y as int),
        ensures
            d.wf(),
            d == self.move_to_spec(x, y),
            d.spec_start() == self.spec_start(),
            d.spec_pos() == (x as int, y as int),
            d.spec_dirty() == (self.spec_dirty() || self.exceeds_threshold_x(x as int)
                || self.exceeds_threshold_y(y as int)),
    {
        let stray_x = (self.start_x as i64) - (x as i64);
        let stray_y = (self.start_y as i64) - (y as i64);
        let t = DRAG_THRESHOLD as i64;
        Drag {
            start_x: self.start_x,
            start_y: self.start_y,
            pos_x: x,
            pos_y: y,
            dirty: self.dirty || stray_x > t || -stray_x > t || stray_y > t || -stray_y > t,
        }
    }

    /// Move the cursor horizontally only.
    pub fn move_x(&self, x: i32) -> (d: Drag)
        requires
            self.wf(),
            coord_in_range(x as int),
        ensures
            d.wf(),
            d == self.move_x_spec(x),
            d.spec_start() == self.spec_start(),
            d.spec_pos() == (x as int, self.spec_pos().1),
            d.spec_dirty() == (self.spec_dirty() || self.exceeds_threshold_x(x as int)),
    {
        let stray_x = (self.start_x as i64) - (x as i64);
        let t = DRAG_THRESHOLD as i64;
        Drag {
            start_x: self.start_x,
            start_y: self.start_y,
            pos_x: x,
            pos_y: self.pos_y,
            dirty: self.dirty || stray_x > t || -stray_x > t,
        }
    }

    /// Move the cursor vertically only.
    pub fn move_y(&self, y: i32) -> (d: Drag)
        requires
            self.wf(),
            coord_in_range(y as int),
        ensures
            d.wf(),
            d == self.move_y_spec(y),
            d.spec_start() == self.spec_start(),
            d.spec_pos() == (self.spec_pos().0, y as int),
            d.spec_dirty() == (self.spec_dirty() || self.exceeds_threshold_y(y as int)),
    {
        let stray_y = (self.start_y as i64) - (y as i64);
        let t = DRAG_THRESHOLD as i64;
        Drag {
            start_x: self.start_x,
            start_y: self.start_y,
            pos_x: self.pos_x,
            pos_y: y,
            dirty: self.dirty || stray_y > t || -stray_y > t,
        }
    }

    /// Net horizontal movement since the mouse-down.
    pub fn delta_x(&self) -> (dx: i32)
        requires
            self.wf(),
        ensures
            dx as int == self.spec_pos().0 - self.spec_start().0,
    {
        self.pos_x - self.start_x
    }

    /// Net vertical movement since the mouse-down.
    pub fn delta_y(&self) -> (dy: i32)
        requires
            self.wf(),
        ensures
            dy as int == self.spec_pos().1 - self.spec_start().1,
    {
        self.pos_y - self.start_y
    }

    /// Left edge of the dragged rectangle: the smaller x coordinate.
    pub fn left(&self) -> (l: i32)
        ensures
            l as int == if self.spec_pos().0 <= self.spec_start().0 {
                self.spec_pos().0
            } else {
                self.spec_start().0
            },
    {
        if self.pos_x <= self.start_x {
            self.pos_x
        } else {
            self.start_x
        }
    }

    /// Top edge of the dragged rectangle: the smaller y coordinate.
    pub fn top(&self) -> (t: i32)
        ensures
            t as int == if self.spec_pos().1 <= self.spec_start().1 {
                self.spec_pos().1
            } else {
                self.spec_start().1
            },
    {
        if self.pos_y <= self.start_y {
            self.pos_y
        } else {
            self.start_y
        }
    }

    /// Whether the session has ever crossed the dirty threshold.
    pub fn dirty(&self) -> (b: bool)
        ensures
            b == self.spec_dirty(),
    {
        self.dirty
    }
}

} // verus!
