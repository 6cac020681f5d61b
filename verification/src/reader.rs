//! The reader screen's state machine: the cursor and magnifier, the
//! editing toggle, the sidebar, the help banner, and the held volume with
//! its pagination. Every store write this screen causes goes through the
//! commit flag its reducer returns; the screen itself never touches
//! storage.

use vstd::prelude::*;

use crate::drag::coord_in_range;
use crate::models::{backward_decrement, forward_increment, ReaderState, VolumeMetadata, VolumeV};

verus! {

/// The cursor over the reader: its position, whether the magnifier is
/// shown, and the stamp of the last forced redraw.
#[derive(Clone, Copy, Debug)]
pub struct Cursor {
    pub magnify: bool,
    pub force: u64,
    pub position: (i32, i32),
}

/// What moves the cursor state.
pub enum CursorAction {
    /// Force a redraw by stamping the current time.
    ForceRerender,
    /// Show or hide the magnifier.
    Toggle,
    /// The cursor moved; while the magnifier is shown this also stamps a
    /// redraw.
    Update(i32, i32),
}

impl Cursor {
    /// A fresh cursor: no magnifier, origin position.
    pub fn new() -> (c: Cursor)
        ensures
            c == (Cursor { magnify: false, force: 0, position: (0, 0) }),
    {
        Cursor { magnify: false, force: 0, position: (0, 0) }
    }

    /// Apply one action; `now` stamps forced redraws.
    pub fn reduce(self, action: CursorAction, now: u64) -> (c: Cursor)
        ensures
            match action {
                CursorAction::ForceRerender => c == (Cursor { force: now, ..self }),
                CursorAction::Toggle => c == (Cursor { magnify: !self.magnify, ..self }),
                CursorAction::Update(x, y) => c == (Cursor {
                    position: (x, y),
                    force: if self.magnify {
                        now
                    } else {
                        self.force
                    },
                    ..self
                }),
            },
    {
        match action {
            CursorAction::ForceRerender => Cursor { magnify: self.magnify, force: now, position: self.position },
            CursorAction::Toggle => Cursor {
                magnify: !self.magnify,
                force: self.force,
                position: self.position,
            },
            CursorAction::Update(x, y) => Cursor {
                magnify: self.magnify,
                force: if self.magnify {
                    now
                } else {
                    self.force
                },
                position: (x, y),
            },
        }
    }
}

/// What the settings sidebar hands back on a commit.
#[derive(Clone, Copy, Debug, PartialEq, Eq, Structural)]
pub struct SidebarData {
    pub first_page_is_cover: bool,
    pub hide_sidebar: bool,
    /// Line height in hundredths, as the volume stores it.
    pub line_height: u32,
    pub magnifier_height: u16,
    pub magnifier_width: u16,
    pub magnifier_radius: u8,
    pub magnification: u16,
    pub show_help: bool,
    pub show_magnifier: bool,
}

/// What moves the reader screen.
pub enum ReaderMessage {
    /// The volume arrived from the store (or came back from a write).
    Loaded(VolumeMetadata),
    /// The sidebar committed its form.
    Commit(SidebarData),
    HelpToggle,
    MagnifierToggle,
    MutableToggle,
    SidebarToggle,
    NextPage,
    PrevPage,
    UpdateCursor(i32, i32),
}

/// The reader screen's state.
pub struct Reader {
    pub cursor: Cursor,
    pub mutable: bool,
    pub volume: Option<VolumeMetadata>,
    pub show_help: bool,
    pub sidebar_expanded: bool,
}

impl Reader {
    /// The screen before its volume arrives.
    pub fn new() -> (s: Reader)
        ensures
            s.cursor == (Cursor { magnify: false, force: 0, position: (0, 0) }),
            !s.mutable,
            s.volume is None,
            !s.show_help,
            !s.sidebar_expanded,
    {
        Reader {
            cursor: Cursor::new(),
            mutable: false,
            volume: None,
            show_help: false,
            sidebar_expanded: false,
        }
    }

    /// Apply one message. The result says whether to redraw and whether
    /// the held volume must now be persisted; persistence is always the
    /// holder's next step, never done here.
    pub fn update(&mut self, msg: ReaderMessage, screen_w: i32, screen_h: i32) -> (r: (bool, bool))
        requires
            old(self).volume matches Some(v) ==> v.wf(),
            0 <= screen_w,
            0 <= screen_h,
        ensures
            final(self).volume matches Some(v) ==> (v.wf() || (msg matches ReaderMessage::Loaded(
                given,
            ) && v@ == given@)),
            msg matches ReaderMessage::Loaded(v) ==> ((final(self).volume matches Some(v2)
                && v2@ == v@) && r.1 == false && final(self).cursor == old(self).cursor
                && final(self).mutable == old(self).mutable && final(self).show_help == old(
                self,
            ).show_help && final(self).sidebar_expanded == old(self).sidebar_expanded),
            msg matches ReaderMessage::Commit(data) ==> (final(self).show_help == data.show_help
                && final(self).cursor.magnify == data.show_magnifier && (old(self).volume
                matches Some(v) ==> (r.1 && (final(self).volume matches Some(v2) && v2@
                == (VolumeV {
                hide_sidebar: data.hide_sidebar,
                line_height: data.line_height,
                magnifier: crate::models::MagnifierSettings {
                    zoom: data.magnification,
                    radius: data.magnifier_radius,
                    height: data.magnifier_height,
                    width: data.magnifier_width,
                },
                reader_state: ReaderState {
                    first_page_is_cover: data.first_page_is_cover,
                    ..v@.reader_state
                },
                ..v@
            })))) && (old(self).volume is None ==> !r.1 && final(self).volume is None)
                && final(self).cursor.position == (if data.show_magnifier && !old(
                self,
            ).cursor.magnify {
                ((screen_w / 2) as i32, (screen_h / 2) as i32)
            } else {
                old(self).cursor.position
            }) && final(self).cursor.force == old(self).cursor.force && final(self).mutable
                == old(self).mutable && final(self).sidebar_expanded == old(
                self,
            ).sidebar_expanded),
            msg matches ReaderMessage::HelpToggle ==> final(self).show_help == !old(
                self,
            ).show_help && !r.1,
            msg matches ReaderMessage::MagnifierToggle ==> final(self).cursor.magnify == !old(
                self,
            ).cursor.magnify && !r.1,
            msg matches ReaderMessage::MutableToggle ==> *final(self) == (Reader {
                mutable: !old(self).mutable,
                ..*old(self)
            }) && !r.1,
            msg matches ReaderMessage::SidebarToggle ==> final(self).sidebar_expanded == !old(
                self,
            ).sidebar_expanded && !r.1,
            msg matches ReaderMessage::NextPage ==> (((old(self).volume matches Some(v) ==> (r.1
                && (final(self).volume matches Some(v2) && v2@ == (VolumeV {
                reader_state: ReaderState {
                    current_page: (v@.reader_state.current_page + forward_increment(
                        v@.reader_state,
                        v@.pages.len(),
                    )) as usize,
                    ..v@.reader_state
                },
                ..v@
            })))) && (old(self).volume is None ==> *final(self) == *old(self) && !r.1))
                && final(self).cursor == old(self).cursor && final(self).mutable == old(
                self,
            ).mutable && final(self).show_help == old(self).show_help
                && final(self).sidebar_expanded == old(self).sidebar_expanded),
            msg matches ReaderMessage::PrevPage ==> (((old(self).volume matches Some(v) ==> (r.1
                && (final(self).volume matches Some(v2) && v2@ == (VolumeV {
                reader_state: ReaderState {
                    current_page: (v@.reader_state.current_page - backward_decrement(
                        v@.reader_state,
                    )) as usize,
                    ..v@.reader_state
                },
                ..v@
            })))) && (old(self).volume is None ==> *final(self) == *old(self) && !r.1))
                && final(self).cursor == old(self).cursor && final(self).mutable == old(
                self,
            ).mutable && final(self).show_help == old(self).show_help
                && final(self).sidebar_expanded == old(self).sidebar_expanded),
            msg matches ReaderMessage::UpdateCursor(x, y) ==> *final(self) == (Reader {
                cursor: Cursor { position: (x, y), ..old(self).cursor },
                ..*old(self)
            }) && r.0 == old(self).cursor.magnify && !r.1,
    {
        match &msg {
            ReaderMessage::Loaded(v) => {
                self.volume = Some(v.clone());
                (true, false)
            }
            ReaderMessage::Commit(data) => {
                let data = *data;
                self.show_help = data.show_help;
                if data.show_magnifier && !self.cursor.magnify {
                    self.cursor.position = (screen_w / 2, screen_h / 2);
                }
                self.cursor.magnify = data.show_magnifier;
                let mut held: Option<VolumeMetadata> = None;
                core::mem::swap(&mut held, &mut self.volume);
                match held {
                    Some(mut v) => {
                        v.hide_sidebar = data.hide_sidebar;
                        v.line_height = data.line_height;
                        v.magnifier.height = data.magnifier_height;
                        v.magnifier.width = data.magnifier_width;
                        v.magnifier.radius = data.magnifier_radius;
                        v.magnifier.zoom = data.magnification;
                        v.reader_state.first_page_is_cover = data.first_page_is_cover;
                        self.volume = Some(v);
                        (true, true)
                    }
                    None => (true, false),
                }
            }
            ReaderMessage::HelpToggle => {
                self.show_help = !self.show_help;
                (true, false)
            }
            ReaderMessage::MagnifierToggle => {
                self.cursor.magnify = !self.cursor.magnify;
                (true, false)
            }
            ReaderMessage::MutableToggle => {
                self.mutable = !self.mutable;
                (true, false)
            }
            ReaderMessage::SidebarToggle => {
                self.sidebar_expanded = !self.sidebar_expanded;
                (true, false)
            }
            ReaderMessage::NextPage => {
                let mut held: Option<VolumeMetadata> = None;
                core::mem::swap(&mut held, &mut self.volume);
                match held {
                    Some(mut v) => {
                        v.page_forward();
                        self.volume = Some(v);
                        (true, true)
                    }
                    None => (true, false),
                }
            }
            ReaderMessage::PrevPage => {
                let mut held: Option<VolumeMetadata> = None;
                core::mem::swap(&mut held, &mut self.volume);
                match held {
                    Some(mut v) => {
                        v.page_backward();
                        self.volume = Some(v);
                        (true, true)
                    }
                    None => (true, false),
                }
            }
            ReaderMessage::UpdateCursor(x, y) => {
                let redraw = self.cursor.magnify;
                self.cursor.position = (*x, *y);
                (redraw, false)
            }
        }
    }
}

/// Where the magnifier and its zoomed backgrounds stand, in screen pixels.
#[derive(Clone, Copy, Debug, PartialEq, Eq, Structural)]
pub struct MagnifierGeometry {
    /// Top-left corner of the magnifier element.
    pub left: i64,
    pub top: i64,
    /// Size of the zoomed background image.
    pub zoomed_width: i64,
    pub zoomed_height: i64,
    /// Translation of the zoomed background inside the magnifier.
    pub shift_x: i64,
    pub shift_y: i64,
}

/// Keep `v` within `[lo, hi]`.
pub open spec fn clamp_spec(v: int, lo: int, hi: int) -> int {
    if v < lo {
        lo
    } else if v > hi {
        hi
    } else {
        v
    }
}

/// The magnifier's geometry over the displayed image: the magnifier is
/// centred on the cursor, held a few pixels inside the image (and never
/// left of or above its origin, which also covers degenerately small
/// images), and the zoomed background is shifted so that the point under
/// the cursor stays under the magnifier's centre. One displayed page
/// magnifies one image width; a two-page spread magnifies two.
pub fn magnifier_geometry(
    magnifier: &crate::models::MagnifierSettings,
    cursor: (i32, i32),
    img: &crate::page::RectPx,
    single_page: bool,
) -> (g: MagnifierGeometry)
    requires
        img.wf(),
        coord_in_range(cursor.0 as int),
        coord_in_range(cursor.1 as int),
    ensures
        ({
            let zoom = magnifier.zoom as int;
            let scale = if single_page {
                1int
            } else {
                2int
            };
            let x = ({
                let c = clamp_spec(cursor.0 - img.left, 5, scale * img.width - 5);
                if c < 0 {
                    0int
                } else {
                    c
                }
            });
            let y = ({
                let c = clamp_spec(cursor.1 - img.top, 5, img.height - 5);
                if c < 0 {
                    0int
                } else {
                    c
                }
            });
            &&& g.zoomed_width == zoom * img.width / 100
            &&& g.zoomed_height == zoom * img.height / 100
            &&& g.shift_x == (magnifier.width as int) / 2 - (x * zoom) / 100
            &&& g.shift_y == (magnifier.height as int) / 2 - (y * zoom) / 100
            &&& g.left == img.left + x - (magnifier.width as int) / 2
            &&& g.top == img.top + y - (magnifier.height as int) / 2
        }),
{
    let zoom = magnifier.zoom as i64;
    let bias: i64 = 5;
    let scale: i64 = if single_page {
        1
    } else {
        2
    };
    let raw_x = (cursor.0 as i64) - (img.left as i64);
    let hi_x = scale * (img.width as i64) - bias;
    let cx = if raw_x < bias {
        bias
    } else if raw_x > hi_x {
        hi_x
    } else {
        raw_x
    };
    let x = if cx < 0 {
        0
    } else {
        cx
    };
    let raw_y = (cursor.1 as i64) - (img.top as i64);
    let hi_y = (img.height as i64) - bias;
    let cy = if raw_y < bias {
        bias
    } else if raw_y > hi_y {
        hi_y
    } else {
        raw_y
    };
    let y = if cy < 0 {
        0
    } else {
        cy
    };
    proof {
        assert(0 <= zoom * (img.width as i64) <= 65535i64 * 0x2000_0000i64) by (nonlinear_arith)
            requires
                0 <= zoom <= 65535,
                0 < img.width <= 0x2000_0000,
        ;
        assert(0 <= zoom * (img.height as i64) <= 65535i64 * 0x2000_0000i64) by (nonlinear_arith)
            requires
                0 <= zoom <= 65535,
                0 < img.height <= 0x2000_0000,
        ;
        assert(0 <= x * zoom <= 0x4000_0000i64 * 65535i64) by (nonlinear_arith)
            requires
                0 <= zoom <= 65535,
                0 <= x <= 0x4000_0000,
        ;
        assert(0 <= y * zoom <= 0x4000_0000i64 * 65535i64) by (nonlinear_arith)
            requires
                0 <= zoom <= 65535,
                0 <= y <= 0x4000_0000,
        ;
    }
    let center_x = (magnifier.width as i64) / 2;
    let center_y = (magnifier.height as i64) / 2;
    MagnifierGeometry {
        left: (img.left as i64) + x - center_x,
        top: (img.top as i64) + y - center_y,
        zoomed_width: zoom * (img.width as i64) / 100,
        zoomed_height: zoom * (img.height as i64) / 100,
        shift_x: center_x - (x * zoom) / 100,
        shift_y: center_y - (y * zoom) / 100,
    }
}

} // verus!
