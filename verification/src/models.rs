//! The data model: volumes, pages, OCR annotations, per-volume reader state
//! and the global settings record, together with the pagination rules.
//!
//! Text (titles, page names, OCR lines) is carried as UTF-8 byte strings
//! (`Vec<u8>`); the codec and the store never need to inspect characters.
//! The line height is stored in hundredths, so `100` means single-spaced.

use vstd::prelude::*;

verus! {

/// Keys of the volume table. `0` means "unassigned": the store issues a
/// positive key when the volume row is first inserted.
pub type VolumeId = u64;

/// Magnifier display parameters, embedded per-volume and (as the default for
/// new volumes) in the global settings record.
#[derive(Clone, Copy, Debug, PartialEq, Eq, Structural)]
pub struct MagnifierSettings {
    pub zoom: u16,
    pub radius: u8,
    pub height: u16,
    pub width: u16,
}

impl MagnifierSettings {
    /// The fixed valid ranges of the four parameters.
    pub open spec fn wf(self) -> bool {
        100 <= self.zoom <= 400 && self.radius <= 100 && 100 <= self.height <= 1000
            && 100 <= self.width <= 1000
    }
}

impl Default for MagnifierSettings {
    fn default() -> (r: Self)
        ensures
            r == (MagnifierSettings { zoom: 200, radius: 35, height: 350, width: 350 }),
            r.wf(),
    {
        MagnifierSettings { zoom: 200, radius: 35, height: 350, width: 350 }
    }
}

/// The global settings record, stored under the singleton key of the
/// `global` table.
#[derive(Clone, Copy, Debug, PartialEq, Eq, Structural)]
pub struct Settings {
    pub magnifier: MagnifierSettings,
}

impl Default for Settings {
    fn default() -> (r: Self)
        ensures
            r.magnifier == (MagnifierSettings { zoom: 200, radius: 35, height: 350, width: 350 }),
    {
        Settings { magnifier: MagnifierSettings::default() }
    }
}

/// Where the reader currently stands in a volume.
#[derive(Clone, Copy, Debug, PartialEq, Eq, Structural)]
pub struct ReaderState {
    pub single_page: bool,
    pub current_page: usize,
    pub first_page_is_cover: bool,
}

impl ReaderState {
    /// The current page always indexes into the volume's page list.
    pub open spec fn wf(self, page_count: nat) -> bool {
        (self.current_page as nat) < page_count
    }
}

impl Default for ReaderState {
    fn default() -> (r: Self)
        ensures
            r == (ReaderState { single_page: false, current_page: 0, first_page_is_cover: true }),
    {
        ReaderState { single_page: false, current_page: 0, first_page_is_cover: true }
    }
}

/// How far `page_forward` advances from reader state `rs` in a volume of
/// `len` pages: not at all from the last page; by one onto the last page,
/// from an even page while the first page is treated as a standalone cover,
/// or in single-page mode; by two otherwise (a two-page spread).
pub open spec fn forward_increment(rs: ReaderState, len: nat) -> nat {
    if rs.current_page + 1 >= len {
        0
    } else if rs.current_page + 2 == len {
        1
    } else if rs.first_page_is_cover && rs.current_page % 2 == 0 {
        1
    } else if rs.single_page {
        1
    } else {
        2
    }
}

/// How far `page_backward` retreats from reader state `rs`: the mirror of
/// `forward_increment`; never below page zero.
pub open spec fn backward_decrement(rs: ReaderState) -> nat {
    if rs.current_page == 0 {
        0
    } else if rs.current_page == 1 {
        1
    } else if rs.single_page {
        1
    } else if rs.first_page_is_cover && rs.current_page % 2 == 0 {
        1
    } else {
        2
    }
}

/// One declared page of a volume: the page image's entry name paired with
/// the entry name of its OCR annotation file.
#[derive(Debug)]
pub struct PageEntry {
    pub name: Vec<u8>,
    pub ocr: Vec<u8>,
}

impl View for PageEntry {
    type V = (Seq<u8>, Seq<u8>);

    open spec fn view(&self) -> (Seq<u8>, Seq<u8>) {
        (self.name.deep_view(), self.ocr.deep_view())
    }
}

impl DeepView for PageEntry {
    type V = (Seq<u8>, Seq<u8>);

    open spec fn deep_view(&self) -> (Seq<u8>, Seq<u8>) {
        self.view()
    }
}

impl Clone for PageEntry {
    fn clone(&self) -> (r: Self)
        ensures
            r@ == self@,
    {
        let r = PageEntry { name: self.name.clone(), ocr: self.ocr.clone() };
        proof {
            assert(r.name@ =~= self.name@);
            assert(r.ocr@ =~= self.ocr@);
        }
        r
    }
}

/// The mathematical value of a [`VolumeMetadata`] record.
pub ghost struct VolumeV {
    pub id: VolumeId,
    pub version: Seq<u8>,
    pub created_at: Seq<u8>,
    pub modified_at: Seq<u8>,
    pub series: Seq<u8>,
    pub title: Seq<u8>,
    pub volume: Seq<u8>,
    pub volume_uuid: Seq<u8>,
    pub pages: Seq<(Seq<u8>, Seq<u8>)>,
    pub cover: Option<Seq<u8>>,
    pub hide_sidebar: bool,
    pub line_height: u32,
    pub magnifier: MagnifierSettings,
    pub reader_state: ReaderState,
}

impl VolumeV {
    /// A volume always declares at least one page, and its reader state
    /// points at one of them.
    pub open spec fn wf(self) -> bool {
        self.pages.len() > 0 && self.reader_state.wf(self.pages.len())
    }

    /// The name of the cover art: the override if one is set, else the first
    /// declared page.
    pub open spec fn cover_name(self) -> Seq<u8> {
        match self.cover {
            Some(name) => name,
            None => self.pages[0].0,
        }
    }
}

/// One manga volume's metadata: identity, timestamps, the ordered page list,
/// and the per-volume display settings.
#[derive(Debug)]
pub struct VolumeMetadata {
    /// `0` until the store assigns a key on insertion.
    pub id: VolumeId,
    pub version: Vec<u8>,
    pub created_at: Vec<u8>,
    pub modified_at: Vec<u8>,
    pub series: Vec<u8>,
    pub title: Vec<u8>,
    pub volume: Vec<u8>,
    pub volume_uuid: Vec<u8>,
    /// The declared pages, in reading order.
    pub pages: Vec<PageEntry>,
    /// Optional override for the cover art's page name.
    pub cover: Option<Vec<u8>>,
    pub hide_sidebar: bool,
    /// Line height in hundredths; `100` is single-spaced.
    pub line_height: u32,
    pub magnifier: MagnifierSettings,
    pub reader_state: ReaderState,
}

impl View for VolumeMetadata {
    type V = VolumeV;

    open spec fn view(&self) -> VolumeV {
        VolumeV {
            id: self.id,
            version: self.version.deep_view(),
            created_at: self.created_at.deep_view(),
            modified_at: self.modified_at.deep_view(),
            series: self.series.deep_view(),
            title: self.title.deep_view(),
            volume: self.volume.deep_view(),
            volume_uuid: self.volume_uuid.deep_view(),
            pages: self.pages.deep_view(),
            cover: self.cover.deep_view(),
            hide_sidebar: self.hide_sidebar,
            line_height: self.line_height,
            magnifier: self.magnifier,
            reader_state: self.reader_state,
        }
    }
}

impl Clone for VolumeMetadata {
    fn clone(&self) -> (r: Self)
        ensures
            r@ == self@,
    {
        let r = VolumeMetadata {
            id: self.id,
            version: self.version.clone(),
            created_at: self.created_at.clone(),
            modified_at: self.modified_at.clone(),
            series: self.series.clone(),
            title: self.title.clone(),
            volume: self.volume.clone(),
            volume_uuid: self.volume_uuid.clone(),
            pages: self.pages.clone(),
            cover: match &self.cover {
                Some(name) => Some(name.clone()),
                None => None,
            },
            hide_sidebar: self.hide_sidebar,
            line_height: self.line_height,
            magnifier: self.magnifier,
            reader_state: self.reader_state,
        };
        proof {
            assert(r.version@ =~= self.version@);
            assert(r.created_at@ =~= self.created_at@);
            assert(r.modified_at@ =~= self.modified_at@);
            assert(r.series@ =~= self.series@);
            assert(r.title@ =~= self.title@);
            assert(r.volume@ =~= self.volume@);
            assert(r.volume_uuid@ =~= self.volume_uuid@);
            assert(r.pages.deep_view() =~= self.pages.deep_view());
            assert(r.cover.deep_view() =~= self.cover.deep_view());
            assert(r@ =~= self@);
        }
        r
    }
}

impl VolumeMetadata {
    /// See [`VolumeV::wf`].
    pub open spec fn wf(&self) -> bool {
        self@.wf()
    }

    /// The name of the cover art, whether the override is set or not.
    pub fn cover(&self) -> (name: &Vec<u8>)
        requires
            self.wf(),
        ensures
            name.deep_view() == self@.cover_name(),
    {
        if let Some(page) = self.cover.as_ref() {
            return page;
        }
        &self.pages[0].name
    }

    /// Advance the reader by one step, as [`forward_increment`] says; the
    /// current page never moves past the last page, and nothing else of the
    /// volume changes.
    pub fn page_forward(&mut self)
        requires
            old(self).wf(),
        ensures
            final(self).wf(),
            final(self)@ == (VolumeV {
                reader_state: ReaderState {
                    current_page: (old(self)@.reader_state.current_page + forward_increment(
                        old(self)@.reader_state,
                        old(self)@.pages.len(),
                    )) as usize,
                    ..old(self)@.reader_state
                },
                ..old(self)@
            }),
    {
        let len = self.pages.len();
        let p = self.reader_state.current_page;
        let increment: usize = if p >= len - 1 {
            0
        } else if p == len - 2 {
            1
        } else if self.reader_state.first_page_is_cover && p % 2 == 0 {
            1
        } else if self.reader_state.single_page {
            1
        } else {
            2
        };
        self.reader_state.current_page = p + increment;
    }

    /// Retreat the reader by one step, as [`backward_decrement`] says; the
    /// current page never moves below page zero, and nothing else of the
    /// volume changes.
    pub fn page_backward(&mut self)
        requires
            old(self).wf(),
        ensures
            final(self).wf(),
            final(self)@ == (VolumeV {
                reader_state: ReaderState {
                    current_page: (old(self)@.reader_state.current_page - backward_decrement(
                        old(self)@.reader_state,
                    )) as usize,
                    ..old(self)@.reader_state
                },
                ..old(self)@
            }),
    {
        let p = self.reader_state.current_page;
        let decrement: usize = if p == 0 {
            0
        } else if p == 1 {
            1
        } else if self.reader_state.single_page {
            1
        } else if self.reader_state.first_page_is_cover && p % 2 == 0 {
            1
        } else {
            2
        };
        self.reader_state.current_page = p - decrement;
    }

    /// Whether only one page is displayed at the current position: in
    /// single-page mode, or on the standalone cover page.
    pub open spec fn displays_single(self) -> bool {
        self@.reader_state.single_page || (self@.reader_state.current_page == 0
            && self@.reader_state.first_page_is_cover)
    }

    /// The names of the one or two pages displayed next. The first slot is
    /// always the current page; the second is the following page, absent in
    /// single-page display or when no further page exists.
    pub fn select_pages(&self) -> (r: (Option<Vec<u8>>, Option<Vec<u8>>))
        requires
            self.wf(),
        ensures
            r.0 matches Some(name) && name.deep_view() == self@.pages[self@.reader_state.current_page
                as int].0,
            self.displays_single() ==> r.1 is None,
            !self.displays_single() && self@.reader_state.current_page + 1 < self@.pages.len()
                ==> (r.1 matches Some(name) && name.deep_view() == self@.pages[
                self@.reader_state.current_page + 1].0),
            !self.displays_single() && self@.reader_state.current_page + 1 >= self@.pages.len()
                ==> r.1 is None,
    {
        let p = self.reader_state.current_page;
        let first = Some(self.pages[p].name.clone());
        proof {
            assert(self.pages[p as int].name@ =~= self.pages.deep_view()[p as int].0);
        }
        if self.reader_state.single_page || (p == 0 && self.reader_state.first_page_is_cover) {
            return (first, None);
        }
        if p < self.pages.len() - 1 {
            proof {
                assert(self.pages[p + 1 as int].name@ =~= self.pages.deep_view()[p + 1].0);
            }
            (first, Some(self.pages[p + 1].name.clone()))
        } else {
            (first, None)
        }
    }
}

/// One user-editable text region on a page: position, size, orientation, and
/// its text lines.
#[derive(Debug)]
pub struct OcrBlock {
    /// Stable identity of the block, issued once on creation.
    pub uuid: Vec<u8>,
    /// `(left, top, right, bottom)` in source-image pixel space.
    pub box_: (u32, u32, u32, u32),
    pub vertical: bool,
    pub font_size: u32,
    pub lines: Vec<Vec<u8>>,
}

/// The mathematical value of an [`OcrBlock`].
pub ghost struct OcrBlockV {
    pub uuid: Seq<u8>,
    pub box_: (u32, u32, u32, u32),
    pub vertical: bool,
    pub font_size: u32,
    pub lines: Seq<Seq<u8>>,
}

impl OcrBlockV {
    /// The box's edges are ordered: left at most right, top at most bottom.
    pub open spec fn wf(self) -> bool {
        self.box_.0 <= self.box_.2 && self.box_.1 <= self.box_.3
    }
}

impl View for OcrBlock {
    type V = OcrBlockV;

    open spec fn view(&self) -> OcrBlockV {
        OcrBlockV {
            uuid: self.uuid.deep_view(),
            box_: self.box_,
            vertical: self.vertical,
            font_size: self.font_size,
            lines: self.lines.deep_view(),
        }
    }
}

impl DeepView for OcrBlock {
    type V = OcrBlockV;

    open spec fn deep_view(&self) -> OcrBlockV {
        self.view()
    }
}

impl Clone for OcrBlock {
    fn clone(&self) -> (r: Self)
        ensures
            r@ == self@,
    {
        let r = OcrBlock {
            uuid: self.uuid.clone(),
            box_: self.box_,
            vertical: self.vertical,
            font_size: self.font_size,
            lines: self.lines.clone(),
        };
        proof {
            assert(r.uuid@ =~= self.uuid@);
            assert(r.lines.deep_view() =~= self.lines.deep_view());
        }
        r
    }
}

/// Relies on `uuid::Uuid::now_v7` and `uuid::fmt::Simple`: a fresh version-7
/// UUID rendered in the simple format, which is exactly 32 hexadecimal
/// digits. The value depends on the clock and on random bits, so nothing
/// more is promised of it.
#[verifier::external_body]
pub(crate) fn fresh_block_uuid() -> (r: Vec<u8>)
    ensures
        r@.len() == 32,
{
    uuid::Uuid::now_v7().simple().to_string().into_bytes()
}

impl OcrBlock {
    /// See [`OcrBlockV::wf`].
    pub open spec fn wf(&self) -> bool {
        self@.wf()
    }

    /// Build a freshly identified block over the given box, with no text
    /// lines yet.
    pub fn new(top: u32, left: u32, bottom: u32, right: u32, font_size: u32, vertical: bool) -> (r:
        OcrBlock)
        requires
            left <= right,
            top <= bottom,
        ensures
            r.wf(),
            r@.box_ == (left, top, right, bottom),
            r@.vertical == vertical,
            r@.font_size == font_size,
            r@.lines.len() == 0,
            r@.uuid.len() == 32,
    {
        let uuid = fresh_block_uuid();
        let r = OcrBlock { uuid, box_: (left, top, right, bottom), vertical, font_size, lines: Vec::new() };
        proof {
            assert(r.lines.deep_view() =~= Seq::<Seq<u8>>::empty());
        }
        r
    }

    /// Whether the box's edges are ordered.
    pub fn validate(&self) -> (b: bool)
        ensures
            b == self.wf(),
    {
        self.box_.0 <= self.box_.2 && self.box_.1 <= self.box_.3
    }

    pub fn top(&self) -> (r: u32)
        ensures
            r == self@.box_.1,
    {
        self.box_.1
    }

    pub fn left(&self) -> (r: u32)
        ensures
            r == self@.box_.0,
    {
        self.box_.0
    }

    /// Height of the box; zero if the edges are out of order.
    pub fn height(&self) -> (r: u32)
        ensures
            r == if self@.box_.1 <= self@.box_.3 {
                self@.box_.3 - self@.box_.1
            } else {
                0
            },
    {
        if self.box_.1 <= self.box_.3 {
            self.box_.3 - self.box_.1
        } else {
            0
        }
    }

    /// Width of the box; zero if the edges are out of order.
    pub fn width(&self) -> (r: u32)
        ensures
            r == if self@.box_.0 <= self@.box_.2 {
                self@.box_.2 - self@.box_.0
            } else {
                0
            },
    {
        if self.box_.0 <= self.box_.2 {
            self.box_.2 - self.box_.0
        } else {
            0
        }
    }
}

/// The mathematical value of a [`PageOcr`].
pub ghost struct PageOcrV {
    pub img_width: u32,
    pub img_height: u32,
    pub blocks: Seq<OcrBlockV>,
}

/// The OCR annotation row of one page: the source image's dimensions and the
/// text blocks laid over it.
#[derive(Debug)]
pub struct PageOcr {
    pub img_width: u32,
    pub img_height: u32,
    pub blocks: Vec<OcrBlock>,
}

impl View for PageOcr {
    type V = PageOcrV;

    open spec fn view(&self) -> PageOcrV {
        PageOcrV {
            img_width: self.img_width,
            img_height: self.img_height,
            blocks: self.blocks.deep_view(),
        }
    }
}

impl Clone for PageOcr {
    fn clone(&self) -> (r: Self)
        ensures
            r@ == self@,
    {
        let r = PageOcr {
            img_width: self.img_width,
            img_height: self.img_height,
            blocks: self.blocks.clone(),
        };
        proof {
            assert(r.blocks.deep_view() =~= self.blocks.deep_view());
        }
        r
    }
}

/// One page image: its file name and its raw bytes, immutable once stored.
#[derive(Debug)]
pub struct PageImage {
    pub name: Vec<u8>,
    pub data: Vec<u8>,
}

impl View for PageImage {
    type V = (Seq<u8>, Seq<u8>);

    open spec fn view(&self) -> (Seq<u8>, Seq<u8>) {
        (self.name.deep_view(), self.data.deep_view())
    }
}

impl Clone for PageImage {
    fn clone(&self) -> (r: Self)
        ensures
            r@ == self@,
    {
        let r = PageImage { name: self.name.clone(), data: self.data.clone() };
        proof {
            assert(r.name@ =~= self.name@);
            assert(r.data@ =~= self.data@);
        }
        r
    }
}

impl PageImage {
    pub fn new(name: &Vec<u8>, data: &Vec<u8>) -> (r: Self)
        ensures
            r@ == (name.deep_view(), data.deep_view()),
    {
        let r = PageImage { name: name.clone(), data: data.clone() };
        proof {
            assert(r.name@ =~= name@);
            assert(r.data@ =~= data@);
        }
        r
    }

    /// Size of the image in bytes.
    pub fn size(&self) -> (n: u64)
        ensures
            n == self@.1.len(),
    {
        self.data.len() as u64
    }
}

} // verus!
