use mokuro_reader::archive::{create_ziparchive, export_entries, extract_ziparchive, import_entries};
use mokuro_reader::codec::{page_ocr_from_json, page_ocr_to_json, volume_from_json, volume_to_json};
use mokuro_reader::drag::Drag;
use mokuro_reader::errors::{AppError, InvalidMokuroFileError};
use mokuro_reader::models::{
    MagnifierSettings, OcrBlock, PageEntry, PageOcr, ReaderState, VolumeMetadata,
};
use mokuro_reader::page::{PageState, RectPx};
use mokuro_reader::reader::{Cursor, CursorAction, Reader, ReaderMessage, SidebarData};
use mokuro_reader::store::KeyedStore;
use mokuro_reader::sync::Syncer;
use mokuro_reader::textblock::{apply, block_screen_box, BlockEffect, Direction, Measurements, TextBlock, TextBlockMessage};

fn bytes(s: &str) -> Vec<u8> {
    s.as_bytes().to_vec()
}

fn sample_block(uuid: &str) -> OcrBlock {
    OcrBlock {
        uuid: bytes(uuid),
        box_: (10, 20, 110, 220),
        vertical: true,
        font_size: 17,
        lines: vec![bytes("line one"), bytes("line\ntwo \"quoted\"")],
    }
}

fn sample_volume(pages: usize) -> VolumeMetadata {
    let mut entries = Vec::new();
    for i in 0..pages {
        entries.push(PageEntry {
            name: bytes(&format!("{:03}.png", i)),
            ocr: bytes(&format!("_ocr/{:03}.json", i)),
        });
    }
    VolumeMetadata {
        id: 0,
        version: bytes("0.1.0"),
        created_at: bytes("2024-01-01T00:00:00"),
        modified_at: bytes("2024-01-02T00:00:00"),
        series: bytes("series"),
        title: bytes("A Title with \\ and \" in it"),
        volume: bytes("vol 1"),
        volume_uuid: bytes("0123456789abcdef"),
        pages: entries,
        cover: None,
        hide_sidebar: false,
        line_height: 100,
        magnifier: MagnifierSettings { zoom: 200, radius: 35, height: 350, width: 350 },
        reader_state: ReaderState { single_page: false, current_page: 0, first_page_is_cover: true },
    }
}

fn sample_ocr() -> PageOcr {
    PageOcr { img_width: 800, img_height: 1200, blocks: vec![sample_block("aaaa"), sample_block("bbbb")] }
}

fn volume_fields_equal(a: &VolumeMetadata, b: &VolumeMetadata) -> bool {
    a.version == b.version && a.created_at == b.created_at && a.modified_at == b.modified_at
        && a.series == b.series && a.title == b.title && a.volume == b.volume
        && a.volume_uuid == b.volume_uuid
        && a.pages.len() == b.pages.len()
        && a.pages.iter().zip(b.pages.iter()).all(|(x, y)| x.name == y.name && x.ocr == y.ocr)
        && a.cover == b.cover && a.hide_sidebar == b.hide_sidebar && a.line_height == b.line_height
        && a.magnifier == b.magnifier && a.reader_state == b.reader_state
}

fn ocr_equal(a: &PageOcr, b: &PageOcr) -> bool {
    a.img_width == b.img_width && a.img_height == b.img_height && a.blocks.len() == b.blocks.len()
        && a.blocks.iter().zip(b.blocks.iter()).all(|(x, y)| {
            x.uuid == y.uuid && x.box_ == y.box_ && x.vertical == y.vertical
                && x.font_size == y.font_size && x.lines == y.lines
        })
}

fn entries_for(volume: &VolumeMetadata) -> Vec<(Vec<u8>, Vec<u8>)> {
    let mut es = vec![(bytes("mokuro-metadata.json"), volume_to_json(volume))];
    for (i, p) in volume.pages.iter().enumerate() {
        es.push((p.name.clone(), vec![0xFF, 0xD8, i as u8]));
        es.push((p.ocr.clone(), page_ocr_to_json(&sample_ocr())));
    }
    es
}

// --- the document codec -----------------------------------------------------

#[test]
fn volume_document_round_trips() {
    let v = sample_volume(3);
    let doc = volume_to_json(&v);
    let parsed = volume_from_json(&doc).expect("canonical document must parse");
    assert!(volume_fields_equal(&v, &parsed));
    assert_eq!(parsed.id, 0);
}

#[test]
fn volume_document_with_cover_round_trips() {
    let mut v = sample_volume(2);
    v.cover = Some(bytes("001.png"));
    let doc = volume_to_json(&v);
    let parsed = volume_from_json(&doc).expect("canonical document must parse");
    assert!(volume_fields_equal(&v, &parsed));
}

#[test]
fn volume_document_exact_bytes() {
    let mut v = sample_volume(1);
    v.title = bytes("t");
    v.series = bytes("");
    let doc = volume_to_json(&v);
    let text = String::from_utf8(doc).expect("document is UTF-8 for ASCII fields");
    assert_eq!(
        text,
        "{\"version\":\"0.1.0\",\"created_at\":\"2024-01-01T00:00:00\",\
         \"modified_at\":\"2024-01-02T00:00:00\",\"series\":\"\",\"title\":\"t\",\
         \"volume\":\"vol 1\",\"volume_uuid\":\"0123456789abcdef\",\
         \"pages\":[[\"000.png\",\"_ocr/000.json\"]],\"cover\":null,\
         \"hide_sidebar\":false,\"line_height\":1.00,\
         \"magnifier\":{\"zoom\":200,\"radius\":35,\"height\":350,\"width\":350},\
         \"reader_state\":{\"single_page\":false,\"current_page\":0,\
         \"first_page_is_cover\":true}}"
    );
}

#[test]
fn ocr_document_round_trips() {
    let o = sample_ocr();
    let doc = page_ocr_to_json(&o);
    let parsed = page_ocr_from_json(&doc).expect("canonical document must parse");
    assert!(ocr_equal(&o, &parsed));
}

#[test]
fn string_escapes_round_trip() {
    let mut o = sample_ocr();
    o.blocks[0].lines = vec![
        b"tab\there".to_vec(),
        b"quote\"back\\slash".to_vec(),
        vec![0x01, 0x1F, 0x0A, 0x0D],
        "日本語のテキスト".as_bytes().to_vec(),
    ];
    let doc = page_ocr_to_json(&o);
    let parsed = page_ocr_from_json(&doc).expect("escaped document must parse");
    assert!(ocr_equal(&o, &parsed));
}

#[test]
fn malformed_documents_are_rejected() {
    assert!(volume_from_json(&bytes("")).is_none());
    assert!(volume_from_json(&bytes("{}")).is_none());
    let v = sample_volume(1);
    let mut doc = volume_to_json(&v);
    doc.pop();
    assert!(volume_from_json(&doc).is_none(), "truncated document must fail");
    let mut doc2 = volume_to_json(&v);
    doc2.push(b' ');
    assert!(volume_from_json(&doc2).is_some(), "trailing whitespace is tolerated");
    doc2.push(b'x');
    assert!(volume_from_json(&doc2).is_none(), "trailing content must fail");
}

// --- pagination -------------------------------------------------------------

#[test]
fn pagination_forward_walks_cover_then_spreads() {
    let mut v = sample_volume(5);
    let mut seen = vec![v.reader_state.current_page];
    for _ in 0..4 {
        v.page_forward();
        seen.push(v.reader_state.current_page);
    }
    assert_eq!(seen, vec![0, 1, 3, 4, 4]);
}

#[test]
fn pagination_backward_stays_in_range() {
    let mut v = sample_volume(5);
    v.reader_state.current_page = 4;
    let mut seen = vec![4];
    for _ in 0..5 {
        v.page_backward();
        assert!(v.reader_state.current_page < v.pages.len());
        seen.push(v.reader_state.current_page);
    }
    assert_eq!(seen, vec![4, 3, 1, 0, 0, 0]);
}

#[test]
fn select_pages_cover_is_alone() {
    let v = sample_volume(5);
    let (first, second) = v.select_pages();
    assert_eq!(first.unwrap(), bytes("000.png"));
    assert!(second.is_none());
}

#[test]
fn select_pages_spread_shows_two() {
    let mut v = sample_volume(5);
    v.reader_state.current_page = 1;
    let (first, second) = v.select_pages();
    assert_eq!(first.unwrap(), bytes("001.png"));
    assert_eq!(second.unwrap(), bytes("002.png"));
}

#[test]
fn select_pages_last_page_has_no_second() {
    let mut v = sample_volume(5);
    v.reader_state.current_page = 4;
    let (first, second) = v.select_pages();
    assert_eq!(first.unwrap(), bytes("004.png"));
    assert!(second.is_none());
}

// --- the drag threshold -----------------------------------------------------

#[test]
fn small_movement_is_not_dirty() {
    let d = Drag::new(100, 100);
    assert!(!d.dirty());
    let d = d.move_to(102, 99);
    assert!(!d.dirty());
    let d = d.move_to(103, 100);
    assert!(d.dirty(), "three pixels of stray crosses the threshold");
}

#[test]
fn click_never_creates_a_block() {
    let mut page = PageState::new();
    page.set_ocr(sample_ocr());
    let rect = RectPx { left: 10, top: 10, width: 400, height: 600 };
    page.begin_drag(50, 50);
    let committed = page.end_drag(&rect, 1200);
    assert!(!committed);
    assert_eq!(page.ocr.blocks.len(), 2, "a plain click adds nothing");
}

#[test]
fn dirty_drag_creates_a_clamped_block() {
    let mut page = PageState::new();
    page.set_ocr(sample_ocr());
    let rect = RectPx { left: 0, top: 0, width: 400, height: 600 };
    page.begin_drag(100, 100);
    assert!(page.update_drag(110, 101));
    let committed = page.end_drag(&rect, 1200);
    assert!(committed);
    assert_eq!(page.ocr.blocks.len(), 3);
    let b = page.ocr.blocks.last().unwrap();
    assert!(!b.vertical, "a rightward drag is horizontal text");
    // 10 screen px at 1200/600 scale is 20 image px, clamped up to 26
    assert_eq!(b.box_.2 - b.box_.0, 26);
    assert_eq!(b.box_.0, 200);
    assert_eq!(b.box_.1, 200);
    assert_eq!(b.font_size, 20);
    assert!(b.lines.is_empty());
    assert_eq!(b.uuid.len(), 32);
}

#[test]
fn leftward_drag_is_vertical() {
    let mut page = PageState::new();
    page.set_ocr(sample_ocr());
    let rect = RectPx { left: 0, top: 0, width: 400, height: 600 };
    page.begin_drag(100, 100);
    page.update_drag(60, 120);
    assert!(page.end_drag(&rect, 1200));
    assert!(page.ocr.blocks.last().unwrap().vertical);
}

// --- block edits ------------------------------------------------------------

#[test]
fn update_and_delete_blocks_by_identity() {
    let mut page = PageState::new();
    page.set_ocr(sample_ocr());
    let mut edited = sample_block("aaaa");
    edited.font_size = 99;
    page.update_block(edited).expect("block aaaa exists");
    assert_eq!(page.ocr.blocks[0].font_size, 99);
    page.delete_block(&bytes("bbbb")).expect("block bbbb exists");
    assert_eq!(page.ocr.blocks.len(), 1);
    assert!(page.delete_block(&bytes("bbbb")).is_err(), "a gone block cannot be deleted again");
    assert_eq!(page.ocr.blocks.len(), 1);
}

#[test]
fn textblock_font_and_nudge() {
    let mut tb = TextBlock::new();
    let b = sample_block("aaaa");
    let up = tb.increase_font(&b);
    assert_eq!(up.font_size, 18);
    let down = tb.decrease_font(&b);
    assert_eq!(down.font_size, 16);
    let mut at_zero = sample_block("cccc");
    at_zero.font_size = 0;
    assert_eq!(tb.decrease_font(&at_zero).font_size, 0, "font size stops at zero");
    let nudged = tb.nudge(&b, Direction::Up);
    assert_eq!(nudged.box_, (10, 19, 110, 219));
    let mut at_top = sample_block("dddd");
    at_top.box_ = (5, 0, 30, 40);
    assert_eq!(tb.nudge(&at_top, Direction::Up).box_, (5, 0, 30, 40), "cannot leave the image");
    assert_eq!(tb.nudge(&b, Direction::Left).box_, (9, 20, 109, 220));
    assert_eq!(tb.nudge(&b, Direction::Right).box_, (11, 20, 111, 220));
    assert_eq!(tb.nudge(&b, Direction::Down).box_, (10, 21, 110, 221));
}

#[test]
fn textblock_commit_lines_only_on_change() {
    let mut tb = TextBlock::new();
    let b = sample_block("aaaa");
    assert!(tb.commit_lines(&b, b.lines.clone()).is_none(), "unchanged lines commit nothing");
    let changed = tb.commit_lines(&b, vec![bytes("new text")]).expect("changed lines commit");
    assert_eq!(changed.lines, vec![bytes("new text")]);
    let emptied = tb.commit_lines(&b, Vec::new()).expect("deleting all lines commits");
    assert!(emptied.lines.is_empty());
}

// --- the store and the cascade delete ---------------------------------------

#[test]
fn store_put_get_and_settings() {
    let mut store = KeyedStore::new();
    let id = store.put_volume(sample_volume(2));
    assert_eq!(id, 1);
    let v = store.get_volume(id).expect("stored volume is found");
    assert_eq!(v.id, id);
    assert!(store.get_volume(77).is_none());
    let mut settings = store.get_settings();
    assert_eq!(settings.magnifier.zoom, 200);
    settings.magnifier.zoom = 300;
    store.put_settings(settings);
    assert_eq!(store.get_settings().magnifier.zoom, 300);
}

#[test]
fn cascade_delete_removes_every_row() {
    let mut store = KeyedStore::new();
    let a = sample_volume(2);
    let b = sample_volume(1);
    let ea = entries_for(&a);
    let eb = entries_for(&b);
    let (va, _) = import_entries(&mut store, &ea).expect("import a");
    let (vb, _) = import_entries(&mut store, &eb).expect("import b");
    assert_eq!(store.pages.len(), 3);
    assert_eq!(store.ocr.len(), 3);
    store.delete_volume(va.id).expect("volume a exists");
    assert!(store.pages.iter().all(|row| row.volume_id != va.id));
    assert!(store.ocr.iter().all(|row| row.volume_id != va.id));
    assert!(store.get_volume(va.id).is_none());
    // the other volume is untouched
    assert!(store.get_volume(vb.id).is_some());
    assert_eq!(store.pages.len(), 1);
    assert_eq!(store.ocr.len(), 1);
}

#[test]
fn deleting_a_missing_volume_changes_nothing() {
    let mut store = KeyedStore::new();
    let es = entries_for(&sample_volume(1));
    import_entries(&mut store, &es).expect("import");
    let before_pages = store.pages.len();
    let before_volumes = store.volumes.len();
    assert!(matches!(store.delete_volume(42), Err(AppError::MissingRecord)));
    assert_eq!(store.pages.len(), before_pages);
    assert_eq!(store.volumes.len(), before_volumes);
}

// --- import and export ------------------------------------------------------

#[test]
fn import_two_pages_fills_three_tables() {
    let mut store = KeyedStore::new();
    let v = sample_volume(2);
    let es = entries_for(&v);
    let (imported, cover) = import_entries(&mut store, &es).expect("acceptable archive");
    assert!(imported.id != 0);
    assert_eq!(imported.pages.len(), 2);
    assert_eq!(store.volumes.len(), 1);
    assert_eq!(store.pages.len(), 2);
    assert_eq!(store.ocr.len(), 2);
    assert_eq!(cover.name, bytes("000.png"));
    assert_eq!(cover.data, vec![0xFF, 0xD8, 0]);
    assert!(store.pages.iter().all(|row| row.volume_id == imported.id));
}

#[test]
fn import_missing_ocr_entry_names_it_and_leaves_no_rows() {
    let mut store = KeyedStore::new();
    let v = sample_volume(2);
    let mut es = entries_for(&v);
    es.retain(|(name, _)| name != &bytes("_ocr/001.json"));
    let r = import_entries(&mut store, &es);
    match r {
        Err(AppError::InvalidMokuroFile(InvalidMokuroFileError::MissingFile(name))) => {
            assert_eq!(name, bytes("_ocr/001.json"));
        }
        other => panic!("expected a missing-file rejection, got {:?}", other.map(|_| ())),
    }
    assert!(store.volumes.is_empty(), "a failed import leaves no volume row");
    assert!(store.pages.is_empty());
    assert!(store.ocr.is_empty());
}

#[test]
fn import_missing_metadata_is_rejected() {
    let mut store = KeyedStore::new();
    let es = vec![(bytes("000.png"), vec![1, 2, 3])];
    match import_entries(&mut store, &es) {
        Err(AppError::InvalidMokuroFile(InvalidMokuroFileError::MissingFile(name))) => {
            assert_eq!(name, bytes("mokuro-metadata.json"));
        }
        other => panic!("expected a missing-file rejection, got {:?}", other.map(|_| ())),
    }
}

#[test]
fn import_accepts_legacy_metadata_name() {
    let mut store = KeyedStore::new();
    let v = sample_volume(1);
    let mut es = entries_for(&v);
    es[0].0 = bytes("mokuro.json");
    let (imported, _) = import_entries(&mut store, &es).expect("legacy name accepted");
    assert_eq!(imported.pages.len(), 1);
}

#[test]
fn entries_round_trip_through_export() {
    let mut store = KeyedStore::new();
    let v = sample_volume(3);
    let es = entries_for(&v);
    let (imported, _) = import_entries(&mut store, &es).expect("import");
    let exported = export_entries(&store, imported.id).expect("all rows present");
    let mut second = KeyedStore::new();
    let (again, _) = import_entries(&mut second, &exported).expect("exported archive re-imports");
    assert!(volume_fields_equal(&imported, &again), "only the key may differ");
    assert_eq!(second.pages.len(), 3);
    assert_eq!(second.ocr.len(), 3);
}

#[test]
fn export_missing_volume_fails() {
    let store = KeyedStore::new();
    assert!(matches!(export_entries(&store, 9), Err(AppError::MissingRecord)));
}

// --- the zip container ------------------------------------------------------

#[test]
fn zip_archive_round_trips() {
    let mut store = KeyedStore::new();
    let v = sample_volume(2);
    let es = entries_for(&v);
    let (imported, _) = import_entries(&mut store, &es).expect("import");
    let zip_bytes = create_ziparchive(&store, imported.id).expect("archive builds");
    let mut second = KeyedStore::new();
    let (again, cover) = extract_ziparchive(&mut second, zip_bytes).expect("archive re-imports");
    assert!(volume_fields_equal(&imported, &again));
    assert_eq!(cover.data, vec![0xFF, 0xD8, 0]);
    assert_eq!(second.pages.len(), 2);
    assert_eq!(second.ocr.len(), 2);
}

#[test]
fn garbage_bytes_are_not_an_archive() {
    let mut store = KeyedStore::new();
    assert!(extract_ziparchive(&mut store, vec![1, 2, 3, 4]).is_err());
    assert!(store.volumes.is_empty());
}

// --- the synchronization sentinel -------------------------------------------

#[test]
fn sentinel_suppresses_the_load_writeback() {
    let mut syncer: Syncer<u64, VolumeMetadata> = Syncer::new();
    assert!(!syncer.holds());
    syncer.set_loaded(7, sample_volume(1));
    // the render caused by the load itself: no write
    assert!(!syncer.sync_pass());
    // an edit, then its render: exactly one write, of the edited value
    let mut edited = sample_volume(1);
    edited.title = bytes("edited");
    syncer.apply(edited);
    assert!(syncer.sync_pass());
    let held = syncer.current.as_ref().unwrap();
    assert_eq!(held.0, 7);
    assert_eq!(held.1.title, bytes("edited"));
    // a reload lowers the sentinel again
    syncer.set_loaded(8, sample_volume(1));
    assert!(!syncer.sync_pass());
}

// --- the reader screen ------------------------------------------------------

#[test]
fn cursor_reduce() {
    let c = Cursor::new();
    let c = c.reduce(CursorAction::Toggle, 5);
    assert!(c.magnify);
    assert_eq!(c.force, 0);
    let c = c.reduce(CursorAction::Update(3, 4), 9);
    assert_eq!(c.position, (3, 4));
    assert_eq!(c.force, 9, "moving with the magnifier shown stamps a redraw");
    let c = c.reduce(CursorAction::Toggle, 11);
    let c = c.reduce(CursorAction::Update(5, 6), 13);
    assert_eq!(c.force, 9, "moving without the magnifier does not");
    let c = c.reduce(CursorAction::ForceRerender, 21);
    assert_eq!(c.force, 21);
}

#[test]
fn reader_pages_commit_volume() {
    let mut r = Reader::new();
    let (_, commit) = r.update(ReaderMessage::NextPage, 1000, 800);
    assert!(!commit, "no volume, nothing to persist");
    r.update(ReaderMessage::Loaded(sample_volume(5)), 1000, 800);
    let (_, commit) = r.update(ReaderMessage::NextPage, 1000, 800);
    assert!(commit);
    assert_eq!(r.volume.as_ref().unwrap().reader_state.current_page, 1);
    let (_, commit) = r.update(ReaderMessage::PrevPage, 1000, 800);
    assert!(commit);
    assert_eq!(r.volume.as_ref().unwrap().reader_state.current_page, 0);
}

#[test]
fn reader_sidebar_commit_updates_volume() {
    let mut r = Reader::new();
    r.update(ReaderMessage::Loaded(sample_volume(5)), 1000, 800);
    let data = SidebarData {
        first_page_is_cover: false,
        hide_sidebar: true,
        line_height: 120,
        magnifier_height: 400,
        magnifier_width: 410,
        magnifier_radius: 50,
        magnification: 250,
        show_help: true,
        show_magnifier: true,
    };
    let (_, commit) = r.update(ReaderMessage::Commit(data), 1000, 800);
    assert!(commit);
    assert!(r.show_help);
    assert!(r.cursor.magnify);
    assert_eq!(r.cursor.position, (500, 400), "showing the magnifier centres it");
    let v = r.volume.as_ref().unwrap();
    assert!(v.hide_sidebar);
    assert_eq!(v.line_height, 120);
    assert_eq!(v.magnifier.zoom, 250);
    assert!(!v.reader_state.first_page_is_cover);
}

#[test]
fn magnifier_geometry_formulas() {
    let m = MagnifierSettings { zoom: 200, radius: 35, height: 350, width: 350 };
    let img = RectPx { left: 100, top: 50, width: 400, height: 600 };
    let g = mokuro_reader::reader::magnifier_geometry(&m, (300, 350), &img, true);
    assert_eq!(g.zoomed_width, 800);
    assert_eq!(g.zoomed_height, 1200);
    // cursor at (200, 300) inside the image
    assert_eq!(g.left, 100 + 200 - 175);
    assert_eq!(g.top, 50 + 300 - 175);
    assert_eq!(g.shift_x, 175 - 400);
    assert_eq!(g.shift_y, 175 - 600);
    // the cursor is clamped a few pixels inside the image
    let g2 = mokuro_reader::reader::magnifier_geometry(&m, (0, 0), &img, true);
    assert_eq!(g2.left, 100 + 5 - 175);
    assert_eq!(g2.top, 50 + 5 - 175);
}

#[test]
fn autosize_takes_the_union_of_line_rects() {
    let b = sample_block("aaaa");
    let page = RectPx { left: 0, top: 0, width: 400, height: 600 };
    let lines = vec![
        RectPx { left: 10, top: 30, width: 100, height: 20 },
        RectPx { left: 5, top: 45, width: 80, height: 30 },
    ];
    let sized = mokuro_reader::textblock::autosize_box(&b, &lines, &page, 1200);
    // the union is (5, 30) to (110, 75) on screen; scale is 1200/600 = 2
    assert_eq!(sized.box_, (10, 60, 220, 150));
    let unchanged = mokuro_reader::textblock::autosize_box(&b, &Vec::new(), &page, 1200);
    assert_eq!(unchanged.box_, b.box_);
}

#[test]
fn moved_box_commits_only_a_change() {
    let mut b = sample_block("aaaa");
    let page = RectPx { left: 0, top: 0, width: 400, height: 600 };
    // rendered where the stored box already is: box (10,20,110,220) at scale 2
    b.box_ = (10, 20, 110, 220);
    let rendered = RectPx { left: 5, top: 10, width: 50, height: 100 };
    assert!(mokuro_reader::textblock::moved_box(&b, &rendered, &page, 1200).is_none());
    let moved = RectPx { left: 7, top: 10, width: 50, height: 100 };
    let committed = mokuro_reader::textblock::moved_box(&b, &moved, &page, 1200).unwrap();
    assert_eq!(committed.box_, (14, 20, 114, 220));
}

#[test]
fn notifications_carry_content_and_error() {
    let n = mokuro_reader::notify::Notification::Warning("failed to save", String::from("deep reason"));
    assert_eq!(n.content(), "failed to save");
    assert_eq!(n.error(), "deep reason");
    let x = mokuro_reader::errors::ExtractionError::new(AppError::ArchiveError, bytes("a.zip"));
    assert_eq!(x.filename, bytes("a.zip"));
    assert!(matches!(x.error, AppError::ArchiveError));
}

#[test]
fn one_page_volume_behaves_single() {
    let mut v = sample_volume(1);
    v.reader_state.first_page_is_cover = false;
    let (first, second) = v.select_pages();
    assert_eq!(first.unwrap(), bytes("000.png"));
    assert!(second.is_none(), "no next page exists, so the second slot is absent");
    v.page_forward();
    assert_eq!(v.reader_state.current_page, 0);
}

#[test]
fn store_scan_and_update() {
    let mut store = KeyedStore::new();
    let a = store.put_volume(sample_volume(1));
    let b = store.put_volume(sample_volume(2));
    assert_ne!(a, b);
    let all = store.get_all_volumes();
    assert_eq!(all.len(), 2);
    assert_eq!(all[0].pages.len(), 1);
    assert_eq!(all[1].pages.len(), 2);
    // a put under an existing key replaces the row
    let mut edited = store.get_volume(b).unwrap();
    edited.title = bytes("renamed");
    store.put_volume(edited);
    assert_eq!(store.get_volume(b).unwrap().title, bytes("renamed"));
    assert_eq!(store.get_all_volumes().len(), 2);
}

#[test]
fn export_file_name_appends_the_suffix() {
    let name = mokuro_reader::archive::export_file_name(&bytes("My Title"));
    assert_eq!(name, bytes("My Title.mbz.zip"));
}

#[test]
fn line_height_wire_forms() {
    let v = sample_volume(1);
    // the canonical rendering carries two fraction digits
    let doc = String::from_utf8(volume_to_json(&v)).unwrap();
    assert!(doc.contains("\"line_height\":1.00,"));
    // integer, one-digit and long fractions all read back in hundredths
    for (wire, hundredths) in [("1", 100u32), ("1.5", 150), ("1.05", 105), ("2.125", 212), ("0.5", 50)] {
        let patched = doc.replace("\"line_height\":1.00,", &format!("\"line_height\":{},", wire));
        let parsed = volume_from_json(&patched.clone().into_bytes())
            .unwrap_or_else(|| panic!("{} must parse", wire));
        assert_eq!(parsed.line_height, hundredths, "wire {}", wire);
    }
    // a fraction point without digits is malformed
    let bad = doc.replace("\"line_height\":1.00,", "\"line_height\":1.,");
    assert!(volume_from_json(&bad.into_bytes()).is_none());
}

#[test]
fn spaced_documents_are_accepted() {
    let v = sample_volume(2);
    let compact = String::from_utf8(volume_to_json(&v)).unwrap();
    // a producer that spaces its output, as json writers commonly do
    let spaced = compact
        .replace(":", ": ")
        .replace(",", ", ")
        .replace("{", "{ ")
        .replace("}", " }");
    let spaced = format!("  {}\n", spaced);
    let parsed = volume_from_json(&spaced.into_bytes()).expect("spaced document must parse");
    // the title itself contains no reformatted punctuation here
    assert_eq!(parsed.pages.len(), 2);
    assert_eq!(parsed.line_height, 100);

    let o = sample_ocr();
    let compact_ocr = String::from_utf8(page_ocr_to_json(&o)).unwrap();
    let spaced_ocr = compact_ocr.replace("\",\"", "\", \"").replace(":[", ": [");
    assert!(page_ocr_from_json(&spaced_ocr.into_bytes()).is_some());
}

#[test]
fn spacing_inside_strings_is_kept() {
    let mut v = sample_volume(1);
    v.title = bytes("a  spaced,  title: {kept}");
    let doc = volume_to_json(&v);
    let parsed = volume_from_json(&doc).expect("parses");
    assert_eq!(parsed.title, v.title);
    // even when the document around it is re-spaced
    let spaced = String::from_utf8(doc).unwrap().replace(",\"", ", \"");
    let parsed2 = volume_from_json(&spaced.into_bytes()).expect("spaced parses");
    assert_eq!(parsed2.title, v.title);
}

#[test]
fn dispatcher_commit_lines_removes_focus() {
    let mut tb = TextBlock::new();
    tb.begin_drag(10, 10);
    tb.end_drag();
    tb.set_content_editing(true);
    let b = sample_block("aaaa");
    let m = Measurements {
        block_rect: RectPx { left: 0, top: 0, width: 10, height: 10 },
        page_rect: RectPx { left: 0, top: 0, width: 400, height: 600 },
        resizing: false,
        line_rects: Vec::new(),
        lines: vec![bytes("edited")],
        img_height: 1200,
    };
    let e = apply(&mut tb, &b, TextBlockMessage::CommitLines, m);
    match e {
        BlockEffect::Commit(nb) => assert_eq!(nb.lines, vec![bytes("edited")]),
        _ => panic!("changed lines must commit"),
    }
    assert!(!tb.contenteditable, "leaving content editing removes focus");
    assert!(!tb.should_be_focused);
}

#[test]
fn dispatcher_delete_names_the_block() {
    let mut tb = TextBlock::new();
    let b = sample_block("abcd");
    let m = Measurements {
        block_rect: RectPx { left: 0, top: 0, width: 10, height: 10 },
        page_rect: RectPx { left: 0, top: 0, width: 400, height: 600 },
        resizing: false,
        line_rects: Vec::new(),
        lines: Vec::new(),
        img_height: 1200,
    };
    match apply(&mut tb, &b, TextBlockMessage::DeleteBlock, m) {
        BlockEffect::Delete(uuid) => assert_eq!(uuid, bytes("abcd")),
        _ => panic!("delete must name the block"),
    }
}

#[test]
fn block_drag_stays_inside_the_page() {
    let mut tb = TextBlock::new();
    tb.begin_drag(100, 100);
    let block_rect = RectPx { left: 90, top: 90, width: 20, height: 20 };
    let page_rect = RectPx { left: 0, top: 0, width: 400, height: 600 };
    // a move far to the left would push the block outside: the x axis is refused
    tb.update_drag(-500, 105, &block_rect, &page_rect, false);
    let d = tb.drag.unwrap();
    assert_eq!(d.pos_x, 100, "x stays where it was");
    assert_eq!(d.pos_y, 105, "y is accepted");
    // a resize in progress abandons the drag
    tb.update_drag(110, 110, &block_rect, &page_rect, true);
    assert!(tb.drag.is_none());
}

#[test]
fn screen_geometry_of_a_block() {
    let b = sample_block("aaaa"); // box (10, 20, 110, 220), vertical
    let page = RectPx { left: 50, top: 30, width: 400, height: 600 };
    let g = block_screen_box(&b, &None, &page, 1000, 1200);
    // scale down by 600/1200: halves
    assert_eq!(g.left, 50 + 5);
    assert_eq!(g.top, 30 + 10);
    assert_eq!(g.width, 50);
    assert_eq!(g.height, 100);
    assert_eq!(g.right, 1000 - 55 - 50, "vertical text anchors to the right edge");
    assert_eq!(g.font_px, 8); // 17 * 600 / 1200, truncated
    // a running drag shifts the block on screen
    let d = Drag::new(0, 0).move_to(7, -3);
    let g2 = block_screen_box(&b, &Some(d), &page, 1000, 1200);
    assert_eq!(g2.left, 55 + 7);
    assert_eq!(g2.top, 40 - 3);
}

#[test]
fn magnifier_handles_degenerate_images() {
    let m = MagnifierSettings { zoom: 200, radius: 35, height: 350, width: 350 };
    let img = RectPx { left: 10, top: 10, width: 1, height: 1 };
    let g = mokuro_reader::reader::magnifier_geometry(&m, (0, 0), &img, true);
    // the cursor is held at the inner bias even when the image is tiny
    assert_eq!(g.left, 10 + 5 - 175);
    assert_eq!(g.top, 10 + 5 - 175);
    // and a cursor far past a tiny image clamps without leaving the origin
    let g2 = mokuro_reader::reader::magnifier_geometry(&m, (500, 500), &img, true);
    assert_eq!(g2.left, 10 + 0 - 175);
}

#[test]
fn reader_page_turn_changes_only_the_page() {
    let mut r = Reader::new();
    r.update(ReaderMessage::Loaded(sample_volume(5)), 1000, 800);
    let before = r.volume.as_ref().unwrap().title.clone();
    r.update(ReaderMessage::NextPage, 1000, 800);
    let v = r.volume.as_ref().unwrap();
    assert_eq!(v.title, before);
    assert!(!v.hide_sidebar);
    assert_eq!(v.reader_state.current_page, 1);
}
