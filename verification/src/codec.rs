//! The document codec: the canonical JSON rendering of a volume's metadata
//! and of one page's OCR row, written and read with the primitives of
//! [`crate::json`]. The reader accepts what the writer emits — and spaced
//! renderings of the same documents, via whitespace normalization — and
//! reading back what was written reproduces the record; the volume's store
//! key excepted, which is never part of an archive. The line height
//! travels in fraction syntax ("1.00" for a hundred hundredths), the form
//! the surrounding ecosystem reads and writes.
//!
//! The reader does not accept keys out of their declared order, absent
//! defaulted fields, or unknown keys.

use vstd::prelude::*;
use vstd::string::StringSliceAdditionalSpecFns;

use crate::json::{dec_digits, is_digit, jbool, jstr, lemma_bool_reads, lemma_jstr_reads, lemma_lit_reads, lemma_u64_reads, sp_bool, sp_jstr, sp_lit, sp_u64, tok_null, write_bool, write_jstr, write_lit, write_null, write_u64};
use crate::models::{MagnifierSettings, OcrBlock, OcrBlockV, PageEntry, PageOcr, PageOcrV, ReaderState, VolumeMetadata, VolumeV};

verus! {

// --- canonical renderings ---------------------------------------------------

/// A `[name, ocr]` pair of the pages list.
pub open spec fn pair_json(p: (Seq<u8>, Seq<u8>)) -> Seq<u8> {
    seq![91u8] + (jstr(p.0) + (seq![44u8] + (jstr(p.1) + seq![93u8])))
}

/// The pages list from its second element on, closing bracket included.
pub open spec fn pages_rest_json(ps: Seq<(Seq<u8>, Seq<u8>)>) -> Seq<u8>
    decreases ps.len(),
{
    if ps.len() == 0 {
        seq![93u8]
    } else {
        seq![44u8] + pair_json(ps[0]) + pages_rest_json(ps.drop_first())
    }
}

/// The pages list.
pub open spec fn pages_json(ps: Seq<(Seq<u8>, Seq<u8>)>) -> Seq<u8> {
    if ps.len() == 0 {
        seq![91u8, 93u8]
    } else {
        seq![91u8] + pair_json(ps[0]) + pages_rest_json(ps.drop_first())
    }
}

/// A list of strings from its second element on, closing bracket included.
pub open spec fn lines_rest_json(ls: Seq<Seq<u8>>) -> Seq<u8>
    decreases ls.len(),
{
    if ls.len() == 0 {
        seq![93u8]
    } else {
        seq![44u8] + jstr(ls[0]) + lines_rest_json(ls.drop_first())
    }
}

/// A list of strings.
pub open spec fn lines_json(ls: Seq<Seq<u8>>) -> Seq<u8> {
    if ls.len() == 0 {
        seq![91u8, 93u8]
    } else {
        seq![91u8] + jstr(ls[0]) + lines_rest_json(ls.drop_first())
    }
}

/// The cover override: a string, or `null` where none is set.
pub open spec fn cover_json(c: Option<Seq<u8>>) -> Seq<u8> {
    match c {
        Some(name) => jstr(name),
        None => tok_null(),
    }
}

/// The magnifier settings object.
pub open spec fn mag_json(m: MagnifierSettings) -> Seq<u8> {
    ("{\"zoom\":").spec_bytes() + (dec_digits(m.zoom as nat) + ((",\"radius\":").spec_bytes() + (
    dec_digits(m.radius as nat) + ((",\"height\":").spec_bytes() + (dec_digits(m.height as nat) + (
    (",\"width\":").spec_bytes() + (dec_digits(m.width as nat) + seq![125u8])))))))
}

/// The reader state object.
pub open spec fn rs_json(r: ReaderState) -> Seq<u8> {
    ("{\"single_page\":").spec_bytes() + (jbool(r.single_page) + ((
    ",\"current_page\":").spec_bytes() + (dec_digits(r.current_page as nat) + ((
    ",\"first_page_is_cover\":").spec_bytes() + (jbool(r.first_page_is_cover) + seq![125u8])))))
}

/// The line height on the wire: whole units and two fraction digits
/// ("1.00" for a hundred hundredths) — the float syntax the surrounding
/// ecosystem writes and reads for this field.
pub open spec fn lh_json(n: u32) -> Seq<u8> {
    dec_digits((n / 100) as nat) + (seq![46u8] + (dec_digits(((n / 10) % 10) as nat) + dec_digits(
        (n % 10) as nat,
    )))
}

/// One OCR block object.
pub open spec fn block_json(b: OcrBlockV) -> Seq<u8> {
    ("{\"uuid\":").spec_bytes() + (jstr(b.uuid) + ((",\"box\":[").spec_bytes() + (dec_digits(
        b.box_.0 as nat,
    ) + (seq![44u8] + (dec_digits(b.box_.1 as nat) + (seq![44u8] + (dec_digits(b.box_.2 as nat) + (
    seq![44u8] + (dec_digits(b.box_.3 as nat) + (("],\"vertical\":").spec_bytes() + (jbool(
        b.vertical,
    ) + ((",\"font_size\":").spec_bytes() + (dec_digits(b.font_size as nat) + ((
    ",\"lines\":").spec_bytes() + (lines_json(b.lines) + seq![125u8])))))))))))))))
}

/// The block list from its second element on, closing bracket included.
pub open spec fn blocks_rest_json(bs: Seq<OcrBlockV>) -> Seq<u8>
    decreases bs.len(),
{
    if bs.len() == 0 {
        seq![93u8]
    } else {
        seq![44u8] + block_json(bs[0]) + blocks_rest_json(bs.drop_first())
    }
}

/// The block list.
pub open spec fn blocks_json(bs: Seq<OcrBlockV>) -> Seq<u8> {
    if bs.len() == 0 {
        seq![91u8, 93u8]
    } else {
        seq![91u8] + block_json(bs[0]) + blocks_rest_json(bs.drop_first())
    }
}

/// The canonical metadata document of a volume. The store key (`id`) is a
/// local artifact and is never rendered.
pub open spec fn vol_json(v: VolumeV) -> Seq<u8> {
    vol_json_head(v) + vol_json_tail(v)
}

/// The metadata document through the `volume_uuid` field.
pub open spec fn vol_json_head(v: VolumeV) -> Seq<u8> {
    ("{\"version\":").spec_bytes() + (jstr(v.version) + ((",\"created_at\":").spec_bytes() + (jstr(
        v.created_at,
    ) + ((",\"modified_at\":").spec_bytes() + (jstr(v.modified_at) + ((
    ",\"series\":").spec_bytes() + (jstr(v.series) + ((",\"title\":").spec_bytes() + (jstr(v.title)
        + ((",\"volume\":").spec_bytes() + (jstr(v.volume) + ((",\"volume_uuid\":").spec_bytes()
        + jstr(v.volume_uuid)))))))))))))
}

/// The metadata document from the `pages` field on.
pub open spec fn vol_json_tail(v: VolumeV) -> Seq<u8> {
    vol_json_mid(v) + vol_json_end(v)
}

/// The `pages` and `cover` fields.
pub open spec fn vol_json_mid(v: VolumeV) -> Seq<u8> {
    (",\"pages\":").spec_bytes() + (pages_json(v.pages) + ((",\"cover\":").spec_bytes()
        + cover_json(v.cover)))
}

/// The fields from `hide_sidebar` to the closing brace.
pub open spec fn vol_json_end(v: VolumeV) -> Seq<u8> {
    vol_json_end_a(v) + vol_json_end_b(v)
}

/// The `hide_sidebar` and `line_height` fields.
pub open spec fn vol_json_end_a(v: VolumeV) -> Seq<u8> {
    (",\"hide_sidebar\":").spec_bytes() + (jbool(v.hide_sidebar) + ((
    ",\"line_height\":").spec_bytes() + lh_json(v.line_height)))
}

/// The `magnifier` and `reader_state` fields, and the closing brace.
pub open spec fn vol_json_end_b(v: VolumeV) -> Seq<u8> {
    (",\"magnifier\":").spec_bytes() + (mag_json(v.magnifier) + ((
    ",\"reader_state\":").spec_bytes() + (rs_json(v.reader_state) + seq![125u8])))
}

/// The canonical document of one page's OCR row.
pub open spec fn ocr_json(o: PageOcrV) -> Seq<u8> {
    ("{\"img_width\":").spec_bytes() + (dec_digits(o.img_width as nat) + ((
    ",\"img_height\":").spec_bytes() + (dec_digits(o.img_height as nat) + ((
    ",\"blocks\":").spec_bytes() + (blocks_json(o.blocks) + seq![125u8])))))
}

// --- the reader, as a mathematical function ---------------------------------

/// Read a number that must fit in `u32`.
pub open spec fn sp_u32(s: Seq<u8>, i: int) -> Option<(u32, int)> {
    match sp_u64(s, i) {
        Some((v, e)) => if v <= u32::MAX as u64 {
            Some((v as u32, e))
        } else {
            None
        },
        None => None,
    }
}

/// Read a number that must fit in `u16`.
pub open spec fn sp_u16(s: Seq<u8>, i: int) -> Option<(u16, int)> {
    match sp_u64(s, i) {
        Some((v, e)) => if v <= u16::MAX as u64 {
            Some((v as u16, e))
        } else {
            None
        },
        None => None,
    }
}

/// Read a number that must fit in `u8`.
pub open spec fn sp_u8(s: Seq<u8>, i: int) -> Option<(u8, int)> {
    match sp_u64(s, i) {
        Some((v, e)) => if v <= u8::MAX as u64 {
            Some((v as u8, e))
        } else {
            None
        },
        None => None,
    }
}

/// Read a number that must fit in `usize`.
pub open spec fn sp_usize(s: Seq<u8>, i: int) -> Option<(usize, int)> {
    match sp_u64(s, i) {
        Some((v, e)) => if v <= usize::MAX as u64 {
            Some((v as usize, e))
        } else {
            None
        },
        None => None,
    }
}

/// The first position at or after `i` that does not hold a digit.
pub open spec fn sp_skip_digits(s: Seq<u8>, i: int) -> int
    decreases s.len() - i,
{
    if 0 <= i < s.len() && is_digit(s[i]) {
        sp_skip_digits(s, i + 1)
    } else {
        i
    }
}

/// Read a line height: an unsigned decimal with an optional fraction,
/// mapped to hundredths. Fraction digits beyond the second are read and
/// dropped; a fraction point must be followed by at least one digit.
pub open spec fn sp_lh(s: Seq<u8>, i: int) -> Option<(u32, int)> {
    match sp_u64(s, i) {
        None => None,
        Some((ip, e)) => if e < s.len() && s[e] == 46 {
            if e + 1 < s.len() && is_digit(s[e + 1]) {
                let d1 = (s[e + 1] - 48) as int;
                if e + 2 < s.len() && is_digit(s[e + 2]) {
                    let d2 = (s[e + 2] - 48) as int;
                    if (ip as int) * 100 + d1 * 10 + d2 > u32::MAX {
                        None
                    } else {
                        Some((((ip as int) * 100 + d1 * 10 + d2) as u32, sp_skip_digits(s, e + 3)))
                    }
                } else if (ip as int) * 100 + d1 * 10 > u32::MAX {
                    None
                } else {
                    Some((((ip as int) * 100 + d1 * 10) as u32, e + 2))
                }
            } else {
                None
            }
        } else if (ip as int) * 100 > u32::MAX {
            None
        } else {
            Some((((ip as int) * 100) as u32, e))
        },
    }
}

/// Read the cover override: `null` or a string.
pub open spec fn sp_cover(s: Seq<u8>, i: int) -> Option<(Option<Seq<u8>>, int)> {
    if 0 <= i < s.len() && s[i] == 110 {
        match sp_lit(s, i, tok_null()) {
            Some(e) => Some((None, e)),
            None => None,
        }
    } else {
        match sp_jstr(s, i) {
            Some((t, e)) => Some((Some(t), e)),
            None => None,
        }
    }
}

/// Read one `[name, ocr]` pair.
pub open spec fn sp_pair(s: Seq<u8>, i: int) -> Option<((Seq<u8>, Seq<u8>), int)> {
    if !(0 <= i < s.len() && s[i] == 91) {
        None
    } else {
        match sp_jstr(s, i + 1) {
            None => None,
            Some((a, e1)) => if !(e1 < s.len() && s[e1] == 44) {
                None
            } else {
                match sp_jstr(s, e1 + 1) {
                    None => None,
                    Some((b, e2)) => if !(e2 < s.len() && s[e2] == 93) {
                        None
                    } else {
                        Some(((a, b), e2 + 1))
                    },
                }
            },
        }
    }
}

/// Read the pages list from its second element on.
pub open spec fn sp_pages_rest(s: Seq<u8>, i: int, fuel: nat) -> Option<
    (Seq<(Seq<u8>, Seq<u8>)>, int),
>
    decreases fuel,
{
    if !(0 <= i < s.len()) {
        None
    } else if s[i] == 93 {
        Some((Seq::empty(), i + 1))
    } else if s[i] == 44 && fuel > 0 {
        match sp_pair(s, i + 1) {
            None => None,
            Some((p, e)) => match sp_pages_rest(s, e, (fuel - 1) as nat) {
                None => None,
                Some((r, e2)) => Some((seq![p] + r, e2)),
            },
        }
    } else {
        None
    }
}

/// Read the pages list.
pub open spec fn sp_pages(s: Seq<u8>, i: int) -> Option<(Seq<(Seq<u8>, Seq<u8>)>, int)> {
    if !(0 <= i < s.len() && s[i] == 91) {
        None
    } else if i + 1 < s.len() && s[i + 1] == 93 {
        Some((Seq::empty(), i + 2))
    } else {
        match sp_pair(s, i + 1) {
            None => None,
            Some((p, e)) => match sp_pages_rest(s, e, s.len() as nat) {
                None => None,
                Some((r, e2)) => Some((seq![p] + r, e2)),
            },
        }
    }
}

/// Read a list of strings from its second element on.
pub open spec fn sp_lines_rest(s: Seq<u8>, i: int, fuel: nat) -> Option<(Seq<Seq<u8>>, int)>
    decreases fuel,
{
    if !(0 <= i < s.len()) {
        None
    } else if s[i] == 93 {
        Some((Seq::empty(), i + 1))
    } else if s[i] == 44 && fuel > 0 {
        match sp_jstr(s, i + 1) {
            None => None,
            Some((p, e)) => match sp_lines_rest(s, e, (fuel - 1) as nat) {
                None => None,
                Some((r, e2)) => Some((seq![p] + r, e2)),
            },
        }
    } else {
        None
    }
}

/// Read a list of strings.
pub open spec fn sp_lines(s: Seq<u8>, i: int) -> Option<(Seq<Seq<u8>>, int)> {
    if !(0 <= i < s.len() && s[i] == 91) {
        None
    } else if i + 1 < s.len() && s[i + 1] == 93 {
        Some((Seq::empty(), i + 2))
    } else {
        match sp_jstr(s, i + 1) {
            None => None,
            Some((p, e)) => match sp_lines_rest(s, e, s.len() as nat) {
                None => None,
                Some((r, e2)) => Some((seq![p] + r, e2)),
            },
        }
    }
}

/// Read the magnifier settings object.
pub open spec fn sp_mag(s: Seq<u8>, i: int) -> Option<(MagnifierSettings, int)> {
    match sp_lit(s, i, ("{\"zoom\":").spec_bytes()) {
        None => None,
        Some(i1) => match sp_u16(s, i1) {
            None => None,
            Some((zoom, i2)) => match sp_lit(s, i2, (",\"radius\":").spec_bytes()) {
                None => None,
                Some(i3) => match sp_u8(s, i3) {
                    None => None,
                    Some((radius, i4)) => match sp_lit(s, i4, (",\"height\":").spec_bytes()) {
                        None => None,
                        Some(i5) => match sp_u16(s, i5) {
                            None => None,
                            Some((height, i6)) => match sp_lit(
                                s,
                                i6,
                                (",\"width\":").spec_bytes(),
                            ) {
                                None => None,
                                Some(i7) => match sp_u16(s, i7) {
                                    None => None,
                                    Some((width, i8)) => if i8 < s.len() && s[i8] == 125 {
                                        Some((MagnifierSettings { zoom, radius, height, width }, i8 + 1))
                                    } else {
                                        None
                                    },
                                },
                            },
                        },
                    },
                },
            },
        },
    }
}

/// Read the reader state object.
pub open spec fn sp_rs(s: Seq<u8>, i: int) -> Option<(ReaderState, int)> {
    match sp_lit(s, i, ("{\"single_page\":").spec_bytes()) {
        None => None,
        Some(i1) => match sp_bool(s, i1) {
            None => None,
            Some((single_page, i2)) => match sp_lit(s, i2, (",\"current_page\":").spec_bytes()) {
                None => None,
                Some(i3) => match sp_usize(s, i3) {
                    None => None,
                    Some((current_page, i4)) => match sp_lit(
                        s,
                        i4,
                        (",\"first_page_is_cover\":").spec_bytes(),
                    ) {
                        None => None,
                        Some(i5) => match sp_bool(s, i5) {
                            None => None,
                            Some((first_page_is_cover, i6)) => if i6 < s.len() && s[i6] == 125 {
                                Some(
                                    (
                                        ReaderState {
                                            single_page,
                                            current_page,
                                            first_page_is_cover,
                                        },
                                        i6 + 1,
                                    ),
                                )
                            } else {
                                None
                            },
                        },
                    },
                },
            },
        },
    }
}

/// Read one OCR block object.
pub open spec fn sp_block(s: Seq<u8>, i: int) -> Option<(OcrBlockV, int)> {
    match sp_lit(s, i, ("{\"uuid\":").spec_bytes()) {
        None => None,
        Some(i1) => match sp_jstr(s, i1) {
            None => None,
            Some((uuid, i2)) => match sp_lit(s, i2, (",\"box\":[").spec_bytes()) {
                None => None,
                Some(i3) => match sp_u32(s, i3) {
                    None => None,
                    Some((b0, i4)) => if !(i4 < s.len() && s[i4] == 44) {
                        None
                    } else {
                        match sp_u32(s, i4 + 1) {
                            None => None,
                            Some((b1, i5)) => if !(i5 < s.len() && s[i5] == 44) {
                                None
                            } else {
                                match sp_u32(s, i5 + 1) {
                                    None => None,
                                    Some((b2, i6)) => if !(i6 < s.len() && s[i6] == 44) {
                                        None
                                    } else {
                                        match sp_u32(s, i6 + 1) {
                                            None => None,
                                            Some((b3, i7)) => match sp_lit(
                                                s,
                                                i7,
                                                ("],\"vertical\":").spec_bytes(),
                                            ) {
                                                None => None,
                                                Some(i8) => match sp_bool(s, i8) {
                                                    None => None,
                                                    Some((vertical, i9)) => match sp_lit(
                                                        s,
                                                        i9,
                                                        (",\"font_size\":").spec_bytes(),
                                                    ) {
                                                        None => None,
                                                        Some(i10) => match sp_u32(s, i10) {
                                                            None => None,
                                                            Some((font_size, i11)) => match sp_lit(
                                                                s,
                                                                i11,
                                                                (",\"lines\":").spec_bytes(),
                                                            ) {
                                                                None => None,
                                                                Some(i12) => match sp_lines(
                                                                    s,
                                                                    i12,
                                                                ) {
                                                                    None => None,
                                                                    Some((lines, i13)) => if i13
                                                                        < s.len() && s[i13]
                                                                        == 125 {
                                                                        Some(
                                                                            (
                                                                                OcrBlockV {
                                                                                    uuid,
                                                                                    box_: (b0, b1, b2, b3),
                                                                                    vertical,
                                                                                    font_size,
                                                                                    lines,
                                                                                },
                                                                                i13 + 1,
                                                                            ),
                                                                        )
                                                                    } else {
                                                                        None
                                                                    },
                                                                },
                                                            },
                                                        },
                                                    },
                                                },
                                            },
                                        }
                                    },
                                }
                            },
                        }
                    },
                },
            },
        },
    }
}

/// Read the block list from its second element on.
pub open spec fn sp_blocks_rest(s: Seq<u8>, i: int, fuel: nat) -> Option<(Seq<OcrBlockV>, int)>
    decreases fuel,
{
    if !(0 <= i < s.len()) {
        None
    } else if s[i] == 93 {
        Some((Seq::empty(), i + 1))
    } else if s[i] == 44 && fuel > 0 {
        match sp_block(s, i + 1) {
            None => None,
            Some((p, e)) => match sp_blocks_rest(s, e, (fuel - 1) as nat) {
                None => None,
                Some((r, e2)) => Some((seq![p] + r, e2)),
            },
        }
    } else {
        None
    }
}

/// Read the block list.
pub open spec fn sp_blocks(s: Seq<u8>, i: int) -> Option<(Seq<OcrBlockV>, int)> {
    if !(0 <= i < s.len() && s[i] == 91) {
        None
    } else if i + 1 < s.len() && s[i + 1] == 93 {
        Some((Seq::empty(), i + 2))
    } else {
        match sp_block(s, i + 1) {
            None => None,
            Some((p, e)) => match sp_blocks_rest(s, e, s.len() as nat) {
                None => None,
                Some((r, e2)) => Some((seq![p] + r, e2)),
            },
        }
    }
}

/// Read the fields through `volume_uuid`.
pub open spec fn sp_vol_head(s: Seq<u8>, i: int) -> Option<
    ((Seq<u8>, Seq<u8>, Seq<u8>, Seq<u8>, Seq<u8>, Seq<u8>, Seq<u8>), int),
> {
    match sp_lit(s, i, ("{\"version\":").spec_bytes()) {
        None => None,
        Some(i1) => match sp_jstr(s, i1) {
            None => None,
            Some((version, i2)) => match sp_lit(s, i2, (",\"created_at\":").spec_bytes()) {
                None => None,
                Some(i3) => match sp_jstr(s, i3) {
                    None => None,
                    Some((created_at, i4)) => match sp_lit(
                        s,
                        i4,
                        (",\"modified_at\":").spec_bytes(),
                    ) {
                        None => None,
                        Some(i5) => match sp_jstr(s, i5) {
                            None => None,
                            Some((modified_at, i6)) => match sp_lit(
                                s,
                                i6,
                                (",\"series\":").spec_bytes(),
                            ) {
                                None => None,
                                Some(i7) => match sp_jstr(s, i7) {
                                    None => None,
                                    Some((series, i8)) => match sp_lit(
                                        s,
                                        i8,
                                        (",\"title\":").spec_bytes(),
                                    ) {
                                        None => None,
                                        Some(i9) => match sp_jstr(s, i9) {
                                            None => None,
                                            Some((title, i10)) => match sp_lit(
                                                s,
                                                i10,
                                                (",\"volume\":").spec_bytes(),
                                            ) {
                                                None => None,
                                                Some(i11) => match sp_jstr(s, i11) {
                                                    None => None,
                                                    Some((volume, i12)) => match sp_lit(
                                                        s,
                                                        i12,
                                                        (",\"volume_uuid\":").spec_bytes(),
                                                    ) {
                                                        None => None,
                                                        Some(i13) => match sp_jstr(s, i13) {
                                                            None => None,
                                                            Some((volume_uuid, i14)) => Some(
                                                                (
                                                                    (
                                                                        version,
                                                                        created_at,
                                                                        modified_at,
                                                                        series,
                                                                        title,
                                                                        volume,
                                                                        volume_uuid,
                                                                    ),
                                                                    i14,
                                                                ),
                                                            ),
                                                        },
                                                    },
                                                },
                                            },
                                        },
                                    },
                                },
                            },
                        },
                    },
                },
            },
        },
    }
}

/// Read a whole metadata document. The store key of the result is zero: an
/// archive never carries one.
pub open spec fn sp_volume(s: Seq<u8>, i: int) -> Option<(VolumeV, int)> {
    match sp_vol_head(s, i) {
        None => None,
        Some((h, j)) => sp_volume_tail(s, j, h.0, h.1, h.2, h.3, h.4, h.5, h.6),
    }
}

/// Helper of [`sp_volume`]: the fields from `pages` on.
pub open spec fn sp_volume_tail(
    s: Seq<u8>,
    i: int,
    version: Seq<u8>,
    created_at: Seq<u8>,
    modified_at: Seq<u8>,
    series: Seq<u8>,
    title: Seq<u8>,
    volume: Seq<u8>,
    volume_uuid: Seq<u8>,
) -> Option<(VolumeV, int)> {
    match sp_lit(s, i, (",\"pages\":").spec_bytes()) {
        None => None,
        Some(i1) => match sp_pages(s, i1) {
            None => None,
            Some((pages, i2)) => match sp_lit(s, i2, (",\"cover\":").spec_bytes()) {
                None => None,
                Some(i3) => match sp_cover(s, i3) {
                    None => None,
                    Some((cover, i4)) => match sp_lit(
                        s,
                        i4,
                        (",\"hide_sidebar\":").spec_bytes(),
                    ) {
                        None => None,
                        Some(i5) => match sp_bool(s, i5) {
                            None => None,
                            Some((hide_sidebar, i6)) => match sp_lit(
                                s,
                                i6,
                                (",\"line_height\":").spec_bytes(),
                            ) {
                                None => None,
                                Some(i7) => match sp_lh(s, i7) {
                                    None => None,
                                    Some((line_height, i8)) => match sp_lit(
                                        s,
                                        i8,
                                        (",\"magnifier\":").spec_bytes(),
                                    ) {
                                        None => None,
                                        Some(i9) => match sp_mag(s, i9) {
                                            None => None,
                                            Some((magnifier, i10)) => match sp_lit(
                                                s,
                                                i10,
                                                (",\"reader_state\":").spec_bytes(),
                                            ) {
                                                None => None,
                                                Some(i11) => match sp_rs(s, i11) {
                                                    None => None,
                                                    Some((reader_state, i12)) => if i12 < s.len()
                                                        && s[i12] == 125 {
                                                        Some(
                                                            (
                                                                VolumeV {
                                                                    id: 0,
                                                                    version,
                                                                    created_at,
                                                                    modified_at,
                                                                    series,
                                                                    title,
                                                                    volume,
                                                                    volume_uuid,
                                                                    pages,
                                                                    cover,
                                                                    hide_sidebar,
                                                                    line_height,
                                                                    magnifier,
                                                                    reader_state,
                                                                },
                                                                i12 + 1,
                                                            ),
                                                        )
                                                    } else {
                                                        None
                                                    },
                                                },
                                            },
                                        },
                                    },
                                },
                            },
                        },
                    },
                },
            },
        },
    }
}

/// Read a whole OCR document.
pub open spec fn sp_ocr(s: Seq<u8>, i: int) -> Option<(PageOcrV, int)> {
    match sp_lit(s, i, ("{\"img_width\":").spec_bytes()) {
        None => None,
        Some(i1) => match sp_u32(s, i1) {
            None => None,
            Some((img_width, i2)) => match sp_lit(s, i2, (",\"img_height\":").spec_bytes()) {
                None => None,
                Some(i3) => match sp_u32(s, i3) {
                    None => None,
                    Some((img_height, i4)) => match sp_lit(s, i4, (",\"blocks\":").spec_bytes()) {
                        None => None,
                        Some(i5) => match sp_blocks(s, i5) {
                            None => None,
                            Some((blocks, i6)) => if i6 < s.len() && s[i6] == 125 {
                                Some((PageOcrV { img_width, img_height, blocks }, i6 + 1))
                            } else {
                                None
                            },
                        },
                    },
                },
            },
        },
    }
}

/// What the list-reading loop maintains: the whole list read from `pos`
/// is the elements gathered so far followed by whatever the tail from `i`
/// yields.
#[verifier::opaque]
pub open spec fn pages_loop_inv(s: Seq<u8>, pos: int, i: int, fuel: nat, accv: Seq<(Seq<u8>, Seq<u8>)>) -> bool {
    sp_pages(s, pos) == (match sp_pages_rest(s, i, fuel) {
        Some((q, e)) => Some((accv + q, e)),
        None => None::<(Seq<(Seq<u8>, Seq<u8>)>, int)>,
    })
}

/// One unfolding of the list tail.
proof fn lemma_pages_rest_unfold(s: Seq<u8>, i: usize, fuel: usize)
    ensures
        sp_pages_rest(s, i as int, fuel as nat) == (if !(i < s.len()) {
            None::<(Seq<(Seq<u8>, Seq<u8>)>, int)>
        } else if s[i as int] == 93 {
            Some((Seq::<(Seq<u8>, Seq<u8>)>::empty(), i + 1 as int))
        } else if s[i as int] == 44 && fuel > 0 {
            match sp_pair(s, i + 1 as int) {
                None => None::<(Seq<(Seq<u8>, Seq<u8>)>, int)>,
                Some((p, e)) => match sp_pages_rest(s, e, (fuel - 1) as nat) {
                    None => None::<(Seq<(Seq<u8>, Seq<u8>)>, int)>,
                    Some((r, e2)) => Some((seq![p] + r, e2)),
                },
            }
        } else {
            None::<(Seq<(Seq<u8>, Seq<u8>)>, int)>
        }),
{
}

/// What the list-reading loop maintains: the whole list read from `pos`
/// is the elements gathered so far followed by whatever the tail from `i`
/// yields.
#[verifier::opaque]
pub open spec fn lines_loop_inv(s: Seq<u8>, pos: int, i: int, fuel: nat, accv: Seq<Seq<u8>>) -> bool {
    sp_lines(s, pos) == (match sp_lines_rest(s, i, fuel) {
        Some((q, e)) => Some((accv + q, e)),
        None => None::<(Seq<Seq<u8>>, int)>,
    })
}

/// One unfolding of the list tail.
proof fn lemma_lines_rest_unfold(s: Seq<u8>, i: usize, fuel: usize)
    ensures
        sp_lines_rest(s, i as int, fuel as nat) == (if !(i < s.len()) {
            None::<(Seq<Seq<u8>>, int)>
        } else if s[i as int] == 93 {
            Some((Seq::<Seq<u8>>::empty(), i + 1 as int))
        } else if s[i as int] == 44 && fuel > 0 {
            match sp_jstr(s, i + 1 as int) {
                None => None::<(Seq<Seq<u8>>, int)>,
                Some((p, e)) => match sp_lines_rest(s, e, (fuel - 1) as nat) {
                    None => None::<(Seq<Seq<u8>>, int)>,
                    Some((r, e2)) => Some((seq![p] + r, e2)),
                },
            }
        } else {
            None::<(Seq<Seq<u8>>, int)>
        }),
{
}

/// What the list-reading loop maintains: the whole list read from `pos`
/// is the elements gathered so far followed by whatever the tail from `i`
/// yields.
#[verifier::opaque]
pub open spec fn blocks_loop_inv(s: Seq<u8>, pos: int, i: int, fuel: nat, accv: Seq<OcrBlockV>) -> bool {
    sp_blocks(s, pos) == (match sp_blocks_rest(s, i, fuel) {
        Some((q, e)) => Some((accv + q, e)),
        None => None::<(Seq<OcrBlockV>, int)>,
    })
}

/// One unfolding of the list tail.
proof fn lemma_blocks_rest_unfold(s: Seq<u8>, i: usize, fuel: usize)
    ensures
        sp_blocks_rest(s, i as int, fuel as nat) == (if !(i < s.len()) {
            None::<(Seq<OcrBlockV>, int)>
        } else if s[i as int] == 93 {
            Some((Seq::<OcrBlockV>::empty(), i + 1 as int))
        } else if s[i as int] == 44 && fuel > 0 {
            match sp_block(s, i + 1 as int) {
                None => None::<(Seq<OcrBlockV>, int)>,
                Some((p, e)) => match sp_blocks_rest(s, e, (fuel - 1) as nat) {
                    None => None::<(Seq<OcrBlockV>, int)>,
                    Some((r, e2)) => Some((seq![p] + r, e2)),
                },
            }
        } else {
            None::<(Seq<OcrBlockV>, int)>
        }),
{
}

// --- reading back what was written ------------------------------------------

/// Split a known stretch of the input in two.
proof fn lemma_split_at(s: Seq<u8>, i: int, a: Seq<u8>, b: Seq<u8>)
    requires
        0 <= i,
        i + a.len() + b.len() <= s.len(),
        s.subrange(i, i + a.len() + b.len()) == a + b,
    ensures
        s.subrange(i, i + a.len()) == a,
        s.subrange(i + a.len(), i + a.len() + b.len()) == b,
{
    assert forall|m: int| 0 <= m < a.len() implies s.subrange(i, i + a.len())[m] == a[m] by {
        assert(s.subrange(i, i + a.len())[m] == s[i + m]);
        assert(s[i + m] == s.subrange(i, i + a.len() + b.len())[m]);
        assert((a + b)[m] == a[m]);
    }
    assert(s.subrange(i, i + a.len()) =~= a);
    assert forall|m: int| 0 <= m < b.len() implies s.subrange(
        i + a.len(),
        i + a.len() + b.len(),
    )[m] == b[m] by {
        assert(s.subrange(i + a.len(), i + a.len() + b.len())[m] == s[i + a.len() + m]);
        assert(s[i + a.len() + m] == s.subrange(i, i + a.len() + b.len())[a.len() + m]);
        assert((a + b)[a.len() + m] == b[m]);
    }
    assert(s.subrange(i + a.len(), i + a.len() + b.len()) =~= b);
}

/// The first bytes of the key tokens that follow a number: a comma or a
/// closing bracket, never a digit.
proof fn lemma_key_first_bytes()
    ensures
        (",\"radius\":").spec_bytes().len() > 0 && (",\"radius\":").spec_bytes()[0] == 44,
        (",\"height\":").spec_bytes().len() > 0 && (",\"height\":").spec_bytes()[0] == 44,
        (",\"width\":").spec_bytes().len() > 0 && (",\"width\":").spec_bytes()[0] == 44,
        (",\"first_page_is_cover\":").spec_bytes().len() > 0 && (
        ",\"first_page_is_cover\":").spec_bytes()[0] == 44,
        ("],\"vertical\":").spec_bytes().len() > 0 && ("],\"vertical\":").spec_bytes()[0] == 93,
        (",\"lines\":").spec_bytes().len() > 0 && (",\"lines\":").spec_bytes()[0] == 44,
        (",\"magnifier\":").spec_bytes().len() > 0 && (",\"magnifier\":").spec_bytes()[0] == 44,
        (",\"img_height\":").spec_bytes().len() > 0 && (",\"img_height\":").spec_bytes()[0] == 44,
        (",\"blocks\":").spec_bytes().len() > 0 && (",\"blocks\":").spec_bytes()[0] == 44,
{
    broadcast use vstd::string::is_ascii_spec_bytes;

    reveal_strlit(",\"radius\":");
    reveal_strlit(",\"height\":");
    reveal_strlit(",\"width\":");
    reveal_strlit(",\"first_page_is_cover\":");
    reveal_strlit("],\"vertical\":");
    reveal_strlit(",\"lines\":");
    reveal_strlit(",\"magnifier\":");
    reveal_strlit(",\"img_height\":");
    reveal_strlit(",\"blocks\":");
    assert((",\"radius\":").is_ascii());
    assert((",\"height\":").is_ascii());
    assert((",\"width\":").is_ascii());
    assert((",\"first_page_is_cover\":").is_ascii());
    assert(("],\"vertical\":").is_ascii());
    assert((",\"lines\":").is_ascii());
    assert((",\"magnifier\":").is_ascii());
    assert((",\"img_height\":").is_ascii());
    assert((",\"blocks\":").is_ascii());
}

/// Peel a token off the front of a known stretch.
proof fn lemma_tok_then(s: Seq<u8>, p: int, tok: Seq<u8>, rest: Seq<u8>)
    requires
        0 <= p,
        p + tok.len() + rest.len() <= s.len(),
        s.subrange(p, p + tok.len() + rest.len()) == tok + rest,
    ensures
        sp_lit(s, p, tok) == Some(p + tok.len()),
        s.subrange(p + tok.len(), p + tok.len() + rest.len()) == rest,
{
    lemma_split_at(s, p, tok, rest);
    lemma_lit_reads(s, p, tok);
}

/// Peel a number off the front of a known stretch; what follows does not
/// begin with a digit.
proof fn lemma_num_then(s: Seq<u8>, p: int, nval: u64, rest: Seq<u8>)
    requires
        0 <= p,
        p + dec_digits(nval as nat).len() + rest.len() <= s.len(),
        s.subrange(p, p + dec_digits(nval as nat).len() + rest.len()) == dec_digits(nval as nat)
            + rest,
        rest.len() > 0,
        !is_digit(rest[0]),
    ensures
        sp_u64(s, p) == Some((nval, p + dec_digits(nval as nat).len())),
        s.subrange(
            p + dec_digits(nval as nat).len(),
            p + dec_digits(nval as nat).len() + rest.len(),
        ) == rest,
{
    let d = dec_digits(nval as nat);
    lemma_split_at(s, p, d, rest);
    assert(s[p + d.len()] == rest[0]) by {
        assert(s.subrange(p + d.len(), p + d.len() + rest.len())[0] == s[p + d.len()]);
    }
    lemma_u64_reads(s, p, nval);
}

/// Peel a line height off the front of a known stretch; what follows is
/// neither a digit nor a fraction point.
proof fn lemma_lh_then(s: Seq<u8>, p: int, n: u32, rest: Seq<u8>)
    requires
        0 <= p,
        p + lh_json(n).len() + rest.len() <= s.len(),
        s.subrange(p, p + lh_json(n).len() + rest.len()) == lh_json(n) + rest,
        rest.len() > 0,
        !is_digit(rest[0]),
        rest[0] != 46,
    ensures
        sp_lh(s, p) == Some((n, p + lh_json(n).len())),
        s.subrange(p + lh_json(n).len(), p + lh_json(n).len() + rest.len()) == rest,
{
    let ipd = dec_digits((n / 100) as nat);
    let d1 = ((n / 10) % 10) as u8;
    let d2 = (n % 10) as u8;
    let frac = seq![46u8] + (dec_digits(d1 as nat) + dec_digits(d2 as nat));
    assert(lh_json(n) =~= ipd + frac);
    assert(dec_digits(d1 as nat) =~= seq![(48 + d1) as u8]);
    assert(dec_digits(d2 as nat) =~= seq![(48 + d2) as u8]);
    lemma_split_at(s, p, lh_json(n), rest);
    assert(s.subrange(p, p + lh_json(n).len()) == lh_json(n));
    assert(s.subrange(p, p + ipd.len() + (frac + rest).len()) =~= ipd + (frac + rest)) by {
        assert(lh_json(n) + rest =~= ipd + (frac + rest));
    }
    lemma_split_at(s, p, ipd, frac + rest);
    let e = p + ipd.len();
    assert(s[e] == 46 && s[e + 1] == 48 + d1 && s[e + 2] == 48 + d2) by {
        assert(s.subrange(e, e + (frac + rest).len())[0] == s[e]);
        assert(s.subrange(e, e + (frac + rest).len())[1] == s[e + 1]);
        assert(s.subrange(e, e + (frac + rest).len())[2] == s[e + 2]);
    }
    assert(s[e + 3] == rest[0]) by {
        assert(s.subrange(e, e + (frac + rest).len())[3] == s[e + 3]);
    }
    lemma_u64_reads(s, p, (n / 100) as u64);
    assert(sp_u64(s, p) == Some(((n / 100) as u64, e)));

    assert(is_digit(s[e + 1]) && is_digit(s[e + 2]));
    assert(sp_skip_digits(s, e + 3) == e + 3);
    assert(((n / 100) as int) * 100 + ((s[e + 1] - 48) as int) * 10 + ((s[e + 2] - 48) as int)
        == n as int) by {
        assert(((n / 10) % 10) * 10 + n % 10 == n % 100) by (nonlinear_arith);
        assert((n / 100) * 100 + n % 100 == n as int) by (nonlinear_arith);
    }
    assert(e + 3 == p + lh_json(n).len());
}

/// Peel a JSON string off the front of a known stretch.
proof fn lemma_jstr_then(s: Seq<u8>, p: int, content: Seq<u8>, rest: Seq<u8>)
    requires
        0 <= p,
        p + jstr(content).len() + rest.len() <= s.len(),
        s.subrange(p, p + jstr(content).len() + rest.len()) == jstr(content) + rest,
    ensures
        sp_jstr(s, p) == Some((content, p + jstr(content).len())),
        s.subrange(p + jstr(content).len(), p + jstr(content).len() + rest.len()) == rest,
{
    lemma_split_at(s, p, jstr(content), rest);
    lemma_jstr_reads(s, p, content);
}

/// Peel `true` or `false` off the front of a known stretch.
proof fn lemma_bool_then(s: Seq<u8>, p: int, b: bool, rest: Seq<u8>)
    requires
        0 <= p,
        p + jbool(b).len() + rest.len() <= s.len(),
        s.subrange(p, p + jbool(b).len() + rest.len()) == jbool(b) + rest,
    ensures
        sp_bool(s, p) == Some((b, p + jbool(b).len())),
        s.subrange(p + jbool(b).len(), p + jbool(b).len() + rest.len()) == rest,
{
    lemma_split_at(s, p, jbool(b), rest);
    lemma_bool_reads(s, p, b);
}

/// A canonical magnifier object reads back as itself.
#[verifier::rlimit(100)]
proof fn lemma_mag_reads(s: Seq<u8>, i: int, m: MagnifierSettings)
    requires
        0 <= i,
        i + mag_json(m).len() <= s.len(),
        s.subrange(i, i + mag_json(m).len()) == mag_json(m),
    ensures
        sp_mag(s, i) == Some((m, i + mag_json(m).len())),
{
    lemma_key_first_bytes();
    let t1 = ("{\"zoom\":").spec_bytes();
    let d1 = dec_digits(m.zoom as nat);
    let t2 = (",\"radius\":").spec_bytes();
    let d2 = dec_digits(m.radius as nat);
    let t3 = (",\"height\":").spec_bytes();
    let d3 = dec_digits(m.height as nat);
    let t4 = (",\"width\":").spec_bytes();
    let d4 = dec_digits(m.width as nat);
    let tail = seq![125u8];
    let r1 = d1 + (t2 + (d2 + (t3 + (d3 + (t4 + (d4 + tail))))));
    assert(mag_json(m) =~= t1 + r1);
    lemma_tok_then(s, i, t1, r1);
    let p1 = i + t1.len();
    let r2 = t2 + (d2 + (t3 + (d3 + (t4 + (d4 + tail)))));
    assert(r1 =~= d1 + r2);
    assert(r2[0] == 44) by {
        assert(r2[0] == t2[0]);
    }
    lemma_num_then(s, p1, m.zoom as u64, r2);
    let p2 = p1 + d1.len();
    let r3 = d2 + (t3 + (d3 + (t4 + (d4 + tail))));
    assert(r2 =~= t2 + r3);
    lemma_tok_then(s, p2, t2, r3);
    let p3 = p2 + t2.len();
    let r4 = t3 + (d3 + (t4 + (d4 + tail)));
    assert(r3 =~= d2 + r4);
    assert(r4[0] == 44) by {
        assert(r4[0] == t3[0]);
    }
    lemma_num_then(s, p3, m.radius as u64, r4);
    let p4 = p3 + d2.len();
    let r5 = d3 + (t4 + (d4 + tail));
    assert(r4 =~= t3 + r5);
    lemma_tok_then(s, p4, t3, r5);
    let p5 = p4 + t3.len();
    let r6 = t4 + (d4 + tail);
    assert(r5 =~= d3 + r6);
    assert(r6[0] == 44) by {
        assert(r6[0] == t4[0]);
    }
    lemma_num_then(s, p5, m.height as u64, r6);
    let p6 = p5 + d3.len();
    let r7 = d4 + tail;
    assert(r6 =~= t4 + r7);
    lemma_tok_then(s, p6, t4, r7);
    let p7 = p6 + t4.len();
    assert(r7 =~= d4 + tail);
    assert(!is_digit(tail[0]));
    lemma_num_then(s, p7, m.width as u64, tail);
    let p8 = p7 + d4.len();
    assert(s[p8] == 125) by {
        assert(s.subrange(p8, p8 + 1)[0] == s[p8]);
    }
    assert(p8 + 1 == i + mag_json(m).len());
}

/// A canonical reader-state object reads back as itself.
#[verifier::rlimit(100)]
#[verifier::spinoff_prover]
proof fn lemma_rs_reads(s: Seq<u8>, i: int, r: ReaderState)
    requires
        0 <= i,
        i + rs_json(r).len() <= s.len(),
        s.subrange(i, i + rs_json(r).len()) == rs_json(r),
    ensures
        sp_rs(s, i) == Some((r, i + rs_json(r).len())),
{
    lemma_key_first_bytes();
    let t1 = ("{\"single_page\":").spec_bytes();
    let b1 = jbool(r.single_page);
    let t2 = (",\"current_page\":").spec_bytes();
    let d1 = dec_digits(r.current_page as nat);
    let t3 = (",\"first_page_is_cover\":").spec_bytes();
    let b2 = jbool(r.first_page_is_cover);
    let tail = seq![125u8];
    let r1 = b1 + (t2 + (d1 + (t3 + (b2 + tail))));
    assert(rs_json(r) =~= t1 + r1);
    lemma_tok_then(s, i, t1, r1);
    let p1 = i + t1.len();
    let r2 = t2 + (d1 + (t3 + (b2 + tail)));
    assert(r1 =~= b1 + r2);
    lemma_bool_then(s, p1, r.single_page, r2);
    let p2 = p1 + b1.len();
    let r3 = d1 + (t3 + (b2 + tail));
    assert(r2 =~= t2 + r3);
    lemma_tok_then(s, p2, t2, r3);
    let p3 = p2 + t2.len();
    let r4 = t3 + (b2 + tail);
    assert(r3 =~= d1 + r4);
    assert(r4[0] == 44) by {
        assert(r4[0] == t3[0]);
    }
    lemma_num_then(s, p3, r.current_page as u64, r4);
    let p4 = p3 + d1.len();
    let r5 = b2 + tail;
    assert(r4 =~= t3 + r5);
    lemma_tok_then(s, p4, t3, r5);
    let p5 = p4 + t3.len();
    assert(r5 =~= b2 + tail);
    lemma_bool_then(s, p5, r.first_page_is_cover, tail);
    let p6 = p5 + b2.len();
    assert(s[p6] == 125) by {
        assert(s.subrange(p6, p6 + 1)[0] == s[p6]);
    }
    assert(p6 + 1 == i + rs_json(r).len());
}

/// A canonical cover field reads back as itself.
proof fn lemma_cover_then(s: Seq<u8>, p: int, c: Option<Seq<u8>>, rest: Seq<u8>)
    requires
        0 <= p,
        p + cover_json(c).len() + rest.len() <= s.len(),
        s.subrange(p, p + cover_json(c).len() + rest.len()) == cover_json(c) + rest,
    ensures
        sp_cover(s, p) == Some((c, p + cover_json(c).len())),
        s.subrange(p + cover_json(c).len(), p + cover_json(c).len() + rest.len()) == rest,
{
    match c {
        None => {
            lemma_split_at(s, p, tok_null(), rest);
            assert(s[p] == 110) by {
                assert(s.subrange(p, p + 4)[0] == s[p]);
            }
            lemma_lit_reads(s, p, tok_null());
        }
        Some(name) => {
            lemma_split_at(s, p, jstr(name), rest);
            assert(s[p] == 34) by {
                assert(s.subrange(p, p + jstr(name).len())[0] == s[p]);
            }
            lemma_jstr_reads(s, p, name);
        }
    }
}

/// A canonical `[name, ocr]` pair reads back as itself.
proof fn lemma_pair_reads(s: Seq<u8>, i: int, pr: (Seq<u8>, Seq<u8>))
    requires
        0 <= i,
        i + pair_json(pr).len() <= s.len(),
        s.subrange(i, i + pair_json(pr).len()) == pair_json(pr),
    ensures
        sp_pair(s, i) == Some((pr, i + pair_json(pr).len())),
{
    let a = jstr(pr.0);
    let b = jstr(pr.1);
    let r1 = a + (seq![44u8] + (b + seq![93u8]));
    assert(pair_json(pr) =~= seq![91u8] + r1);
    lemma_tok_then(s, i, seq![91u8], r1);
    assert(s[i] == 91) by {
        assert(s.subrange(i, i + 1 + r1.len())[0] == s[i]);
    }
    let p1 = i + 1;
    let r2 = seq![44u8] + (b + seq![93u8]);
    assert(r1 =~= a + r2);
    lemma_jstr_then(s, p1, pr.0, r2);
    let p2 = p1 + a.len();
    let r3 = b + seq![93u8];
    assert(r2 =~= seq![44u8] + r3);
    lemma_tok_then(s, p2, seq![44u8], r3);
    assert(s[p2] == 44) by {
        assert(s.subrange(p2, p2 + 1 + r3.len())[0] == s[p2]);
    }
    let p3 = p2 + 1;
    assert(r3 =~= b + seq![93u8]);
    lemma_jstr_then(s, p3, pr.1, seq![93u8]);
    let p4 = p3 + b.len();
    assert(s[p4] == 93) by {
        assert(s.subrange(p4, p4 + 1)[0] == s[p4]);
    }
    assert(p4 + 1 == i + pair_json(pr).len());
}

/// A rendered list tail is at least one byte per element, plus the bracket.
proof fn lemma_lines_rest_len(ls: Seq<Seq<u8>>)
    ensures
        lines_rest_json(ls).len() >= ls.len() + 1,
    decreases ls.len(),
{
    if ls.len() > 0 {
        lemma_lines_rest_len(ls.drop_first());
    }
}

proof fn lemma_pages_rest_len(ps: Seq<(Seq<u8>, Seq<u8>)>)
    ensures
        pages_rest_json(ps).len() >= ps.len() + 1,
    decreases ps.len(),
{
    if ps.len() > 0 {
        lemma_pages_rest_len(ps.drop_first());
    }
}

proof fn lemma_blocks_rest_len(bs: Seq<OcrBlockV>)
    ensures
        blocks_rest_json(bs).len() >= bs.len() + 1,
    decreases bs.len(),
{
    if bs.len() > 0 {
        lemma_blocks_rest_len(bs.drop_first());
    }
}

/// A canonical list tail of strings reads back as itself.
proof fn lemma_lines_rest_reads(s: Seq<u8>, i: int, ls: Seq<Seq<u8>>, fuel: nat)
    requires
        0 <= i,
        i + lines_rest_json(ls).len() <= s.len(),
        s.subrange(i, i + lines_rest_json(ls).len()) == lines_rest_json(ls),
        fuel >= ls.len(),
    ensures
        sp_lines_rest(s, i, fuel) == Some((ls, i + lines_rest_json(ls).len())),
    decreases ls.len(),
{
    if ls.len() == 0 {
        assert(s[i] == 93) by {
            assert(s.subrange(i, i + 1)[0] == s[i]);
        }
    } else {
        let rest = jstr(ls[0]) + lines_rest_json(ls.drop_first());
        assert(lines_rest_json(ls) =~= seq![44u8] + rest);
        lemma_tok_then(s, i, seq![44u8], rest);
        assert(s[i] == 44) by {
            assert(s.subrange(i, i + 1 + rest.len())[0] == s[i]);
        }
        assert(s[i] != 93);
        lemma_jstr_then(s, i + 1, ls[0], lines_rest_json(ls.drop_first()));
        let p2 = i + 1 + jstr(ls[0]).len();
        lemma_lines_rest_reads(s, p2, ls.drop_first(), (fuel - 1) as nat);
        assert(seq![ls[0]] + ls.drop_first() =~= ls);
    }
}

/// A canonical list of strings reads back as itself.
proof fn lemma_lines_reads(s: Seq<u8>, i: int, ls: Seq<Seq<u8>>)
    requires
        0 <= i,
        i + lines_json(ls).len() <= s.len(),
        s.subrange(i, i + lines_json(ls).len()) == lines_json(ls),
    ensures
        sp_lines(s, i) == Some((ls, i + lines_json(ls).len())),
{
    if ls.len() == 0 {
        assert(s[i] == 91 && s[i + 1] == 93) by {
            assert(s.subrange(i, i + 2)[0] == s[i]);
            assert(s.subrange(i, i + 2)[1] == s[i + 1]);
        }
    } else {
        let rest = jstr(ls[0]) + lines_rest_json(ls.drop_first());
        assert(lines_json(ls) =~= seq![91u8] + rest);
        lemma_tok_then(s, i, seq![91u8], rest);
        assert(s[i] == 91) by {
            assert(s.subrange(i, i + 1 + rest.len())[0] == s[i]);
        }
        lemma_jstr_then(s, i + 1, ls[0], lines_rest_json(ls.drop_first()));
        assert(s[i + 1] == 34) by {
            assert(s.subrange(i + 1, i + 1 + rest.len())[0] == s[i + 1]);
            assert(rest[0] == 34);
        }
        let p2 = i + 1 + jstr(ls[0]).len();
        lemma_lines_rest_len(ls.drop_first());
        lemma_lines_rest_reads(s, p2, ls.drop_first(), s.len() as nat);
        assert(seq![ls[0]] + ls.drop_first() =~= ls);
    }
}

/// Peel a canonical list of strings off the front of a known stretch.
proof fn lemma_lines_then(s: Seq<u8>, p: int, ls: Seq<Seq<u8>>, rest: Seq<u8>)
    requires
        0 <= p,
        p + lines_json(ls).len() + rest.len() <= s.len(),
        s.subrange(p, p + lines_json(ls).len() + rest.len()) == lines_json(ls) + rest,
    ensures
        sp_lines(s, p) == Some((ls, p + lines_json(ls).len())),
        s.subrange(p + lines_json(ls).len(), p + lines_json(ls).len() + rest.len()) == rest,
{
    lemma_split_at(s, p, lines_json(ls), rest);
    lemma_lines_reads(s, p, ls);
}

/// A canonical pages list tail reads back as itself.
proof fn lemma_pages_rest_reads(s: Seq<u8>, i: int, ps: Seq<(Seq<u8>, Seq<u8>)>, fuel: nat)
    requires
        0 <= i,
        i + pages_rest_json(ps).len() <= s.len(),
        s.subrange(i, i + pages_rest_json(ps).len()) == pages_rest_json(ps),
        fuel >= ps.len(),
    ensures
        sp_pages_rest(s, i, fuel) == Some((ps, i + pages_rest_json(ps).len())),
    decreases ps.len(),
{
    if ps.len() == 0 {
        assert(s[i] == 93) by {
            assert(s.subrange(i, i + 1)[0] == s[i]);
        }
    } else {
        let rest = pair_json(ps[0]) + pages_rest_json(ps.drop_first());
        assert(pages_rest_json(ps) =~= seq![44u8] + rest);
        lemma_tok_then(s, i, seq![44u8], rest);
        assert(s[i] == 44) by {
            assert(s.subrange(i, i + 1 + rest.len())[0] == s[i]);
        }
        assert(s[i] != 93);
        lemma_split_at(s, i + 1, pair_json(ps[0]), pages_rest_json(ps.drop_first()));
        lemma_pair_reads(s, i + 1, ps[0]);
        let p2 = i + 1 + pair_json(ps[0]).len();
        lemma_pages_rest_reads(s, p2, ps.drop_first(), (fuel - 1) as nat);
        assert(seq![ps[0]] + ps.drop_first() =~= ps);
    }
}

/// A canonical pages list reads back as itself.
proof fn lemma_pages_reads(s: Seq<u8>, i: int, ps: Seq<(Seq<u8>, Seq<u8>)>)
    requires
        0 <= i,
        i + pages_json(ps).len() <= s.len(),
        s.subrange(i, i + pages_json(ps).len()) == pages_json(ps),
    ensures
        sp_pages(s, i) == Some((ps, i + pages_json(ps).len())),
{
    if ps.len() == 0 {
        assert(s[i] == 91 && s[i + 1] == 93) by {
            assert(s.subrange(i, i + 2)[0] == s[i]);
            assert(s.subrange(i, i + 2)[1] == s[i + 1]);
        }
    } else {
        let rest = pair_json(ps[0]) + pages_rest_json(ps.drop_first());
        assert(pages_json(ps) =~= seq![91u8] + rest);
        lemma_tok_then(s, i, seq![91u8], rest);
        assert(s[i] == 91) by {
            assert(s.subrange(i, i + 1 + rest.len())[0] == s[i]);
        }
        lemma_split_at(s, i + 1, pair_json(ps[0]), pages_rest_json(ps.drop_first()));
        lemma_pair_reads(s, i + 1, ps[0]);
        assert(s[i + 1] == 91) by {
            assert(s.subrange(i + 1, i + 1 + rest.len())[0] == s[i + 1]);
            assert(rest[0] == 91);
        }
        assert(s[i + 1] != 93);
        let p2 = i + 1 + pair_json(ps[0]).len();
        lemma_pages_rest_len(ps.drop_first());
        lemma_pages_rest_reads(s, p2, ps.drop_first(), s.len() as nat);
        assert(seq![ps[0]] + ps.drop_first() =~= ps);
    }
}

/// Peel a canonical pages list off the front of a known stretch.
proof fn lemma_pages_then(s: Seq<u8>, p: int, ps: Seq<(Seq<u8>, Seq<u8>)>, rest: Seq<u8>)
    requires
        0 <= p,
        p + pages_json(ps).len() + rest.len() <= s.len(),
        s.subrange(p, p + pages_json(ps).len() + rest.len()) == pages_json(ps) + rest,
    ensures
        sp_pages(s, p) == Some((ps, p + pages_json(ps).len())),
        s.subrange(p + pages_json(ps).len(), p + pages_json(ps).len() + rest.len()) == rest,
{
    lemma_split_at(s, p, pages_json(ps), rest);
    lemma_pages_reads(s, p, ps);
}

/// A canonical OCR block object reads back as itself.
#[verifier::rlimit(100)]
#[verifier::spinoff_prover]
proof fn lemma_block_reads(s: Seq<u8>, i: int, b: OcrBlockV)
    requires
        0 <= i,
        i + block_json(b).len() <= s.len(),
        s.subrange(i, i + block_json(b).len()) == block_json(b),
    ensures
        sp_block(s, i) == Some((b, i + block_json(b).len())),
{
    lemma_key_first_bytes();
    let t1 = ("{\"uuid\":").spec_bytes();
    let u = jstr(b.uuid);
    let t2 = (",\"box\":[").spec_bytes();
    let d0 = dec_digits(b.box_.0 as nat);
    let d1 = dec_digits(b.box_.1 as nat);
    let d2 = dec_digits(b.box_.2 as nat);
    let d3 = dec_digits(b.box_.3 as nat);
    let t3 = ("],\"vertical\":").spec_bytes();
    let bv = jbool(b.vertical);
    let t4 = (",\"font_size\":").spec_bytes();
    let df = dec_digits(b.font_size as nat);
    let t5 = (",\"lines\":").spec_bytes();
    let lj = lines_json(b.lines);
    let tail = seq![125u8];
    let c = seq![44u8];
    let r1 = u + (t2 + (d0 + (c + (d1 + (c + (d2 + (c + (d3 + (t3 + (bv + (t4 + (df + (t5 + (lj
        + tail))))))))))))));
    assert(block_json(b) =~= t1 + r1);
    lemma_tok_then(s, i, t1, r1);
    let p1 = i + t1.len();
    let r2 = t2 + (d0 + (c + (d1 + (c + (d2 + (c + (d3 + (t3 + (bv + (t4 + (df + (t5 + (lj
        + tail)))))))))))));
    assert(r1 =~= u + r2);
    lemma_jstr_then(s, p1, b.uuid, r2);
    let p2 = p1 + u.len();
    let r3 = d0 + (c + (d1 + (c + (d2 + (c + (d3 + (t3 + (bv + (t4 + (df + (t5 + (lj
        + tail))))))))))));
    assert(r2 =~= t2 + r3);
    lemma_tok_then(s, p2, t2, r3);
    let p3 = p2 + t2.len();
    let r4 = c + (d1 + (c + (d2 + (c + (d3 + (t3 + (bv + (t4 + (df + (t5 + (lj + tail)))))))))));
    assert(r3 =~= d0 + r4);
    assert(!is_digit(r4[0]));
    lemma_num_then(s, p3, b.box_.0 as u64, r4);
    let p4 = p3 + d0.len();
    let r5 = d1 + (c + (d2 + (c + (d3 + (t3 + (bv + (t4 + (df + (t5 + (lj + tail))))))))));
    assert(r4 =~= c + r5);
    lemma_tok_then(s, p4, c, r5);
    assert(s[p4] == 44) by {
        assert(s.subrange(p4, p4 + 1 + r5.len())[0] == s[p4]);
    }
    let p5 = p4 + 1;
    let r6 = c + (d2 + (c + (d3 + (t3 + (bv + (t4 + (df + (t5 + (lj + tail)))))))));
    assert(r5 =~= d1 + r6);
    assert(!is_digit(r6[0]));
    lemma_num_then(s, p5, b.box_.1 as u64, r6);
    let p6 = p5 + d1.len();
    let r7 = d2 + (c + (d3 + (t3 + (bv + (t4 + (df + (t5 + (lj + tail))))))));
    assert(r6 =~= c + r7);
    lemma_tok_then(s, p6, c, r7);
    assert(s[p6] == 44) by {
        assert(s.subrange(p6, p6 + 1 + r7.len())[0] == s[p6]);
    }
    let p7 = p6 + 1;
    let r8 = c + (d3 + (t3 + (bv + (t4 + (df + (t5 + (lj + tail)))))));
    assert(r7 =~= d2 + r8);
    assert(!is_digit(r8[0]));
    lemma_num_then(s, p7, b.box_.2 as u64, r8);
    let p8 = p7 + d2.len();
    let r9 = d3 + (t3 + (bv + (t4 + (df + (t5 + (lj + tail))))));
    assert(r8 =~= c + r9);
    lemma_tok_then(s, p8, c, r9);
    assert(s[p8] == 44) by {
        assert(s.subrange(p8, p8 + 1 + r9.len())[0] == s[p8]);
    }
    let p9 = p8 + 1;
    let r10 = t3 + (bv + (t4 + (df + (t5 + (lj + tail)))));
    assert(r9 =~= d3 + r10);
    assert(r10[0] == 93) by {
        assert(r10[0] == t3[0]);
    }
    lemma_num_then(s, p9, b.box_.3 as u64, r10);
    let p10 = p9 + d3.len();
    let r11 = bv + (t4 + (df + (t5 + (lj + tail))));
    assert(r10 =~= t3 + r11);
    lemma_tok_then(s, p10, t3, r11);
    let p11 = p10 + t3.len();
    let r12 = t4 + (df + (t5 + (lj + tail)));
    assert(r11 =~= bv + r12);
    lemma_bool_then(s, p11, b.vertical, r12);
    let p12 = p11 + bv.len();
    let r13 = df + (t5 + (lj + tail));
    assert(r12 =~= t4 + r13);
    lemma_tok_then(s, p12, t4, r13);
    let p13 = p12 + t4.len();
    let r14 = t5 + (lj + tail);
    assert(r13 =~= df + r14);
    assert(r14[0] == 44) by {
        assert(r14[0] == t5[0]);
    }
    lemma_num_then(s, p13, b.font_size as u64, r14);
    let p14 = p13 + df.len();
    let r15 = lj + tail;
    assert(r14 =~= t5 + r15);
    lemma_tok_then(s, p14, t5, r15);
    let p15 = p14 + t5.len();
    assert(r15 =~= lj + tail);
    lemma_lines_then(s, p15, b.lines, tail);
    let p16 = p15 + lj.len();
    assert(s[p16] == 125) by {
        assert(s.subrange(p16, p16 + 1)[0] == s[p16]);
    }
    assert(p16 + 1 == i + block_json(b).len());
    assert(sp_block(s, i) == Some((
        OcrBlockV {
            uuid: b.uuid,
            box_: (b.box_.0, b.box_.1, b.box_.2, b.box_.3),
            vertical: b.vertical,
            font_size: b.font_size,
            lines: b.lines,
        },
        p16 + 1,
    )));
    assert(b == (OcrBlockV {
        uuid: b.uuid,
        box_: (b.box_.0, b.box_.1, b.box_.2, b.box_.3),
        vertical: b.vertical,
        font_size: b.font_size,
        lines: b.lines,
    }));
}

/// A block object begins with an opening brace.
proof fn lemma_block_json_first(b: OcrBlockV)
    ensures
        block_json(b).len() > 0,
        block_json(b)[0] == 123,
{
    broadcast use vstd::string::is_ascii_spec_bytes;

    reveal_strlit("{\"uuid\":");
    assert(("{\"uuid\":").is_ascii());
    assert(("{\"uuid\":").spec_bytes()[0] == 123);
}

#[verifier::rlimit(100)]
#[verifier::spinoff_prover]
proof fn lemma_blocks_rest_reads(s: Seq<u8>, i: int, bs: Seq<OcrBlockV>, fuel: nat)
    requires
        0 <= i,
        i + blocks_rest_json(bs).len() <= s.len(),
        s.subrange(i, i + blocks_rest_json(bs).len()) == blocks_rest_json(bs),
        fuel >= bs.len(),
    ensures
        sp_blocks_rest(s, i, fuel) == Some((bs, i + blocks_rest_json(bs).len())),
    decreases bs.len(),
{
    if bs.len() == 0 {
        assert(s[i] == 93) by {
            assert(s.subrange(i, i + 1)[0] == s[i]);
        }
    } else {
        let rest = block_json(bs[0]) + blocks_rest_json(bs.drop_first());
        assert(blocks_rest_json(bs) =~= seq![44u8] + rest);
        lemma_tok_then(s, i, seq![44u8], rest);
        assert(s[i] == 44) by {
            assert(s.subrange(i, i + 1 + rest.len())[0] == s[i]);
        }
        assert(s[i] != 93);
        lemma_split_at(s, i + 1, block_json(bs[0]), blocks_rest_json(bs.drop_first()));
        lemma_block_reads(s, i + 1, bs[0]);
        let p2 = i + 1 + block_json(bs[0]).len();
        lemma_blocks_rest_reads(s, p2, bs.drop_first(), (fuel - 1) as nat);
        assert(seq![bs[0]] + bs.drop_first() =~= bs);
    }
}

/// A canonical block list reads back as itself.
#[verifier::rlimit(100)]
#[verifier::spinoff_prover]
proof fn lemma_blocks_reads(s: Seq<u8>, i: int, bs: Seq<OcrBlockV>)
    requires
        0 <= i,
        i + blocks_json(bs).len() <= s.len(),
        s.subrange(i, i + blocks_json(bs).len()) == blocks_json(bs),
    ensures
        sp_blocks(s, i) == Some((bs, i + blocks_json(bs).len())),
{
    if bs.len() == 0 {
        assert(s[i] == 91 && s[i + 1] == 93) by {
            assert(s.subrange(i, i + 2)[0] == s[i]);
            assert(s.subrange(i, i + 2)[1] == s[i + 1]);
        }
    } else {
        let rest = block_json(bs[0]) + blocks_rest_json(bs.drop_first());
        assert(blocks_json(bs) =~= seq![91u8] + rest);
        lemma_tok_then(s, i, seq![91u8], rest);
        assert(s[i] == 91) by {
            assert(s.subrange(i, i + 1 + rest.len())[0] == s[i]);
        }
        lemma_split_at(s, i + 1, block_json(bs[0]), blocks_rest_json(bs.drop_first()));
        lemma_block_reads(s, i + 1, bs[0]);
        lemma_block_json_first(bs[0]);
        assert(s[i + 1] == 123) by {
            assert(s.subrange(i + 1, i + 1 + rest.len())[0] == s[i + 1]);
            assert(rest[0] == block_json(bs[0])[0]);
        }
        assert(s[i + 1] != 93);
        let p2 = i + 1 + block_json(bs[0]).len();
        lemma_blocks_rest_len(bs.drop_first());
        lemma_blocks_rest_reads(s, p2, bs.drop_first(), s.len() as nat);
        assert(seq![bs[0]] + bs.drop_first() =~= bs);
    }
}

/// The canonical head of a metadata document reads back as its fields.
#[verifier::rlimit(100)]
#[verifier::spinoff_prover]
proof fn lemma_vol_head_reads(s: Seq<u8>, i: int, v: VolumeV)
    requires
        0 <= i,
        i + vol_json_head(v).len() <= s.len(),
        s.subrange(i, i + vol_json_head(v).len()) == vol_json_head(v),
    ensures
        sp_vol_head(s, i) == Some(
            (
                (v.version, v.created_at, v.modified_at, v.series, v.title, v.volume,
                v.volume_uuid),
                i + vol_json_head(v).len(),
            ),
        ),
{
    let t1 = ("{\"version\":").spec_bytes();
    let s1 = jstr(v.version);
    let t2 = (",\"created_at\":").spec_bytes();
    let s2 = jstr(v.created_at);
    let t3 = (",\"modified_at\":").spec_bytes();
    let s3 = jstr(v.modified_at);
    let t4 = (",\"series\":").spec_bytes();
    let s4 = jstr(v.series);
    let t5 = (",\"title\":").spec_bytes();
    let s5 = jstr(v.title);
    let t6 = (",\"volume\":").spec_bytes();
    let s6 = jstr(v.volume);
    let t7 = (",\"volume_uuid\":").spec_bytes();
    let s7 = jstr(v.volume_uuid);
    let r1 = s1 + (t2 + (s2 + (t3 + (s3 + (t4 + (s4 + (t5 + (s5 + (t6 + (s6 + (t7 + s7)))))))))));
    lemma_tok_then(s, i, t1, r1);
    let p1 = i + t1.len();
    let r2 = t2 + (s2 + (t3 + (s3 + (t4 + (s4 + (t5 + (s5 + (t6 + (s6 + (t7 + s7))))))))));
    lemma_jstr_then(s, p1, v.version, r2);
    let p2 = p1 + s1.len();
    let r3 = s2 + (t3 + (s3 + (t4 + (s4 + (t5 + (s5 + (t6 + (s6 + (t7 + s7)))))))));
    lemma_tok_then(s, p2, t2, r3);
    let p3 = p2 + t2.len();
    let r4 = t3 + (s3 + (t4 + (s4 + (t5 + (s5 + (t6 + (s6 + (t7 + s7))))))));
    lemma_jstr_then(s, p3, v.created_at, r4);
    let p4 = p3 + s2.len();
    let r5 = s3 + (t4 + (s4 + (t5 + (s5 + (t6 + (s6 + (t7 + s7)))))));
    lemma_tok_then(s, p4, t3, r5);
    let p5 = p4 + t3.len();
    let r6 = t4 + (s4 + (t5 + (s5 + (t6 + (s6 + (t7 + s7))))));
    lemma_jstr_then(s, p5, v.modified_at, r6);
    let p6 = p5 + s3.len();
    let r7 = s4 + (t5 + (s5 + (t6 + (s6 + (t7 + s7)))));
    lemma_tok_then(s, p6, t4, r7);
    let p7 = p6 + t4.len();
    let r8 = t5 + (s5 + (t6 + (s6 + (t7 + s7))));
    lemma_jstr_then(s, p7, v.series, r8);
    let p8 = p7 + s4.len();
    let r9 = s5 + (t6 + (s6 + (t7 + s7)));
    lemma_tok_then(s, p8, t5, r9);
    let p9 = p8 + t5.len();
    let r10 = t6 + (s6 + (t7 + s7));
    lemma_jstr_then(s, p9, v.title, r10);
    let p10 = p9 + s5.len();
    let r11 = s6 + (t7 + s7);
    lemma_tok_then(s, p10, t6, r11);
    let p11 = p10 + t6.len();
    let r12 = t7 + s7;
    lemma_jstr_then(s, p11, v.volume, r12);
    let p12 = p11 + s6.len();
    lemma_tok_then(s, p12, t7, s7);
    let p13 = p12 + t7.len();
    lemma_jstr_then(s, p13, v.volume_uuid, Seq::<u8>::empty());
    assert(s7 + Seq::<u8>::empty() =~= s7);
    assert(p13 + s7.len() == i + vol_json_head(v).len());
}

/// The `pages` and `cover` fields read back as themselves.
#[verifier::rlimit(100)]
#[verifier::spinoff_prover]
proof fn lemma_vol_mid_reads(s: Seq<u8>, i: int, v: VolumeV)
    requires
        0 <= i,
        i + vol_json_mid(v).len() <= s.len(),
        s.subrange(i, i + vol_json_mid(v).len()) == vol_json_mid(v),
    ensures
        sp_lit(s, i, (",\"pages\":").spec_bytes()) == Some(i + (",\"pages\":").spec_bytes().len()),
        sp_pages(s, i + (",\"pages\":").spec_bytes().len()) == Some(
            (v.pages, i + (",\"pages\":").spec_bytes().len() + pages_json(v.pages).len()),
        ),
        sp_lit(
            s,
            i + (",\"pages\":").spec_bytes().len() + pages_json(v.pages).len(),
            (",\"cover\":").spec_bytes(),
        ) == Some(
            i + (",\"pages\":").spec_bytes().len() + pages_json(v.pages).len() + (
            ",\"cover\":").spec_bytes().len(),
        ),
        sp_cover(
            s,
            i + (",\"pages\":").spec_bytes().len() + pages_json(v.pages).len() + (
            ",\"cover\":").spec_bytes().len(),
        ) == Some((v.cover, i + vol_json_mid(v).len())),
{
    let t1 = (",\"pages\":").spec_bytes();
    let g1 = pages_json(v.pages);
    let t2 = (",\"cover\":").spec_bytes();
    let g2 = cover_json(v.cover);
    let r1 = g1 + (t2 + g2);
    lemma_tok_then(s, i, t1, r1);
    let p1 = i + t1.len();
    let r2 = t2 + g2;
    assert(r1 =~= g1 + r2);
    lemma_pages_then(s, p1, v.pages, r2);
    let p2 = p1 + g1.len();
    assert(r2 =~= t2 + g2);
    lemma_tok_then(s, p2, t2, g2);
    let p3 = p2 + t2.len();
    lemma_cover_then(s, p3, v.cover, Seq::<u8>::empty());
    assert(g2 + Seq::<u8>::empty() =~= g2);
    assert(p3 + g2.len() == i + vol_json_mid(v).len());
}

/// The `hide_sidebar` and `line_height` fields read back as themselves.
#[verifier::rlimit(100)]
#[verifier::spinoff_prover]
proof fn lemma_vol_end_a_reads(s: Seq<u8>, i: int, v: VolumeV)
    requires
        0 <= i,
        i + vol_json_end_a(v).len() < s.len(),
        s.subrange(i, i + vol_json_end_a(v).len()) == vol_json_end_a(v),
        !is_digit(s[i + vol_json_end_a(v).len()]),
        s[i + vol_json_end_a(v).len()] != 46,
    ensures
        sp_lit(s, i, (",\"hide_sidebar\":").spec_bytes()) == Some(
            i + (",\"hide_sidebar\":").spec_bytes().len(),
        ),
        sp_bool(s, i + (",\"hide_sidebar\":").spec_bytes().len()) == Some(
            (
                v.hide_sidebar,
                i + (",\"hide_sidebar\":").spec_bytes().len() + jbool(v.hide_sidebar).len(),
            ),
        ),
        sp_lit(
            s,
            i + (",\"hide_sidebar\":").spec_bytes().len() + jbool(v.hide_sidebar).len(),
            (",\"line_height\":").spec_bytes(),
        ) == Some(
            i + (",\"hide_sidebar\":").spec_bytes().len() + jbool(v.hide_sidebar).len() + (
            ",\"line_height\":").spec_bytes().len(),
        ),
        sp_lh(
            s,
            i + (",\"hide_sidebar\":").spec_bytes().len() + jbool(v.hide_sidebar).len() + (
            ",\"line_height\":").spec_bytes().len(),
        ) == Some((v.line_height, i + vol_json_end_a(v).len())),
{
    let t3 = (",\"hide_sidebar\":").spec_bytes();
    let g3 = jbool(v.hide_sidebar);
    let t4 = (",\"line_height\":").spec_bytes();
    let g4 = lh_json(v.line_height);
    let r1 = g3 + (t4 + g4);
    lemma_tok_then(s, i, t3, r1);
    let p1 = i + t3.len();
    let r2 = t4 + g4;
    assert(r1 =~= g3 + r2);
    lemma_bool_then(s, p1, v.hide_sidebar, r2);
    let p2 = p1 + g3.len();
    assert(r2 =~= t4 + g4);
    lemma_tok_then(s, p2, t4, g4);
    let p3 = p2 + t4.len();
    let tail = s.subrange(i + vol_json_end_a(v).len(), i + vol_json_end_a(v).len() + 1);
    assert(tail.len() == 1 && tail[0] == s[i + vol_json_end_a(v).len()]);
    assert(s.subrange(p3, p3 + g4.len() + 1) =~= g4 + tail) by {
        assert forall|m: int| 0 <= m < g4.len() implies s.subrange(p3, p3 + g4.len() + 1)[m]
            == g4[m] by {
            assert(s.subrange(p3, p3 + g4.len())[m] == g4[m]);
            assert(s.subrange(p3, p3 + g4.len() + 1)[m] == s[p3 + m]);
            assert(s.subrange(p3, p3 + g4.len())[m] == s[p3 + m]);
        }
        assert(s.subrange(p3, p3 + g4.len() + 1)[g4.len() as int] == s[p3 + g4.len()]);
    }
    lemma_lh_then(s, p3, v.line_height, tail);
}

/// The `magnifier` and `reader_state` fields read back as themselves.
#[verifier::rlimit(100)]
#[verifier::spinoff_prover]
proof fn lemma_vol_end_b_reads(s: Seq<u8>, i: int, v: VolumeV)
    requires
        0 <= i,
        i + vol_json_end_b(v).len() <= s.len(),
        s.subrange(i, i + vol_json_end_b(v).len()) == vol_json_end_b(v),
    ensures
        sp_lit(s, i, (",\"magnifier\":").spec_bytes()) == Some(
            i + (",\"magnifier\":").spec_bytes().len(),
        ),
        sp_mag(s, i + (",\"magnifier\":").spec_bytes().len()) == Some(
            (
                v.magnifier,
                i + (",\"magnifier\":").spec_bytes().len() + mag_json(v.magnifier).len(),
            ),
        ),
        sp_lit(
            s,
            i + (",\"magnifier\":").spec_bytes().len() + mag_json(v.magnifier).len(),
            (",\"reader_state\":").spec_bytes(),
        ) == Some(
            i + (",\"magnifier\":").spec_bytes().len() + mag_json(v.magnifier).len() + (
            ",\"reader_state\":").spec_bytes().len(),
        ),
        sp_rs(
            s,
            i + (",\"magnifier\":").spec_bytes().len() + mag_json(v.magnifier).len() + (
            ",\"reader_state\":").spec_bytes().len(),
        ) == Some((v.reader_state, i + vol_json_end_b(v).len() - 1)),
        s[i + vol_json_end_b(v).len() - 1] == 125,
{
    let t5 = (",\"magnifier\":").spec_bytes();
    let g5 = mag_json(v.magnifier);
    let t6 = (",\"reader_state\":").spec_bytes();
    let g6 = rs_json(v.reader_state);
    let tail = seq![125u8];
    let r1 = g5 + (t6 + (g6 + tail));
    lemma_tok_then(s, i, t5, r1);
    let p1 = i + t5.len();
    let r2 = t6 + (g6 + tail);
    assert(r1 =~= g5 + r2);
    lemma_split_at(s, p1, g5, r2);
    lemma_mag_reads(s, p1, v.magnifier);
    let p2 = p1 + g5.len();
    let r3 = g6 + tail;
    assert(r2 =~= t6 + r3);
    lemma_tok_then(s, p2, t6, r3);
    let p3 = p2 + t6.len();
    assert(r3 =~= g6 + tail);
    lemma_split_at(s, p3, g6, tail);
    lemma_rs_reads(s, p3, v.reader_state);
    let p4 = p3 + g6.len();
    assert(s[p4] == 125) by {
        assert(s.subrange(p4, p4 + 1)[0] == s[p4]);
    }
}

/// The canonical tail of a metadata document reads back as its fields.
#[verifier::rlimit(100)]
#[verifier::spinoff_prover]
proof fn lemma_vol_tail_reads(s: Seq<u8>, i: int, v: VolumeV)
    requires
        0 <= i,
        i + vol_json_tail(v).len() <= s.len(),
        s.subrange(i, i + vol_json_tail(v).len()) == vol_json_tail(v),
    ensures
        sp_volume_tail(s, i, v.version, v.created_at, v.modified_at, v.series, v.title, v.volume,
            v.volume_uuid) == Some(
            (VolumeV { id: 0, ..v }, i + vol_json_tail(v).len()),
        ),
{
    lemma_key_first_bytes();
    lemma_split_at(s, i, vol_json_mid(v), vol_json_end(v));
    lemma_vol_mid_reads(s, i, v);
    let j = i + vol_json_mid(v).len();
    lemma_split_at(s, j, vol_json_end_a(v), vol_json_end_b(v));
    let k = j + vol_json_end_a(v).len();
    assert(s[k] == 44) by {
        assert(s.subrange(k, k + vol_json_end_b(v).len())[0] == s[k]);
        assert(vol_json_end_b(v)[0] == (",\"magnifier\":").spec_bytes()[0]);
    }
    lemma_vol_end_a_reads(s, j, v);
    lemma_vol_end_b_reads(s, k, v);
    assert(v.line_height as u64 <= u32::MAX as u64);
    assert(v == (VolumeV {
        id: v.id,
        version: v.version,
        created_at: v.created_at,
        modified_at: v.modified_at,
        series: v.series,
        title: v.title,
        volume: v.volume,
        volume_uuid: v.volume_uuid,
        pages: v.pages,
        cover: v.cover,
        hide_sidebar: v.hide_sidebar,
        line_height: v.line_height,
        magnifier: v.magnifier,
        reader_state: v.reader_state,
    }));
}

/// The canonical metadata document of any volume reads back as that volume,
/// the store key excepted: exporting a volume and importing the result gives
/// the same record under a new key.
#[verifier::rlimit(100)]
#[verifier::spinoff_prover]
pub proof fn lemma_volume_round_trip(v: VolumeV)
    ensures
        sp_volume(vol_json(v), 0) == Some(
            (VolumeV { id: 0, ..v }, vol_json(v).len() as int),
        ),
{
    let s = vol_json(v);
    assert(s.subrange(0, s.len() as int) =~= s);
    lemma_split_at(s, 0, vol_json_head(v), vol_json_tail(v));
    lemma_vol_head_reads(s, 0, v);
    lemma_vol_tail_reads(s, vol_json_head(v).len() as int, v);
}

/// The canonical OCR document of any page reads back as that page: an OCR
/// row survives an export and re-import unchanged.
#[verifier::rlimit(100)]
#[verifier::spinoff_prover]
pub proof fn lemma_ocr_round_trip(o: PageOcrV)
    ensures
        sp_ocr(ocr_json(o), 0) == Some((o, ocr_json(o).len() as int)),
{
    lemma_key_first_bytes();
    let s = ocr_json(o);
    assert(s.subrange(0, s.len() as int) =~= s);
    let t1 = ("{\"img_width\":").spec_bytes();
    let d1 = dec_digits(o.img_width as nat);
    let t2 = (",\"img_height\":").spec_bytes();
    let d2 = dec_digits(o.img_height as nat);
    let t3 = (",\"blocks\":").spec_bytes();
    let g = blocks_json(o.blocks);
    let tail = seq![125u8];
    let r1 = d1 + (t2 + (d2 + (t3 + (g + tail))));
    lemma_tok_then(s, 0, t1, r1);
    let p1 = t1.len() as int;
    let r2 = t2 + (d2 + (t3 + (g + tail)));
    assert(r1 =~= d1 + r2);
    assert(r2[0] == 44) by {
        assert(r2[0] == t2[0]);
    }
    lemma_num_then(s, p1, o.img_width as u64, r2);
    let p2 = p1 + d1.len();
    let r3 = d2 + (t3 + (g + tail));
    assert(r2 =~= t2 + r3);
    lemma_tok_then(s, p2, t2, r3);
    let p3 = p2 + t2.len();
    let r4 = t3 + (g + tail);
    assert(r3 =~= d2 + r4);
    assert(r4[0] == 44) by {
        assert(r4[0] == t3[0]);
    }
    lemma_num_then(s, p3, o.img_height as u64, r4);
    let p4 = p3 + d2.len();
    let r5 = g + tail;
    assert(r4 =~= t3 + r5);
    lemma_tok_then(s, p4, t3, r5);
    let p5 = p4 + t3.len();
    assert(r5 =~= g + tail);
    lemma_split_at(s, p5, g, tail);
    lemma_blocks_reads(s, p5, o.blocks);
    let p6 = p5 + g.len();
    assert(s[p6] == 125) by {
        assert(s.subrange(p6, p6 + 1)[0] == s[p6]);
    }
    assert(p6 + 1 == s.len());
    assert(o == (PageOcrV { img_width: o.img_width, img_height: o.img_height, blocks: o.blocks }));
}

// --- the executable reader --------------------------------------------------



/// Read a number that must fit in `u32`.
fn parse_u32(buf: &Vec<u8>, pos: usize) -> (r: Option<(u32, usize)>)
    ensures
        match r {
            Some((v, e)) => e <= buf@.len() && sp_u32(buf@, pos as int) == Some((
                v, e as int,
            )),
            None => sp_u32(buf@, pos as int) is None,
        },
{
    match crate::json::parse_u64(buf, pos) {
        Some((v, e)) => if v <= u32::MAX as u64 {
            Some((v as u32, e))
        } else {
            None
        },
        None => None,
    }
}

/// Read a number that must fit in `u16`.
fn parse_u16(buf: &Vec<u8>, pos: usize) -> (r: Option<(u16, usize)>)
    ensures
        match r {
            Some((v, e)) => e <= buf@.len() && sp_u16(buf@, pos as int) == Some((
                v, e as int,
            )),
            None => sp_u16(buf@, pos as int) is None,
        },
{
    match crate::json::parse_u64(buf, pos) {
        Some((v, e)) => if v <= u16::MAX as u64 {
            Some((v as u16, e))
        } else {
            None
        },
        None => None,
    }
}

/// Read a number that must fit in `u8`.
fn parse_u8(buf: &Vec<u8>, pos: usize) -> (r: Option<(u8, usize)>)
    ensures
        match r {
            Some((v, e)) => e <= buf@.len() && sp_u8(buf@, pos as int) == Some((
                v, e as int,
            )),
            None => sp_u8(buf@, pos as int) is None,
        },
{
    match crate::json::parse_u64(buf, pos) {
        Some((v, e)) => if v <= u8::MAX as u64 {
            Some((v as u8, e))
        } else {
            None
        },
        None => None,
    }
}

/// Read a number that must fit in `usize`.
fn parse_usize(buf: &Vec<u8>, pos: usize) -> (r: Option<(usize, usize)>)
    ensures
        match r {
            Some((v, e)) => e <= buf@.len() && sp_usize(buf@, pos as int) == Some((
                v, e as int,
            )),
            None => sp_usize(buf@, pos as int) is None,
        },
{
    match crate::json::parse_u64(buf, pos) {
        Some((v, e)) => if v <= usize::MAX as u64 {
            Some((v as usize, e))
        } else {
            None
        },
        None => None,
    }
}

/// Read a line height at `pos`.
fn parse_lh(buf: &Vec<u8>, pos: usize) -> (r: Option<(u32, usize)>)
    ensures
        match r {
            Some((v, e)) => e <= buf@.len() && sp_lh(buf@, pos as int) == Some((v, e as int)),
            None => sp_lh(buf@, pos as int) is None,
        },
{
    let (ip, e) = match crate::json::parse_u64(buf, pos) {
        Some(p) => p,
        None => {
            return None;
        }
    };
    if ip > u32::MAX as u64 {
        return None;
    }
    if e < buf.len() && buf[e] == 46 {
        if e + 1 < buf.len() && 48 <= buf[e + 1] && buf[e + 1] <= 57 {
            let d1 = (buf[e + 1] - 48) as u64;
            if e + 2 < buf.len() && 48 <= buf[e + 2] && buf[e + 2] <= 57 {
                let d2 = (buf[e + 2] - 48) as u64;
                let total = ip * 100 + d1 * 10 + d2;
                if total > u32::MAX as u64 {
                    return None;
                }
                let stop = skip_digits(buf, e + 2 + 1);
                Some((total as u32, stop))
            } else {
                let total = ip * 100 + d1 * 10;
                if total > u32::MAX as u64 {
                    return None;
                }
                Some((total as u32, e + 2))
            }
        } else {
            None
        }
    } else {
        let total = ip * 100;
        if total > u32::MAX as u64 {
            return None;
        }
        Some((total as u32, e))
    }
}

/// The first position at or after `pos` that does not hold a digit.
fn skip_digits(buf: &Vec<u8>, pos: usize) -> (r: usize)
    requires
        pos <= buf@.len(),
    ensures
        r <= buf@.len(),
        r as int == sp_skip_digits(buf@, pos as int),
{
    let mut i = pos;
    while i < buf.len() && 48 <= buf[i] && buf[i] <= 57
        invariant
            pos <= i <= buf@.len(),
            sp_skip_digits(buf@, pos as int) == sp_skip_digits(buf@, i as int),
        decreases buf@.len() - i,
    {
        i = i + 1;
    }
    i
}

/// Read the cover override: `null` or a string.
fn parse_cover(buf: &Vec<u8>, pos: usize) -> (r: Option<(Option<Vec<u8>>, usize)>)
    ensures
        match r {
            Some((v, e)) => e <= buf@.len() && sp_cover(buf@, pos as int) == Some((
                v.deep_view(), e as int,
            )),
            None => sp_cover(buf@, pos as int) is None,
        },
{
    if pos < buf.len() && buf[pos] == 110 {
        match crate::json::expect_lit(buf, pos, "null") {
            Some(e) => {
                proof {
                    assert(("null").spec_bytes() =~= tok_null()) by {
                        reveal_strlit("null");
                        assert(("null")@.len() == 4);
                        assert(("null").is_ascii());
                        vstd::string::is_ascii_spec_bytes("null");
                    }
                }
                Some((None, e))
            }
            None => {
                proof {
                    assert(("null").spec_bytes() =~= tok_null()) by {
                        reveal_strlit("null");
                        assert(("null")@.len() == 4);
                        assert(("null").is_ascii());
                        vstd::string::is_ascii_spec_bytes("null");
                    }
                }
                None
            }
        }
    } else {
        match crate::json::parse_jstr(buf, pos) {
            Some((t, e)) => {
                proof {
                    assert(Some(t).deep_view() =~= Some(t@));
                }
                Some((Some(t), e))
            }
            None => None,
        }
    }
}

/// Read one `[name, ocr]` pair.
fn parse_pair(buf: &Vec<u8>, pos: usize) -> (r: Option<(PageEntry, usize)>)
    ensures
        match r {
            Some((v, e)) => e <= buf@.len() && sp_pair(buf@, pos as int) == Some((
                v@, e as int,
            )),
            None => sp_pair(buf@, pos as int) is None,
        },
{
    if !(pos < buf.len() && buf[pos] == 91) {
        return None;
    }
    match crate::json::parse_jstr(buf, pos + 1) {
        None => None,
        Some((a, e1)) => {
            if !(e1 < buf.len() && buf[e1] == 44) {
                return None;
            }
            match crate::json::parse_jstr(buf, e1 + 1) {
                None => None,
                Some((b, e2)) => {
                    if !(e2 < buf.len() && buf[e2] == 93) {
                        return None;
                    }
                    let p = PageEntry { name: a, ocr: b };
                    proof {
                        assert(p.name.deep_view() =~= p.name@);
                        assert(p.ocr.deep_view() =~= p.ocr@);
                    }
                    Some((p, e2 + 1))
                }
            }
        }
    }
}

/// Read the pages list.
#[verifier::rlimit(100)]
#[verifier::spinoff_prover]
fn parse_pages(buf: &Vec<u8>, pos: usize) -> (r: Option<(Vec<PageEntry>, usize)>)
    ensures
        match r {
            Some((v, e)) => e <= buf@.len() && sp_pages(buf@, pos as int) == Some((
                v.deep_view(), e as int,
            )),
            None => sp_pages(buf@, pos as int) is None,
        },
{
    if !(pos < buf.len() && buf[pos] == 91) {
        return None;
    }
    if pos + 1 < buf.len() && buf[pos + 1] == 93 {
        let empty: Vec<PageEntry> = Vec::new();
        proof {
            assert(empty.deep_view() =~= Seq::<(Seq<u8>, Seq<u8>)>::empty());
        }
        return Some((empty, pos + 2));
    }
    let n = buf.len();
    let mut fuel: usize = n;
    let mut acc: Vec<PageEntry> = Vec::new();
    let mut i: usize = 0;
    match parse_pair(buf, pos + 1) {
        None => {
            return None;
        }
        Some((p0, e0)) => {
            let ghost pv0 = p0.deep_view();
            proof {
                assert(pv0 == p0@);
            }
            acc.push(p0);
            i = e0;
            proof {
                reveal(pages_loop_inv);
                assert(acc.deep_view() =~= seq![pv0]);
                assert(pages_loop_inv(buf@, pos as int, i as int, fuel as nat, acc.deep_view()));
            }
        }
    }
    loop
        invariant
            n == buf@.len(),
            pos < buf@.len(),
            i <= n,
            pages_loop_inv(buf@, pos as int, i as int, fuel as nat, acc.deep_view()),
        decreases fuel,
    {
        let blen = buf.len();
        if !(i < blen) {
            proof {
                reveal(pages_loop_inv);
                lemma_pages_rest_unfold(buf@, i, fuel);
            }
            return None;
        }
        if buf[i] == 93 {
            proof {
                reveal(pages_loop_inv);
                lemma_pages_rest_unfold(buf@, i, fuel);
                assert(acc.deep_view() + Seq::<(Seq<u8>, Seq<u8>)>::empty() =~= acc.deep_view());
            }
            return Some((acc, i + 1));
        }
        if buf[i] == 44 && fuel > 0 {
            match parse_pair(buf, i + 1) {
                None => {
                    proof {
                        reveal(pages_loop_inv);
                        lemma_pages_rest_unfold(buf@, i, fuel);
                    }
                    return None;
                }
                Some((p, e)) => {
                    let ghost pre = acc.deep_view();
                    let ghost pv = p@;
                    proof {
                        
                        reveal(pages_loop_inv);
                        lemma_pages_rest_unfold(buf@, i, fuel);
                    }
                    acc.push(p);
                    proof {
                        reveal(pages_loop_inv);
                        assert(acc.deep_view() =~= pre.push(pv));
                        assert(pre.push(pv) =~= pre + seq![pv]);
                        match sp_pages_rest(buf@, e as int, (fuel - 1) as nat) {
                            Some(q) => {
                                assert(pre + (seq![pv] + q.0) =~= (pre + seq![pv]) + q.0);
                            }
                            None => {}
                        }
                        assert(pages_loop_inv(
                            buf@,
                            pos as int,
                            e as int,
                            (fuel - 1) as nat,
                            acc.deep_view(),
                        ));
                    }
                    i = e;
                    fuel = fuel - 1;
                }
            }
        } else {
            proof {
                reveal(pages_loop_inv);
                lemma_pages_rest_unfold(buf@, i, fuel);
            }
            return None;
        }
    }
}
/// Read a list of strings.
#[verifier::rlimit(100)]
#[verifier::spinoff_prover]
fn parse_lines(buf: &Vec<u8>, pos: usize) -> (r: Option<(Vec<Vec<u8>>, usize)>)
    ensures
        match r {
            Some((v, e)) => e <= buf@.len() && sp_lines(buf@, pos as int) == Some((
                v.deep_view(), e as int,
            )),
            None => sp_lines(buf@, pos as int) is None,
        },
{
    if !(pos < buf.len() && buf[pos] == 91) {
        return None;
    }
    if pos + 1 < buf.len() && buf[pos + 1] == 93 {
        let empty: Vec<Vec<u8>> = Vec::new();
        proof {
            assert(empty.deep_view() =~= Seq::<Seq<u8>>::empty());
        }
        return Some((empty, pos + 2));
    }
    let n = buf.len();
    let mut fuel: usize = n;
    let mut acc: Vec<Vec<u8>> = Vec::new();
    let mut i: usize = 0;
    match crate::json::parse_jstr(buf, pos + 1) {
        None => {
            return None;
        }
        Some((p0, e0)) => {
            let ghost pv0 = p0.deep_view();
            proof {
                assert(pv0 =~= p0@);
            }
            acc.push(p0);
            i = e0;
            proof {
                reveal(lines_loop_inv);
                assert(acc.deep_view() =~= seq![pv0]);
                assert(lines_loop_inv(buf@, pos as int, i as int, fuel as nat, acc.deep_view()));
            }
        }
    }
    loop
        invariant
            n == buf@.len(),
            pos < buf@.len(),
            i <= n,
            lines_loop_inv(buf@, pos as int, i as int, fuel as nat, acc.deep_view()),
        decreases fuel,
    {
        let blen = buf.len();
        if !(i < blen) {
            proof {
                reveal(lines_loop_inv);
                lemma_lines_rest_unfold(buf@, i, fuel);
            }
            return None;
        }
        if buf[i] == 93 {
            proof {
                reveal(lines_loop_inv);
                lemma_lines_rest_unfold(buf@, i, fuel);
                assert(acc.deep_view() + Seq::<Seq<u8>>::empty() =~= acc.deep_view());
            }
            return Some((acc, i + 1));
        }
        if buf[i] == 44 && fuel > 0 {
            match crate::json::parse_jstr(buf, i + 1) {
                None => {
                    proof {
                        reveal(lines_loop_inv);
                        lemma_lines_rest_unfold(buf@, i, fuel);
                    }
                    return None;
                }
                Some((p, e)) => {
                    let ghost pre = acc.deep_view();
                    let ghost pv = p.deep_view();
                    proof {
                        assert(pv =~= p@);
                        reveal(lines_loop_inv);
                        lemma_lines_rest_unfold(buf@, i, fuel);
                    }
                    acc.push(p);
                    proof {
                        reveal(lines_loop_inv);
                        assert(acc.deep_view() =~= pre.push(pv));
                        assert(pre.push(pv) =~= pre + seq![pv]);
                        match sp_lines_rest(buf@, e as int, (fuel - 1) as nat) {
                            Some(q) => {
                                assert(pre + (seq![pv] + q.0) =~= (pre + seq![pv]) + q.0);
                            }
                            None => {}
                        }
                        assert(lines_loop_inv(
                            buf@,
                            pos as int,
                            e as int,
                            (fuel - 1) as nat,
                            acc.deep_view(),
                        ));
                    }
                    i = e;
                    fuel = fuel - 1;
                }
            }
        } else {
            proof {
                reveal(lines_loop_inv);
                lemma_lines_rest_unfold(buf@, i, fuel);
            }
            return None;
        }
    }
}
/// Read the magnifier settings object.
fn parse_mag(buf: &Vec<u8>, pos: usize) -> (r: Option<(MagnifierSettings, usize)>)
    ensures
        match r {
            Some((v, e)) => e <= buf@.len() && sp_mag(buf@, pos as int) == Some((
                v, e as int,
            )),
            None => sp_mag(buf@, pos as int) is None,
        },
{
    let i1 = match crate::json::expect_lit(buf, pos, "{\"zoom\":") {
        Some(e) => e,
        None => {
            return None;
        }
    };
    let (zoom, i2) = match parse_u16(buf, i1) {
        Some(p) => p,
        None => {
            return None;
        }
    };
    let i3 = match crate::json::expect_lit(buf, i2, ",\"radius\":") {
        Some(e) => e,
        None => {
            return None;
        }
    };
    let (radius, i4) = match parse_u8(buf, i3) {
        Some(p) => p,
        None => {
            return None;
        }
    };
    let i5 = match crate::json::expect_lit(buf, i4, ",\"height\":") {
        Some(e) => e,
        None => {
            return None;
        }
    };
    let (height, i6) = match parse_u16(buf, i5) {
        Some(p) => p,
        None => {
            return None;
        }
    };
    let i7 = match crate::json::expect_lit(buf, i6, ",\"width\":") {
        Some(e) => e,
        None => {
            return None;
        }
    };
    let (width, i8) = match parse_u16(buf, i7) {
        Some(p) => p,
        None => {
            return None;
        }
    };
    if i8 < buf.len() && buf[i8] == 125 {
        Some((MagnifierSettings { zoom, radius, height, width }, i8 + 1))
    } else {
        None
    }
}

/// Read the reader state object.
fn parse_rs(buf: &Vec<u8>, pos: usize) -> (r: Option<(ReaderState, usize)>)
    ensures
        match r {
            Some((v, e)) => e <= buf@.len() && sp_rs(buf@, pos as int) == Some((
                v, e as int,
            )),
            None => sp_rs(buf@, pos as int) is None,
        },
{
    let i1 = match crate::json::expect_lit(buf, pos, "{\"single_page\":") {
        Some(e) => e,
        None => {
            return None;
        }
    };
    let (single_page, i2) = match crate::json::parse_bool(buf, i1) {
        Some(p) => p,
        None => {
            return None;
        }
    };
    let i3 = match crate::json::expect_lit(buf, i2, ",\"current_page\":") {
        Some(e) => e,
        None => {
            return None;
        }
    };
    let (current_page, i4) = match parse_usize(buf, i3) {
        Some(p) => p,
        None => {
            return None;
        }
    };
    let i5 = match crate::json::expect_lit(buf, i4, ",\"first_page_is_cover\":") {
        Some(e) => e,
        None => {
            return None;
        }
    };
    let (first_page_is_cover, i6) = match crate::json::parse_bool(buf, i5) {
        Some(p) => p,
        None => {
            return None;
        }
    };
    if i6 < buf.len() && buf[i6] == 125 {
        Some((ReaderState { single_page, current_page, first_page_is_cover }, i6 + 1))
    } else {
        None
    }
}

/// Read one OCR block object.
#[verifier::rlimit(100)]
fn parse_block(buf: &Vec<u8>, pos: usize) -> (r: Option<(OcrBlock, usize)>)
    ensures
        match r {
            Some((v, e)) => e <= buf@.len() && sp_block(buf@, pos as int) == Some((
                v@, e as int,
            )),
            None => sp_block(buf@, pos as int) is None,
        },
{
    let i1 = match crate::json::expect_lit(buf, pos, "{\"uuid\":") {
        Some(e) => e,
        None => {
            return None;
        }
    };
    let (uuid, i2) = match crate::json::parse_jstr(buf, i1) {
        Some(p) => p,
        None => {
            return None;
        }
    };
    let i3 = match crate::json::expect_lit(buf, i2, ",\"box\":[") {
        Some(e) => e,
        None => {
            return None;
        }
    };
    let (b0, i4) = match parse_u32(buf, i3) {
        Some(p) => p,
        None => {
            return None;
        }
    };
    if !(i4 < buf.len() && buf[i4] == 44) {
        return None;
    }
    let (b1, i5) = match parse_u32(buf, i4 + 1) {
        Some(p) => p,
        None => {
            return None;
        }
    };
    if !(i5 < buf.len() && buf[i5] == 44) {
        return None;
    }
    let (b2, i6) = match parse_u32(buf, i5 + 1) {
        Some(p) => p,
        None => {
            return None;
        }
    };
    if !(i6 < buf.len() && buf[i6] == 44) {
        return None;
    }
    let (b3, i7) = match parse_u32(buf, i6 + 1) {
        Some(p) => p,
        None => {
            return None;
        }
    };
    let i8 = match crate::json::expect_lit(buf, i7, "],\"vertical\":") {
        Some(e) => e,
        None => {
            return None;
        }
    };
    let (vertical, i9) = match crate::json::parse_bool(buf, i8) {
        Some(p) => p,
        None => {
            return None;
        }
    };
    let i10 = match crate::json::expect_lit(buf, i9, ",\"font_size\":") {
        Some(e) => e,
        None => {
            return None;
        }
    };
    let (font_size, i11) = match parse_u32(buf, i10) {
        Some(p) => p,
        None => {
            return None;
        }
    };
    let i12 = match crate::json::expect_lit(buf, i11, ",\"lines\":") {
        Some(e) => e,
        None => {
            return None;
        }
    };
    let (lines, i13) = match parse_lines(buf, i12) {
        Some(p) => p,
        None => {
            return None;
        }
    };
    if i13 < buf.len() && buf[i13] == 125 {
        let b = OcrBlock { uuid, box_: (b0, b1, b2, b3), vertical, font_size, lines };
        proof {
            assert(b.uuid.deep_view() =~= b.uuid@);
        }
        Some((b, i13 + 1))
    } else {
        None
    }
}

/// Read the block list.
#[verifier::rlimit(100)]
#[verifier::spinoff_prover]
fn parse_blocks(buf: &Vec<u8>, pos: usize) -> (r: Option<(Vec<OcrBlock>, usize)>)
    ensures
        match r {
            Some((v, e)) => e <= buf@.len() && sp_blocks(buf@, pos as int) == Some((
                v.deep_view(), e as int,
            )),
            None => sp_blocks(buf@, pos as int) is None,
        },
{
    if !(pos < buf.len() && buf[pos] == 91) {
        return None;
    }
    if pos + 1 < buf.len() && buf[pos + 1] == 93 {
        let empty: Vec<OcrBlock> = Vec::new();
        proof {
            assert(empty.deep_view() =~= Seq::<OcrBlockV>::empty());
        }
        return Some((empty, pos + 2));
    }
    let n = buf.len();
    let mut fuel: usize = n;
    let mut acc: Vec<OcrBlock> = Vec::new();
    let mut i: usize = 0;
    match parse_block(buf, pos + 1) {
        None => {
            return None;
        }
        Some((p0, e0)) => {
            let ghost pv0 = p0.deep_view();
            proof {
                assert(pv0 == p0@);
            }
            acc.push(p0);
            i = e0;
            proof {
                reveal(blocks_loop_inv);
                assert(acc.deep_view() =~= seq![pv0]);
                assert(blocks_loop_inv(buf@, pos as int, i as int, fuel as nat, acc.deep_view()));
            }
        }
    }
    loop
        invariant
            n == buf@.len(),
            pos < buf@.len(),
            i <= n,
            blocks_loop_inv(buf@, pos as int, i as int, fuel as nat, acc.deep_view()),
        decreases fuel,
    {
        let blen = buf.len();
        if !(i < blen) {
            proof {
                reveal(blocks_loop_inv);
                lemma_blocks_rest_unfold(buf@, i, fuel);
            }
            return None;
        }
        if buf[i] == 93 {
            proof {
                reveal(blocks_loop_inv);
                lemma_blocks_rest_unfold(buf@, i, fuel);
                assert(acc.deep_view() + Seq::<OcrBlockV>::empty() =~= acc.deep_view());
            }
            return Some((acc, i + 1));
        }
        if buf[i] == 44 && fuel > 0 {
            match parse_block(buf, i + 1) {
                None => {
                    proof {
                        reveal(blocks_loop_inv);
                        lemma_blocks_rest_unfold(buf@, i, fuel);
                    }
                    return None;
                }
                Some((p, e)) => {
                    let ghost pre = acc.deep_view();
                    let ghost pv = p@;
                    proof {
                        
                        reveal(blocks_loop_inv);
                        lemma_blocks_rest_unfold(buf@, i, fuel);
                    }
                    acc.push(p);
                    proof {
                        reveal(blocks_loop_inv);
                        assert(acc.deep_view() =~= pre.push(pv));
                        assert(pre.push(pv) =~= pre + seq![pv]);
                        match sp_blocks_rest(buf@, e as int, (fuel - 1) as nat) {
                            Some(q) => {
                                assert(pre + (seq![pv] + q.0) =~= (pre + seq![pv]) + q.0);
                            }
                            None => {}
                        }
                        assert(blocks_loop_inv(
                            buf@,
                            pos as int,
                            e as int,
                            (fuel - 1) as nat,
                            acc.deep_view(),
                        ));
                    }
                    i = e;
                    fuel = fuel - 1;
                }
            }
        } else {
            proof {
                reveal(blocks_loop_inv);
                lemma_blocks_rest_unfold(buf@, i, fuel);
            }
            return None;
        }
    }
}
/// Read a whole metadata document in its whitespace-free rendering, and
/// nothing after it. The record's store key is zero, to be assigned on
/// insertion.
#[verifier::rlimit(100)]
fn volume_from_json_strict(buf: &Vec<u8>) -> (r: Option<VolumeMetadata>)
    ensures
        match r {
            Some(v) => sp_volume(buf@, 0) == Some((v@, buf@.len() as int)),
            None => !(sp_volume(buf@, 0) matches Some((w, e)) && e == buf@.len()),
        },
{
    let i1 = match crate::json::expect_lit(buf, 0, "{\"version\":") {
        Some(e) => e,
        None => {
            return None;
        }
    };
    let (version, i2) = match crate::json::parse_jstr(buf, i1) {
        Some(p) => p,
        None => {
            return None;
        }
    };
    let i3 = match crate::json::expect_lit(buf, i2, ",\"created_at\":") {
        Some(e) => e,
        None => {
            return None;
        }
    };
    let (created_at, i4) = match crate::json::parse_jstr(buf, i3) {
        Some(p) => p,
        None => {
            return None;
        }
    };
    let i5 = match crate::json::expect_lit(buf, i4, ",\"modified_at\":") {
        Some(e) => e,
        None => {
            return None;
        }
    };
    let (modified_at, i6) = match crate::json::parse_jstr(buf, i5) {
        Some(p) => p,
        None => {
            return None;
        }
    };
    let i7 = match crate::json::expect_lit(buf, i6, ",\"series\":") {
        Some(e) => e,
        None => {
            return None;
        }
    };
    let (series, i8) = match crate::json::parse_jstr(buf, i7) {
        Some(p) => p,
        None => {
            return None;
        }
    };
    let i9 = match crate::json::expect_lit(buf, i8, ",\"title\":") {
        Some(e) => e,
        None => {
            return None;
        }
    };
    let (title, i10) = match crate::json::parse_jstr(buf, i9) {
        Some(p) => p,
        None => {
            return None;
        }
    };
    let i11 = match crate::json::expect_lit(buf, i10, ",\"volume\":") {
        Some(e) => e,
        None => {
            return None;
        }
    };
    let (volume, i12) = match crate::json::parse_jstr(buf, i11) {
        Some(p) => p,
        None => {
            return None;
        }
    };
    let i13 = match crate::json::expect_lit(buf, i12, ",\"volume_uuid\":") {
        Some(e) => e,
        None => {
            return None;
        }
    };
    let (volume_uuid, i14) = match crate::json::parse_jstr(buf, i13) {
        Some(p) => p,
        None => {
            return None;
        }
    };
    let i15 = match crate::json::expect_lit(buf, i14, ",\"pages\":") {
        Some(e) => e,
        None => {
            return None;
        }
    };
    let (pages, i16) = match parse_pages(buf, i15) {
        Some(p) => p,
        None => {
            return None;
        }
    };
    let i17 = match crate::json::expect_lit(buf, i16, ",\"cover\":") {
        Some(e) => e,
        None => {
            return None;
        }
    };
    let (cover, i18) = match parse_cover(buf, i17) {
        Some(p) => p,
        None => {
            return None;
        }
    };
    let i19 = match crate::json::expect_lit(buf, i18, ",\"hide_sidebar\":") {
        Some(e) => e,
        None => {
            return None;
        }
    };
    let (hide_sidebar, i20) = match crate::json::parse_bool(buf, i19) {
        Some(p) => p,
        None => {
            return None;
        }
    };
    let i21 = match crate::json::expect_lit(buf, i20, ",\"line_height\":") {
        Some(e) => e,
        None => {
            return None;
        }
    };
    let (line_height, i22) = match parse_lh(buf, i21) {
        Some(p) => p,
        None => {
            return None;
        }
    };
    let i23 = match crate::json::expect_lit(buf, i22, ",\"magnifier\":") {
        Some(e) => e,
        None => {
            return None;
        }
    };
    let (magnifier, i24) = match parse_mag(buf, i23) {
        Some(p) => p,
        None => {
            return None;
        }
    };
    let i25 = match crate::json::expect_lit(buf, i24, ",\"reader_state\":") {
        Some(e) => e,
        None => {
            return None;
        }
    };
    let (reader_state, i26) = match parse_rs(buf, i25) {
        Some(p) => p,
        None => {
            return None;
        }
    };
    if !(i26 < buf.len() && buf[i26] == 125) {
        return None;
    }
    if i26 + 1 != buf.len() {
        return None;
    }
    let v = VolumeMetadata {
        id: 0,
        version,
        created_at,
        modified_at,
        series,
        title,
        volume,
        volume_uuid,
        pages,
        cover,
        hide_sidebar,
        line_height,
        magnifier,
        reader_state,
    };
    proof {
        assert(v.version.deep_view() =~= v.version@);
        assert(v.created_at.deep_view() =~= v.created_at@);
        assert(v.modified_at.deep_view() =~= v.modified_at@);
        assert(v.series.deep_view() =~= v.series@);
        assert(v.title.deep_view() =~= v.title@);
        assert(v.volume.deep_view() =~= v.volume@);
        assert(v.volume_uuid.deep_view() =~= v.volume_uuid@);
    }
    Some(v)
}

/// Read a whole OCR document in its whitespace-free rendering, and nothing
/// after it.
fn page_ocr_from_json_strict(buf: &Vec<u8>) -> (r: Option<PageOcr>)
    ensures
        match r {
            Some(o) => sp_ocr(buf@, 0) == Some((o@, buf@.len() as int)),
            None => !(sp_ocr(buf@, 0) matches Some((w, e)) && e == buf@.len()),
        },
{
    let i1 = match crate::json::expect_lit(buf, 0, "{\"img_width\":") {
        Some(e) => e,
        None => {
            return None;
        }
    };
    let (img_width, i2) = match parse_u32(buf, i1) {
        Some(p) => p,
        None => {
            return None;
        }
    };
    let i3 = match crate::json::expect_lit(buf, i2, ",\"img_height\":") {
        Some(e) => e,
        None => {
            return None;
        }
    };
    let (img_height, i4) = match parse_u32(buf, i3) {
        Some(p) => p,
        None => {
            return None;
        }
    };
    let i5 = match crate::json::expect_lit(buf, i4, ",\"blocks\":") {
        Some(e) => e,
        None => {
            return None;
        }
    };
    let (blocks, i6) = match parse_blocks(buf, i5) {
        Some(p) => p,
        None => {
            return None;
        }
    };
    if !(i6 < buf.len() && buf[i6] == 125) {
        return None;
    }
    if i6 + 1 != buf.len() {
        return None;
    }
    Some(PageOcr { img_width, img_height, blocks })
}

// --- the writer -------------------------------------------------------------

/// Append one `[name, ocr]` pair.
fn write_pair(out: &mut Vec<u8>, p: &PageEntry)
    ensures
        final(out)@ == old(out)@ + pair_json(p@),
{
    out.push(91);
    write_jstr(out, &p.name);
    out.push(44);
    write_jstr(out, &p.ocr);
    out.push(93);
    proof {
        assert(p.name.deep_view() =~= p.name@);
        assert(p.ocr.deep_view() =~= p.ocr@);
        assert(out@ =~= old(out)@ + pair_json(p@));
    }
}

/// Append the pages list.
fn write_pages(out: &mut Vec<u8>, ps: &Vec<PageEntry>)
    ensures
        final(out)@ == old(out)@ + pages_json(ps.deep_view()),
{
    let ghost psv = ps.deep_view();
    let n = ps.len();
    out.push(91);
    if n == 0 {
        out.push(93);
        proof {
            assert(out@ =~= old(out)@ + pages_json(psv));
        }
        return ;
    }
    proof {
        assert(ps@[0].deep_view() == psv[0]);
    }
    write_pair(out, &ps[0]);
    proof {
        assert(out@ + pages_rest_json(psv.skip(1)) =~= old(out)@ + pages_json(psv)) by {
            assert(psv.drop_first() =~= psv.skip(1));
        }
    }
    for k in 1..n
        invariant
            n == ps@.len(),
            psv == ps.deep_view(),
            out@ + pages_rest_json(psv.skip(k as int)) == old(out)@ + pages_json(psv),
    {
        out.push(44);
        proof {
            assert(ps@[k as int].deep_view() == psv[k as int]);
        }
        write_pair(out, &ps[k]);
        proof {
            assert(pages_rest_json(psv.skip(k as int)) == seq![44u8] + pair_json(psv[k as int])
                + pages_rest_json(psv.skip(k + 1))) by {
                assert(psv.skip(k as int)[0] == psv[k as int]);
                assert(psv.skip(k as int).drop_first() =~= psv.skip(k + 1));
            }
            assert(out@ + pages_rest_json(psv.skip(k + 1)) =~= old(out)@ + pages_json(psv));
        }
    }
    out.push(93);
    proof {
        assert(psv.skip(n as int) =~= Seq::<(Seq<u8>, Seq<u8>)>::empty());
        assert(pages_rest_json(psv.skip(n as int)) == seq![93u8]);
        assert(out@ =~= old(out)@ + pages_json(psv));
    }
}

/// Append a list of strings.
fn write_lines(out: &mut Vec<u8>, ls: &Vec<Vec<u8>>)
    ensures
        final(out)@ == old(out)@ + lines_json(ls.deep_view()),
{
    let ghost lsv = ls.deep_view();
    let n = ls.len();
    out.push(91);
    if n == 0 {
        out.push(93);
        proof {
            assert(out@ =~= old(out)@ + lines_json(lsv));
        }
        return ;
    }
    proof {
        assert(ls@[0].deep_view() =~= ls@[0]@);
    }
    write_jstr(out, &ls[0]);
    proof {
        assert(out@ + lines_rest_json(lsv.skip(1)) =~= old(out)@ + lines_json(lsv)) by {
            assert(lsv.drop_first() =~= lsv.skip(1));
        }
    }
    for k in 1..n
        invariant
            n == ls@.len(),
            lsv == ls.deep_view(),
            out@ + lines_rest_json(lsv.skip(k as int)) == old(out)@ + lines_json(lsv),
    {
        out.push(44);
        proof {
            assert(ls@[k as int].deep_view() =~= ls@[k as int]@);
        }
        write_jstr(out, &ls[k]);
        proof {
            assert(lines_rest_json(lsv.skip(k as int)) == seq![44u8] + jstr(lsv[k as int])
                + lines_rest_json(lsv.skip(k + 1))) by {
                assert(lsv.skip(k as int)[0] == lsv[k as int]);
                assert(lsv.skip(k as int).drop_first() =~= lsv.skip(k + 1));
            }
            assert(out@ + lines_rest_json(lsv.skip(k + 1)) =~= old(out)@ + lines_json(lsv));
        }
    }
    out.push(93);
    proof {
        assert(lsv.skip(n as int) =~= Seq::<Seq<u8>>::empty());
        assert(lines_rest_json(lsv.skip(n as int)) == seq![93u8]);
        assert(out@ =~= old(out)@ + lines_json(lsv));
    }
}

/// Append the line height in its wire form.
fn write_lh(out: &mut Vec<u8>, n: u32)
    ensures
        final(out)@ == old(out)@ + lh_json(n),
{
    write_u64(out, (n / 100) as u64);
    out.push(46);
    out.push(48 + ((n / 10) % 10) as u8);
    out.push(48 + (n % 10) as u8);
    proof {
        assert(dec_digits(((n / 10) % 10) as nat) =~= seq![(48 + (n / 10) % 10) as u8]);
        assert(dec_digits((n % 10) as nat) =~= seq![(48 + n % 10) as u8]);
        assert(out@ =~= old(out)@ + lh_json(n));
    }
}

/// Append the magnifier settings object.
#[verifier::rlimit(100)]
#[verifier::spinoff_prover]
fn write_mag(out: &mut Vec<u8>, m: &MagnifierSettings)
    ensures
        final(out)@ == old(out)@ + mag_json(*m),
{
    write_lit(out, "{\"zoom\":");
    write_u64(out, m.zoom as u64);
    write_lit(out, ",\"radius\":");
    write_u64(out, m.radius as u64);
    write_lit(out, ",\"height\":");
    write_u64(out, m.height as u64);
    write_lit(out, ",\"width\":");
    write_u64(out, m.width as u64);
    out.push(125);
    proof {
        assert(out@ =~= old(out)@ + mag_json(*m));
    }
}

/// Append the reader state object.
#[verifier::rlimit(100)]
fn write_rs(out: &mut Vec<u8>, r: &ReaderState)
    ensures
        final(out)@ == old(out)@ + rs_json(*r),
{
    write_lit(out, "{\"single_page\":");
    write_bool(out, r.single_page);
    write_lit(out, ",\"current_page\":");
    write_u64(out, r.current_page as u64);
    write_lit(out, ",\"first_page_is_cover\":");
    write_bool(out, r.first_page_is_cover);
    out.push(125);
    proof {
        assert(out@ =~= old(out)@ + rs_json(*r));
    }
}

/// Append one OCR block object.
#[verifier::rlimit(100)]
#[verifier::spinoff_prover]
fn write_block(out: &mut Vec<u8>, b: &OcrBlock)
    ensures
        final(out)@ == old(out)@ + block_json(b@),
{
    write_lit(out, "{\"uuid\":");
    write_jstr(out, &b.uuid);
    write_lit(out, ",\"box\":[");
    write_u64(out, b.box_.0 as u64);
    out.push(44);
    write_u64(out, b.box_.1 as u64);
    out.push(44);
    write_u64(out, b.box_.2 as u64);
    out.push(44);
    write_u64(out, b.box_.3 as u64);
    write_lit(out, "],\"vertical\":");
    write_bool(out, b.vertical);
    write_lit(out, ",\"font_size\":");
    write_u64(out, b.font_size as u64);
    write_lit(out, ",\"lines\":");
    write_lines(out, &b.lines);
    out.push(125);
    proof {
        assert(b.uuid.deep_view() =~= b.uuid@);
        assert(out@ =~= old(out)@ + block_json(b@));
    }
}

/// Append the block list.
#[verifier::rlimit(100)]
#[verifier::spinoff_prover]
fn write_blocks(out: &mut Vec<u8>, bs: &Vec<OcrBlock>)
    ensures
        final(out)@ == old(out)@ + blocks_json(bs.deep_view()),
{
    let ghost bsv = bs.deep_view();
    let n = bs.len();
    out.push(91);
    if n == 0 {
        out.push(93);
        proof {
            assert(out@ =~= old(out)@ + blocks_json(bsv));
        }
        return ;
    }
    proof {
        assert(bs@[0].deep_view() == bsv[0]);
    }
    write_block(out, &bs[0]);
    proof {
        assert(out@ + blocks_rest_json(bsv.skip(1)) =~= old(out)@ + blocks_json(bsv)) by {
            assert(bsv.drop_first() =~= bsv.skip(1));
        }
    }
    for k in 1..n
        invariant
            n == bs@.len(),
            bsv == bs.deep_view(),
            out@ + blocks_rest_json(bsv.skip(k as int)) == old(out)@ + blocks_json(bsv),
    {
        out.push(44);
        proof {
            assert(bs@[k as int].deep_view() == bsv[k as int]);
        }
        write_block(out, &bs[k]);
        proof {
            assert(blocks_rest_json(bsv.skip(k as int)) == seq![44u8] + block_json(bsv[k as int])
                + blocks_rest_json(bsv.skip(k + 1))) by {
                assert(bsv.skip(k as int)[0] == bsv[k as int]);
                assert(bsv.skip(k as int).drop_first() =~= bsv.skip(k + 1));
            }
            assert(out@ + blocks_rest_json(bsv.skip(k + 1)) =~= old(out)@ + blocks_json(bsv));
        }
    }
    out.push(93);
    proof {
        assert(bsv.skip(n as int) =~= Seq::<OcrBlockV>::empty());
        assert(blocks_rest_json(bsv.skip(n as int)) == seq![93u8]);
        assert(out@ =~= old(out)@ + blocks_json(bsv));
    }
}

/// The canonical metadata document of `v`, as bytes. The record's store key
/// is not rendered: an archive carries no local ids.
/// The head of the document, written field after field.
#[verifier::rlimit(100)]
#[verifier::spinoff_prover]
proof fn lemma_vol_head_flat(v: VolumeV)
    ensures
        vol_json_head(v) == ("{\"version\":").spec_bytes() + jstr(v.version) + (
        ",\"created_at\":").spec_bytes() + jstr(v.created_at) + (",\"modified_at\":").spec_bytes()
            + jstr(v.modified_at) + (",\"series\":").spec_bytes() + jstr(v.series) + (
        ",\"title\":").spec_bytes() + jstr(v.title) + (",\"volume\":").spec_bytes() + jstr(
            v.volume,
        ) + (",\"volume_uuid\":").spec_bytes() + jstr(v.volume_uuid),
{
    assert(vol_json_head(v) =~= ("{\"version\":").spec_bytes() + jstr(v.version) + (
    ",\"created_at\":").spec_bytes() + jstr(v.created_at) + (",\"modified_at\":").spec_bytes()
        + jstr(v.modified_at) + (",\"series\":").spec_bytes() + jstr(v.series) + (
    ",\"title\":").spec_bytes() + jstr(v.title) + (",\"volume\":").spec_bytes() + jstr(v.volume)
        + (",\"volume_uuid\":").spec_bytes() + jstr(v.volume_uuid));
}

/// The end of the document, written field after field.
#[verifier::rlimit(100)]
#[verifier::spinoff_prover]
proof fn lemma_vol_end_flat(v: VolumeV)
    ensures
        vol_json_end(v) == (",\"hide_sidebar\":").spec_bytes() + jbool(v.hide_sidebar) + (
        ",\"line_height\":").spec_bytes() + lh_json(v.line_height) + (
        ",\"magnifier\":").spec_bytes() + mag_json(v.magnifier) + (
        ",\"reader_state\":").spec_bytes() + rs_json(v.reader_state) + seq![125u8],
{
    assert(vol_json_end(v) =~= (",\"hide_sidebar\":").spec_bytes() + jbool(v.hide_sidebar) + (
    ",\"line_height\":").spec_bytes() + lh_json(v.line_height) + (
    ",\"magnifier\":").spec_bytes() + mag_json(v.magnifier) + (
    ",\"reader_state\":").spec_bytes() + rs_json(v.reader_state) + seq![125u8]);
}

/// Append the fields through `volume_uuid`.
#[verifier::rlimit(100)]
fn write_vol_head(out: &mut Vec<u8>, v: &VolumeMetadata)
    ensures
        final(out)@ == old(out)@ + vol_json_head(v@),
{
    write_lit(out, "{\"version\":");
    write_jstr(out, &v.version);
    write_lit(out, ",\"created_at\":");
    write_jstr(out, &v.created_at);
    write_lit(out, ",\"modified_at\":");
    write_jstr(out, &v.modified_at);
    write_lit(out, ",\"series\":");
    write_jstr(out, &v.series);
    write_lit(out, ",\"title\":");
    write_jstr(out, &v.title);
    write_lit(out, ",\"volume\":");
    write_jstr(out, &v.volume);
    write_lit(out, ",\"volume_uuid\":");
    write_jstr(out, &v.volume_uuid);
    proof {
        assert(v.version.deep_view() =~= v.version@);
        assert(v.created_at.deep_view() =~= v.created_at@);
        assert(v.modified_at.deep_view() =~= v.modified_at@);
        assert(v.series.deep_view() =~= v.series@);
        assert(v.title.deep_view() =~= v.title@);
        assert(v.volume.deep_view() =~= v.volume@);
        assert(v.volume_uuid.deep_view() =~= v.volume_uuid@);
        lemma_vol_head_flat(v@);
        assert(out@ =~= old(out)@ + (("{\"version\":").spec_bytes() + jstr(v@.version) + (
        ",\"created_at\":").spec_bytes() + jstr(v@.created_at) + (
        ",\"modified_at\":").spec_bytes() + jstr(v@.modified_at) + (",\"series\":").spec_bytes()
            + jstr(v@.series) + (",\"title\":").spec_bytes() + jstr(v@.title) + (
        ",\"volume\":").spec_bytes() + jstr(v@.volume) + (",\"volume_uuid\":").spec_bytes()
            + jstr(v@.volume_uuid)));
    }
}

/// Append the `pages` and `cover` fields.
fn write_vol_mid(out: &mut Vec<u8>, v: &VolumeMetadata)
    ensures
        final(out)@ == old(out)@ + vol_json_mid(v@),
{
    write_lit(out, ",\"pages\":");
    write_pages(out, &v.pages);
    write_lit(out, ",\"cover\":");
    match &v.cover {
        Some(name) => {
            write_jstr(out, name);
            proof {
                assert(name.deep_view() =~= name@);
            }
        }
        None => write_null(out),
    }
    proof {
        assert(out@ =~= old(out)@ + vol_json_mid(v@));
    }
}

/// Append the fields from `hide_sidebar` to the closing brace.
#[verifier::rlimit(100)]
fn write_vol_end(out: &mut Vec<u8>, v: &VolumeMetadata)
    ensures
        final(out)@ == old(out)@ + vol_json_end(v@),
{
    write_lit(out, ",\"hide_sidebar\":");
    write_bool(out, v.hide_sidebar);
    write_lit(out, ",\"line_height\":");
    write_lh(out, v.line_height);
    write_lit(out, ",\"magnifier\":");
    write_mag(out, &v.magnifier);
    write_lit(out, ",\"reader_state\":");
    write_rs(out, &v.reader_state);
    out.push(125);
    proof {
        lemma_vol_end_flat(v@);
        assert(out@ =~= old(out)@ + ((",\"hide_sidebar\":").spec_bytes() + jbool(v@.hide_sidebar)
            + (",\"line_height\":").spec_bytes() + lh_json(v@.line_height) + (
        ",\"magnifier\":").spec_bytes() + mag_json(v@.magnifier) + (
        ",\"reader_state\":").spec_bytes() + rs_json(v@.reader_state) + seq![125u8]));
    }
}

/// The canonical metadata document of `v`, as bytes. The record's store key
/// is not rendered: an archive carries no local ids.
pub fn volume_to_json(v: &VolumeMetadata) -> (r: Vec<u8>)
    ensures
        r@ == vol_json(v@),
{
    let mut out: Vec<u8> = Vec::new();
    write_vol_head(&mut out, v);
    write_vol_mid(&mut out, v);
    write_vol_end(&mut out, v);
    proof {
        assert(out@ =~= vol_json_head(v@) + (vol_json_mid(v@) + vol_json_end(v@)));
        assert(out@ =~= vol_json(v@));
    }
    out
}

/// The canonical document of one page's OCR row, as bytes.
#[verifier::rlimit(100)]
pub fn page_ocr_to_json(o: &PageOcr) -> (r: Vec<u8>)
    ensures
        r@ == ocr_json(o@),
{
    let mut out: Vec<u8> = Vec::new();
    write_lit(&mut out, "{\"img_width\":");
    write_u64(&mut out, o.img_width as u64);
    write_lit(&mut out, ",\"img_height\":");
    write_u64(&mut out, o.img_height as u64);
    write_lit(&mut out, ",\"blocks\":");
    write_blocks(&mut out, &o.blocks);
    out.push(125);
    proof {
        assert(out@ =~= ocr_json(o@));
    }
    out
}

// --- accepting what other producers write -----------------------------------

/// The volume a whole document denotes: the whitespace-free reading, or —
/// where a producer spaced its output — the reading of the document with
/// its inter-token whitespace removed.
pub open spec fn whole_volume_doc(s: Seq<u8>) -> Option<VolumeV> {
    match sp_volume(s, 0) {
        Some((v, e)) => if e == s.len() {
            Some(v)
        } else {
            None
        },
        None => None,
    }
}

pub open spec fn accepted_volume_doc(s: Seq<u8>) -> Option<VolumeV> {
    match whole_volume_doc(s) {
        Some(v) => Some(v),
        None => whole_volume_doc(crate::json::json_ws_stripped(s)),
    }
}

/// The OCR record a whole document denotes, spacing tolerated as above.
pub open spec fn whole_ocr_doc(s: Seq<u8>) -> Option<PageOcrV> {
    match sp_ocr(s, 0) {
        Some((o, e)) => if e == s.len() {
            Some(o)
        } else {
            None
        },
        None => None,
    }
}

pub open spec fn accepted_ocr_doc(s: Seq<u8>) -> Option<PageOcrV> {
    match whole_ocr_doc(s) {
        Some(o) => Some(o),
        None => whole_ocr_doc(crate::json::json_ws_stripped(s)),
    }
}

/// Read a whole metadata document, however its producer spaced it. The
/// record's store key is zero, to be assigned on insertion.
pub fn volume_from_json(buf: &Vec<u8>) -> (r: Option<VolumeMetadata>)
    ensures
        match r {
            Some(v) => accepted_volume_doc(buf@) == Some(v@),
            None => accepted_volume_doc(buf@) is None,
        },
{
    match volume_from_json_strict(buf) {
        Some(v) => Some(v),
        None => {
            let stripped = crate::json::strip_json_ws(buf);
            volume_from_json_strict(&stripped)
        }
    }
}

/// Read a whole OCR document, however its producer spaced it.
pub fn page_ocr_from_json(buf: &Vec<u8>) -> (r: Option<PageOcr>)
    ensures
        match r {
            Some(o) => accepted_ocr_doc(buf@) == Some(o@),
            None => accepted_ocr_doc(buf@) is None,
        },
{
    match page_ocr_from_json_strict(buf) {
        Some(o) => Some(o),
        None => {
            let stripped = crate::json::strip_json_ws(buf);
            page_ocr_from_json_strict(&stripped)
        }
    }
}

} // verus!
