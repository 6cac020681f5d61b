//! The keyed store: an in-memory model of the four logical tables that back
//! the reader — `global` (one settings record), `volumes` (auto-keyed volume
//! rows), `pages` (write-once image blobs) and `ocr` (mutable annotation
//! rows), the latter two keyed by the composite `(volume id, page name)`.
//!
//! Every operation either completes in full or leaves the store untouched;
//! in particular the cascade delete of a volume removes the volume row and
//! every page and OCR row that references it, and nothing else.

use vstd::prelude::*;

use crate::models::{PageImage, PageOcr, Settings, VolumeId, VolumeMetadata};

verus! {

/// One row of the `volumes` table.
pub struct VolumeRow {
    pub id: VolumeId,
    pub volume: VolumeMetadata,
}

/// One row of the `pages` table, keyed by `(volume_id, name)`.
pub struct PageRow {
    pub volume_id: VolumeId,
    pub name: Vec<u8>,
    pub image: PageImage,
}

/// One row of the `ocr` table, keyed by `(volume_id, name)`.
pub struct OcrRow {
    pub volume_id: VolumeId,
    pub name: Vec<u8>,
    pub ocr: PageOcr,
}

/// Compare two byte strings.
pub fn bytes_eq(a: &Vec<u8>, b: &Vec<u8>) -> (r: bool)
    ensures
        r <==> a@ == b@,
{
    let r = *a == *b;
    proof {
        if a@ =~= b@ {
            assert(a@ == b@);
        }
    }
    r
}

/// The four tables plus the key generator of the `volumes` table.
pub struct KeyedStore {
    /// The `global` table: at most the one settings record.
    pub settings: Option<Settings>,
    pub volumes: Vec<VolumeRow>,
    pub pages: Vec<PageRow>,
    pub ocr: Vec<OcrRow>,
    /// The next key the `volumes` table will issue; keys start at 1.
    pub next_id: VolumeId,
}

impl KeyedStore {
    /// Whether some volume row carries key `id`.
    pub open spec fn has_volume(self, id: VolumeId) -> bool {
        exists|i: int| 0 <= i < self.volumes@.len() && self.volumes@[i].id == id
    }

    /// Whether some page row carries key `(id, name)`.
    pub open spec fn has_page(self, id: VolumeId, name: Seq<u8>) -> bool {
        exists|i: int|
            0 <= i < self.pages@.len() && self.pages@[i].volume_id == id && self.pages@[i].name@
                == name
    }

    /// Whether some OCR row carries key `(id, name)`.
    pub open spec fn has_ocr(self, id: VolumeId, name: Seq<u8>) -> bool {
        exists|i: int|
            0 <= i < self.ocr@.len() && self.ocr@[i].volume_id == id && self.ocr@[i].name@ == name
    }

    /// The record of the volume row keyed `id` (meaningful only where
    /// [`Self::has_volume`] holds and the store is well formed).
    pub open spec fn volume_at(self, id: VolumeId) -> crate::models::VolumeV {
        let i = choose|i: int| 0 <= i < self.volumes@.len() && self.volumes@[i].id == id;
        self.volumes@[i].volume@
    }

    /// The image bytes of the page row keyed `(id, name)` (meaningful only
    /// where [`Self::has_page`] holds and the store is well formed).
    pub open spec fn page_data_at(self, id: VolumeId, name: Seq<u8>) -> Seq<u8> {
        let i = choose|i: int|
            0 <= i < self.pages@.len() && self.pages@[i].volume_id == id && self.pages@[i].name@
                == name;
        self.pages@[i].image@.1
    }

    /// The OCR record of the row keyed `(id, name)` (meaningful only where
    /// [`Self::has_ocr`] holds and the store is well formed).
    pub open spec fn ocr_at(self, id: VolumeId, name: Seq<u8>) -> crate::models::PageOcrV {
        let i = choose|i: int|
            0 <= i < self.ocr@.len() && self.ocr@[i].volume_id == id && self.ocr@[i].name@ == name;
        self.ocr@[i].ocr@
    }

    /// The magnifier settings an import hands a new volume: the stored
    /// global settings, or the defaults where none were ever stored.
    pub open spec fn settings_magnifier(self) -> crate::models::MagnifierSettings {
        match self.settings {
            Some(s) => s.magnifier,
            None => crate::models::MagnifierSettings { zoom: 200, radius: 35, height: 350, width: 350 },
        }
    }

    /// Table keys are unique, issued keys are positive, and the key
    /// generator is ahead of every issued key (and not exhausted).
    pub open spec fn wf(self) -> bool {
        &&& forall|i: int, j: int|
            0 <= i < j < self.volumes@.len() ==> self.volumes@[i].id != self.volumes@[j].id
        &&& forall|i: int| 0 <= i < self.volumes@.len() ==> 0 < #[trigger] self.volumes@[i].id
        &&& forall|i: int|
            0 <= i < self.volumes@.len() ==> #[trigger] self.volumes@[i].id < self.next_id
        &&& forall|i: int, j: int|
            0 <= i < j < self.pages@.len() ==> !(self.pages@[i].volume_id
                == self.pages@[j].volume_id && self.pages@[i].name@ == self.pages@[j].name@)
        &&& forall|i: int, j: int|
            0 <= i < j < self.ocr@.len() ==> !(self.ocr@[i].volume_id == self.ocr@[j].volume_id
                && self.ocr@[i].name@ == self.ocr@[j].name@)
        &&& forall|i: int|
            0 <= i < self.pages@.len() ==> 0 < #[trigger] self.pages@[i].volume_id < self.next_id
        &&& forall|i: int|
            0 <= i < self.ocr@.len() ==> 0 < #[trigger] self.ocr@[i].volume_id < self.next_id
        &&& 0 < self.next_id < VolumeId::MAX
    }

    /// An empty store, as first created.
    pub fn new() -> (s: KeyedStore)
        ensures
            s.wf(),
            s.settings is None,
            s.volumes@.len() == 0,
            s.pages@.len() == 0,
            s.ocr@.len() == 0,
            s.next_id == 1,
    {
        KeyedStore {
            settings: None,
            volumes: Vec::new(),
            pages: Vec::new(),
            ocr: Vec::new(),
            next_id: 1,
        }
    }

    /// The settings record, or the default where none was ever stored.
    pub fn get_settings(&self) -> (r: Settings)
        ensures
            r == match self.settings {
                Some(s) => s,
                None => Settings { magnifier: crate::models::MagnifierSettings {
                    zoom: 200, radius: 35, height: 350, width: 350,
                } },
            },
    {
        match &self.settings {
            Some(s) => *s,
            None => Settings::default(),
        }
    }

    /// Store the settings record under the singleton key.
    pub fn put_settings(&mut self, settings: Settings)
        requires
            old(self).wf(),
        ensures
            final(self).wf(),
            final(self).settings == Some(settings),
            final(self).volumes == old(self).volumes,
            final(self).pages == old(self).pages,
            final(self).ocr == old(self).ocr,
            final(self).next_id == old(self).next_id,
    {
        self.settings = Some(settings);
    }

    /// Index of the volume row keyed `id`, if any.
    fn find_volume(&self, id: VolumeId) -> (r: Option<usize>)
        ensures
            match r {
                Some(i) => i < self.volumes@.len() && self.volumes@[i as int].id == id,
                None => !self.has_volume(id),
            },
    {
        let n = self.volumes.len();
        for i in 0..n
            invariant
                n == self.volumes@.len(),
                forall|j: int| 0 <= j < i ==> self.volumes@[j].id != id,
        {
            if self.volumes[i].id == id {
                return Some(i);
            }
        }
        None
    }

    /// The volume row keyed `id`, with its key written into the record's
    /// `id` field.
    pub fn get_volume(&self, id: VolumeId) -> (r: Option<VolumeMetadata>)
        ensures
            match r {
                Some(v) => self.has_volume(id) && (self.wf() ==> v@ == self.volume_at(id)),
                None => !self.has_volume(id),
            },
    {
        match self.find_volume(id) {
            Some(i) => {
                let v = self.volumes[i].volume.clone();
                proof {
                    if self.wf() {
                        let j = choose|j: int|
                            0 <= j < self.volumes@.len() && self.volumes@[j].id == id;
                        assert(j == i);
                    }
                }
                Some(v)
            }
            None => None,
        }
    }

    /// Insert or replace a volume row. A record whose `id` is zero gets a
    /// fresh generated key (returned, and written into the stored record);
    /// one with a nonzero `id` replaces the row under that key, or creates
    /// it. The stored record always carries its key in its `id` field.
    pub fn put_volume(&mut self, volume: VolumeMetadata) -> (r: VolumeId)
        requires
            old(self).wf(),
            old(self).next_id < VolumeId::MAX - 1,
            volume@.id < VolumeId::MAX - 1,
        ensures
            final(self).wf(),
            r > 0,
            volume@.id == 0 ==> r == old(self).next_id && !old(self).has_volume(r)
                && final(self).volumes@.len() == old(self).volumes@.len() + 1
                && final(self).next_id == old(self).next_id + 1,
            volume@.id != 0 ==> r == volume@.id,
            final(self).has_volume(r),
            exists|i: int|
                0 <= i < final(self).volumes@.len() && final(self).volumes@[i].id == r
                    && final(self).volumes@[i].volume@ == (crate::models::VolumeV {
                    id: r,
                    ..volume@
                }),
            // every other row is untouched:
            forall|j: int|
                0 <= j < old(self).volumes@.len() && old(self).volumes@[j].id != r
                    ==> final(self).volumes@.contains(old(self).volumes@[j]),
            forall|j: int|
                0 <= j < final(self).volumes@.len() && final(self).volumes@[j].id != r
                    ==> old(self).volumes@.contains(final(self).volumes@[j]),
            final(self).pages == old(self).pages,
            final(self).ocr == old(self).ocr,
            final(self).settings == old(self).settings,
    {
        let mut volume = volume;
        if volume.id == 0 {
            let id = self.next_id;
            volume.id = id;
            self.next_id = self.next_id + 1;
            proof {
                assert forall|i: int| 0 <= i < self.volumes@.len() implies self.volumes@[i].id
                    != id by {
                    assert(self.volumes@[i].id < id);
                }
            }
            let ghost pre = self.volumes@;
            self.volumes.push(VolumeRow { id, volume });
            proof {
                assert(self.volumes@[self.volumes@.len() - 1].id == id);
                assert(self.volumes@[self.volumes@.len() - 1].volume@ == (crate::models::VolumeV {
                    id,
                    ..volume@
                }));
                assert forall|j: int| 0 <= j < pre.len() && pre[j].id != id implies
                    self.volumes@.contains(pre[j]) by {
                    assert(self.volumes@[j] == pre[j]);
                }
                assert forall|j: int|
                    0 <= j < self.volumes@.len() && self.volumes@[j].id != id implies
                    pre.contains(self.volumes@[j]) by {
                    assert(self.volumes@[j] == pre[j]);
                }
            }
            id
        } else {
            let id = volume.id;
            match self.find_volume(id) {
                Some(i) => {
                    let ghost pre = self.volumes@;
                    self.volumes[i] = VolumeRow { id, volume };
                    proof {
                        assert(self.volumes@[i as int].id == id);
                        assert(self.volumes@[i as int].volume@ == (crate::models::VolumeV {
                            id,
                            ..volume@
                        }));
                        assert forall|j: int| 0 <= j < pre.len() && pre[j].id != id implies
                            self.volumes@.contains(pre[j]) by {
                            assert(j != i);
                            assert(self.volumes@[j] == pre[j]);
                        }
                        assert forall|j: int|
                            0 <= j < self.volumes@.len() && self.volumes@[j].id != id implies
                            pre.contains(self.volumes@[j]) by {
                            assert(j != i);
                            assert(self.volumes@[j] == pre[j]);
                        }
                    }
                }
                None => {
                    if id >= self.next_id {
                        self.next_id = id + 1;
                    }
                    let ghost pre = self.volumes@;
                    self.volumes.push(VolumeRow { id, volume });
                    proof {
                        assert(self.volumes@[self.volumes@.len() - 1].id == id);
                        assert(self.volumes@[self.volumes@.len() - 1].volume@
                            == (crate::models::VolumeV { id, ..volume@ }));
                        assert forall|j: int| 0 <= j < pre.len() && pre[j].id != id implies
                            self.volumes@.contains(pre[j]) by {
                            assert(self.volumes@[j] == pre[j]);
                        }
                        assert forall|j: int|
                            0 <= j < self.volumes@.len() && self.volumes@[j].id != id implies
                            pre.contains(self.volumes@[j]) by {
                            assert(self.volumes@[j] == pre[j]);
                        }
                    }
                }
            }
            id
        }
    }

    /// Index of the page row keyed `(id, name)`, if any.
    fn find_page(&self, id: VolumeId, name: &Vec<u8>) -> (r: Option<usize>)
        ensures
            match r {
                Some(i) => i < self.pages@.len() && self.pages@[i as int].volume_id == id
                    && self.pages@[i as int].name@ == name@,
                None => !self.has_page(id, name@),
            },
    {
        let n = self.pages.len();
        for i in 0..n
            invariant
                n == self.pages@.len(),
                forall|j: int|
                    0 <= j < i ==> !(self.pages@[j].volume_id == id && self.pages@[j].name@
                        == name@),
        {
            if self.pages[i].volume_id == id && bytes_eq(&self.pages[i].name, name) {
                return Some(i);
            }
        }
        None
    }

    /// Index of the OCR row keyed `(id, name)`, if any.
    fn find_ocr(&self, id: VolumeId, name: &Vec<u8>) -> (r: Option<usize>)
        ensures
            match r {
                Some(i) => i < self.ocr@.len() && self.ocr@[i as int].volume_id == id
                    && self.ocr@[i as int].name@ == name@,
                None => !self.has_ocr(id, name@),
            },
    {
        let n = self.ocr.len();
        for i in 0..n
            invariant
                n == self.ocr@.len(),
                forall|j: int|
                    0 <= j < i ==> !(self.ocr@[j].volume_id == id && self.ocr@[j].name@ == name@),
        {
            if self.ocr[i].volume_id == id && bytes_eq(&self.ocr[i].name, name) {
                return Some(i);
            }
        }
        None
    }

    /// Insert or replace the page row keyed `(id, name)`.
    pub fn put_page(&mut self, id: VolumeId, name: Vec<u8>, image: PageImage)
        requires
            old(self).wf(),
            0 < id < old(self).next_id,
        ensures
            final(self).wf(),
            final(self).has_page(id, name@),
            !old(self).has_page(id, name@) ==> final(self).pages@ == old(self).pages@.push(
                (PageRow { volume_id: id, name, image }),
            ),
            old(self).has_page(id, name@) ==> exists|i: int|
                0 <= i < old(self).pages@.len() && old(self).pages@[i].volume_id == id && old(
                    self,
                ).pages@[i].name@ == name@ && final(self).pages@ == old(self).pages@.update(
                    i,
                    (PageRow { volume_id: id, name, image }),
                ),
            final(self).volumes == old(self).volumes,
            final(self).ocr == old(self).ocr,
            final(self).settings == old(self).settings,
            final(self).next_id == old(self).next_id,
    {
        match self.find_page(id, &name) {
            Some(i) => {
                self.pages[i] = PageRow { volume_id: id, name, image };
            }
            None => {
                self.pages.push(PageRow { volume_id: id, name, image });
                proof {
                    assert(self.pages@[self.pages@.len() - 1].volume_id == id);
                }
            }
        }
    }

    /// Insert or replace the OCR row keyed `(id, name)`.
    pub fn put_ocr(&mut self, id: VolumeId, name: Vec<u8>, ocr: PageOcr)
        requires
            old(self).wf(),
            0 < id < old(self).next_id,
        ensures
            final(self).wf(),
            final(self).has_ocr(id, name@),
            !old(self).has_ocr(id, name@) ==> final(self).ocr@ == old(self).ocr@.push(
                (OcrRow { volume_id: id, name, ocr }),
            ),
            old(self).has_ocr(id, name@) ==> exists|i: int|
                0 <= i < old(self).ocr@.len() && old(self).ocr@[i].volume_id == id && old(
                    self,
                ).ocr@[i].name@ == name@ && final(self).ocr@ == old(self).ocr@.update(
                    i,
                    (OcrRow { volume_id: id, name, ocr }),
                ),
            final(self).volumes == old(self).volumes,
            final(self).pages == old(self).pages,
            final(self).settings == old(self).settings,
            final(self).next_id == old(self).next_id,
    {
        match self.find_ocr(id, &name) {
            Some(i) => {
                self.ocr[i] = OcrRow { volume_id: id, name, ocr };
            }
            None => {
                self.ocr.push(OcrRow { volume_id: id, name, ocr });
                proof {
                    assert(self.ocr@[self.ocr@.len() - 1].volume_id == id);
                }
            }
        }
    }

    /// The page row keyed `(id, name)`.
    pub fn get_page(&self, id: VolumeId, name: &Vec<u8>) -> (r: Option<PageImage>)
        ensures
            match r {
                Some(img) => self.has_page(id, name@) && (self.wf() ==> img@.1
                    == self.page_data_at(id, name@)),
                None => !self.has_page(id, name@),
            },
    {
        match self.find_page(id, name) {
            Some(i) => {
                let img = self.pages[i].image.clone();
                proof {
                    if self.wf() {
                        let j = choose|j: int|
                            0 <= j < self.pages@.len() && self.pages@[j].volume_id == id
                                && self.pages@[j].name@ == name@;
                        assert(j == i);
                    }
                }
                Some(img)
            }
            None => None,
        }
    }

    /// The OCR row keyed `(id, name)`.
    pub fn get_ocr(&self, id: VolumeId, name: &Vec<u8>) -> (r: Option<PageOcr>)
        ensures
            match r {
                Some(ocr) => self.has_ocr(id, name@) && (self.wf() ==> ocr@ == self.ocr_at(
                    id,
                    name@,
                )),
                None => !self.has_ocr(id, name@),
            },
    {
        match self.find_ocr(id, name) {
            Some(i) => {
                let ocr = self.ocr[i].ocr.clone();
                proof {
                    if self.wf() {
                        let j = choose|j: int|
                            0 <= j < self.ocr@.len() && self.ocr@[j].volume_id == id
                                && self.ocr@[j].name@ == name@;
                        assert(j == i);
                    }
                }
                Some(ocr)
            }
            None => None,
        }
    }

    /// The page blob and OCR row sharing the composite key `(id, name)`;
    /// `None` unless both exist.
    pub fn get_page_and_ocr(&self, id: VolumeId, name: &Vec<u8>) -> (r: Option<
        (PageImage, PageOcr),
    >)
        ensures
            match r {
                Some(pair) => self.has_page(id, name@) && self.has_ocr(id, name@) && (self.wf()
                    ==> pair.0@.1 == self.page_data_at(id, name@) && pair.1@ == self.ocr_at(
                    id,
                    name@,
                )),
                None => !self.has_page(id, name@) || !self.has_ocr(id, name@),
            },
    {
        match (self.get_page(id, name), self.get_ocr(id, name)) {
            (Some(img), Some(ocr)) => Some((img, ocr)),
            _ => None,
        }
    }

    /// Every volume record, in insertion order, each carrying its key.
    pub fn get_all_volumes(&self) -> (r: Vec<VolumeMetadata>)
        ensures
            r@.len() == self.volumes@.len(),
            forall|i: int| 0 <= i < r@.len() ==> #[trigger] r@[i]@ == self.volumes@[i].volume@,
    {
        let mut r: Vec<VolumeMetadata> = Vec::new();
        let n = self.volumes.len();
        for i in 0..n
            invariant
                n == self.volumes@.len(),
                r@.len() == i,
                forall|j: int| 0 <= j < i ==> #[trigger] r@[j]@ == self.volumes@[j].volume@,
        {
            r.push(self.volumes[i].volume.clone());
        }
        r
    }

    /// Cascade-delete the volume keyed `id`: remove its volume row and every
    /// page and OCR row keyed by it, all of them and nothing else. Fails,
    /// leaving the store untouched, when no such volume exists.
    pub fn delete_volume(&mut self, id: VolumeId) -> (r: Result<(), crate::errors::AppError>)
        requires
            old(self).wf(),
        ensures
            final(self).wf(),
            match r {
                Ok(()) => old(self).has_volume(id) && final(self).volumes@ == old(
                    self,
                ).volumes@.filter(|row: VolumeRow| row.id != id) && final(self).pages@ == old(
                    self,
                ).pages@.filter(|row: PageRow| row.volume_id != id) && final(self).ocr@ == old(
                    self,
                ).ocr@.filter(|row: OcrRow| row.volume_id != id),
                Err(e) => e == crate::errors::AppError::MissingRecord && !old(self).has_volume(id)
                    && *final(self) == *old(self),
            },
            final(self).settings == old(self).settings,
            final(self).next_id == old(self).next_id,
    {
        if self.find_volume(id).is_none() {
            return Err(crate::errors::AppError::MissingRecord);
        }
        self.retain_volumes(id);
        self.retain_pages(id);
        self.retain_ocr(id);
        proof {
            let bound = self.next_id;
            lemma_filter_unique_keys(
                old(self).volumes@,
                |row: VolumeRow| row.id != id,
                |row: VolumeRow| row.id,
            );
            lemma_filter_unique_keys(
                old(self).pages@,
                |row: PageRow| row.volume_id != id,
                |row: PageRow| (row.volume_id, row.name@),
            );
            lemma_filter_unique_keys(
                old(self).ocr@,
                |row: OcrRow| row.volume_id != id,
                |row: OcrRow| (row.volume_id, row.name@),
            );
            assert forall|i: int| 0 <= i < self.volumes@.len() implies 0
                < #[trigger] self.volumes@[i].id < bound by {
                assert(old(self).volumes@.contains(self.volumes@[i]));
                let j = choose|j: int|
                    0 <= j < old(self).volumes@.len() && old(self).volumes@[j] == self.volumes@[i];
            }
            assert forall|i: int| 0 <= i < self.pages@.len() implies 0
                < #[trigger] self.pages@[i].volume_id < bound by {
                assert(old(self).pages@.contains(self.pages@[i]));
                let j = choose|j: int|
                    0 <= j < old(self).pages@.len() && old(self).pages@[j] == self.pages@[i];
            }
            assert forall|i: int| 0 <= i < self.ocr@.len() implies 0
                < #[trigger] self.ocr@[i].volume_id < bound by {
                assert(old(self).ocr@.contains(self.ocr@[i]));
                let j = choose|j: int|
                    0 <= j < old(self).ocr@.len() && old(self).ocr@[j] == self.ocr@[i];
            }
        }
        Ok(())
    }

    /// Remove every volume row keyed `id`.
    fn retain_volumes(&mut self, id: VolumeId)
        ensures
            final(self).volumes@ == old(self).volumes@.filter(|row: VolumeRow| row.id != id),
            final(self).pages == old(self).pages,
            final(self).ocr == old(self).ocr,
            final(self).settings == old(self).settings,
            final(self).next_id == old(self).next_id,
    {
        let ghost all = self.volumes@;
        let ghost pred = |row: VolumeRow| row.id != id;
        let n = self.volumes.len();
        let mut kept: Vec<VolumeRow> = Vec::new();
        let mut rest: Vec<VolumeRow> = Vec::new();
        core::mem::swap(&mut rest, &mut self.volumes);
        let mut k: usize = 0;
        proof {
            assert(all.subrange(0, 0).filter(pred) =~= Seq::<VolumeRow>::empty());
            assert(rest@ =~= all.skip(0));
        }
        while rest.len() > 0
            invariant
                k <= n,
                n == all.len(),
                rest@ == all.skip(k as int),
                kept@ == all.subrange(0, k as int).filter(pred),
                pred == (|row: VolumeRow| row.id != id),
            decreases rest@.len(),
        {
            let row = rest.remove(0);
            proof {
                assert(row == all[k as int]);
                lemma_filter_push(all.subrange(0, k as int), all[k as int], pred);
                assert(all.subrange(0, k as int).push(all[k as int]) =~= all.subrange(
                    0,
                    k as int + 1,
                ));
                assert(rest@ =~= all.skip(k as int + 1));
            }
            if row.id != id {
                kept.push(row);
            }
            k = k + 1;
        }
        proof {
            assert(all.subrange(0, n as int) =~= all);
        }
        self.volumes = kept;
    }

    /// Remove every page row keyed by volume `id`.
    fn retain_pages(&mut self, id: VolumeId)
        ensures
            final(self).pages@ == old(self).pages@.filter(|row: PageRow| row.volume_id != id),
            final(self).volumes == old(self).volumes,
            final(self).ocr == old(self).ocr,
            final(self).settings == old(self).settings,
            final(self).next_id == old(self).next_id,
    {
        let ghost all = self.pages@;
        let ghost pred = |row: PageRow| row.volume_id != id;
        let n = self.pages.len();
        let mut kept: Vec<PageRow> = Vec::new();
        let mut rest: Vec<PageRow> = Vec::new();
        core::mem::swap(&mut rest, &mut self.pages);
        let mut k: usize = 0;
        proof {
            assert(all.subrange(0, 0).filter(pred) =~= Seq::<PageRow>::empty());
            assert(rest@ =~= all.skip(0));
        }
        while rest.len() > 0
            invariant
                k <= n,
                n == all.len(),
                rest@ == all.skip(k as int),
                kept@ == all.subrange(0, k as int).filter(pred),
                pred == (|row: PageRow| row.volume_id != id),
            decreases rest@.len(),
        {
            let row = rest.remove(0);
            proof {
                assert(row == all[k as int]);
                lemma_filter_push(all.subrange(0, k as int), all[k as int], pred);
                assert(all.subrange(0, k as int).push(all[k as int]) =~= all.subrange(
                    0,
                    k as int + 1,
                ));
                assert(rest@ =~= all.skip(k as int + 1));
            }
            if row.volume_id != id {
                kept.push(row);
            }
            k = k + 1;
        }
        proof {
            assert(all.subrange(0, n as int) =~= all);
        }
        self.pages = kept;
    }

    /// Remove every OCR row keyed by volume `id`.
    fn retain_ocr(&mut self, id: VolumeId)
        ensures
            final(self).ocr@ == old(self).ocr@.filter(|row: OcrRow| row.volume_id != id),
            final(self).volumes == old(self).volumes,
            final(self).pages == old(self).pages,
            final(self).settings == old(self).settings,
            final(self).next_id == old(self).next_id,
    {
        let ghost all = self.ocr@;
        let ghost pred = |row: OcrRow| row.volume_id != id;
        let n = self.ocr.len();
        let mut kept: Vec<OcrRow> = Vec::new();
        let mut rest: Vec<OcrRow> = Vec::new();
        core::mem::swap(&mut rest, &mut self.ocr);
        let mut k: usize = 0;
        proof {
            assert(all.subrange(0, 0).filter(pred) =~= Seq::<OcrRow>::empty());
            assert(rest@ =~= all.skip(0));
        }
        while rest.len() > 0
            invariant
                k <= n,
                n == all.len(),
                rest@ == all.skip(k as int),
                kept@ == all.subrange(0, k as int).filter(pred),
                pred == (|row: OcrRow| row.volume_id != id),
            decreases rest@.len(),
        {
            let row = rest.remove(0);
            proof {
                assert(row == all[k as int]);
                lemma_filter_push(all.subrange(0, k as int), all[k as int], pred);
                assert(all.subrange(0, k as int).push(all[k as int]) =~= all.subrange(
                    0,
                    k as int + 1,
                ));
                assert(rest@ =~= all.skip(k as int + 1));
            }
            if row.volume_id != id {
                kept.push(row);
            }
            k = k + 1;
        }
        proof {
            assert(all.subrange(0, n as int) =~= all);
        }
        self.ocr = kept;
    }
}

/// Filtering a sequence extended by one element keeps the filtered prefix
/// and appends the element exactly when it satisfies the predicate.
pub proof fn lemma_filter_push<A>(s: Seq<A>, x: A, pred: spec_fn(A) -> bool)
    ensures
        s.push(x).filter(pred) == if pred(x) {
            s.filter(pred).push(x)
        } else {
            s.filter(pred)
        },
{
    reveal(Seq::filter);
    assert(s.push(x).drop_last() =~= s);
    assert(s.push(x).last() == x);
}

/// Every element of a filtered sequence is an element of the original, and
/// filtering a sequence whose elements carry pairwise distinct keys yields
/// one whose elements do too.
pub proof fn lemma_filter_unique_keys<A, K>(s: Seq<A>, pred: spec_fn(A) -> bool, key: spec_fn(
    A,
) -> K)
    requires
        forall|i: int, j: int| 0 <= i < j < s.len() ==> key(s[i]) != key(s[j]),
    ensures
        forall|i: int| 0 <= i < s.filter(pred).len() ==> s.contains(#[trigger] s.filter(pred)[i]),
        forall|i: int, j: int|
            0 <= i < j < s.filter(pred).len() ==> key(#[trigger] s.filter(pred)[i]) != key(
                #[trigger] s.filter(pred)[j],
            ),
    decreases s.len(),
{
    reveal(Seq::filter);
    if s.len() == 0 {
    } else {
        let s0 = s.drop_last();
        let f0 = s0.filter(pred);
        lemma_filter_unique_keys(s0, pred, key);
        assert forall|i: int| 0 <= i < f0.len() implies s.contains(f0[i]) by {
            assert(s0.contains(f0[i]));
            let j = choose|j: int| 0 <= j < s0.len() && s0[j] == f0[i];
            assert(s[j] == f0[i]);
        }
        if pred(s.last()) {
            let f = f0.push(s.last());
            assert(s.filter(pred) == f);
            assert(s.contains(s.last())) by {
                assert(s[s.len() - 1] == s.last());
            }
            assert forall|i: int, j: int| 0 <= i < j < f.len() implies key(f[i]) != key(f[j]) by {
                if j == f.len() - 1 {
                    assert(f[j] == s.last());
                    assert(s0.contains(f0[i]));
                    let m = choose|m: int| 0 <= m < s0.len() && s0[m] == f0[i];
                    assert(s[m] == f[i]);
                    assert(key(s[m]) != key(s[s.len() - 1]));
                }
            }
        }
    }
}

/// After a cascade delete, no page or OCR row of the deleted volume remains,
/// and the volume row itself is gone.
pub proof fn lemma_cascade_delete_complete(pre: KeyedStore, post: KeyedStore, id: VolumeId)
    requires
        post.volumes@ == pre.volumes@.filter(|row: VolumeRow| row.id != id),
        post.pages@ == pre.pages@.filter(|row: PageRow| row.volume_id != id),
        post.ocr@ == pre.ocr@.filter(|row: OcrRow| row.volume_id != id),
    ensures
        !post.has_volume(id),
        forall|name: Seq<u8>| !post.has_page(id, name),
        forall|name: Seq<u8>| !post.has_ocr(id, name),
        forall|i: int| 0 <= i < post.pages@.len() ==> #[trigger] post.pages@[i].volume_id != id,
        forall|i: int| 0 <= i < post.ocr@.len() ==> #[trigger] post.ocr@[i].volume_id != id,
{
    assert forall|i: int| 0 <= i < post.volumes@.len() implies #[trigger] post.volumes@[i].id
        != id by {
        pre.volumes@.lemma_filter_pred(|row: VolumeRow| row.id != id, i);
    }
    assert forall|i: int| 0 <= i < post.pages@.len() implies #[trigger] post.pages@[i].volume_id
        != id by {
        pre.pages@.lemma_filter_pred(|row: PageRow| row.volume_id != id, i);
    }
    assert forall|i: int| 0 <= i < post.ocr@.len() implies #[trigger] post.ocr@[i].volume_id
        != id by {
        pre.ocr@.lemma_filter_pred(|row: OcrRow| row.volume_id != id, i);
    }
}

} // verus!
