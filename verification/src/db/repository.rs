//! The catalog of media records with its operations, held in memory, and
//! the rules that keep statements under the parameter ceiling of a
//! relational backend.

use vstd::prelude::*;
use crate::db::models::{DateInfo, MediaFile, MediaFileView};
use crate::extraction::time::now_secs;
use crate::text::{
    first_index, lemma_first_index, lemma_first_index_is, sort_texts, str_eq, texts, PathSet,
};

verus! {

/// The records of a catalog, in the order they were inserted.
pub type Catalog = Seq<MediaFileView>;

/// The file paths of the records, in order.
pub open spec fn paths_of(cat: Catalog) -> Seq<Seq<char>> {
    cat.map_values(|r: MediaFileView| r.file_path)
}

/// The identifiers of the records, in order.
pub open spec fn ids_of(cat: Catalog) -> Seq<Seq<char>> {
    cat.map_values(|r: MediaFileView| r.id)
}

/// Exactly one record per file path.
pub open spec fn unique_paths(cat: Catalog) -> bool {
    forall|i: int, j: int|
        0 <= i < cat.len() && 0 <= j < cat.len() && i != j ==> #[trigger] cat[i].file_path
            != #[trigger] cat[j].file_path
}

/// A record as an upsert stores it: scanned at `now`, and under the
/// identifier `id`.
pub open spec fn stored(rec: MediaFileView, id: Seq<char>, now: i64) -> MediaFileView {
    MediaFileView { id, last_scanned: Some(now), ..rec }
}

/// The catalog after an upsert at `now`: a record with the same file path
/// is replaced and keeps its identifier; otherwise the record is added.
pub open spec fn upserted(cat: Catalog, rec: MediaFileView, now: i64) -> Catalog {
    let at = first_index(paths_of(cat), rec.file_path);
    if at < cat.len() {
        cat.update(at, stored(rec, cat[at].id, now))
    } else {
        cat.push(stored(rec, rec.id, now))
    }
}

/// The catalog after the first `n` of `recs` were upserted in order.
pub open spec fn upserted_all(cat: Catalog, recs: Seq<MediaFileView>, n: int, now: i64) -> Catalog
    decreases n,
{
    if n <= 0 {
        cat
    } else {
        upserted(upserted_all(cat, recs, n - 1, now), recs[n - 1], now)
    }
}

/// The catalog after a touch at `now`: the records with one of the paths
/// are marked as scanned then; nothing else changes.
pub open spec fn touched(cat: Catalog, paths: Seq<Seq<char>>, now: i64) -> Catalog {
    cat.map_values(
        |r: MediaFileView|
            if paths.contains(r.file_path) {
                MediaFileView { last_scanned: Some(now), ..r }
            } else {
                r
            },
    )
}

/// Whether a record is missing: it was scanned before, and its path is not
/// among the existing ones.
pub open spec fn is_missing(r: MediaFileView, existing: Seq<Seq<char>>) -> bool {
    r.last_scanned is Some && !existing.contains(r.file_path)
}

/// The catalog without its missing records.
pub open spec fn without_missing(cat: Catalog, existing: Seq<Seq<char>>) -> Catalog {
    cat.filter(|r: MediaFileView| !is_missing(r, existing))
}

/// The number of missing records.
pub open spec fn missing_count(cat: Catalog, existing: Seq<Seq<char>>) -> nat {
    cat.filter(|r: MediaFileView| is_missing(r, existing)).len()
}

/// Whether a record lies strictly before, or strictly after, the instant
/// `reference` by its effective sort time at `now`.
pub open spec fn is_candidate(r: MediaFileView, reference: i64, before: bool, now: i64) -> bool {
    match r.sort_time_at(now) {
        Some(t) => if before {
            t < reference
        } else {
            t > reference
        },
        None => false,
    }
}

/// Whether the instant `a` lies nearer to the reference than `b`, both being
/// on the same side of it.
pub open spec fn nearer(a: i64, b: i64, before: bool) -> bool {
    if before {
        a > b
    } else {
        a < b
    }
}

/// The index of the neighbour among the first `n` records: the candidate
/// whose sort time is nearest to the reference, the first of them where
/// several share it; -1 where there is no candidate.
pub open spec fn nearest(cat: Catalog, reference: i64, before: bool, now: i64, n: int) -> int
    decreases n,
{
    if n <= 0 {
        -1
    } else {
        let best = nearest(cat, reference, before, now, n - 1);
        if is_candidate(cat[n - 1], reference, before, now) && (best < 0 || nearer(
            cat[n - 1].sort_time_at(now).unwrap(),
            cat[best].sort_time_at(now).unwrap(),
            before,
        )) {
            n - 1
        } else {
            best
        }
    }
}

/// Whether `list` holds `text`.
pub fn contains_text(list: &Vec<String>, text: &str) -> (r: bool)
    ensures
        r == texts(list@).contains(text@),
{
    let mut i: usize = 0;
    while i < list.len()
        invariant
            i <= list.len(),
            forall|j: int| 0 <= j < i ==> texts(list@)[j] != text@,
        decreases list.len() - i,
    {
        if str_eq(list[i].as_str(), text) {
            assert(texts(list@)[i as int] == text@);
            return true;
        }
        i = i + 1;
    }
    false
}

/// Repository for media file operations: the catalog, one record per file
/// path.
#[derive(Debug, Clone)]
pub struct MediaFileRepository {
    pub records: Vec<MediaFile>,
}

impl View for MediaFileRepository {
    type V = Catalog;

    open spec fn view(&self) -> Catalog {
        self.records@.map_values(|r: MediaFile| r@)
    }
}

impl MediaFileRepository {
    /// Exactly one record per file path.
    pub open spec fn wf(&self) -> bool {
        unique_paths(self@)
    }

    /// An empty catalog.
    pub fn new() -> (r: MediaFileRepository)
        ensures
            r@ == Seq::<MediaFileView>::empty(),
            r.wf(),
    {
        let r = MediaFileRepository { records: Vec::new() };
        assert(r@ =~= Seq::<MediaFileView>::empty());
        r
    }

    /// Check if the catalog is empty (no files scanned yet).
    pub fn is_empty(&self) -> (r: bool)
        ensures
            r == (self@.len() == 0),
    {
        self.records.len() == 0
    }

    /// The number of records.
    pub fn len(&self) -> (r: usize)
        ensures
            r == self@.len(),
    {
        self.records.len()
    }

    /// The index of the record with this file path; the number of records
    /// where there is none.
    pub fn position_of_path(&self, path: &str) -> (r: usize)
        ensures
            r == first_index(paths_of(self@), path@),
            r <= self@.len(),
            r < self@.len() ==> self@[r as int].file_path == path@,
            r == self@.len() ==> !paths_of(self@).contains(path@),
    {
        let mut i: usize = 0;
        while i < self.records.len()
            invariant
                i <= self.records.len(),
                forall|j: int| 0 <= j < i ==> paths_of(self@)[j] != path@,
            decreases self.records.len() - i,
        {
            if str_eq(self.records[i].file_path.as_str(), path) {
                proof {
                    lemma_first_index_is(paths_of(self@), path@, i as int);
                }
                return i;
            }
            i = i + 1;
        }
        proof {
            lemma_first_index_is(paths_of(self@), path@, i as int);
        }
        i
    }

    /// Get file by path.
    pub fn find_by_path(&self, path: &str) -> (r: Option<&MediaFile>)
        ensures
            match r {
                Some(rec) => first_index(paths_of(self@), path@) < self@.len() && rec@
                    == self@[first_index(paths_of(self@), path@)] && rec@.file_path == path@,
                None => !paths_of(self@).contains(path@) && first_index(paths_of(self@), path@)
                    == self@.len(),
            },
    {
        let at = self.position_of_path(path);
        if at < self.records.len() {
            Some(&self.records[at])
        } else {
            None
        }
    }

    /// Get file by ID: the first record with this identifier.
    pub fn find_by_id(&self, id: &str) -> (r: Option<&MediaFile>)
        ensures
            match r {
                Some(rec) => first_index(ids_of(self@), id@) < self@.len() && rec@
                    == self@[first_index(ids_of(self@), id@)] && rec@.id == id@,
                None => !ids_of(self@).contains(id@),
            },
    {
        let mut i: usize = 0;
        while i < self.records.len()
            invariant
                i <= self.records.len(),
                forall|j: int| 0 <= j < i ==> ids_of(self@)[j] != id@,
            decreases self.records.len() - i,
        {
            if str_eq(self.records[i].id.as_str(), id) {
                proof {
                    lemma_first_index_is(ids_of(self@), id@, i as int);
                }
                return Some(&self.records[i]);
            }
            i = i + 1;
        }
        None
    }

    /// Insert or update a media file, scanned at `now`: a record with the
    /// same file path is replaced and keeps its identifier.
    pub fn upsert(&mut self, file: &MediaFile, now: i64)
        requires
            old(self).wf(),
        ensures
            final(self)@ == upserted(old(self)@, file@, now),
            final(self).wf(),
    {
        let at = self.position_of_path(file.file_path.as_str());
        let mut rec = file.duplicate();
        rec.last_scanned = Some(now);
        let ghost before = self@;
        if at < self.records.len() {
            rec.id = self.records[at].id.clone();
            self.records[at] = rec;
            assert(self@ =~= before.update(at as int, stored(file@, before[at as int].id, now)));
        } else {
            self.records.push(rec);
            assert(self@ =~= before.push(stored(file@, file@.id, now)));
            assert forall|i: int, j: int|
                0 <= i < self@.len() && 0 <= j < self@.len() && i != j implies #[trigger] self@[i].file_path
                != #[trigger] self@[j].file_path by {
                if i < before.len() {
                    assert(paths_of(before)[i] == before[i].file_path);
                }
                if j < before.len() {
                    assert(paths_of(before)[j] == before[j].file_path);
                }
            }
        }
    }

    /// Upserts the records in order, all scanned at `now`.
    pub fn batch_upsert(&mut self, files: &Vec<MediaFile>, now: i64)
        requires
            old(self).wf(),
        ensures
            final(self)@ == upserted_all(
                old(self)@,
                files@.map_values(|r: MediaFile| r@),
                files@.len() as int,
                now,
            ),
            final(self).wf(),
    {
        let ghost recs = files@.map_values(|r: MediaFile| r@);
        let mut i: usize = 0;
        while i < files.len()
            invariant
                i <= files.len(),
                recs == files@.map_values(|r: MediaFile| r@),
                self.wf(),
                self@ == upserted_all(old(self)@, recs, i as int, now),
            decreases files.len() - i,
        {
            self.upsert(&files[i], now);
            i = i + 1;
        }
    }

    /// Marks the records with one of these paths as scanned at `now`; returns
    /// how many there are.
    pub fn batch_touch(&mut self, paths: &Vec<String>, now: i64) -> (r: u64)
        requires
            old(self).wf(),
        ensures
            final(self)@ == touched(old(self)@, texts(paths@), now),
            final(self).wf(),
            r == old(self)@.filter(|x: MediaFileView| texts(paths@).contains(x.file_path)).len(),
    {
        let ghost before = self@;
        let ghost hit = |x: MediaFileView| texts(paths@).contains(x.file_path);
        let wanted = PathSet::new(paths);
        let mut count: u64 = 0;
        let mut i: usize = 0;
        while i < self.records.len()
            invariant
                i <= self.records.len(),
                wanted.wf(),
                forall|text: Seq<char>| wanted.holds(text) == texts(paths@).contains(text),
                self@.len() == before.len(),
                hit == (|x: MediaFileView| texts(paths@).contains(x.file_path)),
                forall|j: int| 0 <= j < i ==> self@[j] == touched(before, texts(paths@), now)[j],
                forall|j: int| i <= j < self@.len() ==> self@[j] == before[j],
                count == before.subrange(0, i as int).filter(hit).len(),
                count <= i,
            decreases self.records.len() - i,
        {
            proof {
                lemma_filter_step(before, i as int, hit);
            }
            if wanted.contains(self.records[i].file_path.as_str()) {
                let ghost snapshot = self@;
                self.records[i].last_scanned = Some(now);
                assert(self@ =~= snapshot.update(
                    i as int,
                    MediaFileView { last_scanned: Some(now), ..snapshot[i as int] },
                ));
                count = count + 1;
            }
            i = i + 1;
        }
        assert(before.subrange(0, i as int) == before);
        assert(self@ =~= touched(before, texts(paths@), now));
        count
    }

    /// Delete the records that are missing from `existing_paths`: those
    /// scanned before whose path is not in the list. A record that was never
    /// scanned stays. Returns the number deleted.
    pub fn delete_missing(&mut self, existing_paths: &Vec<String>) -> (r: u64)
        requires
            old(self).wf(),
        ensures
            final(self)@ == without_missing(old(self)@, texts(existing_paths@)),
            r == missing_count(old(self)@, texts(existing_paths@)),
            final(self).wf(),
    {
        let ghost before = self@;
        let ghost keep = |x: MediaFileView| !is_missing(x, texts(existing_paths@));
        let ghost gone = |x: MediaFileView| is_missing(x, texts(existing_paths@));
        let existing = PathSet::new(existing_paths);
        let mut kept: Vec<MediaFile> = Vec::new();
        let mut deleted: u64 = 0;
        let mut i: usize = 0;
        while i < self.records.len()
            invariant
                i <= self.records.len(),
                self@ == before,
                existing.wf(),
                forall|text: Seq<char>|
                    existing.holds(text) == texts(existing_paths@).contains(text),
                keep == (|x: MediaFileView| !is_missing(x, texts(existing_paths@))),
                gone == (|x: MediaFileView| is_missing(x, texts(existing_paths@))),
                kept@.map_values(|x: MediaFile| x@) == before.subrange(0, i as int).filter(keep),
                deleted == before.subrange(0, i as int).filter(gone).len(),
                deleted <= i,
            decreases self.records.len() - i,
        {
            proof {
                lemma_filter_step(before, i as int, keep);
                lemma_filter_step(before, i as int, gone);
            }
            let rec = &self.records[i];
            let scanned = rec.last_scanned.is_some();
            if scanned && !existing.contains(rec.file_path.as_str()) {
                deleted = deleted + 1;
            } else {
                let ghost old_kept = kept@.map_values(|x: MediaFile| x@);
                kept.push(rec.duplicate());
                assert(kept@.map_values(|x: MediaFile| x@) =~= old_kept.push(before[i as int]));
            }
            i = i + 1;
        }
        assert(before.subrange(0, i as int) == before);
        self.records = kept;
        proof {
            lemma_filter_keeps_unique(before, keep);
        }
        deleted
    }

    /// Count the records that are missing from `existing_paths`: how many a
    /// delete would remove.
    pub fn count_missing(&self, existing_paths: &Vec<String>) -> (r: u64)
        ensures
            r == missing_count(self@, texts(existing_paths@)),
    {
        let ghost gone = |x: MediaFileView| is_missing(x, texts(existing_paths@));
        let existing = PathSet::new(existing_paths);
        let mut count: u64 = 0;
        let mut i: usize = 0;
        while i < self.records.len()
            invariant
                i <= self.records.len(),
                existing.wf(),
                forall|text: Seq<char>|
                    existing.holds(text) == texts(existing_paths@).contains(text),
                gone == (|x: MediaFileView| is_missing(x, texts(existing_paths@))),
                count == self@.subrange(0, i as int).filter(gone).len(),
                count <= i,
            decreases self.records.len() - i,
        {
            proof {
                lemma_filter_step(self@, i as int, gone);
            }
            let rec = &self.records[i];
            if rec.last_scanned.is_some() && !existing.contains(rec.file_path.as_str()) {
                count = count + 1;
            }
            i = i + 1;
        }
        assert(self@.subrange(0, i as int) == self@);
        count
    }

    /// Get the neighbour of an instant for navigation, judged at `now`: the
    /// record nearest to `sort_time` among those strictly before it, or
    /// strictly after it, by effective sort time.
    pub fn find_neighbors_at(&self, sort_time: i64, before: bool, now: i64) -> (r: Option<
        &MediaFile,
    >)
        ensures
            r is Some == (nearest(self@, sort_time, before, now, self@.len() as int) >= 0),
            r matches Some(rec) ==> rec@ == self@[nearest(
                self@,
                sort_time,
                before,
                now,
                self@.len() as int,
            )],
    {
        let mut best: Option<usize> = None;
        let mut best_time: i64 = 0;
        let mut i: usize = 0;
        while i < self.records.len()
            invariant
                i <= self.records.len(),
                match best {
                    Some(b) => b < i && nearest(self@, sort_time, before, now, i as int) == b
                        && self@[b as int].sort_time_at(now) == Some(best_time),
                    None => nearest(self@, sort_time, before, now, i as int) == -1,
                },
            decreases self.records.len() - i,
        {
            match self.records[i].get_effective_sort_time_at(now) {
                Some(t) => {
                    let candidate = if before {
                        t < sort_time
                    } else {
                        t > sort_time
                    };
                    let closer = match best {
                        Some(_) => if before {
                            t > best_time
                        } else {
                            t < best_time
                        },
                        None => true,
                    };
                    if candidate && closer {
                        best = Some(i);
                        best_time = t;
                    }
                },
                None => {},
            }
            i = i + 1;
        }
        match best {
            Some(b) => Some(&self.records[b]),
            None => None,
        }
    }

    /// Get neighbor files for navigation. The clock is read once; the
    /// answer is the one of [`MediaFileRepository::find_neighbors_at`] at
    /// that reading.
    pub fn find_neighbors(&self, sort_time: i64, before: bool) -> (r: Option<&MediaFile>)
        ensures
            exists|now: i64|
                {
                    &&& r is Some == (nearest(self@, sort_time, before, now, self@.len() as int)
                        >= 0)
                    &&& r matches Some(rec) ==> rec@ == self@[nearest(
                        self@,
                        sort_time,
                        before,
                        now,
                        self@.len() as int,
                    )]
                },
    {
        let now = now_secs();
        self.find_neighbors_at(sort_time, before, now)
    }

    /// Delete a media file by ID; says whether a record was deleted.
    pub fn delete_by_id(&mut self, id: &str) -> (r: bool)
        requires
            old(self).wf(),
        ensures
            r == ids_of(old(self)@).contains(id@),
            final(self)@ == old(self)@.filter(|x: MediaFileView| x.id != id@),
            final(self).wf(),
    {
        let ghost before = self@;
        let ghost keep = |x: MediaFileView| x.id != id@;
        let mut kept: Vec<MediaFile> = Vec::new();
        let mut found = false;
        let mut i: usize = 0;
        while i < self.records.len()
            invariant
                i <= self.records.len(),
                self@ == before,
                keep == (|x: MediaFileView| x.id != id@),
                kept@.map_values(|x: MediaFile| x@) == before.subrange(0, i as int).filter(keep),
                found == ids_of(before.subrange(0, i as int)).contains(id@),
            decreases self.records.len() - i,
        {
            proof {
                lemma_filter_step(before, i as int, keep);
            }
            let ghost head = before.subrange(0, i as int);
            let ghost next = before.subrange(0, i as int + 1);
            let rec = &self.records[i];
            if str_eq(rec.id.as_str(), id) {
                found = true;
                assert(ids_of(next)[i as int] == id@);
            } else {
                let ghost old_kept = kept@.map_values(|x: MediaFile| x@);
                kept.push(rec.duplicate());
                assert(kept@.map_values(|x: MediaFile| x@) =~= old_kept.push(before[i as int]));
                assert(found == ids_of(next).contains(id@)) by {
                    if ids_of(next).contains(id@) {
                        let k = choose|k: int| 0 <= k < next.len() && ids_of(next)[k] == id@;
                        assert(k < i);
                        assert(ids_of(head)[k] == id@);
                    }
                    if ids_of(head).contains(id@) {
                        let k = choose|k: int| 0 <= k < head.len() && ids_of(head)[k] == id@;
                        assert(ids_of(next)[k] == id@);
                    }
                }
            }
            i = i + 1;
        }
        assert(before.subrange(0, i as int) == before);
        self.records = kept;
        proof {
            lemma_filter_keeps_unique(before, keep);
        }
        found
    }

    /// Update thumbnail generated status of the records with this ID.
    pub fn update_thumbnail_status(&mut self, id: &str, generated: bool)
        requires
            old(self).wf(),
        ensures
            final(self)@ == old(self)@.map_values(
                |x: MediaFileView|
                    if x.id == id@ {
                        MediaFileView { thumbnail_generated: generated, ..x }
                    } else {
                        x
                    },
            ),
            final(self).wf(),
    {
        let ghost before = self@;
        let mut i: usize = 0;
        while i < self.records.len()
            invariant
                i <= self.records.len(),
                self@.len() == before.len(),
                forall|j: int|
                    0 <= j < i ==> self@[j] == (if before[j].id == id@ {
                        MediaFileView { thumbnail_generated: generated, ..before[j] }
                    } else {
                        before[j]
                    }),
                forall|j: int| i <= j < self@.len() ==> self@[j] == before[j],
            decreases self.records.len() - i,
        {
            if str_eq(self.records[i].id.as_str(), id) {
                let ghost snapshot = self@;
                self.records[i].thumbnail_generated = generated;
                assert(self@ =~= snapshot.update(
                    i as int,
                    MediaFileView { thumbnail_generated: generated, ..snapshot[i as int] },
                ));
            }
            i = i + 1;
        }
        assert(self@ =~= before.map_values(
            |x: MediaFileView|
                if x.id == id@ {
                    MediaFileView { thumbnail_generated: generated, ..x }
                } else {
                    x
                },
        ));
    }

    /// The records among `paths`, in catalog order.
    pub fn batch_find_by_paths_batch(&self, paths: &Vec<String>) -> (r: Vec<MediaFile>)
        ensures
            r@.map_values(|x: MediaFile| x@) == self@.filter(
                |x: MediaFileView| texts(paths@).contains(x.file_path),
            ),
    {
        let ghost hit = |x: MediaFileView| texts(paths@).contains(x.file_path);
        let wanted = PathSet::new(paths);
        let mut found: Vec<MediaFile> = Vec::new();
        let mut i: usize = 0;
        while i < self.records.len()
            invariant
                i <= self.records.len(),
                wanted.wf(),
                forall|text: Seq<char>| wanted.holds(text) == texts(paths@).contains(text),
                hit == (|x: MediaFileView| texts(paths@).contains(x.file_path)),
                found@.map_values(|x: MediaFile| x@) == self@.subrange(0, i as int).filter(hit),
            decreases self.records.len() - i,
        {
            proof {
                lemma_filter_step(self@, i as int, hit);
            }
            let rec = &self.records[i];
            if wanted.contains(rec.file_path.as_str()) {
                let ghost old_found = found@.map_values(|x: MediaFile| x@);
                found.push(rec.duplicate());
                assert(found@.map_values(|x: MediaFile| x@) =~= old_found.push(self@[i as int]));
            }
            i = i + 1;
        }
        assert(self@.subrange(0, i as int) == self@);
        found
    }
}

/// Filtering one element more either appends it or changes nothing.
pub proof fn lemma_filter_step<T>(s: Seq<T>, i: int, pred: spec_fn(T) -> bool)
    requires
        0 <= i < s.len(),
    ensures
        s.subrange(0, i + 1).filter(pred) == (if pred(s[i]) {
            s.subrange(0, i).filter(pred).push(s[i])
        } else {
            s.subrange(0, i).filter(pred)
        }),
        s.subrange(0, 0).filter(pred).len() == 0,
{
    reveal(Seq::filter);
    let head = s.subrange(0, i + 1);
    assert(head.drop_last() == s.subrange(0, i));
    assert(head.last() == s[i]);
}

/// Filtering a catalog keeps its paths unique.
pub proof fn lemma_filter_keeps_unique(cat: Catalog, keep: spec_fn(MediaFileView) -> bool)
    requires
        unique_paths(cat),
    ensures
        unique_paths(cat.filter(keep)),
        forall|i: int|
            0 <= i < cat.filter(keep).len() ==> cat.contains(#[trigger] cat.filter(keep)[i]),
    decreases cat.len(),
{
    reveal(Seq::filter);
    if cat.len() > 0 {
        let head = cat.drop_last();
        lemma_filter_keeps_unique(head, keep);
        let f = head.filter(keep);
        assert forall|i: int| 0 <= i < cat.filter(keep).len() implies cat.contains(
            #[trigger] cat.filter(keep)[i],
        ) by {
            if i < f.len() {
                assert(head.contains(f[i]));
                let k = choose|k: int| 0 <= k < head.len() && head[k] == f[i];
                assert(cat[k] == f[i]);
            } else {
                assert(cat[cat.len() - 1] == cat.last());
            }
        }
        assert forall|i: int, j: int|
            0 <= i < cat.filter(keep).len() && 0 <= j < cat.filter(keep).len() && i
                != j implies #[trigger] cat.filter(keep)[i].file_path != #[trigger] cat.filter(
            keep,
        )[j].file_path by {
            if i < f.len() && j < f.len() {
            } else if i < f.len() {
                assert(head.contains(f[i]));
                let k = choose|k: int| 0 <= k < head.len() && head[k] == f[i];
                assert(cat[k].file_path != cat[cat.len() - 1].file_path);
            } else {
                assert(head.contains(f[j]));
                let k = choose|k: int| 0 <= k < head.len() && head[k] == f[j];
                assert(cat[k].file_path != cat[cat.len() - 1].file_path);
            }
        }
    }
}

/// What [`nearest`] picks: a candidate than which none is nearer, and the
/// first of those that share its sort time; -1 exactly where there is no
/// candidate.
pub proof fn lemma_nearest(cat: Catalog, reference: i64, before: bool, now: i64, n: int)
    requires
        0 <= n <= cat.len(),
    ensures
        -1 <= nearest(cat, reference, before, now, n) < n,
        nearest(cat, reference, before, now, n) >= 0 ==> is_candidate(
            cat[nearest(cat, reference, before, now, n)],
            reference,
            before,
            now,
        ),
        forall|j: int|
            0 <= j < n && is_candidate(#[trigger] cat[j], reference, before, now) ==> {
                let k = nearest(cat, reference, before, now, n);
                &&& k >= 0
                &&& !nearer(
                    cat[j].sort_time_at(now).unwrap(),
                    cat[k].sort_time_at(now).unwrap(),
                    before,
                )
                &&& cat[j].sort_time_at(now) == cat[k].sort_time_at(now) ==> k <= j
            },
    decreases n,
{
    if n > 0 {
        lemma_nearest(cat, reference, before, now, n - 1);
    }
}

/// Going to the next record and from there to the previous one leads back:
/// where a record's sort time is shared by no other record and a record
/// follows it, the neighbour before that follower is the record itself.
pub proof fn lemma_neighbors_round_trip(cat: Catalog, i: int, now: i64)
    requires
        0 <= i < cat.len(),
        cat[i].sort_time_at(now) is Some,
        forall|j: int|
            0 <= j < cat.len() && j != i ==> (#[trigger] cat[j]).sort_time_at(now)
                != cat[i].sort_time_at(now),
        nearest(cat, cat[i].sort_time_at(now).unwrap(), false, now, cat.len() as int) >= 0,
    ensures
        ({
            let next = nearest(
                cat,
                cat[i].sort_time_at(now).unwrap(),
                false,
                now,
                cat.len() as int,
            );
            nearest(cat, cat[next].sort_time_at(now).unwrap(), true, now, cat.len() as int) == i
        }),
{
    let n = cat.len() as int;
    let t = cat[i].sort_time_at(now).unwrap();
    lemma_nearest(cat, t, false, now, n);
    let next = nearest(cat, t, false, now, n);
    let tn = cat[next].sort_time_at(now).unwrap();
    lemma_nearest(cat, tn, true, now, n);
    let back = nearest(cat, tn, true, now, n);
    assert(is_candidate(cat[i], tn, true, now));
    assert(back >= 0);
    let tb = cat[back].sort_time_at(now).unwrap();
    assert(tb >= t);
    if tb > t {
        assert(is_candidate(cat[back], t, false, now));
        assert(!nearer(tb, tn, false));
    }
}

/// What one upsert does to a catalog with unique paths: the paths stay
/// unique, the records before keep their place, path and identifier, only
/// the record with the upserted path changes, and that path is present,
/// scanned at `now`.
pub proof fn lemma_upserted(cat: Catalog, rec: MediaFileView, now: i64)
    requires
        unique_paths(cat),
    ensures
        unique_paths(upserted(cat, rec, now)),
        cat.len() <= upserted(cat, rec, now).len() <= cat.len() + 1,
        forall|i: int|
            0 <= i < cat.len() ==> {
                let after = #[trigger] upserted(cat, rec, now)[i];
                &&& after.file_path == cat[i].file_path
                &&& after.id == cat[i].id
                &&& cat[i].file_path != rec.file_path ==> after == cat[i]
                &&& cat[i].file_path == rec.file_path ==> after == stored(rec, cat[i].id, now)
            },
        upserted(cat, rec, now).len() > cat.len() ==> upserted(cat, rec, now)[cat.len() as int]
            == stored(rec, rec.id, now) && !paths_of(cat).contains(rec.file_path),
        paths_of(upserted(cat, rec, now)).contains(rec.file_path),
{
    let paths = paths_of(cat);
    lemma_first_index(paths, rec.file_path);
    let at = first_index(paths, rec.file_path);
    let after = upserted(cat, rec, now);
    if at < cat.len() {
        assert(paths[at] == cat[at].file_path);
        assert forall|i: int| 0 <= i < cat.len() implies {
            let a = #[trigger] after[i];
            &&& a.file_path == cat[i].file_path
            &&& a.id == cat[i].id
            &&& cat[i].file_path != rec.file_path ==> a == cat[i]
            &&& cat[i].file_path == rec.file_path ==> a == stored(rec, cat[i].id, now)
        } by {
            if i != at {
                assert(cat[i].file_path != cat[at].file_path);
            }
        }
        assert forall|i: int, j: int|
            0 <= i < after.len() && 0 <= j < after.len() && i != j implies #[trigger] after[i].file_path
            != #[trigger] after[j].file_path by {
            assert(after[i].file_path == cat[i].file_path);
            assert(after[j].file_path == cat[j].file_path);
        }
        assert(paths_of(after)[at] == rec.file_path);
    } else {
        assert forall|i: int| 0 <= i < cat.len() implies cat[i].file_path != rec.file_path by {
            assert(paths[i] == cat[i].file_path);
        }
        assert(!paths.contains(rec.file_path));
        assert(paths_of(after)[cat.len() as int] == rec.file_path);
    }
}

/// What a run of upserts does: the paths stay unique; no record goes away
/// or changes its place, path or identifier; a record whose path is not
/// among the upserted ones is unchanged; and every upserted path is
/// present, scanned at `now`.
pub proof fn lemma_upserted_all(cat: Catalog, recs: Seq<MediaFileView>, n: int, now: i64)
    requires
        unique_paths(cat),
        0 <= n <= recs.len(),
    ensures
        unique_paths(upserted_all(cat, recs, n, now)),
        cat.len() <= upserted_all(cat, recs, n, now).len(),
        forall|i: int|
            0 <= i < cat.len() ==> {
                let after = #[trigger] upserted_all(cat, recs, n, now)[i];
                &&& after.file_path == cat[i].file_path
                &&& after.id == cat[i].id
                &&& !paths_of(recs.subrange(0, n)).contains(cat[i].file_path) ==> after == cat[i]
            },
        forall|i: int|
            0 <= i < upserted_all(cat, recs, n, now).len() && paths_of(
                recs.subrange(0, n),
            ).contains((#[trigger] upserted_all(cat, recs, n, now)[i]).file_path)
                ==> upserted_all(cat, recs, n, now)[i].last_scanned == Some(now),
        forall|i: int|
            cat.len() <= i < upserted_all(cat, recs, n, now).len() ==> paths_of(
                recs.subrange(0, n),
            ).contains((#[trigger] upserted_all(cat, recs, n, now)[i]).file_path),
        forall|k: int|
            0 <= k < n ==> paths_of(upserted_all(cat, recs, n, now)).contains(
                (#[trigger] recs[k]).file_path,
            ),
    decreases n,
{
    if n > 0 {
        lemma_upserted_all(cat, recs, n - 1, now);
        let mid = upserted_all(cat, recs, n - 1, now);
        let rec = recs[n - 1];
        lemma_upserted(mid, rec, now);
        let after = upserted(mid, rec, now);
        let done = paths_of(recs.subrange(0, n));
        let done_before = paths_of(recs.subrange(0, n - 1));
        assert(done[n - 1] == rec.file_path);
        assert forall|p: Seq<char>| done_before.contains(p) implies done.contains(p) by {
            let k = choose|k: int| 0 <= k < done_before.len() && done_before[k] == p;
            assert(done[k] == p);
        }
        assert forall|p: Seq<char>| done.contains(p) && p != rec.file_path implies done_before.contains(
            p,
        ) by {
            let k = choose|k: int| 0 <= k < done.len() && done[k] == p;
            assert(k < n - 1);
            assert(done_before[k] == p);
        }
        assert forall|i: int| 0 <= i < cat.len() implies {
            let a = #[trigger] after[i];
            &&& a.file_path == cat[i].file_path
            &&& a.id == cat[i].id
            &&& !done.contains(cat[i].file_path) ==> a == cat[i]
        } by {
            assert(mid[i].file_path == cat[i].file_path);
        }
        assert forall|i: int|
            0 <= i < after.len() && done.contains((#[trigger] after[i]).file_path) implies after[i].last_scanned
            == Some(now) by {
            if i < mid.len() {
                assert(after[i].file_path == mid[i].file_path);
            }
        }
        assert forall|i: int| cat.len() <= i < after.len() implies done.contains(
            (#[trigger] after[i]).file_path,
        ) by {
            if i < mid.len() {
                assert(after[i].file_path == mid[i].file_path);
                assert(done_before.contains(mid[i].file_path));
            }
        }
        assert forall|k: int| 0 <= k < n implies paths_of(after).contains(
            (#[trigger] recs[k]).file_path,
        ) by {
            if k < n - 1 {
                let at = choose|at: int|
                    0 <= at < paths_of(mid).len() && paths_of(mid)[at] == recs[k].file_path;
                assert(after[at].file_path == mid[at].file_path);
                assert(paths_of(after)[at] == recs[k].file_path);
            }
        }
    } else {
        assert(paths_of(recs.subrange(0, 0)).len() == 0);
    }
}

/// What a touch does: every record keeps its place, path and identifier;
/// the records with a touched path are scanned at `now`, the others are
/// unchanged.
pub proof fn lemma_touched(cat: Catalog, paths: Seq<Seq<char>>, now: i64)
    requires
        unique_paths(cat),
    ensures
        unique_paths(touched(cat, paths, now)),
        touched(cat, paths, now).len() == cat.len(),
        paths_of(touched(cat, paths, now)) == paths_of(cat),
        forall|i: int|
            0 <= i < cat.len() ==> {
                let after = #[trigger] touched(cat, paths, now)[i];
                &&& after.file_path == cat[i].file_path
                &&& paths.contains(cat[i].file_path) ==> after.last_scanned == Some(now)
                &&& !paths.contains(cat[i].file_path) ==> after == cat[i]
            },
{
    assert(paths_of(touched(cat, paths, now)) =~= paths_of(cat));
    assert forall|i: int, j: int|
        0 <= i < cat.len() && 0 <= j < cat.len() && i != j implies #[trigger] touched(
        cat,
        paths,
        now,
    )[i].file_path != #[trigger] touched(cat, paths, now)[j].file_path by {
        assert(cat[i].file_path != cat[j].file_path);
    }
}

/// What deleting the missing records does: exactly the records that are not
/// missing remain, each as it was.
pub proof fn lemma_without_missing(cat: Catalog, existing: Seq<Seq<char>>)
    requires
        unique_paths(cat),
    ensures
        unique_paths(without_missing(cat, existing)),
        forall|i: int|
            0 <= i < without_missing(cat, existing).len() ==> cat.contains(
                #[trigger] without_missing(cat, existing)[i],
            ) && !is_missing(without_missing(cat, existing)[i], existing),
        forall|i: int|
            0 <= i < cat.len() && !is_missing(#[trigger] cat[i], existing) ==> without_missing(
                cat,
                existing,
            ).contains(cat[i]),
        without_missing(cat, existing).len() + missing_count(cat, existing) == cat.len(),
{
    let keep = |r: MediaFileView| !is_missing(r, existing);
    let gone = |r: MediaFileView| is_missing(r, existing);
    lemma_filter_keeps_unique(cat, keep);
    cat.filter_lemma(keep);
    lemma_filter_partition(cat, existing);
}

/// The records that stay and the records that go add up to the catalog.
proof fn lemma_filter_partition(cat: Catalog, existing: Seq<Seq<char>>)
    ensures
        without_missing(cat, existing).len() + missing_count(cat, existing) == cat.len(),
    decreases cat.len(),
{
    reveal(Seq::filter);
    if cat.len() > 0 {
        lemma_filter_partition(cat.drop_last(), existing);
    }
}

/// Whether `pattern` stands in `text` at the index `k`.
pub open spec fn infix_at(text: Seq<char>, pattern: Seq<char>, k: int) -> bool {
    0 <= k <= text.len() - pattern.len() && text.subrange(k, k + pattern.len()) == pattern
}

/// Whether `pattern` occurs in `text`.
pub open spec fn has_infix(text: Seq<char>, pattern: Seq<char>) -> bool {
    exists|k: int| infix_at(text, pattern, k)
}

/// Whether `pattern` occurs in `text`.
pub fn contains_infix(text: &str, pattern: &str) -> (r: bool)
    ensures
        r == has_infix(text@, pattern@),
{
    let t = crate::text::chars_of(text);
    let p = crate::text::chars_of(pattern);
    if p.len() > t.len() {
        return false;
    }
    let whole: usize = t.len();
    let last: usize = whole - p.len();
    let mut k: usize = 0;
    while k <= last
        invariant
            whole == t@.len(),
            k <= last + 1,
            last + p@.len() == t@.len(),
            last < usize::MAX || p@.len() == 0,
            last == t@.len() - p@.len(),
            t@ == text@,
            p@ == pattern@,
            forall|j: int| 0 <= j < k ==> !infix_at(t@, p@, j),
        decreases last + 1 - k,
    {
        let mut i: usize = 0;
        while i < p.len() && t[k + i] == p[i]
            invariant
                whole == t@.len(),
                i <= p@.len(),
                k <= last,
                last + p@.len() == t@.len(),
                k + p@.len() <= t@.len(),
                forall|j: int| 0 <= j < i ==> t@[k + j] == p@[j],
            decreases p.len() - i,
        {
            i = i + 1;
        }
        if i == p.len() {
            assert(t@.subrange(k as int, k + p@.len()) =~= p@);
            assert(infix_at(t@, p@, k as int));
            return true;
        }
        assert(t@.subrange(k as int, k + p@.len())[i as int] != p@[i as int]);
        assert(p@.len() > 0);
        k = k + 1;
    }
    false
}

/// The column that a listing is ordered by.
#[derive(Debug, Clone, Copy, PartialEq, Eq, Structural)]
pub enum SortKey {
    ExifTimestamp,
    CreateTime,
    ModifyTime,
    FileName,
}

/// The sort key for a sort field; the EXIF time for an unknown field.
pub open spec fn sort_key_of(sort_by: Seq<char>) -> SortKey {
    if sort_by == "createTime"@ {
        SortKey::CreateTime
    } else if sort_by == "modifyTime"@ {
        SortKey::ModifyTime
    } else if sort_by == "fileName"@ {
        SortKey::FileName
    } else {
        SortKey::ExifTimestamp
    }
}

/// The time by which a record is ordered under a key; none under the file
/// name.
pub open spec fn time_under(r: MediaFileView, key: SortKey) -> Option<i64> {
    match key {
        SortKey::ExifTimestamp => r.exif_timestamp,
        SortKey::CreateTime => r.create_time,
        SortKey::ModifyTime => r.modify_time,
        SortKey::FileName => None,
    }
}

/// Whether `a` must stand before `b` in a listing: by the file name, or by
/// the time of the key with the records that have none last.
pub open spec fn goes_before(a: MediaFileView, b: MediaFileView, key: SortKey, ascending: bool) -> bool {
    if key == SortKey::FileName {
        a.file_name != b.file_name && (if ascending {
            crate::text::lex_le(a.file_name, b.file_name)
        } else {
            crate::text::lex_le(b.file_name, a.file_name)
        })
    } else {
        match (time_under(a, key), time_under(b, key)) {
            (Some(x), Some(y)) => if ascending {
                x < y
            } else {
                x > y
            },
            (Some(_), None) => true,
            _ => false,
        }
    }
}

/// Where a record goes among the first `n` of an ordered list: behind
/// every record that it need not stand before.
pub open spec fn slot_among(
    list: Seq<MediaFileView>,
    r: MediaFileView,
    key: SortKey,
    ascending: bool,
    n: int,
) -> int
    decreases n,
{
    if n <= 0 {
        0
    } else if !goes_before(r, list[n - 1], key, ascending) {
        n
    } else {
        slot_among(list, r, key, ascending, n - 1)
    }
}

/// The first `n` records in the order of a listing; records that tie keep
/// the order of the catalog.
pub open spec fn ordered(list: Seq<MediaFileView>, key: SortKey, ascending: bool, n: int) -> Seq<
    MediaFileView,
>
    decreases n,
{
    if n <= 0 {
        Seq::empty()
    } else {
        let before = ordered(list, key, ascending, n - 1);
        before.insert(
            slot_among(before, list[n - 1], key, ascending, before.len() as int),
            list[n - 1],
        )
    }
}

/// The text under which an instant is stored, for matching a date.
pub open spec fn stored_time_text(t: Option<i64>) -> Option<Seq<char>> {
    match t {
        Some(s) => crate::extraction::time::formatted_instant(s as int, "%Y-%m-%d %H:%M:%S"@),
        None => None,
    }
}

/// Whether a stored time begins with the date text.
pub open spec fn time_matches(t: Option<i64>, date: Seq<char>) -> bool {
    match stored_time_text(t) {
        Some(text) => crate::text::starts_with(text, date),
        None => false,
    }
}

/// Whether a record passes the filters of a listing: the path holds the
/// path filter, the file type is the one asked for unless that is `all`,
/// the camera model is the one asked for, and one of the three times
/// begins with the date.
pub open spec fn passes(r: MediaFileView, f: crate::db::statements::ListFilter) -> bool {
    &&& f.path matches Some(p) ==> has_infix(r.file_path, p@)
    &&& f.file_type matches Some(t) ==> t@ == "all"@ || r.file_type == t@
    &&& f.camera_model matches Some(c) ==> r.camera_model == Some(c@)
    &&& f.date_prefix matches Some(d) ==> time_matches(r.exif_timestamp, d@) || time_matches(
        r.create_time,
        d@,
    ) || time_matches(r.modify_time, d@)
}

/// The page of a list: `size` items from the item `page * size` on. A
/// negative size means no limit; a negative offset means none.
pub open spec fn page_of<T>(list: Seq<T>, page: i32, size: i32) -> Seq<T> {
    let offset = if page * size < 0 {
        0
    } else {
        page * size
    };
    let start = if offset < list.len() {
        offset
    } else {
        list.len() as int
    };
    let end = if size < 0 || start + size > list.len() {
        list.len() as int
    } else {
        start + size
    };
    list.subrange(start, end)
}

fn time_has_date(t: Option<i64>, date: &str) -> (r: bool)
    ensures
        r == time_matches(t, date@),
{
    match t {
        Some(secs) => match crate::extraction::time::TimeUtils::format_for_display(secs) {
            Some(text) => {
                let v = crate::text::chars_of(text.as_str());
                crate::text::has_prefix(v.as_slice(), date)
            },
            None => false,
        },
        None => false,
    }
}

/// Whether a record passes the filters of a listing.
pub fn record_passes(r: &MediaFile, f: &crate::db::statements::ListFilter) -> (res: bool)
    ensures
        res == passes(r@, *f),
{
    let path_ok = match &f.path {
        Some(p) => contains_infix(r.file_path.as_str(), p.as_str()),
        None => true,
    };
    let type_ok = match &f.file_type {
        Some(t) => str_eq(t.as_str(), "all") || str_eq(r.file_type.as_str(), t.as_str()),
        None => true,
    };
    let camera_ok = match &f.camera_model {
        Some(c) => match &r.camera_model {
            Some(m) => str_eq(m.as_str(), c.as_str()),
            None => false,
        },
        None => true,
    };
    let date_ok = match &f.date_prefix {
        Some(d) => time_has_date(r.exif_timestamp, d.as_str()) || time_has_date(
            r.create_time,
            d.as_str(),
        ) || time_has_date(r.modify_time, d.as_str()),
        None => true,
    };
    path_ok && type_ok && camera_ok && date_ok
}

/// The sort key for a sort field.
pub fn sort_key(sort_by: &str) -> (r: SortKey)
    ensures
        r == sort_key_of(sort_by@),
{
    if str_eq(sort_by, "createTime") {
        SortKey::CreateTime
    } else if str_eq(sort_by, "modifyTime") {
        SortKey::ModifyTime
    } else if str_eq(sort_by, "fileName") {
        SortKey::FileName
    } else {
        SortKey::ExifTimestamp
    }
}

/// Whether `a` must stand before `b` in a listing.
pub fn stands_before(a: &MediaFile, b: &MediaFile, key: SortKey, ascending: bool) -> (r: bool)
    ensures
        r == goes_before(a@, b@, key, ascending),
{
    let times = match key {
        SortKey::ExifTimestamp => (a.exif_timestamp, b.exif_timestamp),
        SortKey::CreateTime => (a.create_time, b.create_time),
        SortKey::ModifyTime => (a.modify_time, b.modify_time),
        SortKey::FileName => {
            if str_eq(a.file_name.as_str(), b.file_name.as_str()) {
                return false;
            }
            return if ascending {
                crate::text::text_le(a.file_name.as_str(), b.file_name.as_str())
            } else {
                crate::text::text_le(b.file_name.as_str(), a.file_name.as_str())
            };
        },
    };
    match times {
        (Some(x), Some(y)) => if ascending {
            x < y
        } else {
            x > y
        },
        (Some(_), None) => true,
        _ => false,
    }
}

impl MediaFileRepository {
    /// Count files with filters: the records that pass the path and the
    /// type filter.
    pub fn count(&self, filter: &crate::db::statements::ListFilter) -> (r: usize)
        ensures
            r == self@.filter(|x: MediaFileView| passes(x, *filter)).len(),
    {
        let ghost pass = |x: MediaFileView| passes(x, *filter);
        let mut n: usize = 0;
        let mut i: usize = 0;
        proof {
            reveal(Seq::filter);
        }
        while i < self.records.len()
            invariant
                i <= self.records.len(),
                pass == (|x: MediaFileView| passes(x, *filter)),
                n == self@.subrange(0, i as int).filter(pass).len(),
                n <= i,
            decreases self.records.len() - i,
        {
            proof {
                lemma_filter_step(self@, i as int, pass);
            }
            if record_passes(&self.records[i], filter) {
                n = n + 1;
            }
            i = i + 1;
        }
        assert(self@.subrange(0, i as int) == self@);
        n
    }

    /// Get all media files with pagination and filtering: the records that
    /// pass the filters, ordered by the sort field with the records that
    /// lack its time last, and of these the page asked for.
    pub fn find_all(
        &self,
        filter: &crate::db::statements::ListFilter,
        sort_by: &str,
        order: &str,
        page: i32,
        page_size: i32,
    ) -> (r: Vec<MediaFile>)
        ensures
            r@.map_values(|x: MediaFile| x@) == page_of(
                ordered(
                    self@.filter(|x: MediaFileView| passes(x, *filter)),
                    sort_key_of(sort_by@),
                    order@ == "asc"@,
                    self@.filter(|x: MediaFileView| passes(x, *filter)).len() as int,
                ),
                page,
                page_size,
            ),
    {
        let key = sort_key(sort_by);
        let ascending = str_eq(order, "asc");
        let ghost pass = |x: MediaFileView| passes(x, *filter);
        let ghost chosen = self@.filter(pass);
        // The records that pass, in the order of the listing.
        let mut sorted: Vec<&MediaFile> = Vec::new();
        let ghost mut taken: Seq<MediaFileView> = Seq::empty();
        let mut i: usize = 0;
        proof {
            reveal(Seq::filter);
        }
        while i < self.records.len()
            invariant
                i <= self.records.len(),
                pass == (|x: MediaFileView| passes(x, *filter)),
                taken == self@.subrange(0, i as int).filter(pass),
                sorted@.map_values(|x: &MediaFile| x@) == ordered(
                    taken,
                    key,
                    ascending,
                    taken.len() as int,
                ),
            decreases self.records.len() - i,
        {
            proof {
                lemma_filter_step(self@, i as int, pass);
            }
            let rec = &self.records[i];
            if record_passes(rec, filter) {
                let ghost list = sorted@.map_values(|x: &MediaFile| x@);
                let mut at: usize = sorted.len();
                while at > 0 && stands_before(rec, sorted[at - 1], key, ascending)
                    invariant
                        at <= sorted@.len(),
                        list == sorted@.map_values(|x: &MediaFile| x@),
                        slot_among(list, rec@, key, ascending, list.len() as int) == slot_among(
                            list,
                            rec@,
                            key,
                            ascending,
                            at as int,
                        ),
                    decreases at,
                {
                    assert(list[at - 1] == sorted@[at - 1]@);
                    at = at - 1;
                }
                proof {
                    if at > 0 {
                        assert(list[at - 1] == sorted@[at - 1]@);
                    }
                    let grown = taken.push(rec@);
                    assert(ordered(grown, key, ascending, grown.len() - 1) == ordered(
                        taken,
                        key,
                        ascending,
                        taken.len() as int,
                    )) by {
                        lemma_ordered_prefix(grown, taken, key, ascending, taken.len() as int);
                    }
                    taken = grown;
                }
                sorted.insert(at, rec);
                assert(sorted@.map_values(|x: &MediaFile| x@) =~= list.insert(at as int, rec@));
            }
            i = i + 1;
        }
        assert(self@.subrange(0, i as int) == self@);
        let total: usize = sorted.len();
        assert(-0x8000_0000 * 0x8000_0000 <= page * page_size <= 0x8000_0000 * 0x8000_0000)
            by (nonlinear_arith)
            requires
                -0x8000_0000 <= page <= 0x7fff_ffff,
                -0x8000_0000 <= page_size <= 0x7fff_ffff,
        ;
        let offset: i64 = (page as i64) * (page_size as i64);
        let start: usize = if offset < 0 {
            0
        } else if offset as u64 >= total as u64 {
            total
        } else {
            offset as usize
        };
        let end: usize = if page_size < 0 || (page_size as u64) > (total - start) as u64 {
            total
        } else {
            start + page_size as usize
        };
        let mut out: Vec<MediaFile> = Vec::new();
        let mut k: usize = start;
        let ghost whole = sorted@.map_values(|x: &MediaFile| x@);
        while k < end
            invariant
                start <= k <= end <= sorted@.len(),
                whole == sorted@.map_values(|x: &MediaFile| x@),
                out@.map_values(|x: MediaFile| x@) == whole.subrange(start as int, k as int),
            decreases end - k,
        {
            let ghost before = out@.map_values(|x: MediaFile| x@);
            out.push(sorted[k].duplicate());
            assert(out@.map_values(|x: MediaFile| x@) =~= before.push(whole[k as int]));
            k = k + 1;
        }
        assert(whole.len() == sorted@.len());
        out
    }
}

/// The order of the first records does not depend on what follows them.
pub proof fn lemma_ordered_prefix(
    long: Seq<MediaFileView>,
    short: Seq<MediaFileView>,
    key: SortKey,
    ascending: bool,
    n: int,
)
    requires
        0 <= n <= short.len() <= long.len(),
        forall|i: int| 0 <= i < short.len() ==> long[i] == short[i],
    ensures
        ordered(long, key, ascending, n) == ordered(short, key, ascending, n),
    decreases n,
{
    if n > 0 {
        lemma_ordered_prefix(long, short, key, ascending, n - 1);
    }
}

/// The order of a listing is a strict weak order: no record stands before
/// itself or before one that stands before it, and a record that need not
/// stand before a second, which need not stand before a third, need not
/// stand before the third.
pub proof fn lemma_goes_before_is_an_order(
    a: MediaFileView,
    b: MediaFileView,
    c: MediaFileView,
    key: SortKey,
    ascending: bool,
)
    ensures
        !goes_before(a, a, key, ascending),
        goes_before(a, b, key, ascending) ==> !goes_before(b, a, key, ascending),
        !goes_before(a, b, key, ascending) && !goes_before(b, c, key, ascending) ==> !goes_before(
            a,
            c,
            key,
            ascending,
        ),
{
    if key == SortKey::FileName {
        let x = a.file_name;
        let y = b.file_name;
        let z = c.file_name;
        crate::text::lemma_lex_total(x, y);
        crate::text::lemma_lex_total(y, z);
        crate::text::lemma_lex_total(x, z);
        if crate::text::lex_le(x, y) && crate::text::lex_le(y, x) {
            crate::text::lemma_lex_antisymmetric(x, y);
        }
        if crate::text::lex_le(y, z) && crate::text::lex_le(z, y) {
            crate::text::lemma_lex_antisymmetric(y, z);
        }
        if crate::text::lex_le(x, z) && crate::text::lex_le(z, x) {
            crate::text::lemma_lex_antisymmetric(x, z);
        }
        if crate::text::lex_le(z, y) && crate::text::lex_le(y, x) {
            crate::text::lemma_lex_transitive(z, y, x);
        }
        if crate::text::lex_le(x, y) && crate::text::lex_le(y, z) {
            crate::text::lemma_lex_transitive(x, y, z);
        }
    }
}

/// A listing has no inversion: no record stands behind one that it must
/// stand before; so the records without the time of the key come last.
pub proof fn lemma_ordered_has_no_inversion(
    list: Seq<MediaFileView>,
    key: SortKey,
    ascending: bool,
    n: int,
)
    requires
        0 <= n <= list.len(),
    ensures
        ordered(list, key, ascending, n).len() == n,
        forall|i: int, j: int|
            0 <= i < j < n ==> !goes_before(
                #[trigger] ordered(list, key, ascending, n)[j],
                #[trigger] ordered(list, key, ascending, n)[i],
                key,
                ascending,
            ),
    decreases n,
{
    if n > 0 {
        lemma_ordered_has_no_inversion(list, key, ascending, n - 1);
        let before = ordered(list, key, ascending, n - 1);
        let x = list[n - 1];
        let at = slot_among(before, x, key, ascending, before.len() as int);
        lemma_slot_among(before, x, key, ascending, before.len() as int);
        let after = ordered(list, key, ascending, n);
        assert(after == before.insert(at, x));
        assert forall|i: int, j: int| 0 <= i < j < n implies !goes_before(
            #[trigger] after[j],
            #[trigger] after[i],
            key,
            ascending,
        ) by {
            let bi = if i < at {
                i
            } else {
                i - 1
            };
            let bj = if j < at {
                j
            } else {
                j - 1
            };
            if i != at && j != at {
                assert(!goes_before(before[bj], before[bi], key, ascending));
            } else if i == at {
                // x stands before every record behind its slot.
                assert(goes_before(x, before[bj], key, ascending));
                lemma_goes_before_is_an_order(x, before[bj], x, key, ascending);
            } else {
                // x need not stand before the record just ahead of its slot,
                // which need not stand before any record ahead of itself.
                assert(!goes_before(x, before[at - 1], key, ascending));
                if i < at - 1 {
                    assert(!goes_before(before[at - 1], before[i], key, ascending));
                    lemma_goes_before_is_an_order(x, before[at - 1], before[i], key, ascending);
                }
            }
        }
    }
}

/// What [`slot_among`] finds: the record need not stand before the one
/// just ahead of the slot, and must stand before every one behind it.
pub proof fn lemma_slot_among(
    list: Seq<MediaFileView>,
    r: MediaFileView,
    key: SortKey,
    ascending: bool,
    n: int,
)
    requires
        0 <= n <= list.len(),
    ensures
        0 <= slot_among(list, r, key, ascending, n) <= n,
        slot_among(list, r, key, ascending, n) > 0 ==> !goes_before(
            r,
            list[slot_among(list, r, key, ascending, n) - 1],
            key,
            ascending,
        ),
        forall|k: int|
            slot_among(list, r, key, ascending, n) <= k < n ==> goes_before(
                r,
                #[trigger] list[k],
                key,
                ascending,
            ),
    decreases n,
{
    if n > 0 && goes_before(r, list[n - 1], key, ascending) {
        lemma_slot_among(list, r, key, ascending, n - 1);
    }
}

/// The time that places a record in the calendar: the EXIF timestamp
/// where it has one, else the creation time, else the modification time.
pub open spec fn calendar_time(r: MediaFileView) -> Option<i64> {
    if r.exif_timestamp is Some {
        r.exif_timestamp
    } else if r.create_time is Some {
        r.create_time
    } else {
        r.modify_time
    }
}

/// The date, as `YYYY-MM-DD`, that places a record in the calendar.
pub open spec fn calendar_date(r: MediaFileView) -> Option<Seq<char>> {
    match calendar_time(r) {
        Some(t) => crate::extraction::time::formatted_instant(t as int, "%Y-%m-%d"@),
        None => None,
    }
}

/// Whether a record that passes the filters lies on the date.
pub open spec fn has_file_on(cat: Catalog, f: crate::db::statements::ListFilter, date: Seq<char>) -> bool {
    exists|i: int| 0 <= i < cat.len() && passes(#[trigger] cat[i], f) && calendar_date(cat[i]) == Some(date)
}

/// The dates of a list.
pub open spec fn dates_in(list: Seq<DateInfo>) -> Seq<Seq<char>> {
    list.map_values(|d: DateInfo| d.date@)
}

/// Whether the texts stand in strictly descending order.
pub open spec fn strictly_descending(v: Seq<Seq<char>>) -> bool {
    forall|i: int, j: int|
        0 <= i < j < v.len() ==> (#[trigger] v[i]) != (#[trigger] v[j]) && crate::text::lex_le(
            v[j],
            v[i],
        )
}

impl MediaFileRepository {
    /// Get dates with files, for the calendar: each date on which a record
    /// that passes the path and type filters lies, once, the latest first.
    /// Every entry counts 1: a date is listed, not its files.
    pub fn find_dates_with_files(&self, filter: &crate::db::statements::ListFilter) -> (r: Vec<
        DateInfo,
    >)
        ensures
            strictly_descending(dates_in(r@)),
            forall|date: Seq<char>| dates_in(r@).contains(date) == has_file_on(self@, *filter, date),
            forall|k: int| 0 <= k < r@.len() ==> (#[trigger] r@[k]).count == 1,
    {
        broadcast use vstd::seq_lib::group_to_multiset_ensures;

        let mut dates: Vec<String> = Vec::new();
        let mut i: usize = 0;
        while i < self.records.len()
            invariant
                i <= self.records.len(),
                forall|date: Seq<char>|
                    texts(dates@).contains(date) == has_file_on(
                        self@.subrange(0, i as int),
                        *filter,
                        date,
                    ),
            decreases self.records.len() - i,
        {
            let rec = &self.records[i];
            let time = if rec.exif_timestamp.is_some() {
                rec.exif_timestamp
            } else if rec.create_time.is_some() {
                rec.create_time
            } else {
                rec.modify_time
            };
            let found = if record_passes(rec, filter) {
                match time {
                    Some(t) => crate::extraction::time::TimeUtils::format_date_only(t),
                    None => None,
                }
            } else {
                None
            };
            let ghost head = self@.subrange(0, i as int);
            let ghost next = self@.subrange(0, i as int + 1);
            let ghost before = texts(dates@);
            match found {
                Some(d) => {
                    dates.push(d);
                    assert(texts(dates@) =~= before.push(d@));
                },
                None => {},
            }
            proof {
                assert forall|date: Seq<char>| texts(dates@).contains(date) == has_file_on(
                    next,
                    *filter,
                    date,
                ) by {
                    let here = passes(self@[i as int], *filter) && calendar_date(self@[i as int])
                        == Some(date);
                    assert(next[i as int] == self@[i as int]);
                    if has_file_on(next, *filter, date) {
                        let k = choose|k: int|
                            0 <= k < next.len() && passes(#[trigger] next[k], *filter)
                                && calendar_date(next[k]) == Some(date);
                        if k < i {
                            assert(head[k] == next[k]);
                            assert(has_file_on(head, *filter, date));
                        }
                    }
                    if has_file_on(head, *filter, date) {
                        let k = choose|k: int|
                            0 <= k < head.len() && passes(#[trigger] head[k], *filter)
                                && calendar_date(head[k]) == Some(date);
                        assert(next[k] == head[k]);
                    }
                    if texts(dates@).contains(date) && !before.contains(date) {
                        let k = choose|k: int|
                            0 <= k < texts(dates@).len() && texts(dates@)[k] == date;
                        if k < before.len() {
                            assert(before[k] == date);
                        }
                        assert(here);
                    }
                    if before.contains(date) {
                        let k = choose|k: int| 0 <= k < before.len() && before[k] == date;
                        assert(texts(dates@)[k] == date);
                    }
                    if here {
                        assert(texts(dates@)[before.len() as int] == date);
                    }
                }
            }
            i = i + 1;
        }
        assert(self@.subrange(0, i as int) == self@);
        let ghost wanted = texts(dates@);
        let sorted = sort_texts(dates);
        let ghost all = texts(sorted@);
        proof {
            assert forall|date: Seq<char>| all.contains(date) == wanted.contains(date) by {
                assert(all.to_multiset().count(date) == wanted.to_multiset().count(date));
            }
        }
        let mut out: Vec<DateInfo> = Vec::new();
        let mut k: usize = sorted.len();
        while k > 0
            invariant
                k <= sorted@.len(),
                all == texts(sorted@),
                crate::text::is_sorted(all),
                strictly_descending(dates_in(out@)),
                forall|n: int| 0 <= n < out@.len() ==> (#[trigger] out@[n]).count == 1,
                forall|date: Seq<char>|
                    dates_in(out@).contains(date) == all.subrange(k as int, all.len() as int).contains(
                        date,
                    ),
                out@.len() > 0 ==> k < all.len() && dates_in(out@).last() == all[k as int],
                out@.len() == 0 ==> k == all.len(),
            decreases k,
        {
            let ghost listed = dates_in(out@);
            let ghost tail = all.subrange(k as int, all.len() as int);
            let ghost longer = all.subrange(k - 1, all.len() as int);
            let item = &sorted[k - 1];
            assert(all[k - 1] == item@);
            let fresh = if out.len() == 0 {
                true
            } else {
                !str_eq(out[out.len() - 1].date.as_str(), item.as_str())
            };
            if fresh {
                out.push(DateInfo { date: item.clone(), count: 1 });
                assert(dates_in(out@) =~= listed.push(item@));
                proof {
                    assert forall|a: int, b: int| 0 <= a < b < dates_in(out@).len() implies (
                    #[trigger] dates_in(out@)[a]) != (#[trigger] dates_in(out@)[b])
                        && crate::text::lex_le(dates_in(out@)[b], dates_in(out@)[a]) by {
                        if b == listed.len() {
                            // Every date listed so far is a later one.
                            assert(listed.contains(listed[a]));
                            assert(tail.contains(listed[a]));
                            let at = choose|at: int| 0 <= at < tail.len() && tail[at] == listed[a];
                            assert(all[k + at] == listed[a]);
                            assert(crate::text::lex_le(all[k - 1], all[k + at]));
                            if listed[a] == item@ {
                                assert(crate::text::lex_le(all[k - 1], all[k as int]));
                                assert(crate::text::lex_le(all[k as int], all[k + at]) || at == 0);
                                crate::text::lemma_lex_antisymmetric(all[k as int], item@);
                            }
                        }
                    }
                }
            }
            proof {
                let now = dates_in(out@);
                assert(longer[0] == item@);
                assert(now.contains(item@)) by {
                    if fresh {
                        assert(now[listed.len() as int] == item@);
                    } else {
                        assert(now[listed.len() - 1] == item@);
                    }
                }
                assert forall|date: Seq<char>| now.contains(date) == longer.contains(date) by {
                    if longer.contains(date) {
                        let at = choose|at: int| 0 <= at < longer.len() && longer[at] == date;
                        if at > 0 {
                            assert(tail[at - 1] == date);
                            assert(tail.contains(date));
                            assert(listed.contains(date));
                            let w = choose|w: int| 0 <= w < listed.len() && listed[w] == date;
                            assert(now[w] == date);
                        }
                        assert(now.contains(date));
                    }
                    if now.contains(date) {
                        let at = choose|at: int| 0 <= at < now.len() && now[at] == date;
                        if at < listed.len() {
                            assert(listed[at] == date);
                            assert(listed.contains(date));
                            assert(tail.contains(date));
                            let w = choose|w: int| 0 <= w < tail.len() && tail[w] == date;
                            assert(longer[w + 1] == date);
                        } else {
                            assert(date == item@);
                        }
                        assert(longer.contains(date));
                    }
                }
            }
            k = k - 1;
        }
        assert(all.subrange(0, all.len() as int) == all);
        out
    }
}

/// Upserting one run of records after another is upserting the two runs
/// as one: writing in chunks gives the catalog that one write would give.
pub proof fn lemma_upserted_all_in_chunks(
    cat: Catalog,
    first: Seq<MediaFileView>,
    second: Seq<MediaFileView>,
    n: int,
    now: i64,
)
    requires
        0 <= n <= second.len(),
    ensures
        upserted_all(upserted_all(cat, first, first.len() as int, now), second, n, now)
            == upserted_all(cat, first + second, first.len() + n, now),
    decreases n,
{
    let both = first + second;
    if n > 0 {
        lemma_upserted_all_in_chunks(cat, first, second, n - 1, now);
        assert(both[first.len() + n - 1] == second[n - 1]);
    } else {
        lemma_upserted_all_prefix(cat, both, first, first.len() as int, now);
    }
}

/// The first upserts do not depend on the records that follow them.
pub proof fn lemma_upserted_all_prefix(
    cat: Catalog,
    long: Seq<MediaFileView>,
    short: Seq<MediaFileView>,
    n: int,
    now: i64,
)
    requires
        0 <= n <= short.len() <= long.len(),
        forall|i: int| 0 <= i < short.len() ==> long[i] == short[i],
    ensures
        upserted_all(cat, long, n, now) == upserted_all(cat, short, n, now),
    decreases n,
{
    if n > 0 {
        lemma_upserted_all_prefix(cat, long, short, n - 1, now);
    }
}

} // verus!
