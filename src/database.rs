use vstd::prelude::*;
use crate::clock::{new_vault_id, utc_now_rfc3339};
use crate::order::{distinct_keys, in_listing_order, insert_in_order, keys_of, Attached, Chronological};
use crate::text::same_text;
use crate::records::{AnnotationRecord, AuditEvent, ImageRecord, MetaEntry, StoreError, TagRecord};

verus! {

/// Everything the store holds, as mathematical values.
pub struct StoreView {
    pub images: Seq<ImageRecord>,
    pub tags: Seq<TagRecord>,
    pub annotations: Seq<AnnotationRecord>,
    pub meta: Seq<MetaEntry>,
    pub audit_log: Seq<AuditEvent>,
    pub next_image_id: i64,
    pub next_tag_id: i64,
    pub next_annotation_id: i64,
    pub next_audit_id: i64,
    pub audit_writable: bool,
}

/// Identifiers of a table: each at least 1, below the next one to hand
/// out, and increasing along the table.
pub open spec fn ids_ascending(ids: Seq<i64>, next: i64) -> bool {
    &&& next >= 1
    &&& forall|i: int| 0 <= i < ids.len() ==> 1 <= #[trigger] ids[i] < next
    &&& forall|i: int, j: int| 0 <= i < j < ids.len() ==> ids[i] < ids[j]
}

pub open spec fn image_ids(images: Seq<ImageRecord>) -> Seq<i64> {
    keys_of(images)
}

pub open spec fn tag_ids(tags: Seq<TagRecord>) -> Seq<i64> {
    keys_of(tags)
}

pub open spec fn annotation_ids(annotations: Seq<AnnotationRecord>) -> Seq<i64> {
    keys_of(annotations)
}

/// The rows that belong to image `id`, in table order.
pub open spec fn rows_of<T: Attached>(rows: Seq<T>, id: i64) -> Seq<T> {
    rows.filter(|r: T| r.owner() == id)
}

/// The rows that do not belong to image `id`, in table order.
pub open spec fn rows_not_of<T: Attached>(rows: Seq<T>, id: i64) -> Seq<T> {
    rows.filter(|r: T| r.owner() != id)
}

pub open spec fn audit_ids(events: Seq<AuditEvent>) -> Seq<i64> {
    events.map_values(|r: AuditEvent| r.id)
}

/// Some image row, deleted or not, has identifier `id`.
pub open spec fn has_image_row(images: Seq<ImageRecord>, id: i64) -> bool {
    exists|i: int| 0 <= i < images.len() && (#[trigger] images[i]).id == id
}

/// Some image row, deleted or not, holds content hash `h`.
pub open spec fn has_hash(images: Seq<ImageRecord>, h: Seq<char>) -> bool {
    exists|i: int| 0 <= i < images.len() && (#[trigger] images[i]).file_hash@ == h
}

/// The image row with identifier `id`, if there is one.
pub open spec fn image_with_id(images: Seq<ImageRecord>, id: i64) -> Option<ImageRecord> {
    if has_image_row(images, id) {
        Some(images[choose|i: int| 0 <= i < images.len() && (#[trigger] images[i]).id == id])
    } else {
        None
    }
}

/// The image row holding content hash `h`, if there is one.
pub open spec fn image_with_hash(images: Seq<ImageRecord>, h: Seq<char>) -> Option<ImageRecord> {
    if has_hash(images, h) {
        Some(images[choose|i: int| 0 <= i < images.len() && (#[trigger] images[i]).file_hash@ == h])
    } else {
        None
    }
}

/// What outside callers see of a row: nothing once it is soft-deleted.
pub open spec fn visible(row: Option<ImageRecord>) -> Option<ImageRecord> {
    match row {
        Some(r) => if r.is_deleted {
            None
        } else {
            Some(r)
        },
        None => None,
    }
}

pub open spec fn is_active(r: ImageRecord) -> bool {
    !r.is_deleted
}

/// The rows that are not soft-deleted, in table order.
pub open spec fn active_images(images: Seq<ImageRecord>) -> Seq<ImageRecord> {
    images.filter(|r: ImageRecord| is_active(r))
}

impl StoreView {
    pub open spec fn wf(&self) -> bool {
        &&& ids_ascending(image_ids(self.images), self.next_image_id)
        &&& ids_ascending(tag_ids(self.tags), self.next_tag_id)
        &&& ids_ascending(annotation_ids(self.annotations), self.next_annotation_id)
        &&& ids_ascending(audit_ids(self.audit_log), self.next_audit_id)
        &&& forall|i: int, j: int|
            0 <= i < j < self.images.len() ==> (#[trigger] self.images[i]).file_hash@
                != (#[trigger] self.images[j]).file_hash@
        &&& forall|i: int|
            0 <= i < self.tags.len() ==> has_image_row(self.images, (#[trigger] self.tags[i]).image_id)
        &&& forall|i: int|
            0 <= i < self.annotations.len() ==> has_image_row(
                self.images,
                (#[trigger] self.annotations[i]).image_id,
            )
        &&& forall|i: int, j: int|
            0 <= i < j < self.meta.len() ==> (#[trigger] self.meta[i]).key@ != (#[trigger] self.meta[j]).key@
    }

    /// The same store with `row` appended to the images.
    pub open spec fn with_image(self, row: ImageRecord) -> StoreView {
        StoreView { images: self.images.push(row), next_image_id: (self.next_image_id + 1) as i64, ..self }
    }
}

/// `image` as stored under identifier `id`.
pub open spec fn stored_image(image: ImageRecord, id: i64) -> ImageRecord {
    ImageRecord { id, ..image }
}

/// The vault's metadata store: images, their tags and annotations, vault
/// settings and the audit log.
pub struct VaultStore {
    images: Vec<ImageRecord>,
    tags: Vec<TagRecord>,
    annotations: Vec<AnnotationRecord>,
    meta: Vec<MetaEntry>,
    audit_log: Vec<AuditEvent>,
    next_image_id: i64,
    next_tag_id: i64,
    next_annotation_id: i64,
    next_audit_id: i64,
    audit_writable: bool,
}

impl View for VaultStore {
    type V = StoreView;

    closed spec fn view(&self) -> StoreView {
        StoreView {
            images: self.images@,
            tags: self.tags@,
            annotations: self.annotations@,
            meta: self.meta@,
            audit_log: self.audit_log@,
            next_image_id: self.next_image_id,
            next_tag_id: self.next_tag_id,
            next_annotation_id: self.next_annotation_id,
            next_audit_id: self.next_audit_id,
            audit_writable: self.audit_writable,
        }
    }
}

impl VaultStore {
    pub open spec fn wf(&self) -> bool {
        self@.wf()
    }

    /// An empty store: no rows, identifiers starting at 1, audit log
    /// writable.
    pub fn new() -> (r: VaultStore)
        ensures
            r.wf(),
            r@.images.len() == 0,
            r@.tags.len() == 0,
            r@.annotations.len() == 0,
            r@.meta.len() == 0,
            r@.audit_log.len() == 0,
            r@.next_image_id == 1,
            r@.next_tag_id == 1,
            r@.next_annotation_id == 1,
            r@.next_audit_id == 1,
            r@.audit_writable,
    {
        VaultStore {
            images: Vec::new(),
            tags: Vec::new(),
            annotations: Vec::new(),
            meta: Vec::new(),
            audit_log: Vec::new(),
            next_image_id: 1,
            next_tag_id: 1,
            next_annotation_id: 1,
            next_audit_id: 1,
            audit_writable: true,
        }
    }

    /// Index of the image row with identifier `id`.
    fn image_index(&self, id: i64) -> (r: Option<usize>)
        requires
            self.wf(),
        ensures
            r is None <==> !has_image_row(self@.images, id),
            r matches Some(i) ==> i < self@.images.len() && self@.images[i as int].id == id
                && image_with_id(self@.images, id) == Some(self@.images[i as int]),
    {
        let mut i: usize = 0;
        while i < self.images.len()
            invariant
                self.wf(),
                i <= self@.images.len(),
                forall|j: int| 0 <= j < i ==> (#[trigger] self@.images[j]).id != id,
            decreases self@.images.len() - i,
        {
            if self.images[i].id == id {
                proof {
                    let s = self@.images;
                    assert(image_ids(s)[i as int] == s[i as int].id);
                    let k = choose|k: int| 0 <= k < s.len() && (#[trigger] s[k]).id == id;
                    assert(image_ids(s)[k] == s[k].id);
                    assert(k == i);
                }
                return Some(i);
            }
            i = i + 1;
        }
        None
    }

    /// Index of the image row holding content hash `h`.
    fn hash_index(&self, h: &str) -> (r: Option<usize>)
        requires
            self.wf(),
        ensures
            r is None <==> !has_hash(self@.images, h@),
            r matches Some(i) ==> i < self@.images.len() && self@.images[i as int].file_hash@ == h@
                && image_with_hash(self@.images, h@) == Some(self@.images[i as int]),
    {
        let mut i: usize = 0;
        while i < self.images.len()
            invariant
                self.wf(),
                i <= self@.images.len(),
                forall|j: int| 0 <= j < i ==> (#[trigger] self@.images[j]).file_hash@ != h@,
            decreases self@.images.len() - i,
        {
            if same_text(self.images[i].file_hash.as_str(), h) {
                proof {
                    let s = self@.images;
                    let k = choose|k: int| 0 <= k < s.len() && (#[trigger] s[k]).file_hash@ == h@;
                    assert(k == i);
                }
                return Some(i);
            }
            i = i + 1;
        }
        None
    }
}

/// Adds `image` to the catalog under the next identifier and returns that
/// identifier. Its own `id` is ignored; every other field is stored as
/// given. A content hash that any row holds, soft-deleted rows included,
/// is refused.
pub fn insert_image(store: &mut VaultStore, image: &ImageRecord) -> (r: Result<i64, StoreError>)
    requires
        old(store).wf(),
    ensures
        final(store).wf(),
        has_hash(old(store)@.images, image.file_hash@) ==> r == Err::<i64, StoreError>(
            StoreError::UniqueConstraintViolation,
        ) && final(store)@ == old(store)@,
        !has_hash(old(store)@.images, image.file_hash@) && old(store)@.next_image_id == i64::MAX
            ==> r == Err::<i64, StoreError>(StoreError::IdsExhausted) && final(store)@ == old(store)@,
        !has_hash(old(store)@.images, image.file_hash@) && old(store)@.next_image_id < i64::MAX
            ==> r == Ok::<i64, StoreError>(old(store)@.next_image_id) && final(store)@ == old(
            store,
        )@.with_image(stored_image(*image, old(store)@.next_image_id)),
{
    if store.hash_index(image.file_hash.as_str()).is_some() {
        return Err(StoreError::UniqueConstraintViolation);
    }
    if store.next_image_id == i64::MAX {
        return Err(StoreError::IdsExhausted);
    }
    let id = store.next_image_id;
    let mut row = image.duplicate();
    row.id = id;
    let ghost before = store@;
    store.images.push(row);
    store.next_image_id = id + 1;
    proof {
        let s = store@;
        assert(image_ids(s.images) =~= image_ids(before.images).push(id));
        assert forall|i: int| 0 <= i < s.tags.len() implies has_image_row(s.images, (#[trigger] s.tags[i]).image_id) by {
            let k = choose|k: int| 0 <= k < before.images.len() && (#[trigger] before.images[k]).id == s.tags[i].image_id;
            assert(s.images[k] == before.images[k]);
        }
        assert forall|i: int| 0 <= i < s.annotations.len() implies has_image_row(s.images, (#[trigger] s.annotations[i]).image_id) by {
            let k = choose|k: int| 0 <= k < before.images.len() && (#[trigger] before.images[k]).id == s.annotations[i].image_id;
            assert(s.images[k] == before.images[k]);
        }
        assert(s =~= before.with_image(stored_image(*image, id)));
    }
    Ok(id)
}

/// The tags attached to image `image_id`, in table order.
pub open spec fn tags_of(tags: Seq<TagRecord>, image_id: i64) -> Seq<TagRecord> {
    rows_of(tags, image_id)
}

/// The annotations attached to image `image_id`, in table order.
pub open spec fn annotations_of(annotations: Seq<AnnotationRecord>, image_id: i64) -> Seq<AnnotationRecord> {
    rows_of(annotations, image_id)
}

/// The images with row `id` marked deleted and its `updated_at` set to
/// `now`.
pub open spec fn mark_deleted(images: Seq<ImageRecord>, id: i64, now: String) -> Seq<ImageRecord> {
    images.map_values(
        |r: ImageRecord|
            if r.id == id {
                ImageRecord { is_deleted: true, updated_at: now, ..r }
            } else {
                r
            },
    )
}

/// `tag` as stored under identifier `id`.
pub open spec fn stored_tag(tag: TagRecord, id: i64) -> TagRecord {
    TagRecord { id, ..tag }
}

/// `annotation` as stored under identifier `id`.
pub open spec fn stored_annotation(annotation: AnnotationRecord, id: i64) -> AnnotationRecord {
    AnnotationRecord { id, ..annotation }
}

proof fn lemma_active_step(s: Seq<ImageRecord>, i: int)
    requires
        0 <= i < s.len(),
    ensures
        active_images(s.take(i + 1)) == (if is_active(s[i]) {
            active_images(s.take(i)).push(s[i])
        } else {
            active_images(s.take(i))
        }),
{
    reveal(Seq::filter);
    assert(s.take(i + 1).drop_last() =~= s.take(i));
}

proof fn lemma_take_push<A>(s: Seq<A>, i: int)
    requires
        0 <= i < s.len(),
    ensures
        forall|x: A| #[trigger] s.take(i + 1).contains(x) <==> (s.take(i).contains(x) || x == s[i]),
{
    assert(s.take(i + 1) =~= s.take(i).push(s[i]));
    assert forall|x: A| #[trigger] s.take(i + 1).contains(x) <==> (s.take(i).contains(x) || x == s[i]) by {
        if s.take(i + 1).contains(x) {
            let k = choose|k: int| 0 <= k < i + 1 && #[trigger] s.take(i + 1)[k] == x;
            if k < i {
                assert(s.take(i)[k] == x);
            }
        }
        if s.take(i).contains(x) {
            let k = choose|k: int| 0 <= k < i && #[trigger] s.take(i)[k] == x;
            assert(s.take(i + 1)[k] == x);
        }
        if x == s[i] {
            assert(s.take(i + 1)[i] == x);
        }
    }
}

/// All rows that are not soft-deleted, latest `created_at` first (equal
/// timestamps: highest identifier first).
pub fn get_all_images(store: &VaultStore) -> (r: Vec<ImageRecord>)
    requires
        store.wf(),
    ensures
        distinct_keys(r@),
        in_listing_order(r@, true),
        r@.len() == active_images(store@.images).len(),
        forall|x: ImageRecord| #[trigger] r@.contains(x) <==> (store@.images.contains(x) && is_active(x)),
{
    let ghost s = store@.images;
    let mut out: Vec<ImageRecord> = Vec::new();
    let mut i: usize = 0;
    while i < store.images.len()
        invariant
            store.wf(),
            s == store@.images,
            i <= s.len(),
            in_listing_order(out@, true),
            distinct_keys(out@),
            out@.len() == active_images(s.take(i as int)).len(),
            forall|x: ImageRecord| #[trigger] out@.contains(x) <==> (s.take(i as int).contains(x) && is_active(x)),
        decreases s.len() - i,
    {
        proof {
            lemma_active_step(s, i as int);
            lemma_take_push(s, i as int);
        }
        if !store.images[i].is_deleted {
            let row = store.images[i].duplicate();
            proof {
                assert forall|j: int| 0 <= j < out@.len() implies (#[trigger] out@[j]).key() != row.key() by {
                    assert(out@.contains(out@[j]));
                    let k = choose|k: int| 0 <= k < i && #[trigger] s.take(i as int)[k] == out@[j];
                    assert(image_ids(s)[k] == s[k].id);
                    assert(image_ids(s)[i as int] == s[i as int].id);
                }
            }
            insert_in_order(&mut out, row, true);
        }
        i = i + 1;
    }
    assert(s.take(s.len() as int) =~= s);
    out
}

/// The row with identifier `id`, unless it is soft-deleted or absent.
pub fn get_image_by_id(store: &VaultStore, id: i64) -> (r: Option<ImageRecord>)
    requires
        store.wf(),
    ensures
        r == visible(image_with_id(store@.images, id)),
{
    match store.image_index(id) {
        Some(i) => if store.images[i].is_deleted {
            None
        } else {
            Some(store.images[i].duplicate())
        },
        None => None,
    }
}

/// The row holding content hash `file_hash`, unless it is soft-deleted or
/// absent.
pub fn get_image_by_hash(store: &VaultStore, file_hash: &str) -> (r: Option<ImageRecord>)
    requires
        store.wf(),
    ensures
        r == visible(image_with_hash(store@.images, file_hash@)),
{
    match store.hash_index(file_hash) {
        Some(i) => if store.images[i].is_deleted {
            None
        } else {
            Some(store.images[i].duplicate())
        },
        None => None,
    }
}

/// Soft-deletes row `id` at time `now`: marks it deleted and sets its
/// `updated_at`. Nothing else changes; an absent `id` changes nothing.
pub fn soft_delete_image_at(store: &mut VaultStore, id: i64, now: String)
    requires
        old(store).wf(),
    ensures
        final(store).wf(),
        final(store)@ == (StoreView { images: mark_deleted(old(store)@.images, id, now), ..old(store)@ }),
{
    let ghost before = store@;
    match store.image_index(id) {
        Some(i) => {
            let mut row = store.images[i].duplicate();
            row.is_deleted = true;
            row.updated_at = now;
            store.images.set(i, row);
            proof {
                let s = store@;
                assert(s.images =~= mark_deleted(before.images, id, now)) by {
                    assert forall|j: int| 0 <= j < s.images.len() implies s.images[j] == mark_deleted(before.images, id, now)[j] by {
                        if j != i {
                            assert(image_ids(before.images)[j] == before.images[j].id);
                            assert(image_ids(before.images)[i as int] == before.images[i as int].id);
                        }
                    }
                }
                lemma_same_rows_preserve_wf(before, s);
            }
        },
        None => {
            proof {
                assert(before.images =~= mark_deleted(before.images, id, now));
            }
        },
    }
}

/// Rows that differ only in `is_deleted` and `updated_at` keep the store
/// well formed.
proof fn lemma_same_rows_preserve_wf(a: StoreView, b: StoreView)
    requires
        a.wf(),
        b == (StoreView { images: b.images, ..a }),
        b.images.len() == a.images.len(),
        forall|j: int|
            0 <= j < a.images.len() ==> (#[trigger] b.images[j]).id == a.images[j].id
                && b.images[j].file_hash == a.images[j].file_hash,
    ensures
        b.wf(),
{
    assert(image_ids(b.images) =~= image_ids(a.images));
    assert forall|i: int| 0 <= i < b.tags.len() implies has_image_row(b.images, (#[trigger] b.tags[i]).image_id) by {
        let k = choose|k: int| 0 <= k < a.images.len() && (#[trigger] a.images[k]).id == b.tags[i].image_id;
        assert(b.images[k].id == a.images[k].id);
    }
    assert forall|i: int| 0 <= i < b.annotations.len() implies has_image_row(b.images, (#[trigger] b.annotations[i]).image_id) by {
        let k = choose|k: int| 0 <= k < a.images.len() && (#[trigger] a.images[k]).id == b.annotations[i].image_id;
        assert(b.images[k].id == a.images[k].id);
    }
    assert forall|i: int, j: int| 0 <= i < j < b.images.len() implies (#[trigger] b.images[i]).file_hash@ != (#[trigger] b.images[j]).file_hash@ by {
        assert(a.images[i].file_hash@ != a.images[j].file_hash@);
    }
}

/// Soft-deletes row `id`, stamping it with the current time.
pub fn soft_delete_image(store: &mut VaultStore, id: i64)
    requires
        old(store).wf(),
    ensures
        final(store).wf(),
        exists|now: String| final(store)@ == (StoreView { images: #[trigger] mark_deleted(old(store)@.images, id, now), ..old(store)@ }),
{
    let now = utc_now_rfc3339();
    soft_delete_image_at(store, id, now);
}

proof fn lemma_rows_of_step<T: Attached>(s: Seq<T>, i: int, id: i64)
    requires
        0 <= i < s.len(),
    ensures
        rows_of(s.take(i + 1), id) == (if s[i].owner() == id {
            rows_of(s.take(i), id).push(s[i])
        } else {
            rows_of(s.take(i), id)
        }),
        rows_not_of(s.take(i + 1), id) == (if s[i].owner() != id {
            rows_not_of(s.take(i), id).push(s[i])
        } else {
            rows_not_of(s.take(i), id)
        }),
{
    reveal(Seq::filter);
    assert(s.take(i + 1).drop_last() =~= s.take(i));
}

/// Ascending identifiers are distinct.
proof fn lemma_ascending_distinct<T: Chronological>(s: Seq<T>, next: i64)
    requires
        ids_ascending(keys_of(s), next),
    ensures
        distinct_keys(s),
{
    assert forall|i: int, j: int| 0 <= i < j < s.len() implies (#[trigger] s[i]).key() != (#[trigger] s[j]).key() by {
        assert(keys_of(s)[i] == s[i].key() && keys_of(s)[j] == s[j].key());
    }
}

/// The rows that belong to image `id`, earliest `created_at` first (equal
/// timestamps: lowest identifier first).
fn list_rows_of<T: Attached>(rows: &Vec<T>, id: i64) -> (r: Vec<T>)
    requires
        distinct_keys(rows@),
    ensures
        distinct_keys(r@),
        in_listing_order(r@, false),
        r@.len() == rows_of(rows@, id).len(),
        forall|x: T| #[trigger] r@.contains(x) <==> (rows@.contains(x) && x.owner() == id),
{
    let ghost s = rows@;
    let mut out: Vec<T> = Vec::new();
    let mut i: usize = 0;
    while i < rows.len()
        invariant
            s == rows@,
            distinct_keys(s),
            i <= s.len(),
            in_listing_order(out@, false),
            distinct_keys(out@),
            out@.len() == rows_of(s.take(i as int), id).len(),
            forall|x: T| #[trigger] out@.contains(x) <==> (s.take(i as int).contains(x) && x.owner() == id),
        decreases s.len() - i,
    {
        proof {
            lemma_rows_of_step(s, i as int, id);
            lemma_take_push(s, i as int);
        }
        if rows[i].owner_id() == id {
            let row = rows[i].duplicate_row();
            proof {
                assert forall|j: int| 0 <= j < out@.len() implies (#[trigger] out@[j]).key() != row.key() by {
                    assert(out@.contains(out@[j]));
                    let k = choose|k: int| 0 <= k < i && #[trigger] s.take(i as int)[k] == out@[j];
                    assert(s[k] == out@[j]);
                }
            }
            insert_in_order(&mut out, row, false);
        }
        i = i + 1;
    }
    assert(s.take(s.len() as int) =~= s);
    out
}

/// A change that leaves the images and settings alone keeps the store well
/// formed when every table's identifiers stay ascending and every tag and
/// annotation still names an image row.
proof fn lemma_images_unchanged_preserve_wf(a: StoreView, b: StoreView)
    requires
        a.wf(),
        b.images == a.images,
        b.meta == a.meta,
        ids_ascending(tag_ids(b.tags), b.next_tag_id),
        ids_ascending(annotation_ids(b.annotations), b.next_annotation_id),
        ids_ascending(audit_ids(b.audit_log), b.next_audit_id),
        b.next_image_id == a.next_image_id,
        forall|i: int| 0 <= i < b.tags.len() ==> has_image_row(b.images, (#[trigger] b.tags[i]).image_id),
        forall|i: int|
            0 <= i < b.annotations.len() ==> has_image_row(b.images, (#[trigger] b.annotations[i]).image_id),
    ensures
        b.wf(),
{
}

/// Attaches `tag` to image `tag.image_id` under the next tag identifier and
/// returns that identifier. Its own `id` is ignored. The image row must
/// exist; whether it is soft-deleted does not matter.
pub fn insert_tag(store: &mut VaultStore, tag: &TagRecord) -> (r: Result<i64, StoreError>)
    requires
        old(store).wf(),
    ensures
        final(store).wf(),
        !has_image_row(old(store)@.images, tag.image_id) ==> r == Err::<i64, StoreError>(
            StoreError::ForeignKeyViolation,
        ) && final(store)@ == old(store)@,
        has_image_row(old(store)@.images, tag.image_id) && old(store)@.next_tag_id == i64::MAX ==> r
            == Err::<i64, StoreError>(StoreError::IdsExhausted) && final(store)@ == old(store)@,
        has_image_row(old(store)@.images, tag.image_id) && old(store)@.next_tag_id < i64::MAX ==> r
            == Ok::<i64, StoreError>(old(store)@.next_tag_id) && final(store)@ == (StoreView {
            tags: old(store)@.tags.push(stored_tag(*tag, old(store)@.next_tag_id)),
            next_tag_id: (old(store)@.next_tag_id + 1) as i64,
            ..old(store)@
        }),
{
    if store.image_index(tag.image_id).is_none() {
        return Err(StoreError::ForeignKeyViolation);
    }
    if store.next_tag_id == i64::MAX {
        return Err(StoreError::IdsExhausted);
    }
    let id = store.next_tag_id;
    let mut row = tag.duplicate();
    row.id = id;
    let ghost before = store@;
    store.tags.push(row);
    store.next_tag_id = id + 1;
    proof {
        assert(tag_ids(store@.tags) =~= tag_ids(before.tags).push(id));
        lemma_images_unchanged_preserve_wf(before, store@);
    }
    Ok(id)
}

/// Attaches `annotation` to image `annotation.image_id` under the next
/// annotation identifier and returns that identifier, on the same terms as
/// `insert_tag`.
pub fn insert_annotation(store: &mut VaultStore, annotation: &AnnotationRecord) -> (r: Result<i64, StoreError>)
    requires
        old(store).wf(),
    ensures
        final(store).wf(),
        !has_image_row(old(store)@.images, annotation.image_id) ==> r == Err::<i64, StoreError>(
            StoreError::ForeignKeyViolation,
        ) && final(store)@ == old(store)@,
        has_image_row(old(store)@.images, annotation.image_id) && old(store)@.next_annotation_id
            == i64::MAX ==> r == Err::<i64, StoreError>(StoreError::IdsExhausted) && final(store)@ == old(
            store,
        )@,
        has_image_row(old(store)@.images, annotation.image_id) && old(store)@.next_annotation_id
            < i64::MAX ==> r == Ok::<i64, StoreError>(old(store)@.next_annotation_id) && final(store)@ == (
        StoreView {
            annotations: old(store)@.annotations.push(
                stored_annotation(*annotation, old(store)@.next_annotation_id),
            ),
            next_annotation_id: (old(store)@.next_annotation_id + 1) as i64,
            ..old(store)@
        }),
{
    if store.image_index(annotation.image_id).is_none() {
        return Err(StoreError::ForeignKeyViolation);
    }
    if store.next_annotation_id == i64::MAX {
        return Err(StoreError::IdsExhausted);
    }
    let id = store.next_annotation_id;
    let mut row = annotation.duplicate();
    row.id = id;
    let ghost before = store@;
    store.annotations.push(row);
    store.next_annotation_id = id + 1;
    proof {
        assert(annotation_ids(store@.annotations) =~= annotation_ids(before.annotations).push(id));
        lemma_images_unchanged_preserve_wf(before, store@);
    }
    Ok(id)
}

/// The tags of image `image_id`, earliest `created_at` first (equal
/// timestamps: lowest identifier first).
pub fn get_image_tags(store: &VaultStore, image_id: i64) -> (r: Vec<TagRecord>)
    requires
        store.wf(),
    ensures
        distinct_keys(r@),
        in_listing_order(r@, false),
        r@.len() == tags_of(store@.tags, image_id).len(),
        forall|x: TagRecord| #[trigger] r@.contains(x) <==> (store@.tags.contains(x) && x.image_id == image_id),
{
    proof {
        lemma_ascending_distinct(store@.tags, store@.next_tag_id);
    }
    list_rows_of(&store.tags, image_id)
}

/// The annotations of image `image_id`, earliest `created_at` first (equal
/// timestamps: lowest identifier first).
pub fn get_image_annotations(store: &VaultStore, image_id: i64) -> (r: Vec<AnnotationRecord>)
    requires
        store.wf(),
    ensures
        distinct_keys(r@),
        in_listing_order(r@, false),
        r@.len() == annotations_of(store@.annotations, image_id).len(),
        forall|x: AnnotationRecord| #[trigger] r@.contains(x) <==> (store@.annotations.contains(x) && x.image_id == image_id),
{
    proof {
        lemma_ascending_distinct(store@.annotations, store@.next_annotation_id);
    }
    list_rows_of(&store.annotations, image_id)
}

/// A settings row as text: key, value, time of last update.
pub type MetaRow = (Seq<char>, Seq<char>, Seq<char>);

pub open spec fn meta_rows(meta: Seq<MetaEntry>) -> Seq<MetaRow> {
    meta.map_values(|e: MetaEntry| (e.key@, e.value@, e.last_updated@))
}

pub open spec fn has_key(rows: Seq<MetaRow>, key: Seq<char>) -> bool {
    exists|i: int| 0 <= i < rows.len() && (#[trigger] rows[i]).0 == key
}

pub open spec fn key_index(rows: Seq<MetaRow>, key: Seq<char>) -> int {
    choose|i: int| 0 <= i < rows.len() && (#[trigger] rows[i]).0 == key
}

/// The value stored under `key`, if any.
pub open spec fn lookup(rows: Seq<MetaRow>, key: Seq<char>) -> Option<Seq<char>> {
    if has_key(rows, key) {
        Some(rows[key_index(rows, key)].1)
    } else {
        None
    }
}

/// The rows after setting `key` to `value` at time `now`: the row of `key`
/// is overwritten in place, or a new row is appended.
pub open spec fn upserted(rows: Seq<MetaRow>, key: Seq<char>, value: Seq<char>, now: Seq<char>) -> Seq<MetaRow> {
    if has_key(rows, key) {
        rows.update(key_index(rows, key), (key, value, now))
    } else {
        rows.push((key, value, now))
    }
}

/// The rows after first-run seeding at time `now` with identifier
/// `vault_id`: unchanged when `schema_version` is already set, else
/// `schema_version` = "1", `vault_id` and `created_at` = `now`, all
/// stamped `now`.
pub open spec fn seeded(rows: Seq<MetaRow>, now: Seq<char>, vault_id: Seq<char>) -> Seq<MetaRow> {
    if has_key(rows, "schema_version"@) {
        rows
    } else {
        upserted(
            upserted(upserted(rows, "schema_version"@, "1"@, now), "vault_id"@, vault_id, now),
            "created_at"@,
            now,
            now,
        )
    }
}

/// `new` is `old` with one more audit event, of the next identifier and
/// the given type, status and details; nothing else changed.
pub open spec fn audit_appended(
    old: StoreView,
    new: StoreView,
    event_type: Seq<char>,
    status: Seq<char>,
    details: Option<Seq<char>>,
) -> bool {
    let e = new.audit_log.last();
    &&& new.audit_log.len() == old.audit_log.len() + 1
    &&& new == (StoreView {
        audit_log: old.audit_log.push(e),
        next_audit_id: (old.next_audit_id + 1) as i64,
        ..old
    })
    &&& e.id == old.next_audit_id
    &&& e.event_type@ == event_type
    &&& e.status@ == status
    &&& match details {
        Some(d) => e.details matches Some(x) && x@ == d,
        None => e.details is None,
    }
}

pub open spec fn text_option(o: Option<&str>) -> Option<Seq<char>> {
    match o {
        Some(s) => Some(s@),
        None => None,
    }
}

impl VaultStore {
    fn meta_index(&self, key: &str) -> (r: Option<usize>)
        requires
            self.wf(),
        ensures
            r is None <==> !has_key(meta_rows(self@.meta), key@),
            r matches Some(i) ==> i < self@.meta.len() && key_index(meta_rows(self@.meta), key@) == i,
    {
        let ghost rows = meta_rows(self@.meta);
        let mut i: usize = 0;
        while i < self.meta.len()
            invariant
                self.wf(),
                rows == meta_rows(self@.meta),
                i <= self@.meta.len(),
                forall|j: int| 0 <= j < i ==> (#[trigger] rows[j]).0 != key@,
            decreases self@.meta.len() - i,
        {
            if same_text(self.meta[i].key.as_str(), key) {
                proof {
                    assert(rows[i as int].0 == key@);
                    let k = key_index(rows, key@);
                    assert(rows[k].0 == self@.meta[k].key@);
                }
                return Some(i);
            }
            i = i + 1;
        }
        proof {
            assert forall|j: int| 0 <= j < rows.len() implies (#[trigger] rows[j]).0 != key@ by {}
        }
        None
    }
}

/// Sets `key` to `value` at time `now`, inserting the row or overwriting
/// its value and time of last update.
pub fn set_vault_meta_at(store: &mut VaultStore, key: &str, value: &str, now: &str)
    requires
        old(store).wf(),
    ensures
        final(store).wf(),
        meta_rows(final(store)@.meta) == upserted(meta_rows(old(store)@.meta), key@, value@, now@),
        final(store)@ == (StoreView { meta: final(store)@.meta, ..old(store)@ }),
{
    let ghost before = store@;
    let entry = MetaEntry {
        key: String::from_str(key),
        value: String::from_str(value),
        last_updated: String::from_str(now),
    };
    match store.meta_index(key) {
        Some(i) => {
            store.meta.set(i, entry);
        },
        None => {
            store.meta.push(entry);
        },
    }
    proof {
        let rows = meta_rows(before.meta);
        assert(meta_rows(store@.meta) =~= upserted(rows, key@, value@, now@));
        assert forall|i: int, j: int| 0 <= i < j < store@.meta.len() implies (#[trigger] store@.meta[i]).key@
            != (#[trigger] store@.meta[j]).key@ by {
            assert(meta_rows(store@.meta)[i].0 == store@.meta[i].key@);
            assert(meta_rows(store@.meta)[j].0 == store@.meta[j].key@);
            if i < before.meta.len() && j < before.meta.len() {
                assert(rows[i].0 == before.meta[i].key@);
                assert(rows[j].0 == before.meta[j].key@);
            } else if i < before.meta.len() {
                assert(rows[i].0 == before.meta[i].key@);
            }
        }
    }
}

/// Sets `key` to `value`, stamped with the current time.
pub fn set_vault_meta(store: &mut VaultStore, key: &str, value: &str)
    requires
        old(store).wf(),
    ensures
        final(store).wf(),
        exists|now: Seq<char>| meta_rows(final(store)@.meta) == #[trigger] upserted(meta_rows(old(store)@.meta), key@, value@, now),
        final(store)@ == (StoreView { meta: final(store)@.meta, ..old(store)@ }),
{
    let now = utc_now_rfc3339();
    set_vault_meta_at(store, key, value, now.as_str());
}

/// The value stored under `key`, if any.
pub fn get_vault_meta(store: &VaultStore, key: &str) -> (r: Option<String>)
    requires
        store.wf(),
    ensures
        r is None <==> lookup(meta_rows(store@.meta), key@) is None,
        r matches Some(v) ==> lookup(meta_rows(store@.meta), key@) == Some(v@),
{
    match store.meta_index(key) {
        Some(i) => Some(store.meta[i].value.clone()),
        None => None,
    }
}

/// First-run seeding at time `now`: when `schema_version` is not set,
/// writes `schema_version`, `vault_id` and `created_at` with one timestamp
/// and returns true; otherwise changes nothing and returns false.
pub fn seed_vault_meta(store: &mut VaultStore, now: &str, vault_id: &str) -> (r: bool)
    requires
        old(store).wf(),
    ensures
        final(store).wf(),
        r == !has_key(meta_rows(old(store)@.meta), "schema_version"@),
        meta_rows(final(store)@.meta) == seeded(meta_rows(old(store)@.meta), now@, vault_id@),
        final(store)@ == (StoreView { meta: final(store)@.meta, ..old(store)@ }),
{
    if store.meta_index("schema_version").is_some() {
        return false;
    }
    set_vault_meta_at(store, "schema_version", "1", now);
    set_vault_meta_at(store, "vault_id", vault_id, now);
    set_vault_meta_at(store, "created_at", now, now);
    true
}

/// Seeds the vault settings on first run, with the current time and a
/// fresh random identifier; returns whether it seeded.
pub fn init_db(store: &mut VaultStore) -> (r: bool)
    requires
        old(store).wf(),
    ensures
        final(store).wf(),
        r == !has_key(meta_rows(old(store)@.meta), "schema_version"@),
        exists|now: Seq<char>, vault_id: Seq<char>|
            vault_id.len() == 36 && meta_rows(final(store)@.meta) == #[trigger] seeded(meta_rows(old(store)@.meta), now, vault_id),
        final(store)@ == (StoreView { meta: final(store)@.meta, ..old(store)@ }),
{
    let now = utc_now_rfc3339();
    let vault_id = new_vault_id();
    seed_vault_meta(store, now.as_str(), vault_id.as_str())
}

/// Makes the audit log writable or read-only.
pub fn set_audit_log_writable(store: &mut VaultStore, writable: bool)
    requires
        old(store).wf(),
    ensures
        final(store).wf(),
        final(store)@ == (StoreView { audit_writable: writable, ..old(store)@ }),
{
    store.audit_writable = writable;
}

/// Appends an audit event stamped `now`. Fails, changing nothing, when the
/// log is read-only, or when its identifiers are exhausted.
pub fn log_auth_event_at(
    store: &mut VaultStore,
    event_type: &str,
    status: &str,
    details: Option<&str>,
    now: &str,
) -> (r: Result<(), StoreError>)
    requires
        old(store).wf(),
    ensures
        final(store).wf(),
        !old(store)@.audit_writable ==> r == Err::<(), StoreError>(StoreError::Unavailable) && final(store)@
            == old(store)@,
        old(store)@.audit_writable && old(store)@.next_audit_id == i64::MAX ==> r == Err::<(), StoreError>(
            StoreError::IdsExhausted,
        ) && final(store)@ == old(store)@,
        old(store)@.audit_writable && old(store)@.next_audit_id < i64::MAX ==> r is Ok && audit_appended(
            old(store)@,
            final(store)@,
            event_type@,
            status@,
            text_option(details),
        ) && final(store)@.audit_log.last().timestamp@ == now@,
{
    if !store.audit_writable {
        return Err(StoreError::Unavailable);
    }
    if store.next_audit_id == i64::MAX {
        return Err(StoreError::IdsExhausted);
    }
    let id = store.next_audit_id;
    let d = match details {
        Some(t) => Some(String::from_str(t)),
        None => None,
    };
    let event = AuditEvent {
        id,
        event_type: String::from_str(event_type),
        timestamp: String::from_str(now),
        status: String::from_str(status),
        details: d,
    };
    let ghost before = store@;
    store.audit_log.push(event);
    store.next_audit_id = id + 1;
    proof {
        assert(audit_ids(store@.audit_log) =~= audit_ids(before.audit_log).push(id));
        lemma_images_unchanged_preserve_wf(before, store@);
        assert(store@ == (StoreView {
            audit_log: before.audit_log.push(store@.audit_log.last()),
            next_audit_id: (before.next_audit_id + 1) as i64,
            ..before
        }));
    }
    Ok(())
}

/// Appends an audit event stamped with the current time, on the terms of
/// `log_auth_event_at`.
pub fn log_auth_event(store: &mut VaultStore, event_type: &str, status: &str, details: Option<&str>) -> (r: Result<(), StoreError>)
    requires
        old(store).wf(),
    ensures
        final(store).wf(),
        !old(store)@.audit_writable ==> r == Err::<(), StoreError>(StoreError::Unavailable) && final(store)@
            == old(store)@,
        old(store)@.audit_writable && old(store)@.next_audit_id == i64::MAX ==> r == Err::<(), StoreError>(
            StoreError::IdsExhausted,
        ) && final(store)@ == old(store)@,
        old(store)@.audit_writable && old(store)@.next_audit_id < i64::MAX ==> r is Ok && audit_appended(
            old(store)@,
            final(store)@,
            event_type@,
            status@,
            text_option(details),
        ),
{
    let now = utc_now_rfc3339();
    log_auth_event_at(store, event_type, status, details, now.as_str())
}

/// The images other than row `id`.
pub open spec fn without_image(images: Seq<ImageRecord>, id: i64) -> Seq<ImageRecord> {
    rows_not_of(images, id)
}

/// The tags not attached to image `id`.
pub open spec fn tags_not_of(tags: Seq<TagRecord>, id: i64) -> Seq<TagRecord> {
    rows_not_of(tags, id)
}

/// The annotations not attached to image `id`.
pub open spec fn annotations_not_of(annotations: Seq<AnnotationRecord>, id: i64) -> Seq<AnnotationRecord> {
    rows_not_of(annotations, id)
}

/// Keeps the rows that do not belong to image `id`, in order.
fn keep_rows_not_of<T: Attached>(rows: &Vec<T>, id: i64, next: i64) -> (r: Vec<T>)
    requires
        ids_ascending(keys_of(rows@), next),
    ensures
        r@ == rows_not_of(rows@, id),
        ids_ascending(keys_of(r@), next),
        forall|k: int| 0 <= k < r@.len() ==> rows@.contains(#[trigger] r@[k]),
{
    let ghost s = rows@;
    let mut out: Vec<T> = Vec::new();
    let mut i: usize = 0;
    while i < rows.len()
        invariant
            s == rows@,
            ids_ascending(keys_of(s), next),
            i <= s.len(),
            out@ == rows_not_of(s.take(i as int), id),
            ids_ascending(keys_of(out@), next),
            forall|k: int| 0 <= k < out@.len() ==> exists|j: int| 0 <= j < i && s[j] == #[trigger] out@[k],
            forall|k: int| 0 <= k < out@.len() ==> s.contains(#[trigger] out@[k]),
        decreases s.len() - i,
    {
        proof {
            lemma_rows_of_step(s, i as int, id);
        }
        if rows[i].owner_id() != id {
            let ghost before = out@;
            out.push(rows[i].duplicate_row());
            proof {
                assert(out@[before.len() as int] == s[i as int]);
                assert(keys_of(s)[i as int] == s[i as int].key());
                assert forall|k: int| 0 <= k < before.len() implies (#[trigger] keys_of(out@)[k]) < s[i as int].key() by {
                    let j = choose|j: int| 0 <= j < i && s[j] == #[trigger] before[k];
                    assert(keys_of(s)[j] == s[j].key());
                }
                assert(keys_of(out@) =~= keys_of(before).push(s[i as int].key()));
            }
        }
        i = i + 1;
    }
    assert(s.take(s.len() as int) =~= s);
    out
}

/// Maintenance only: physically removes image row `id` together with all
/// its tags and annotations. This cannot be undone, and the identifier is
/// never handed out again.
pub fn purge_image(store: &mut VaultStore, id: i64)
    requires
        old(store).wf(),
    ensures
        final(store).wf(),
        final(store)@ == (StoreView {
            images: without_image(old(store)@.images, id),
            tags: tags_not_of(old(store)@.tags, id),
            annotations: annotations_not_of(old(store)@.annotations, id),
            ..old(store)@
        }),
{
    let ghost before = store@;
    let images = keep_rows_not_of(&store.images, id, store.next_image_id);
    let tags = keep_rows_not_of(&store.tags, id, store.next_tag_id);
    let annotations = keep_rows_not_of(&store.annotations, id, store.next_annotation_id);
    store.images = images;
    store.tags = tags;
    store.annotations = annotations;
    proof {
        let s = store@;
        assert forall|i: int, j: int| 0 <= i < j < s.images.len() implies (#[trigger] s.images[i]).file_hash@
            != (#[trigger] s.images[j]).file_hash@ by {
            assert(before.images.contains(s.images[i]));
            assert(before.images.contains(s.images[j]));
            let a = choose|a: int| 0 <= a < before.images.len() && before.images[a] == s.images[i];
            let b = choose|b: int| 0 <= b < before.images.len() && before.images[b] == s.images[j];
            assert(image_ids(s.images)[i] < image_ids(s.images)[j]);
            assert(a != b);
        }
        assert forall|i: int| 0 <= i < s.tags.len() implies has_image_row(s.images, (#[trigger] s.tags[i]).image_id) by {
            let t = s.tags[i];
            assert(has_image_row(before.images, t.image_id));
            let k = choose|k: int| 0 <= k < before.images.len() && (#[trigger] before.images[k]).id == t.image_id;
            lemma_rows_not_of_excludes(before.tags, id, i);
            lemma_rows_not_of_keeps(before.images, id, k);
            let m = choose|m: int| 0 <= m < s.images.len() && s.images[m] == before.images[k];
            assert(s.images[m].id == t.image_id);
        }
        assert forall|i: int| 0 <= i < s.annotations.len() implies has_image_row(s.images, (#[trigger] s.annotations[i]).image_id) by {
            let t = s.annotations[i];
            assert(has_image_row(before.images, t.image_id));
            let k = choose|k: int| 0 <= k < before.images.len() && (#[trigger] before.images[k]).id == t.image_id;
            lemma_rows_not_of_excludes(before.annotations, id, i);
            lemma_rows_not_of_keeps(before.images, id, k);
            let m = choose|m: int| 0 <= m < s.images.len() && s.images[m] == before.images[k];
            assert(s.images[m].id == t.image_id);
        }
    }
}

/// No row kept for image `id` belongs to it, and each is a row of `s`.
pub proof fn lemma_rows_not_of_excludes<T: Attached>(s: Seq<T>, id: i64, i: int)
    requires
        0 <= i < rows_not_of(s, id).len(),
    ensures
        rows_not_of(s, id)[i].owner() != id,
        s.contains(rows_not_of(s, id)[i]),
    decreases s.len(),
{
    reveal(Seq::filter);
    if s.len() > 0 {
        let d = s.drop_last();
        if i < rows_not_of(d, id).len() {
            lemma_rows_not_of_excludes(d, id, i);
            let k = choose|k: int| 0 <= k < d.len() && d[k] == rows_not_of(d, id)[i];
            assert(s[k] == d[k]);
        } else {
            assert(s[s.len() - 1] == rows_not_of(s, id)[i]);
        }
    }
}

/// Every row not belonging to image `id` is kept.
pub proof fn lemma_rows_not_of_keeps<T: Attached>(s: Seq<T>, id: i64, k: int)
    requires
        0 <= k < s.len(),
        s[k].owner() != id,
    ensures
        rows_not_of(s, id).contains(s[k]),
    decreases s.len(),
{
    reveal(Seq::filter);
    let d = s.drop_last();
    if k < s.len() - 1 {
        lemma_rows_not_of_keeps(d, id, k);
        assert(d[k] == s[k]);
        let m = choose|m: int| 0 <= m < rows_not_of(d, id).len() && rows_not_of(d, id)[m] == d[k];
        assert(rows_not_of(s, id)[m] == s[k]);
    } else {
        assert(rows_not_of(s, id)[rows_not_of(d, id).len() as int] == s[k]);
    }
}

/// No row belongs to image `id` when none of them does.
pub proof fn lemma_rows_of_none<T: Attached>(s: Seq<T>, id: i64)
    requires
        forall|i: int| 0 <= i < s.len() ==> (#[trigger] s[i]).owner() != id,
    ensures
        rows_of(s, id).len() == 0,
    decreases s.len(),
{
    reveal(Seq::filter);
    if s.len() > 0 {
        lemma_rows_of_none(s.drop_last(), id);
    }
}

impl VaultStore {
    /// The settings rows, in table order.
    pub fn meta_entries(&self) -> (r: Vec<MetaEntry>)
        ensures
            r@ == self@.meta,
    {
        let mut out: Vec<MetaEntry> = Vec::new();
        let mut i: usize = 0;
        while i < self.meta.len()
            invariant
                i <= self@.meta.len(),
                out@ == self@.meta.take(i as int),
            decreases self@.meta.len() - i,
        {
            out.push(self.meta[i].duplicate());
            i = i + 1;
            assert(out@ =~= self@.meta.take(i as int));
        }
        assert(self@.meta.take(self@.meta.len() as int) =~= self@.meta);
        out
    }

    /// The audit log, oldest entry first.
    pub fn audit_events(&self) -> (r: Vec<AuditEvent>)
        ensures
            r@ == self@.audit_log,
    {
        let mut out: Vec<AuditEvent> = Vec::new();
        let mut i: usize = 0;
        while i < self.audit_log.len()
            invariant
                i <= self@.audit_log.len(),
                out@ == self@.audit_log.take(i as int),
            decreases self@.audit_log.len() - i,
        {
            out.push(self.audit_log[i].duplicate());
            i = i + 1;
            assert(out@ =~= self@.audit_log.take(i as int));
        }
        assert(self@.audit_log.take(self@.audit_log.len() as int) =~= self@.audit_log);
        out
    }
}

/// Restores a stored image row under its own identifier, which must be
/// above every identifier handed out so far. Refused, changing nothing,
/// when its hash is taken or its identifier is out of order.
pub fn load_image(store: &mut VaultStore, row: ImageRecord) -> (r: Result<(), StoreError>)
    requires
        old(store).wf(),
    ensures
        final(store).wf(),
        has_hash(old(store)@.images, row.file_hash@) ==> r == Err::<(), StoreError>(
            StoreError::UniqueConstraintViolation,
        ) && final(store)@ == old(store)@,
        !has_hash(old(store)@.images, row.file_hash@) && (row.id < old(store)@.next_image_id || row.id
            == i64::MAX) ==> r == Err::<(), StoreError>(StoreError::OutOfOrder) && final(store)@ == old(store)@,
        !has_hash(old(store)@.images, row.file_hash@) && old(store)@.next_image_id <= row.id < i64::MAX ==> r
            is Ok && final(store)@ == (StoreView {
            images: old(store)@.images.push(row),
            next_image_id: (row.id + 1) as i64,
            ..old(store)@
        }),
{
    if store.hash_index(row.file_hash.as_str()).is_some() {
        return Err(StoreError::UniqueConstraintViolation);
    }
    if row.id < store.next_image_id || row.id == i64::MAX {
        return Err(StoreError::OutOfOrder);
    }
    let id = row.id;
    let ghost before = store@;
    let ghost pushed = row;
    store.images.push(row);
    store.next_image_id = id + 1;
    proof {
        let s = store@;
        assert(image_ids(s.images) =~= image_ids(before.images).push(id));
        assert forall|i: int| 0 <= i < s.tags.len() implies has_image_row(s.images, (#[trigger] s.tags[i]).image_id) by {
            let k = choose|k: int| 0 <= k < before.images.len() && (#[trigger] before.images[k]).id == s.tags[i].image_id;
            assert(s.images[k] == before.images[k]);
        }
        assert forall|i: int| 0 <= i < s.annotations.len() implies has_image_row(s.images, (#[trigger] s.annotations[i]).image_id) by {
            let k = choose|k: int| 0 <= k < before.images.len() && (#[trigger] before.images[k]).id == s.annotations[i].image_id;
            assert(s.images[k] == before.images[k]);
        }
        assert(s =~= (StoreView { images: before.images.push(pushed), next_image_id: (id + 1) as i64, ..before }));
    }
    Ok(())
}

/// Restores a stored tag under its own identifier, on the terms of
/// `insert_tag` for its image and of `load_image` for its identifier.
pub fn load_tag(store: &mut VaultStore, row: TagRecord) -> (r: Result<(), StoreError>)
    requires
        old(store).wf(),
    ensures
        final(store).wf(),
        !has_image_row(old(store)@.images, row.image_id) ==> r == Err::<(), StoreError>(
            StoreError::ForeignKeyViolation,
        ) && final(store)@ == old(store)@,
        has_image_row(old(store)@.images, row.image_id) && (row.id < old(store)@.next_tag_id || row.id
            == i64::MAX) ==> r == Err::<(), StoreError>(StoreError::OutOfOrder) && final(store)@ == old(store)@,
        has_image_row(old(store)@.images, row.image_id) && old(store)@.next_tag_id <= row.id < i64::MAX ==> r
            is Ok && final(store)@ == (StoreView {
            tags: old(store)@.tags.push(row),
            next_tag_id: (row.id + 1) as i64,
            ..old(store)@
        }),
{
    if store.image_index(row.image_id).is_none() {
        return Err(StoreError::ForeignKeyViolation);
    }
    if row.id < store.next_tag_id || row.id == i64::MAX {
        return Err(StoreError::OutOfOrder);
    }
    let id = row.id;
    let ghost before = store@;
    store.tags.push(row);
    store.next_tag_id = id + 1;
    proof {
        assert(tag_ids(store@.tags) =~= tag_ids(before.tags).push(id));
        lemma_images_unchanged_preserve_wf(before, store@);
    }
    Ok(())
}

/// Restores a stored annotation under its own identifier, on the terms of
/// `load_tag`.
pub fn load_annotation(store: &mut VaultStore, row: AnnotationRecord) -> (r: Result<(), StoreError>)
    requires
        old(store).wf(),
    ensures
        final(store).wf(),
        !has_image_row(old(store)@.images, row.image_id) ==> r == Err::<(), StoreError>(
            StoreError::ForeignKeyViolation,
        ) && final(store)@ == old(store)@,
        has_image_row(old(store)@.images, row.image_id) && (row.id < old(store)@.next_annotation_id || row.id
            == i64::MAX) ==> r == Err::<(), StoreError>(StoreError::OutOfOrder) && final(store)@ == old(store)@,
        has_image_row(old(store)@.images, row.image_id) && old(store)@.next_annotation_id <= row.id < i64::MAX
            ==> r is Ok && final(store)@ == (StoreView {
            annotations: old(store)@.annotations.push(row),
            next_annotation_id: (row.id + 1) as i64,
            ..old(store)@
        }),
{
    if store.image_index(row.image_id).is_none() {
        return Err(StoreError::ForeignKeyViolation);
    }
    if row.id < store.next_annotation_id || row.id == i64::MAX {
        return Err(StoreError::OutOfOrder);
    }
    let id = row.id;
    let ghost before = store@;
    store.annotations.push(row);
    store.next_annotation_id = id + 1;
    proof {
        assert(annotation_ids(store@.annotations) =~= annotation_ids(before.annotations).push(id));
        lemma_images_unchanged_preserve_wf(before, store@);
    }
    Ok(())
}

/// Restores a stored audit event under its own identifier, which must be
/// above every identifier the log holds.
pub fn load_audit_event(store: &mut VaultStore, row: AuditEvent) -> (r: Result<(), StoreError>)
    requires
        old(store).wf(),
    ensures
        final(store).wf(),
        row.id < old(store)@.next_audit_id || row.id == i64::MAX ==> r == Err::<(), StoreError>(
            StoreError::OutOfOrder,
        ) && final(store)@ == old(store)@,
        old(store)@.next_audit_id <= row.id < i64::MAX ==> r is Ok && final(store)@ == (StoreView {
            audit_log: old(store)@.audit_log.push(row),
            next_audit_id: (row.id + 1) as i64,
            ..old(store)@
        }),
{
    if row.id < store.next_audit_id || row.id == i64::MAX {
        return Err(StoreError::OutOfOrder);
    }
    let id = row.id;
    let ghost before = store@;
    store.audit_log.push(row);
    store.next_audit_id = id + 1;
    proof {
        assert(audit_ids(store@.audit_log) =~= audit_ids(before.audit_log).push(id));
        lemma_images_unchanged_preserve_wf(before, store@);
    }
    Ok(())
}

impl VaultStore {
    /// Every image row, soft-deleted ones included, in table order.
    pub fn image_rows(&self) -> (r: Vec<ImageRecord>)
        ensures
            r@ == self@.images,
    {
        let mut out: Vec<ImageRecord> = Vec::new();
        let mut i: usize = 0;
        while i < self.images.len()
            invariant
                i <= self@.images.len(),
                out@ == self@.images.take(i as int),
            decreases self@.images.len() - i,
        {
            out.push(self.images[i].duplicate());
            i = i + 1;
            assert(out@ =~= self@.images.take(i as int));
        }
        assert(self@.images.take(self@.images.len() as int) =~= self@.images);
        out
    }
}

} // verus!
