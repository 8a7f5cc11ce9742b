use vstd::prelude::*;
use crate::commands::{audit_outcome, image_details, new_image};
use crate::database::{
    annotations_not_of, annotations_of, has_hash, has_image_row, has_key, image_with_hash, image_with_id,
    is_active, key_index, lookup, mark_deleted, seeded, stored_image, tags_not_of, tags_of, upserted,
    visible, without_image, lemma_rows_not_of_excludes, lemma_rows_of_none, MetaRow, StoreView,
};
use crate::order::{distinct_keys, in_listing_order, row_before, Attached, Chronological};
use crate::records::{ImageRecord, StoreError};
use crate::text::{lemma_text_cmp_transitive, lemma_text_cmp_zero, text_cmp};

verus! {

proof fn lemma_upserted_has_key(rows: Seq<MetaRow>, key: Seq<char>, value: Seq<char>, now: Seq<char>, k: Seq<char>)
    requires
        has_key(rows, k) || k == key,
    ensures
        has_key(upserted(rows, key, value, now), k),
{
    let u = upserted(rows, key, value, now);
    if has_key(rows, key) {
        let idx = key_index(rows, key);
        if k == key {
            assert(u[idx].0 == k);
        } else {
            let i = choose|i: int| 0 <= i < rows.len() && (#[trigger] rows[i]).0 == k;
            assert(i != idx);
            assert(u[i].0 == k);
        }
    } else {
        if k == key {
            assert(u[rows.len() as int].0 == k);
        } else {
            let i = choose|i: int| 0 <= i < rows.len() && (#[trigger] rows[i]).0 == k;
            assert(u[i].0 == k);
        }
    }
}

/// Initializing twice is initializing once: the second run finds
/// `schema_version` and writes nothing, so the vault identifier and
/// creation time stay those of the first run.
pub proof fn law_initialize_is_idempotent(
    rows: Seq<MetaRow>,
    now1: Seq<char>,
    vault_id1: Seq<char>,
    now2: Seq<char>,
    vault_id2: Seq<char>,
)
    ensures
        seeded(seeded(rows, now1, vault_id1), now2, vault_id2) == seeded(rows, now1, vault_id1),
        lookup(seeded(seeded(rows, now1, vault_id1), now2, vault_id2), "vault_id"@) == lookup(
            seeded(rows, now1, vault_id1),
            "vault_id"@,
        ),
        lookup(seeded(seeded(rows, now1, vault_id1), now2, vault_id2), "created_at"@) == lookup(
            seeded(rows, now1, vault_id1),
            "created_at"@,
        ),
{
    if !has_key(rows, "schema_version"@) {
        let a = upserted(rows, "schema_version"@, "1"@, now1);
        let b = upserted(a, "vault_id"@, vault_id1, now1);
        lemma_upserted_has_key(rows, "schema_version"@, "1"@, now1, "schema_version"@);
        lemma_upserted_has_key(a, "vault_id"@, vault_id1, now1, "schema_version"@);
        lemma_upserted_has_key(b, "created_at"@, now1, now1, "schema_version"@);
    }
}

/// The first initialization of an empty settings table writes exactly
/// three rows, `schema_version` = "1", `vault_id` and `created_at`, all
/// stamped with one time.
pub proof fn law_first_initialize_seeds_three_rows(rows: Seq<MetaRow>, now: Seq<char>, vault_id: Seq<char>)
    requires
        rows.len() == 0,
    ensures
        seeded(rows, now, vault_id) == seq![
            ("schema_version"@, "1"@, now),
            ("vault_id"@, vault_id, now),
            ("created_at"@, now, now),
        ],
{
    reveal_strlit("schema_version");
    reveal_strlit("vault_id");
    reveal_strlit("created_at");
    let a = upserted(rows, "schema_version"@, "1"@, now);
    assert(a =~= seq![("schema_version"@, "1"@, now)]);
    assert(!has_key(a, "vault_id"@)) by {
        if has_key(a, "vault_id"@) {
            assert(a[0].0[0] == 's');
        }
    }
    let b = upserted(a, "vault_id"@, vault_id, now);
    assert(b =~= seq![("schema_version"@, "1"@, now), ("vault_id"@, vault_id, now)]);
    assert(!has_key(b, "created_at"@)) by {
        if has_key(b, "created_at"@) {
            let i = choose|i: int| 0 <= i < b.len() && (#[trigger] b[i]).0 == "created_at"@;
            assert(b[i].0[0] != 'c');
        }
    }
    assert(!has_key(rows, "schema_version"@));
    assert(upserted(b, "created_at"@, now, now) =~= seq![
        ("schema_version"@, "1"@, now),
        ("vault_id"@, vault_id, now),
        ("created_at"@, now, now),
    ]);
}

/// Once a row with some content hash is stored, that hash is taken: a
/// second insert of the same hash is refused as a duplicate, and the
/// stored row is the only one holding it.
pub proof fn law_hash_taken_after_insert(s: StoreView, first: ImageRecord, second_hash: Seq<char>)
    requires
        s.wf(),
        !has_hash(s.images, first.file_hash@),
        s.next_image_id < i64::MAX,
        second_hash == first.file_hash@,
    ensures
        has_hash(s.with_image(stored_image(first, s.next_image_id)).images, second_hash),
        forall|x: ImageRecord|
            #[trigger] s.with_image(stored_image(first, s.next_image_id)).images.contains(x) && x.file_hash@
                == second_hash ==> x == stored_image(first, s.next_image_id),
{
    let t = s.with_image(stored_image(first, s.next_image_id));
    let n = s.images.len() as int;
    assert(t.images[n] == stored_image(first, s.next_image_id));
    assert forall|x: ImageRecord|
        #[trigger] t.images.contains(x) && x.file_hash@ == second_hash implies x == stored_image(
        first,
        s.next_image_id,
    ) by {
        let k = choose|k: int| 0 <= k < t.images.len() && t.images[k] == x;
        if k < n {
            assert(s.images[k] == x);
        }
    }
}

/// A soft-deleted row is hidden from lookups by id and by hash, yet it is
/// still stored: every hash it held stays taken, and the row count is
/// unchanged.
pub proof fn law_soft_delete_hides_but_keeps(s: StoreView, id: i64, now: String)
    requires
        s.wf(),
    ensures
        visible(image_with_id(mark_deleted(s.images, id, now), id)) is None,
        image_with_id(s.images, id) matches Some(r) ==> visible(
            image_with_hash(mark_deleted(s.images, id, now), r.file_hash@),
        ) is None,
        mark_deleted(s.images, id, now).len() == s.images.len(),
        has_image_row(mark_deleted(s.images, id, now), id) == has_image_row(s.images, id),
        forall|h: Seq<char>| #[trigger] has_hash(mark_deleted(s.images, id, now), h) == has_hash(s.images, h),
{
    let t = mark_deleted(s.images, id, now);
    if has_image_row(t, id) {
        let k = choose|k: int| 0 <= k < t.len() && (#[trigger] t[k]).id == id;
        assert(t[k].is_deleted);
    }
    if has_image_row(s.images, id) {
        let j = choose|j: int| 0 <= j < s.images.len() && (#[trigger] s.images[j]).id == id;
        assert(t[j].id == id);
        let r = s.images[j];
        if has_hash(t, r.file_hash@) {
            let k = choose|k: int| 0 <= k < t.len() && (#[trigger] t[k]).file_hash@ == r.file_hash@;
            if k != j {
                assert(s.images[k].file_hash@ == s.images[j].file_hash@);
            }
            assert(t[k].is_deleted);
        }
    }
    assert forall|h: Seq<char>| #[trigger] has_hash(t, h) == has_hash(s.images, h) by {
        if has_hash(t, h) {
            let k = choose|k: int| 0 <= k < t.len() && (#[trigger] t[k]).file_hash@ == h;
            assert(s.images[k].file_hash@ == h);
        }
        if has_hash(s.images, h) {
            let k = choose|k: int| 0 <= k < s.images.len() && (#[trigger] s.images[k]).file_hash@ == h;
            assert(t[k].file_hash@ == h);
        }
    }
}

/// Removing an image row physically takes all its tags and annotations
/// with it, while a soft delete leaves them in place.
pub proof fn law_cascade_only_on_removal(s: StoreView, id: i64, now: String)
    requires
        s.wf(),
    ensures
        !has_image_row(without_image(s.images, id), id),
        tags_of(tags_not_of(s.tags, id), id).len() == 0,
        annotations_of(annotations_not_of(s.annotations, id), id).len() == 0,
        (StoreView { images: mark_deleted(s.images, id, now), ..s }).tags == s.tags,
        (StoreView { images: mark_deleted(s.images, id, now), ..s }).annotations == s.annotations,
{
    let imgs = without_image(s.images, id);
    if has_image_row(imgs, id) {
        let k = choose|k: int| 0 <= k < imgs.len() && (#[trigger] imgs[k]).id == id;
        lemma_rows_not_of_excludes(s.images, id, k);
    }
    let tags = tags_not_of(s.tags, id);
    assert forall|i: int| 0 <= i < tags.len() implies (#[trigger] tags[i]).owner() != id by {
        lemma_rows_not_of_excludes(s.tags, id, i);
    }
    lemma_rows_of_none(tags, id);
    let notes = annotations_not_of(s.annotations, id);
    assert forall|i: int| 0 <= i < notes.len() implies (#[trigger] notes[i]).owner() != id by {
        lemma_rows_not_of_excludes(s.annotations, id, i);
    }
    lemma_rows_of_none(notes, id);
}

/// A listing in newest-first order whose rows have pairwise distinct
/// creation times is strictly descending by creation time.
pub proof fn law_listing_strictly_descending(r: Seq<ImageRecord>)
    requires
        in_listing_order(r, true),
        forall|i: int, j: int|
            0 <= i < j < r.len() ==> (#[trigger] r[i]).created_at@ != (#[trigger] r[j]).created_at@,
    ensures
        forall|i: int, j: int|
            0 <= i < j < r.len() ==> text_cmp((#[trigger] r[i]).created_at@, (#[trigger] r[j]).created_at@) > 0,
{
    assert forall|k: int| 0 <= k < r.len() - 1 implies text_cmp((#[trigger] r[k]).created_at@, r[k + 1].created_at@) > 0 by {
        assert(row_before(r[k], r[k + 1], true));
        if text_cmp(r[k].created_at@, r[k + 1].created_at@) == 0 {
            lemma_text_cmp_zero(r[k].created_at@, r[k + 1].created_at@);
        }
    }
    assert forall|i: int, j: int| 0 <= i < j < r.len() implies text_cmp(
        (#[trigger] r[i]).created_at@,
        (#[trigger] r[j]).created_at@,
    ) > 0 by {
        lemma_descending_span(r, i, j);
    }
}

proof fn lemma_descending_span(r: Seq<ImageRecord>, i: int, j: int)
    requires
        0 <= i < j < r.len(),
        forall|k: int| 0 <= k < r.len() - 1 ==> text_cmp((#[trigger] r[k]).created_at@, r[k + 1].created_at@) > 0,
    ensures
        text_cmp(r[i].created_at@, r[j].created_at@) > 0,
    decreases j - i,
{
    if j > i + 1 {
        lemma_descending_span(r, i + 1, j);
        lemma_text_cmp_transitive(r[i].created_at@, r[i + 1].created_at@, r[j].created_at@);
    }
}

/// An audit write never undoes the operation it records: whatever became
/// of the entry, the catalog, tags, annotations and settings are those the
/// operation left; a read-only log refuses the entry and changes nothing.
pub proof fn law_audit_failure_keeps_operation(
    mid: StoreView,
    fin: StoreView,
    event_type: Seq<char>,
    details: Seq<char>,
    audit_error: Option<StoreError>,
)
    requires
        audit_outcome(mid, fin, event_type, details, audit_error),
    ensures
        fin.images == mid.images,
        fin.tags == mid.tags,
        fin.annotations == mid.annotations,
        fin.meta == mid.meta,
        !mid.audit_writable ==> audit_error == Some(StoreError::Unavailable) && fin == mid,
{
}

/// A listing of the active rows that holds no row twice holds each active
/// row, and no other row with its content hash.
pub proof fn law_listing_holds_hash_once(t: StoreView, r: Seq<ImageRecord>, row: ImageRecord)
    requires
        t.wf(),
        distinct_keys(r),
        forall|x: ImageRecord| #[trigger] r.contains(x) <==> (t.images.contains(x) && is_active(x)),
        t.images.contains(row),
        is_active(row),
    ensures
        r.contains(row),
        forall|i: int| 0 <= i < r.len() && (#[trigger] r[i]).file_hash@ == row.file_hash@ ==> r[i] == row,
        forall|i: int, j: int|
            0 <= i < j < r.len() ==> !((#[trigger] r[i]).file_hash@ == row.file_hash@ && (#[trigger] r[j]).file_hash@
                == row.file_hash@),
{
    assert(r.contains(row));
    let b = choose|b: int| 0 <= b < t.images.len() && t.images[b] == row;
    assert forall|i: int| 0 <= i < r.len() && (#[trigger] r[i]).file_hash@ == row.file_hash@ implies r[i] == row by {
        assert(r.contains(r[i]));
        let a = choose|a: int| 0 <= a < t.images.len() && t.images[a] == r[i];
        if a < b {
            assert(t.images[a].file_hash@ != t.images[b].file_hash@);
        } else if b < a {
            assert(t.images[b].file_hash@ != t.images[a].file_hash@);
        }
    }
    assert forall|i: int, j: int|
        0 <= i < j < r.len() implies !((#[trigger] r[i]).file_hash@ == row.file_hash@ && (#[trigger] r[j]).file_hash@
            == row.file_hash@) by {
        if r[i].file_hash@ == row.file_hash@ && r[j].file_hash@ == row.file_hash@ {
            assert(r[i].key() != r[j].key());
        }
    }
}

/// When the stored rows have pairwise distinct creation times, a
/// newest-first listing of some of them, holding no row twice, is strictly
/// descending by creation time.
pub proof fn law_listing_descending_for_distinct_times(t: StoreView, r: Seq<ImageRecord>)
    requires
        t.wf(),
        distinct_keys(r),
        in_listing_order(r, true),
        forall|x: ImageRecord| #[trigger] r.contains(x) ==> t.images.contains(x),
        forall|i: int, j: int|
            0 <= i < j < t.images.len() ==> (#[trigger] t.images[i]).created_at@ != (#[trigger] t.images[j]).created_at@,
    ensures
        forall|i: int, j: int|
            0 <= i < j < r.len() ==> text_cmp((#[trigger] r[i]).created_at@, (#[trigger] r[j]).created_at@) > 0,
{
    assert forall|i: int, j: int|
        0 <= i < j < r.len() implies (#[trigger] r[i]).created_at@ != (#[trigger] r[j]).created_at@ by {
        assert(r.contains(r[i]) && r.contains(r[j]));
        let a = choose|a: int| 0 <= a < t.images.len() && t.images[a] == r[i];
        let b = choose|b: int| 0 <= b < t.images.len() && t.images[b] == r[j];
        assert(r[i].key() != r[j].key());
        if a < b {
            assert(t.images[a].created_at@ != t.images[b].created_at@);
        } else {
            assert(t.images[b].created_at@ != t.images[a].created_at@);
        }
    }
    law_listing_strictly_descending(r);
}

/// With the audit log read-only, ingesting a new file still stores it:
/// the row is found by its hash, and only the audit entry is reported as
/// failed.
pub proof fn law_insert_stands_when_audit_fails(
    s: StoreView,
    file_hash: String,
    file_name: String,
    storage_path: String,
    file_size: i64,
    now: String,
    fin: StoreView,
    audit_error: Option<StoreError>,
)
    requires
        s.wf(),
        !has_hash(s.images, file_hash@),
        s.next_image_id < i64::MAX,
        !s.audit_writable,
        audit_outcome(
            s.with_image(stored_image(new_image(file_hash, file_name, storage_path, file_size, now), s.next_image_id)),
            fin,
            "image_added"@,
            image_details(s.next_image_id),
            audit_error,
        ),
    ensures
        audit_error == Some(StoreError::Unavailable),
        visible(image_with_hash(fin.images, file_hash@)) == Some(
            stored_image(new_image(file_hash, file_name, storage_path, file_size, now), s.next_image_id),
        ),
{
    let row = stored_image(new_image(file_hash, file_name, storage_path, file_size, now), s.next_image_id);
    let n = s.images.len() as int;
    assert(fin.images[n] == row);
    assert(has_hash(fin.images, file_hash@));
    let k = choose|k: int| 0 <= k < fin.images.len() && (#[trigger] fin.images[k]).file_hash@ == file_hash@;
    if k < n {
        assert(s.images[k].file_hash@ == file_hash@);
    }
}

} // verus!
