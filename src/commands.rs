use vstd::prelude::*;
use crate::clock::utc_now_rfc3339;
use crate::database::{
    active_images, audit_appended, get_all_images, get_vault_meta, has_hash, has_image_row,
    insert_annotation, insert_image, insert_tag, log_auth_event_at, lookup, mark_deleted, meta_rows,
    soft_delete_image_at, stored_annotation, stored_image, stored_tag, StoreView, VaultStore,
};
use crate::records::{AnnotationRecord, ImageRecord, StoreError, TagRecord, VaultInfo};
use crate::json::{json_array_text, json_quote, json_string_list, json_string_text};
use crate::text::{decimal, decimal_text, is_blank, is_blank_text, trim_quotes, without_quotes};

verus! {

/// The value of a store operation, and the error of the audit log entry
/// that should have recorded it. A failed audit write does not undo the
/// operation.
#[derive(Debug, Clone, PartialEq, Eq)]
pub struct Audited<T> {
    pub value: T,
    pub audit_error: Option<StoreError>,
}

/// Details of the audit entry about image `id`: "Image ID: " and its
/// decimal identifier.
pub open spec fn image_details(id: i64) -> Seq<char> {
    "Image ID: "@ + decimal_text(id as int)
}

/// How an audit write went from `mid` to `fin`: refused with the error
/// (nothing changed), or appended.
pub open spec fn audit_outcome(
    mid: StoreView,
    fin: StoreView,
    event_type: Seq<char>,
    details: Seq<char>,
    audit_error: Option<StoreError>,
) -> bool {
    if !mid.audit_writable {
        audit_error == Some(StoreError::Unavailable) && fin == mid
    } else if mid.next_audit_id == i64::MAX {
        audit_error == Some(StoreError::IdsExhausted) && fin == mid
    } else {
        audit_error is None && audit_appended(mid, fin, event_type, "success"@, Some(details))
    }
}

/// A new catalog row with the given fields, created and updated at `now`,
/// not deleted.
pub open spec fn new_image(
    file_hash: String,
    file_name: String,
    storage_path: String,
    file_size: i64,
    now: String,
) -> ImageRecord {
    ImageRecord {
        id: 0,
        file_hash,
        file_name,
        storage_path,
        created_at: now,
        updated_at: now,
        file_size,
        is_deleted: false,
    }
}

/// A new tag on image `image_id`, created at `now`.
pub open spec fn new_tag(image_id: i64, tag_name: String, tag_type: Option<String>, now: String) -> TagRecord {
    TagRecord { id: 0, image_id, tag_name, tag_type, created_at: now }
}

/// A new note on image `image_id`, created at `now`.
pub open spec fn new_annotation(image_id: i64, note: String, now: String) -> AnnotationRecord {
    AnnotationRecord { id: 0, image_id, note, created_at: now }
}

fn record_image_event(store: &mut VaultStore, event_type: &str, id: i64, now: &str) -> (r: Option<StoreError>)
    requires
        old(store).wf(),
    ensures
        final(store).wf(),
        audit_outcome(old(store)@, final(store)@, event_type@, image_details(id), r),
{
    let mut details = String::from_str("Image ID: ");
    let digits = decimal(id);
    details.append(digits.as_str());
    proof {
        reveal_strlit("success");
    }
    match log_auth_event_at(store, event_type, "success", Some(details.as_str()), now) {
        Ok(()) => None,
        Err(e) => Some(e),
    }
}

/// Ingests a file at time `now`: stores the catalog row, then records an
/// "image_added" audit entry. The row is stored whether or not the audit
/// entry can be written.
pub fn add_image_at(
    store: &mut VaultStore,
    file_hash: String,
    file_name: String,
    storage_path: String,
    file_size: i64,
    now: String,
) -> (r: Result<Audited<i64>, StoreError>)
    requires
        old(store).wf(),
    ensures
        final(store).wf(),
        has_hash(old(store)@.images, file_hash@) ==> r == Err::<Audited<i64>, StoreError>(
            StoreError::UniqueConstraintViolation,
        ) && final(store)@ == old(store)@,
        !has_hash(old(store)@.images, file_hash@) && old(store)@.next_image_id == i64::MAX ==> r
            == Err::<Audited<i64>, StoreError>(StoreError::IdsExhausted) && final(store)@ == old(store)@,
        !has_hash(old(store)@.images, file_hash@) && old(store)@.next_image_id < i64::MAX ==> {
            let id = old(store)@.next_image_id;
            let mid = old(store)@.with_image(
                stored_image(new_image(file_hash, file_name, storage_path, file_size, now), id),
            );
            r matches Ok(a) && a.value == id && audit_outcome(
                mid,
                final(store)@,
                "image_added"@,
                image_details(id),
                a.audit_error,
            )
        },
{
    let image = ImageRecord {
        id: 0,
        file_hash,
        file_name,
        storage_path,
        created_at: now.clone(),
        updated_at: now.clone(),
        file_size,
        is_deleted: false,
    };
    match insert_image(store, &image) {
        Ok(id) => {
            let audit_error = record_image_event(store, "image_added", id, now.as_str());
            Ok(Audited { value: id, audit_error })
        },
        Err(e) => Err(e),
    }
}

/// Ingests a file now, on the terms of `add_image_at`.
pub fn add_image(
    store: &mut VaultStore,
    file_hash: String,
    file_name: String,
    storage_path: String,
    file_size: i64,
) -> (r: Result<Audited<i64>, StoreError>)
    requires
        old(store).wf(),
    ensures
        final(store).wf(),
        has_hash(old(store)@.images, file_hash@) ==> r == Err::<Audited<i64>, StoreError>(
            StoreError::UniqueConstraintViolation,
        ) && final(store)@ == old(store)@,
        !has_hash(old(store)@.images, file_hash@) && old(store)@.next_image_id == i64::MAX ==> r
            == Err::<Audited<i64>, StoreError>(StoreError::IdsExhausted) && final(store)@ == old(store)@,
        !has_hash(old(store)@.images, file_hash@) && old(store)@.next_image_id < i64::MAX ==> exists|now: String|
            {
                let id = old(store)@.next_image_id;
                let mid = old(store)@.with_image(
                    stored_image(#[trigger] new_image(file_hash, file_name, storage_path, file_size, now), id),
                );
                r matches Ok(a) && a.value == id && audit_outcome(
                    mid,
                    final(store)@,
                    "image_added"@,
                    image_details(id),
                    a.audit_error,
                )
            },
{
    let now = utc_now_rfc3339();
    let ghost (h, n, p) = (file_hash, file_name, storage_path);
    let r = add_image_at(store, file_hash, file_name, storage_path, file_size, now);
    proof {
        // Names the witness of the postcondition's `exists`.
        let _ = new_image(h, n, p, file_size, now);
    }
    r
}

/// Soft-deletes image `id` at time `now`, then records an "image_deleted"
/// audit entry. The row is marked whether or not the entry can be written.
pub fn delete_image_at(store: &mut VaultStore, id: i64, now: String) -> (r: Audited<()>)
    requires
        old(store).wf(),
    ensures
        final(store).wf(),
        audit_outcome(
            StoreView { images: mark_deleted(old(store)@.images, id, now), ..old(store)@ },
            final(store)@,
            "image_deleted"@,
            image_details(id),
            r.audit_error,
        ),
{
    let stamp = now.clone();
    soft_delete_image_at(store, id, now);
    let audit_error = record_image_event(store, "image_deleted", id, stamp.as_str());
    Audited { value: (), audit_error }
}

/// Soft-deletes image `id` now, on the terms of `delete_image_at`.
pub fn delete_image(store: &mut VaultStore, id: i64) -> (r: Audited<()>)
    requires
        old(store).wf(),
    ensures
        final(store).wf(),
        exists|now: String|
            audit_outcome(
                StoreView { images: #[trigger] mark_deleted(old(store)@.images, id, now), ..old(store)@ },
                final(store)@,
                "image_deleted"@,
                image_details(id),
                r.audit_error,
            ),
{
    let now = utc_now_rfc3339();
    delete_image_at(store, id, now)
}

/// Attaches a tag created at `now` to image `image_id`; see `insert_tag`.
pub fn add_tag_at(
    store: &mut VaultStore,
    image_id: i64,
    tag_name: String,
    tag_type: Option<String>,
    now: String,
) -> (r: Result<i64, StoreError>)
    requires
        old(store).wf(),
    ensures
        final(store).wf(),
        !has_image_row(old(store)@.images, image_id) ==> r == Err::<i64, StoreError>(
            StoreError::ForeignKeyViolation,
        ) && final(store)@ == old(store)@,
        has_image_row(old(store)@.images, image_id) && old(store)@.next_tag_id == i64::MAX ==> r
            == Err::<i64, StoreError>(StoreError::IdsExhausted) && final(store)@ == old(store)@,
        has_image_row(old(store)@.images, image_id) && old(store)@.next_tag_id < i64::MAX ==> r
            == Ok::<i64, StoreError>(old(store)@.next_tag_id) && final(store)@ == (StoreView {
            tags: old(store)@.tags.push(
                stored_tag(new_tag(image_id, tag_name, tag_type, now), old(store)@.next_tag_id),
            ),
            next_tag_id: (old(store)@.next_tag_id + 1) as i64,
            ..old(store)@
        }),
{
    let tag = TagRecord { id: 0, image_id, tag_name, tag_type, created_at: now };
    insert_tag(store, &tag)
}

/// Attaches a tag created now to image `image_id`; see `insert_tag`.
pub fn add_tag(store: &mut VaultStore, image_id: i64, tag_name: String, tag_type: Option<String>) -> (r:
    Result<i64, StoreError>)
    requires
        old(store).wf(),
    ensures
        final(store).wf(),
        !has_image_row(old(store)@.images, image_id) ==> r == Err::<i64, StoreError>(
            StoreError::ForeignKeyViolation,
        ) && final(store)@ == old(store)@,
        has_image_row(old(store)@.images, image_id) && old(store)@.next_tag_id == i64::MAX ==> r
            == Err::<i64, StoreError>(StoreError::IdsExhausted) && final(store)@ == old(store)@,
        has_image_row(old(store)@.images, image_id) && old(store)@.next_tag_id < i64::MAX ==> r
            == Ok::<i64, StoreError>(old(store)@.next_tag_id) && exists|now: String|
            final(store)@ == (StoreView {
                tags: old(store)@.tags.push(
                    stored_tag(#[trigger] new_tag(image_id, tag_name, tag_type, now), old(store)@.next_tag_id),
                ),
                next_tag_id: (old(store)@.next_tag_id + 1) as i64,
                ..old(store)@
            }),
{
    let now = utc_now_rfc3339();
    let ghost (n, k) = (tag_name, tag_type);
    let r = add_tag_at(store, image_id, tag_name, tag_type, now);
    proof {
        // Names the witness of the postcondition's `exists`.
        let _ = new_tag(image_id, n, k, now);
    }
    r
}

/// Attaches a note created at `now` to image `image_id`; see
/// `insert_annotation`.
pub fn add_annotation_at(store: &mut VaultStore, image_id: i64, note: String, now: String) -> (r: Result<
    i64,
    StoreError,
>)
    requires
        old(store).wf(),
    ensures
        final(store).wf(),
        !has_image_row(old(store)@.images, image_id) ==> r == Err::<i64, StoreError>(
            StoreError::ForeignKeyViolation,
        ) && final(store)@ == old(store)@,
        has_image_row(old(store)@.images, image_id) && old(store)@.next_annotation_id == i64::MAX ==> r
            == Err::<i64, StoreError>(StoreError::IdsExhausted) && final(store)@ == old(store)@,
        has_image_row(old(store)@.images, image_id) && old(store)@.next_annotation_id < i64::MAX ==> r
            == Ok::<i64, StoreError>(old(store)@.next_annotation_id) && final(store)@ == (StoreView {
            annotations: old(store)@.annotations.push(
                stored_annotation(new_annotation(image_id, note, now), old(store)@.next_annotation_id),
            ),
            next_annotation_id: (old(store)@.next_annotation_id + 1) as i64,
            ..old(store)@
        }),
{
    let annotation = AnnotationRecord { id: 0, image_id, note, created_at: now };
    insert_annotation(store, &annotation)
}

/// Attaches a note created now to image `image_id`; see
/// `insert_annotation`.
pub fn add_annotation(store: &mut VaultStore, image_id: i64, note: String) -> (r: Result<i64, StoreError>)
    requires
        old(store).wf(),
    ensures
        final(store).wf(),
        !has_image_row(old(store)@.images, image_id) ==> r == Err::<i64, StoreError>(
            StoreError::ForeignKeyViolation,
        ) && final(store)@ == old(store)@,
        has_image_row(old(store)@.images, image_id) && old(store)@.next_annotation_id == i64::MAX ==> r
            == Err::<i64, StoreError>(StoreError::IdsExhausted) && final(store)@ == old(store)@,
        has_image_row(old(store)@.images, image_id) && old(store)@.next_annotation_id < i64::MAX ==> r
            == Ok::<i64, StoreError>(old(store)@.next_annotation_id) && exists|now: String|
            final(store)@ == (StoreView {
                annotations: old(store)@.annotations.push(
                    stored_annotation(#[trigger] new_annotation(image_id, note, now), old(store)@.next_annotation_id),
                ),
                next_annotation_id: (old(store)@.next_annotation_id + 1) as i64,
                ..old(store)@
            }),
{
    let now = utc_now_rfc3339();
    let ghost n = note;
    let r = add_annotation_at(store, image_id, note, now);
    proof {
        // Names the witness of the postcondition's `exists`.
        let _ = new_annotation(image_id, n, now);
    }
    r
}

/// Summary of the vault: the three reserved settings, the number of
/// images that are not soft-deleted, and the status "active".
pub fn get_vault_info(store: &VaultStore) -> (r: VaultInfo)
    requires
        store.wf(),
    ensures
        r.vault_id is None <==> lookup(meta_rows(store@.meta), "vault_id"@) is None,
        r.vault_id matches Some(v) ==> lookup(meta_rows(store@.meta), "vault_id"@) == Some(v@),
        r.created_at is None <==> lookup(meta_rows(store@.meta), "created_at"@) is None,
        r.created_at matches Some(v) ==> lookup(meta_rows(store@.meta), "created_at"@) == Some(v@),
        r.schema_version is None <==> lookup(meta_rows(store@.meta), "schema_version"@) is None,
        r.schema_version matches Some(v) ==> lookup(meta_rows(store@.meta), "schema_version"@) == Some(v@),
        r.total_images == active_images(store@.images).len(),
        r.status@ == "active"@,
{
    let vault_id = get_vault_meta(store, "vault_id");
    let created_at = get_vault_meta(store, "created_at");
    let schema_version = get_vault_meta(store, "schema_version");
    let images = get_all_images(store);
    VaultInfo {
        vault_id,
        created_at,
        schema_version,
        total_images: images.len(),
        status: String::from_str("active"),
    }
}

/// A call of the Python backend: a method and its named arguments.
#[derive(Debug, Clone, PartialEq, Eq)]
pub struct BackendRequest {
    pub method: String,
    pub args: Vec<(String, String)>,
}

/// The arguments as text.
pub open spec fn arg_texts(args: Seq<(String, String)>) -> Seq<(Seq<char>, Seq<char>)> {
    args.map_values(|a: (String, String)| (a.0@, a.1@))
}

fn arg(key: &str, value: String) -> (r: (String, String))
    ensures
        r.0@ == key@,
        r.1 == value,
{
    (String::from_str(key), value)
}

/// The tags as one JSON array text.
fn tags_text(tags: &Vec<String>) -> (r: String)
    ensures
        r@ == json_array_text(tags.deep_view()),
{
    match json_string_list(tags) {
        Some(t) => t,
        None => String::from_str("[]"),
    }
}

/// Asks the backend to create a vault protected by `master_password`.
pub fn initialize_vault(master_password: String) -> (r: BackendRequest)
    ensures
        r.method@ == "initialize"@,
        arg_texts(r.args@) == seq![("password"@, master_password@)],
{
    let mut args: Vec<(String, String)> = Vec::new();
    args.push(arg("password", master_password));
    let r = BackendRequest { method: String::from_str("initialize"), args };
    assert(arg_texts(r.args@) =~= seq![("password"@, master_password@)]);
    r
}

/// Asks the backend to unlock the vault with `master_password`.
pub fn unlock_vault(master_password: String) -> (r: BackendRequest)
    ensures
        r.method@ == "unlock"@,
        arg_texts(r.args@) == seq![("password"@, master_password@)],
{
    let mut args: Vec<(String, String)> = Vec::new();
    args.push(arg("password", master_password));
    let r = BackendRequest { method: String::from_str("unlock"), args };
    assert(arg_texts(r.args@) =~= seq![("password"@, master_password@)]);
    r
}

/// Asks the backend to lock the vault.
pub fn lock_vault() -> (r: BackendRequest)
    ensures
        r.method@ == "lock"@,
        r.args@.len() == 0,
{
    BackendRequest { method: String::from_str("lock"), args: Vec::new() }
}

/// Asks the backend for the vault's status.
pub fn get_vault_status() -> (r: BackendRequest)
    ensures
        r.method@ == "get_vault_status"@,
        r.args@.len() == 0,
{
    BackendRequest { method: String::from_str("get_vault_status"), args: Vec::new() }
}

/// Asks the backend to ingest a file sent by the front end (base64 text),
/// with its tags as a JSON array and, when given, a password.
pub fn add_image_from_frontend(file_contents: String, tags: Vec<String>, password: Option<String>) -> (r:
    BackendRequest)
    ensures
        r.method@ == "add_image"@,
        r.args@.len() == if password is Some {
            3int
        } else {
            2int
        },
        r.args@[0].0@ == "file_contents"@,
        r.args@[0].1 == file_contents,
        r.args@[1].0@ == "tags"@,
        r.args@[1].1@ == json_array_text(tags.deep_view()),
        password matches Some(p) ==> r.args@[2].0@ == "password"@ && r.args@[2].1 == p,
{
    let mut args: Vec<(String, String)> = Vec::new();
    args.push(arg("file_contents", file_contents));
    args.push(arg("tags", tags_text(&tags)));
    match password {
        Some(p) => args.push(arg("password", p)),
        None => {},
    }
    BackendRequest { method: String::from_str("add_image"), args }
}

/// Asks the backend to search images by text and tags.
pub fn search_images(query: String, tags: Vec<String>) -> (r: BackendRequest)
    ensures
        r.method@ == "search_images"@,
        r.args@.len() == 2,
        r.args@[0].0@ == "query"@,
        r.args@[0].1 == query,
        r.args@[1].0@ == "tags"@,
        r.args@[1].1@ == json_array_text(tags.deep_view()),
{
    let mut args: Vec<(String, String)> = Vec::new();
    args.push(arg("query", query));
    args.push(arg("tags", tags_text(&tags)));
    BackendRequest { method: String::from_str("search_images"), args }
}

/// Asks the backend for image `image_id`, decrypted.
pub fn get_decrypted_image(image_id: i64) -> (r: BackendRequest)
    ensures
        r.method@ == "get_image"@,
        arg_texts(r.args@) == seq![("image-id"@, decimal_text(image_id as int)), ("decrypt"@, "true"@)],
{
    let mut args: Vec<(String, String)> = Vec::new();
    args.push(arg("image-id", decimal(image_id)));
    args.push(arg("decrypt", String::from_str("true")));
    let r = BackendRequest { method: String::from_str("get_image"), args };
    assert(arg_texts(r.args@) =~= seq![("image-id"@, decimal_text(image_id as int)), ("decrypt"@, "true"@)]);
    r
}

/// Asks the backend for the thumbnail of image `image_id`.
pub fn get_image_thumbnail(image_id: i64) -> (r: BackendRequest)
    ensures
        r.method@ == "get_image"@,
        arg_texts(r.args@) == seq![("image-id"@, decimal_text(image_id as int))],
{
    let mut args: Vec<(String, String)> = Vec::new();
    args.push(arg("image-id", decimal(image_id)));
    let r = BackendRequest { method: String::from_str("get_image"), args };
    assert(arg_texts(r.args@) =~= seq![("image-id"@, decimal_text(image_id as int))]);
    r
}

/// How an argument value is written on the command line: as a JSON
/// string literal with its surrounding quotes trimmed.
pub open spec fn rendered_value(v: Seq<char>) -> Seq<char> {
    without_quotes(json_string_text(v))
}

/// Command line of a backend call: the script, the method, the vault path,
/// then `--key value` for each argument in order.
pub fn backend_command_args(script_path: &str, vault_path: &str, request: &BackendRequest) -> (r: Vec<String>)
    requires
        4 + 2 * request.args@.len() <= usize::MAX,
    ensures
        r@.len() == 4 + 2 * request.args@.len(),
        r@[0]@ == script_path@,
        r@[1]@ == request.method@,
        r@[2]@ == "--vault-path"@,
        r@[3]@ == vault_path@,
        forall|i: int|
            0 <= i < request.args@.len() ==> r@[4 + 2 * i]@ == "--"@ + (#[trigger] request.args@[i]).0@
                && r@[5 + 2 * i]@ == rendered_value(request.args@[i].1@),
{
    let mut r: Vec<String> = Vec::new();
    r.push(String::from_str(script_path));
    r.push(request.method.clone());
    r.push(String::from_str("--vault-path"));
    r.push(String::from_str(vault_path));
    let n = request.args.len();
    let mut i: usize = 0;
    while i < n
        invariant
            n == request.args@.len(),
            4 + 2 * n <= usize::MAX,
            i <= n,
            r@.len() == 4 + 2 * i,
            r@[0]@ == script_path@,
            r@[1]@ == request.method@,
            r@[2]@ == "--vault-path"@,
            r@[3]@ == vault_path@,
            forall|j: int|
                0 <= j < i ==> r@[4 + 2 * j]@ == "--"@ + (#[trigger] request.args@[j]).0@
                    && r@[5 + 2 * j]@ == rendered_value(request.args@[j].1@),
        decreases n - i,
    {
        let mut flag = String::from_str("--");
        flag.append(request.args[i].0.as_str());
        let quoted = json_quote(request.args[i].1.as_str());
        let value = trim_quotes(quoted.as_str());
        r.push(flag);
        r.push(value);
        i = i + 1;
    }
    r
}

/// Checks what the backend process returned before it is decoded: a
/// failed exit or an empty answer is an error naming the process's error
/// text; otherwise the answer to decode.
pub fn backend_response_text(exit_ok: bool, stdout: &str, stderr: &str) -> (r: Result<String, String>)
    ensures
        !exit_ok ==> (r matches Err(m) && m@ == "Python backend error: "@ + stderr@),
        exit_ok && is_blank_text(stdout@) ==> (r matches Err(m) && m@
            == "Python backend returned empty response. stderr: "@ + stderr@),
        exit_ok && !is_blank_text(stdout@) ==> (r matches Ok(t) && t@ == stdout@),
{
    if !exit_ok {
        let mut m = String::from_str("Python backend error: ");
        m.append(stderr);
        return Err(m);
    }
    if is_blank(stdout) {
        let mut m = String::from_str("Python backend returned empty response. stderr: ");
        m.append(stderr);
        return Err(m);
    }
    Ok(String::from_str(stdout))
}

} // verus!
