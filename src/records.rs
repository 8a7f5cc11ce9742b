use vstd::prelude::*;

verus! {

/// One ingested file of the vault catalog.
#[derive(Debug, Clone, PartialEq, Eq)]
pub struct ImageRecord {
    pub id: i64,
    /// Content hash; unique over every row, deleted ones included.
    pub file_hash: String,
    /// Encrypted file name; the clear name is never stored.
    pub file_name: String,
    /// Path of the encrypted artifact, relative to the vault root.
    pub storage_path: String,
    pub created_at: String,
    pub updated_at: String,
    pub file_size: i64,
    pub is_deleted: bool,
}

/// A label attached to exactly one image.
#[derive(Debug, Clone, PartialEq, Eq)]
pub struct TagRecord {
    pub id: i64,
    pub image_id: i64,
    /// Encrypted tag text.
    pub tag_name: String,
    pub tag_type: Option<String>,
    pub created_at: String,
}

/// A free-text note attached to exactly one image.
#[derive(Debug, Clone, PartialEq, Eq)]
pub struct AnnotationRecord {
    pub id: i64,
    pub image_id: i64,
    /// Encrypted note text.
    pub note: String,
    pub created_at: String,
}

/// One row of the vault-wide key/value configuration.
#[derive(Debug, Clone, PartialEq, Eq)]
pub struct MetaEntry {
    pub key: String,
    pub value: String,
    pub last_updated: String,
}

/// One write-once entry of the audit log.
#[derive(Debug, Clone, PartialEq, Eq)]
pub struct AuditEvent {
    pub id: i64,
    pub event_type: String,
    pub timestamp: String,
    pub status: String,
    pub details: Option<String>,
}

/// Read-only summary of the vault.
#[derive(Debug, Clone, PartialEq, Eq)]
pub struct VaultInfo {
    pub vault_id: Option<String>,
    pub created_at: Option<String>,
    pub schema_version: Option<String>,
    pub total_images: usize,
    pub status: String,
}

/// Typed failures of the store.
#[derive(Debug, Clone, Copy, PartialEq, Eq, Structural)]
pub enum StoreError {
    /// The content hash is already held by a row, deleted or not.
    UniqueConstraintViolation,
    /// A tag or annotation names an image row that does not exist.
    ForeignKeyViolation,
    /// The table cannot be written (for the audit log: it is read-only).
    Unavailable,
    /// Every identifier of the table has been handed out.
    IdsExhausted,
    /// A restored row's identifier is not above every identifier its
    /// table holds.
    OutOfOrder,
}

pub fn copy_text_option(o: &Option<String>) -> (r: Option<String>)
    ensures
        r == *o,
{
    match o {
        Some(s) => Some(s.clone()),
        None => None,
    }
}

impl ImageRecord {
    pub fn duplicate(&self) -> (r: ImageRecord)
        ensures
            r == *self,
    {
        ImageRecord {
            id: self.id,
            file_hash: self.file_hash.clone(),
            file_name: self.file_name.clone(),
            storage_path: self.storage_path.clone(),
            created_at: self.created_at.clone(),
            updated_at: self.updated_at.clone(),
            file_size: self.file_size,
            is_deleted: self.is_deleted,
        }
    }
}

impl TagRecord {
    pub fn duplicate(&self) -> (r: TagRecord)
        ensures
            r == *self,
    {
        TagRecord {
            id: self.id,
            image_id: self.image_id,
            tag_name: self.tag_name.clone(),
            tag_type: copy_text_option(&self.tag_type),
            created_at: self.created_at.clone(),
        }
    }
}

impl AnnotationRecord {
    pub fn duplicate(&self) -> (r: AnnotationRecord)
        ensures
            r == *self,
    {
        AnnotationRecord {
            id: self.id,
            image_id: self.image_id,
            note: self.note.clone(),
            created_at: self.created_at.clone(),
        }
    }
}

impl MetaEntry {
    pub fn duplicate(&self) -> (r: MetaEntry)
        ensures
            r == *self,
    {
        MetaEntry { key: self.key.clone(), value: self.value.clone(), last_updated: self.last_updated.clone() }
    }
}

impl AuditEvent {
    pub fn duplicate(&self) -> (r: AuditEvent)
        ensures
            r == *self,
    {
        AuditEvent {
            id: self.id,
            event_type: self.event_type.clone(),
            timestamp: self.timestamp.clone(),
            status: self.status.clone(),
            details: copy_text_option(&self.details),
        }
    }
}

} // verus!
