use vstd::prelude::*;

verus! {

/// Name of the database file inside the vault's `data` directory.
pub fn database_file() -> (r: &'static str)
    ensures
        r@ == "graphivault.db"@,
{
    "graphivault.db"
}

/// Statement text that is safe to run on every launch: it creates a table
/// or an index only when it is missing.
pub open spec fn creates_if_missing(s: Seq<char>) -> bool {
    s.len() >= 27 && (s.take(27) == "CREATE TABLE IF NOT EXISTS "@ || s.take(27)
        == "CREATE INDEX IF NOT EXISTS "@)
}

/// The directories of a vault, relative to its root, in creation order.
pub fn vault_directories() -> (r: Vec<&'static str>)
    ensures
        r@.len() == 5,
        r@[0]@ == "data"@,
        r@[1]@ == "encrypted"@,
        r@[2]@ == "thumbnails"@,
        r@[3]@ == "temp"@,
        r@[4]@ == "backups"@,
{
    let mut r: Vec<&'static str> = Vec::new();
    r.push("data");
    r.push("encrypted");
    r.push("thumbnails");
    r.push("temp");
    r.push("backups");
    r
}

/// Connection settings, applied once per connection before any schema
/// statement: foreign keys, write-ahead log, normal synchronous level,
/// secure delete, incremental vacuum, page size, a 64 MB page cache and
/// temporary storage in memory.
pub fn connection_pragmas() -> (r: Vec<&'static str>)
    ensures
        r@.len() == 8,
        r@[0]@ == "PRAGMA foreign_keys = ON"@,
        r@[1]@ == "PRAGMA journal_mode = WAL"@,
        r@[2]@ == "PRAGMA synchronous = NORMAL"@,
        r@[3]@ == "PRAGMA secure_delete = ON"@,
        r@[4]@ == "PRAGMA auto_vacuum = INCREMENTAL"@,
        r@[5]@ == "PRAGMA page_size = 4096"@,
        r@[6]@ == "PRAGMA cache_size = -64000"@,
        r@[7]@ == "PRAGMA temp_store = MEMORY"@,
{
    let mut r: Vec<&'static str> = Vec::new();
    r.push("PRAGMA foreign_keys = ON");
    r.push("PRAGMA journal_mode = WAL");
    r.push("PRAGMA synchronous = NORMAL");
    r.push("PRAGMA secure_delete = ON");
    r.push("PRAGMA auto_vacuum = INCREMENTAL");
    r.push("PRAGMA page_size = 4096");
    r.push("PRAGMA cache_size = -64000");
    r.push("PRAGMA temp_store = MEMORY");
    r
}

/// The five tables (images, tags, annotations, vault_meta, auth_logs) and
/// the nine secondary indexes, in creation order. Each statement creates
/// its object only when missing, so running them again adds nothing.
pub fn schema_statements() -> (r: Vec<&'static str>)
    ensures
        r@.len() == 14,
        r@[0]@ == "CREATE TABLE IF NOT EXISTS images (id INTEGER PRIMARY KEY AUTOINCREMENT, file_hash TEXT NOT NULL UNIQUE, file_name TEXT NOT NULL, storage_path TEXT NOT NULL, created_at TEXT NOT NULL, updated_at TEXT NOT NULL, file_size INTEGER NOT NULL, is_deleted BOOLEAN NOT NULL DEFAULT 0)"@,
        r@[1]@ == "CREATE TABLE IF NOT EXISTS tags (id INTEGER PRIMARY KEY AUTOINCREMENT, image_id INTEGER NOT NULL, tag_name TEXT NOT NULL, tag_type TEXT, created_at TEXT NOT NULL, FOREIGN KEY (image_id) REFERENCES images(id) ON DELETE CASCADE)"@,
        r@[2]@ == "CREATE TABLE IF NOT EXISTS annotations (id INTEGER PRIMARY KEY AUTOINCREMENT, image_id INTEGER NOT NULL, note TEXT NOT NULL, created_at TEXT NOT NULL, FOREIGN KEY (image_id) REFERENCES images(id) ON DELETE CASCADE)"@,
        r@[3]@ == "CREATE TABLE IF NOT EXISTS vault_meta (key TEXT PRIMARY KEY, value TEXT NOT NULL, last_updated TEXT NOT NULL)"@,
        r@[4]@ == "CREATE TABLE IF NOT EXISTS auth_logs (id INTEGER PRIMARY KEY AUTOINCREMENT, event_type TEXT NOT NULL, timestamp TEXT NOT NULL, status TEXT NOT NULL, details TEXT)"@,
        r@[5]@ == "CREATE INDEX IF NOT EXISTS idx_images_file_hash ON images(file_hash)"@,
        r@[6]@ == "CREATE INDEX IF NOT EXISTS idx_images_created_at ON images(created_at)"@,
        r@[7]@ == "CREATE INDEX IF NOT EXISTS idx_images_updated_at ON images(updated_at)"@,
        r@[8]@ == "CREATE INDEX IF NOT EXISTS idx_images_storage_path ON images(storage_path)"@,
        r@[9]@ == "CREATE INDEX IF NOT EXISTS idx_tags_image_id ON tags(image_id)"@,
        r@[10]@ == "CREATE INDEX IF NOT EXISTS idx_tags_created_at ON tags(created_at)"@,
        r@[11]@ == "CREATE INDEX IF NOT EXISTS idx_annotations_image_id ON annotations(image_id)"@,
        r@[12]@ == "CREATE INDEX IF NOT EXISTS idx_auth_logs_timestamp ON auth_logs(timestamp)"@,
        r@[13]@ == "CREATE INDEX IF NOT EXISTS idx_auth_logs_event_type ON auth_logs(event_type)"@,
        forall|i: int| 0 <= i < r@.len() ==> creates_if_missing((#[trigger] r@[i])@),
{
    let t0 = "CREATE TABLE IF NOT EXISTS images (id INTEGER PRIMARY KEY AUTOINCREMENT, file_hash TEXT NOT NULL UNIQUE, file_name TEXT NOT NULL, storage_path TEXT NOT NULL, created_at TEXT NOT NULL, updated_at TEXT NOT NULL, file_size INTEGER NOT NULL, is_deleted BOOLEAN NOT NULL DEFAULT 0)";
    let t1 = "CREATE TABLE IF NOT EXISTS tags (id INTEGER PRIMARY KEY AUTOINCREMENT, image_id INTEGER NOT NULL, tag_name TEXT NOT NULL, tag_type TEXT, created_at TEXT NOT NULL, FOREIGN KEY (image_id) REFERENCES images(id) ON DELETE CASCADE)";
    let t2 = "CREATE TABLE IF NOT EXISTS annotations (id INTEGER PRIMARY KEY AUTOINCREMENT, image_id INTEGER NOT NULL, note TEXT NOT NULL, created_at TEXT NOT NULL, FOREIGN KEY (image_id) REFERENCES images(id) ON DELETE CASCADE)";
    let t3 = "CREATE TABLE IF NOT EXISTS vault_meta (key TEXT PRIMARY KEY, value TEXT NOT NULL, last_updated TEXT NOT NULL)";
    let t4 = "CREATE TABLE IF NOT EXISTS auth_logs (id INTEGER PRIMARY KEY AUTOINCREMENT, event_type TEXT NOT NULL, timestamp TEXT NOT NULL, status TEXT NOT NULL, details TEXT)";
    let x0 = "CREATE INDEX IF NOT EXISTS idx_images_file_hash ON images(file_hash)";
    let x1 = "CREATE INDEX IF NOT EXISTS idx_images_created_at ON images(created_at)";
    let x2 = "CREATE INDEX IF NOT EXISTS idx_images_updated_at ON images(updated_at)";
    let x3 = "CREATE INDEX IF NOT EXISTS idx_images_storage_path ON images(storage_path)";
    let x4 = "CREATE INDEX IF NOT EXISTS idx_tags_image_id ON tags(image_id)";
    let x5 = "CREATE INDEX IF NOT EXISTS idx_tags_created_at ON tags(created_at)";
    let x6 = "CREATE INDEX IF NOT EXISTS idx_annotations_image_id ON annotations(image_id)";
    let x7 = "CREATE INDEX IF NOT EXISTS idx_auth_logs_timestamp ON auth_logs(timestamp)";
    let x8 = "CREATE INDEX IF NOT EXISTS idx_auth_logs_event_type ON auth_logs(event_type)";
    proof {
        reveal_strlit("CREATE TABLE IF NOT EXISTS ");
        reveal_strlit("CREATE INDEX IF NOT EXISTS ");
        reveal_strlit("CREATE TABLE IF NOT EXISTS images (id INTEGER PRIMARY KEY AUTOINCREMENT, file_hash TEXT NOT NULL UNIQUE, file_name TEXT NOT NULL, storage_path TEXT NOT NULL, created_at TEXT NOT NULL, updated_at TEXT NOT NULL, file_size INTEGER NOT NULL, is_deleted BOOLEAN NOT NULL DEFAULT 0)");
        reveal_strlit("CREATE TABLE IF NOT EXISTS tags (id INTEGER PRIMARY KEY AUTOINCREMENT, image_id INTEGER NOT NULL, tag_name TEXT NOT NULL, tag_type TEXT, created_at TEXT NOT NULL, FOREIGN KEY (image_id) REFERENCES images(id) ON DELETE CASCADE)");
        reveal_strlit("CREATE TABLE IF NOT EXISTS annotations (id INTEGER PRIMARY KEY AUTOINCREMENT, image_id INTEGER NOT NULL, note TEXT NOT NULL, created_at TEXT NOT NULL, FOREIGN KEY (image_id) REFERENCES images(id) ON DELETE CASCADE)");
        reveal_strlit("CREATE TABLE IF NOT EXISTS vault_meta (key TEXT PRIMARY KEY, value TEXT NOT NULL, last_updated TEXT NOT NULL)");
        reveal_strlit("CREATE TABLE IF NOT EXISTS auth_logs (id INTEGER PRIMARY KEY AUTOINCREMENT, event_type TEXT NOT NULL, timestamp TEXT NOT NULL, status TEXT NOT NULL, details TEXT)");
        reveal_strlit("CREATE INDEX IF NOT EXISTS idx_images_file_hash ON images(file_hash)");
        reveal_strlit("CREATE INDEX IF NOT EXISTS idx_images_created_at ON images(created_at)");
        reveal_strlit("CREATE INDEX IF NOT EXISTS idx_images_updated_at ON images(updated_at)");
        reveal_strlit("CREATE INDEX IF NOT EXISTS idx_images_storage_path ON images(storage_path)");
        reveal_strlit("CREATE INDEX IF NOT EXISTS idx_tags_image_id ON tags(image_id)");
        reveal_strlit("CREATE INDEX IF NOT EXISTS idx_tags_created_at ON tags(created_at)");
        reveal_strlit("CREATE INDEX IF NOT EXISTS idx_annotations_image_id ON annotations(image_id)");
        reveal_strlit("CREATE INDEX IF NOT EXISTS idx_auth_logs_timestamp ON auth_logs(timestamp)");
        reveal_strlit("CREATE INDEX IF NOT EXISTS idx_auth_logs_event_type ON auth_logs(event_type)");
        assert(creates_if_missing(t0@)) by { assert(t0@.take(27) =~= "CREATE TABLE IF NOT EXISTS "@); }
        assert(creates_if_missing(t1@)) by { assert(t1@.take(27) =~= "CREATE TABLE IF NOT EXISTS "@); }
        assert(creates_if_missing(t2@)) by { assert(t2@.take(27) =~= "CREATE TABLE IF NOT EXISTS "@); }
        assert(creates_if_missing(t3@)) by { assert(t3@.take(27) =~= "CREATE TABLE IF NOT EXISTS "@); }
        assert(creates_if_missing(t4@)) by { assert(t4@.take(27) =~= "CREATE TABLE IF NOT EXISTS "@); }
        assert(creates_if_missing(x0@)) by { assert(x0@.take(27) =~= "CREATE INDEX IF NOT EXISTS "@); }
        assert(creates_if_missing(x1@)) by { assert(x1@.take(27) =~= "CREATE INDEX IF NOT EXISTS "@); }
        assert(creates_if_missing(x2@)) by { assert(x2@.take(27) =~= "CREATE INDEX IF NOT EXISTS "@); }
        assert(creates_if_missing(x3@)) by { assert(x3@.take(27) =~= "CREATE INDEX IF NOT EXISTS "@); }
        assert(creates_if_missing(x4@)) by { assert(x4@.take(27) =~= "CREATE INDEX IF NOT EXISTS "@); }
        assert(creates_if_missing(x5@)) by { assert(x5@.take(27) =~= "CREATE INDEX IF NOT EXISTS "@); }
        assert(creates_if_missing(x6@)) by { assert(x6@.take(27) =~= "CREATE INDEX IF NOT EXISTS "@); }
        assert(creates_if_missing(x7@)) by { assert(x7@.take(27) =~= "CREATE INDEX IF NOT EXISTS "@); }
        assert(creates_if_missing(x8@)) by { assert(x8@.take(27) =~= "CREATE INDEX IF NOT EXISTS "@); }
    }
    let mut r: Vec<&'static str> = Vec::new();
    r.push(t0);
    r.push(t1);
    r.push(t2);
    r.push(t3);
    r.push(t4);
    r.push(x0);
    r.push(x1);
    r.push(x2);
    r.push(x3);
    r.push(x4);
    r.push(x5);
    r.push(x6);
    r.push(x7);
    r.push(x8);
    r
}

} // verus!
