//! The scan-based backup listing's decisions: which names are archives,
//! which directories look like attempt directories, how an orphaned
//! archive's filename is parsed back into a database name and creation
//! instant, and what the synthesized sidecar for such an orphan holds.

use vstd::prelude::*;
use vstd::multiset::Multiset;
use vstd::string::StringExecFns;
use crate::backup::{
    Backup, BackupKind, BackupMetadata, DatabaseConfigInfo, spec_fingerprint, fingerprint,
};
use crate::backup_process::{BackupProcess, LifecyclePhase, spec_attempt_database};
use crate::config::DatabaseConfig;
use crate::task::{Task, CompressionType};
use crate::text::{
    spec_is_digit, spec_fs_unsafe, spec_sanitize, sanitize_name, spec_ends_with, chars_end_with,
    spec_join, join_path, str_to_chars, spec_rfind, find_last,
};
use crate::foreign::{timestamp_parse, parse_timestamp, chars_to_string, new_uuid_string};

verus! {

/// Archive names end in one of the three known extensions.
pub open spec fn spec_is_archive_name(s: Seq<char>) -> bool {
    spec_ends_with(s, ".tar.gz"@) || spec_ends_with(s, ".tar.zst"@) || spec_ends_with(s, ".tar"@)
}

/// The length of the recognized extension, the longer forms first.
pub open spec fn spec_extension_len(s: Seq<char>) -> int {
    if spec_ends_with(s, ".tar.gz"@) {
        ".tar.gz"@.len() as int
    } else if spec_ends_with(s, ".tar.zst"@) {
        ".tar.zst"@.len() as int
    } else if spec_ends_with(s, ".tar"@) {
        ".tar"@.len() as int
    } else {
        0
    }
}

/// The compression choice an archive name's extension denotes.
pub open spec fn spec_extension_compression(s: Seq<char>) -> CompressionType {
    if spec_ends_with(s, ".tar.gz"@) {
        CompressionType::Gzip
    } else if spec_ends_with(s, ".tar.zst"@) {
        CompressionType::Zstd
    } else {
        CompressionType::NoCompression
    }
}

/// An ASCII hexadecimal digit, either case.
pub open spec fn spec_is_hex(c: char) -> bool {
    spec_is_digit(c) || ('a' <= c && c <= 'f') || ('A' <= c && c <= 'F')
}

/// The shape of the unique per-attempt suffix in directory names:
/// hexadecimal groups of 8-4-4-4-12 separated by hyphens.
pub open spec fn spec_uuid_shaped(s: Seq<char>) -> bool {
    s.len() == 36 && forall|i: int|
        0 <= i < 36 ==> (if i == 8 || i == 13 || i == 18 || i == 23 {
            s[i] == '-'
        } else {
            spec_is_hex(#[trigger] s[i])
        })
}

/// Whether a text looks like a compact timestamp: fifteen characters,
/// all digits except an underscore in the middle position.
pub open spec fn spec_timestamp_shaped(s: Seq<char>) -> bool {
    s.len() == 15 && forall|i: int|
        0 <= i < 15 ==> (spec_is_digit(#[trigger] s[i]) || s[i] == '_')
}

/// What discovery reads out of an orphaned archive's filename: the stem
/// split at its last dash when the tail parses as a timestamp, else the
/// whole stem with the scan instant.
pub open spec fn spec_parsed_filename(s: Seq<char>, now: u64) -> (Seq<char>, u64) {
    let stem = s.take(s.len() - spec_extension_len(s));
    match spec_rfind(stem, '-') {
        Some(d) => {
            let tail = stem.skip(d + 1);
            if spec_timestamp_shaped(tail) {
                match timestamp_parse(tail) {
                    Some(t) => if 0 <= t < 253402300800 {
                        (stem.take(d), t as u64)
                    } else {
                        (stem, now)
                    },
                    None => (stem, now),
                }
            } else {
                (stem, now)
            }
        },
        None => (stem, now),
    }
}

pub struct FilesystemBackupService {
    pub backup_base_dir: String,
}

/// The summed byte size of a listing.
pub open spec fn spec_total_size(s: Seq<Backup>) -> int
    decreases s.len(),
{
    if s.len() == 0 {
        0
    } else {
        spec_total_size(s.drop_last()) + s.last().file_size
    }
}

/// How often a key occurs in a row of keys.
pub open spec fn spec_count_key(keys: Seq<Seq<char>>, k: Seq<char>) -> int
    decreases keys.len(),
{
    if keys.len() == 0 {
        0
    } else {
        spec_count_key(keys.drop_last(), k) + if keys.last() == k {
            1int
        } else {
            0int
        }
    }
}

/// The kind labels of a listing, in order.
pub open spec fn spec_kind_labels(s: Seq<Backup>) -> Seq<Seq<char>> {
    s.map_values(|b: Backup| crate::backup::spec_backup_kind_label(b.backup_type))
}

/// The database names of a listing, in order.
pub open spec fn spec_database_names(s: Seq<Backup>) -> Seq<Seq<char>> {
    s.map_values(|b: Backup| b.database_name@)
}

/// Whether a tally has an entry for a key.
pub open spec fn spec_has_key(tally: Seq<(String, u64)>, k: Seq<char>) -> bool {
    exists|j: int| 0 <= j < tally.len() && (#[trigger] tally[j]).0@ == k
}

/// A tally over a row of keys: every key once, with its number of
/// occurrences.
pub open spec fn spec_tally_ok(tally: Seq<(String, u64)>, keys: Seq<Seq<char>>) -> bool {
    &&& forall|a: int, b: int|
        0 <= a < b < tally.len() ==> (#[trigger] tally[a]).0@ != (#[trigger] tally[b]).0@
    &&& forall|j: int|
        0 <= j < tally.len() ==> (#[trigger] tally[j]).1 as int == spec_count_key(
            keys,
            tally[j].0@,
        )
    &&& forall|i: int| 0 <= i < keys.len() ==> #[trigger] spec_has_key(tally, keys[i])
}

/// Tallies how often each key occurs, keys in first-seen order.
fn count_occurrences(keys: &Vec<String>) -> (r: Vec<(String, u64)>)
    ensures
        spec_tally_ok(r@, keys.deep_view()),
{
    let ghost kd = keys.deep_view();
    let mut r: Vec<(String, u64)> = Vec::new();
    let mut i: usize = 0;
    proof {
        assert(kd.len() == keys@.len());
        assert(kd.take(0) =~= Seq::<Seq<char>>::empty());
    }
    while i < keys.len()
        invariant
            i <= keys@.len(),
            kd == keys.deep_view(),
            kd.len() == keys@.len(),
            forall|a: int, b: int|
                0 <= a < b < r@.len() ==> (#[trigger] r@[a]).0@ != (#[trigger] r@[b]).0@,
            forall|j: int|
                0 <= j < r@.len() ==> (#[trigger] r@[j]).1 as int == spec_count_key(
                    kd.take(i as int),
                    r@[j].0@,
                ),
            forall|j: int| 0 <= j < r@.len() ==> (#[trigger] r@[j]).1 <= i,
            forall|m: int| 0 <= m < i ==> #[trigger] spec_has_key(r@, kd[m]),
        decreases keys@.len() - i,
    {
        proof {
            assert(kd[i as int] == keys@[i as int]@);
            assert(kd.take(i + 1).drop_last() =~= kd.take(i as int));
            assert(kd.take(i + 1).last() == kd[i as int]);
        }
        let mut found: Option<usize> = None;
        let mut j: usize = 0;
        while j < r.len()
            invariant
                j <= r@.len(),
                i < keys@.len(),
                match found {
                    Some(f) => f < r@.len() && r@[f as int].0@ == keys@[i as int]@,
                    None => forall|m: int| 0 <= m < j ==> (#[trigger] r@[m]).0@ != keys@[i as int]@,
                },
            decreases r@.len() - j,
        {
            if found.is_none() && r[j].0 == keys[i] {
                found = Some(j);
            }
            j = j + 1;
        }
        let ghost r0 = r@;
        match found {
            Some(f) => {
                r[f].1 = r[f].1 + 1;
                proof {
                    assert(r@ =~= r0.update(f as int, (r0[f as int].0, (r0[f as int].1 + 1) as u64)));
                    assert forall|jj: int| 0 <= jj < r@.len() implies (#[trigger] r@[jj]).1 as int
                        == spec_count_key(kd.take(i + 1), r@[jj].0@) by {
                        if jj == f {
                        } else {
                            assert(r@[jj] == r0[jj]);
                            assert(r0[jj].0@ != r0[f as int].0@);
                        }
                    }
                }
            },
            None => {
                r.push((keys[i].clone(), 1));
                proof {
                    assert(r@ =~= r0.push((keys@[i as int], 1u64)));
                    assert forall|jj: int| 0 <= jj < r@.len() implies (#[trigger] r@[jj]).1 as int
                        == spec_count_key(kd.take(i + 1), r@[jj].0@) by {
                        if jj < r@.len() - 1 {
                            assert(r@[jj] == r0[jj]);
                        } else {
                            let ghost ki = kd[i as int];
                            assert forall|m: int| 0 <= m < i implies kd.take(i as int)[m] != ki by {
                                if kd[m] == kd[i as int] {
                                    assert(spec_has_key(r0, kd[m]));
                                    let w = choose|j2: int|
                                        0 <= j2 < r0.len() && (#[trigger] r0[j2]).0@ == kd[m];
                                    assert(r0[w].0@ != keys@[i as int]@);
                                }
                            }
                            lemma_count_key_absent(kd.take(i as int), kd[i as int]);
                        }
                    }
                }
            },
        }
        i = i + 1;
        proof {
            assert forall|m: int| 0 <= m < i implies #[trigger] spec_has_key(r@, kd[m]) by {
                if m < i - 1 {
                    assert(spec_has_key(r0, kd[m]));
                    let w = choose|j2: int| 0 <= j2 < r0.len() && (#[trigger] r0[j2]).0@ == kd[m];
                    assert(r@[w].0@ == kd[m]);
                } else {
                    match found {
                        Some(f) => {
                            assert(r@[f as int].0@ == kd[m]);
                        },
                        None => {
                            assert(r@[r@.len() - 1].0@ == kd[m]);
                        },
                    }
                }
            }
        }
    }
    proof {
        assert(kd.take(kd.len() as int) =~= kd);
        assert forall|m: int| 0 <= m < kd.len() implies #[trigger] spec_has_key(r@, kd[m]) by {}
        assert(spec_tally_ok(r@, kd));
    }
    r
}

/// A key that a tally never saw has no occurrences among the keys it
/// did see.
proof fn lemma_count_key_absent(keys: Seq<Seq<char>>, k: Seq<char>)
    requires
        forall|m: int| 0 <= m < keys.len() ==> keys[m] != k,
    ensures
        spec_count_key(keys, k) == 0,
    decreases keys.len(),
{
    if keys.len() > 0 {
        assert forall|m: int| 0 <= m < keys.len() - 1 implies keys.drop_last()[m] != k by {
            assert(keys.drop_last()[m] == keys[m]);
        }
        lemma_count_key_absent(keys.drop_last(), k);
    }
}

/// Aggregate numbers over a listing.
pub struct BackupStats {
    pub total_count: usize,
    pub total_size: u64,
    pub by_type: Vec<(String, u64)>,
    pub by_database: Vec<(String, u64)>,
}

/// Checks the compact-timestamp shape: fifteen characters, each a digit
/// or an underscore.
fn timestamp_shaped(tail: &Vec<char>) -> (r: bool)
    ensures
        r == spec_timestamp_shaped(tail@),
{
    if tail.len() != 15 {
        return false;
    }
    let mut i: usize = 0;
    while i < 15
        invariant
            i <= 15,
            tail@.len() == 15,
            forall|j: int| 0 <= j < i ==> (spec_is_digit(#[trigger] tail@[j]) || tail@[j] == '_'),
        decreases 15 - i,
    {
        let c = tail[i];
        if !(('0' <= c && c <= '9') || c == '_') {
            proof {
                assert(!(spec_is_digit(tail@[i as int]) || tail@[i as int] == '_'));
            }
            return false;
        }
        i = i + 1;
    }
    true
}

impl FilesystemBackupService {
    pub fn new(backup_base_dir: String) -> (s: FilesystemBackupService)
        ensures
            s.backup_base_dir == backup_base_dir,
    {
        FilesystemBackupService { backup_base_dir }
    }

    /// The human-readable directory name of a new attempt:
    /// `<config-name>[-<database-name>]-<uuid>`, with file-system-unsafe
    /// characters replaced by underscores.  Every character of the result
    /// is safe.
    pub fn generate_backup_directory_name(
        &self,
        database_config: &DatabaseConfig,
        task: Option<&Task>,
    ) -> (r: String)
        ensures
            ({
                let base = spec_sanitize(
                    match task {
                        Some(t) => database_config.name@ + "-"@ + spec_attempt_database(
                            *database_config,
                            Some(*t),
                        ),
                        None => database_config.name@,
                    },
                );
                &&& r@.len() == base.len() + 37
                &&& r@.subrange(0, base.len() as int) == base
                &&& r@[base.len() as int] == '-'
                &&& forall|i: int| 0 <= i < r@.len() ==> !spec_fs_unsafe(#[trigger] r@[i])
            }),
    {
        let base_raw: String = match task {
            Some(t) => {
                let database_name = match &t.database_name {
                    Some(d) => d.clone(),
                    None => database_config.database_name.clone(),
                };
                database_config.name.clone().concat("-").concat(database_name.as_str())
            },
            None => database_config.name.clone(),
        };
        let mut out = sanitize_name(base_raw.as_str());
        let ghost base = out@;
        proof {
            assert forall|i: int| 0 <= i < base.len() implies !spec_fs_unsafe(#[trigger] base[i]) by {
                assert(base[i] == (if spec_fs_unsafe(base_raw@[i]) {
                    '_'
                } else {
                    base_raw@[i]
                }));
            }
        }
        out.push('-');
        let uuid = new_uuid_string();
        let uuid_chars = str_to_chars(uuid.as_str());
        let mut k: usize = 0;
        while k < uuid_chars.len()
            invariant
                k <= uuid_chars@.len(),
                uuid_chars@.len() == 36,
                out@ == base.push('-') + uuid_chars@.take(k as int),
                forall|i: int| 0 <= i < 36 ==> !spec_fs_unsafe(#[trigger] uuid_chars@[i]),
                forall|i: int| 0 <= i < base.len() ==> !spec_fs_unsafe(#[trigger] base[i]),
            decreases uuid_chars@.len() - k,
        {
            out.push(uuid_chars[k]);
            k = k + 1;
            proof {
                assert(out@ =~= base.push('-') + uuid_chars@.take(k as int));
            }
        }
        proof {
            assert(out@ =~= base.push('-') + uuid_chars@);
            assert(out@.subrange(0, base.len() as int) =~= base);
        }
        chars_to_string(&out)
    }

    /// Opens a new attempt for a job: a fresh working directory under the
    /// base directory, named by policy, with the task's compression
    /// choice, as a scheduled backup, not yet begun.
    pub fn create_backup_process(
        &self,
        backup_id: &str,
        database_config: DatabaseConfig,
        task: Option<Task>,
    ) -> (p: BackupProcess)
        ensures
            p.id@ == backup_id@,
            p.database_config == database_config,
            p.task == task,
            p.backup_type == BackupKind::Scheduled,
            p.compression_type == (match task {
                Some(t) => t.compression_type,
                None => CompressionType::Gzip,
            }),
            p.phase == LifecyclePhase::Uninitialized,
            p.root_dir@.len() > self.backup_base_dir@.len() + 1,
            p.root_dir@.subrange(0, self.backup_base_dir@.len() + 1int) == self.backup_base_dir@
                + "/"@,
            forall|i: int|
                self.backup_base_dir@.len() + 1 <= i < p.root_dir@.len() ==> !spec_fs_unsafe(
                    #[trigger] p.root_dir@[i],
                ),
            p.tmp_dir@ == spec_join(p.root_dir@, "tmp"@),
            p.meta_file@ == spec_join(p.root_dir@, "rdumper.backup.json"@),
    {
        let directory_name = self.generate_backup_directory_name(
            &database_config,
            match &task {
                Some(t) => Some(t),
                None => None,
            },
        );
        let root_dir = join_path(self.backup_base_dir.as_str(), directory_name.as_str());
        let compression_type = match &task {
            Some(t) => t.compression_type,
            None => CompressionType::Gzip,
        };
        proof {
            assert("/"@.len() == 1) by {
                reveal_strlit("/");
            }
            assert(root_dir@.subrange(0, self.backup_base_dir@.len() + 1int) =~= self
                .backup_base_dir@ + "/"@);
            assert forall|i: int|
                self.backup_base_dir@.len() + 1 <= i < root_dir@.len() implies !spec_fs_unsafe(
                #[trigger] root_dir@[i],
            ) by {
                assert(root_dir@[i] == directory_name@[i - (self.backup_base_dir@.len() + 1)]);
            }
        }
        BackupProcess::new(
            backup_id.to_owned(),
            root_dir,
            database_config,
            task,
            BackupKind::Scheduled,
            compression_type,
        )
    }

    /// Recognizes an archive by its file name; hands the name back when
    /// it ends in a known extension.
    pub fn is_backup_file(&self, file_name: &str) -> (r: Option<String>)
        ensures
            r is Some <==> spec_is_archive_name(file_name@),
            match r {
                Some(n) => n@ == file_name@,
                None => true,
            },
    {
        let chars = str_to_chars(file_name);
        let gz = str_to_chars(".tar.gz");
        let zst = str_to_chars(".tar.zst");
        let tar = str_to_chars(".tar");
        if chars_end_with(&chars, &gz) || chars_end_with(&chars, &zst) || chars_end_with(
            &chars,
            &tar,
        ) {
            Some(file_name.to_owned())
        } else {
            None
        }
    }

    /// Recognizes the unique per-attempt directory-name suffix:
    /// hexadecimal groups of 8-4-4-4-12 separated by hyphens.
    pub fn is_job_folder(&self, folder_name: &str) -> (r: bool)
        ensures
            r == spec_uuid_shaped(folder_name@),
    {
        let chars = str_to_chars(folder_name);
        if chars.len() != 36 {
            return false;
        }
        let mut i: usize = 0;
        while i < 36
            invariant
                i <= 36,
                chars@.len() == 36,
                chars@ == folder_name@,
                forall|k: int|
                    0 <= k < i ==> (if k == 8 || k == 13 || k == 18 || k == 23 {
                        folder_name@[k] == '-'
                    } else {
                        spec_is_hex(#[trigger] folder_name@[k])
                    }),
            decreases 36 - i,
        {
            let c = chars[i];
            if i == 8 || i == 13 || i == 18 || i == 23 {
                if c != '-' {
                    return false;
                }
            } else {
                let hex = ('0' <= c && c <= '9') || ('a' <= c && c <= 'f') || ('A' <= c && c
                    <= 'F');
                if !hex {
                    return false;
                }
            }
            i = i + 1;
        }
        true
    }

    /// Reads a database name and creation instant out of an orphaned
    /// archive's filename, expecting `<database>-<YYYYMMDD_HHMMSS>` before
    /// the extension and falling back to the whole stem and the scan
    /// instant; the third part is the fingerprint from the measured size
    /// and modification time.  Never fails: any name yields an answer.
    pub fn parse_backup_filename(
        &self,
        filename: &str,
        file_size: u64,
        modified_secs: u64,
        now: u64,
    ) -> (r: (String, u64, String))
        ensures
            (r.0@, r.1) == spec_parsed_filename(filename@, now),
            r.2@ == spec_fingerprint(file_size, modified_secs),
    {
        let chars = str_to_chars(filename);
        let gz = str_to_chars(".tar.gz");
        let zst = str_to_chars(".tar.zst");
        let tar = str_to_chars(".tar");
        let ext_len: usize = if chars_end_with(&chars, &gz) {
            gz.len()
        } else if chars_end_with(&chars, &zst) {
            zst.len()
        } else if chars_end_with(&chars, &tar) {
            tar.len()
        } else {
            0
        };
        proof {
            assert(ext_len as int == spec_extension_len(filename@));
        }
        let mut stem: Vec<char> = Vec::new();
        let stem_len = chars.len() - ext_len;
        let mut i: usize = 0;
        while i < stem_len
            invariant
                i <= stem_len,
                stem_len <= chars@.len(),
                stem@ == chars@.take(stem_len as int).take(i as int),
            decreases stem_len - i,
        {
            stem.push(chars[i]);
            i = i + 1;
            proof {
                assert(stem@ =~= chars@.take(stem_len as int).take(i as int));
            }
        }
        proof {
            assert(stem@ =~= chars@.take(stem_len as int));
        }
        let ident = fingerprint(file_size, modified_secs);
        let dash = find_last(&stem, '-');
        if let Some(d) = dash {
            let mut tail: Vec<char> = Vec::new();
            let mut k2: usize = d + 1;
            while k2 < stem.len()
                invariant
                    d + 1 <= k2 <= stem@.len(),
                    tail@ == stem@.subrange(d + 1int, k2 as int),
                decreases stem@.len() - k2,
            {
                tail.push(stem[k2]);
                k2 = k2 + 1;
                proof {
                    assert(tail@ =~= stem@.subrange(d + 1int, k2 as int));
                }
            }
            proof {
                assert(tail@ =~= stem@.skip(d + 1));
            }
            if timestamp_shaped(&tail) {
                let tail_str = chars_to_string(&tail);
                if let Some(t) = parse_timestamp(tail_str.as_str()) {
                    if 0 <= t && t < 253402300800 {
                        let mut db: Vec<char> = Vec::new();
                        let mut k3: usize = 0;
                        while k3 < d
                            invariant
                                k3 <= d < stem@.len(),
                                db@ == stem@.take(d as int).take(k3 as int),
                            decreases d - k3,
                        {
                            db.push(stem[k3]);
                            k3 = k3 + 1;
                            proof {
                                assert(db@ =~= stem@.take(d as int).take(k3 as int));
                            }
                        }
                        proof {
                            assert(db@ =~= stem@.take(d as int));
                        }
                        return (chars_to_string(&db), t as u64, ident);
                    }
                }
            }
        }
        (chars_to_string(&stem), now, ident)
    }

    /// The synthesized sidecar for an orphaned archive: best-effort
    /// identity from the filename, unknown connection details, external
    /// kind, and the measured size and fingerprint.  The scan never fails
    /// on such an entry.
    pub fn create_metadata_for_backup(
        &self,
        file_name: &str,
        backup_path: &str,
        meta_path: &str,
        file_size: u64,
        modified_secs: u64,
        now: u64,
    ) -> (m: BackupMetadata)
        ensures
            ({
                let parsed = spec_parsed_filename(file_name@, now);
                &&& m.id@.len() == 36
                &&& m.database_name@ == parsed.0
                &&& m.created_at == parsed.1
                &&& m.database_config_id@ == "unknown"@
                &&& m.task_id is None
                &&& m.used_database is None
                &&& m.file_path@ == backup_path@
                &&& m.meta_path@ == meta_path@
                &&& m.file_size == file_size
                &&& m.compression_type == spec_extension_compression(file_name@)
                &&& m.backup_type == BackupKind::External
                &&& (match m.ident {
                    Some(i) => i@ == spec_fingerprint(file_size, modified_secs),
                    None => false,
                })
                &&& m.database_config.host@ == "unknown"@
                &&& m.database_config.port == 3306
                &&& m.database_config.database_name@ == parsed.0
                &&& m.task_info is None
            }),
    {
        let (database_name, created_at, ident) = self.parse_backup_filename(
            file_name,
            file_size,
            modified_secs,
            now,
        );
        let chars = str_to_chars(file_name);
        let gz = str_to_chars(".tar.gz");
        let zst = str_to_chars(".tar.zst");
        let compression_type = if chars_end_with(&chars, &gz) {
            CompressionType::Gzip
        } else if chars_end_with(&chars, &zst) {
            CompressionType::Zstd
        } else {
            CompressionType::NoCompression
        };
        let database_config = DatabaseConfigInfo {
            id: "unknown".to_owned(),
            name: "Unknown Database (".to_owned().concat(database_name.as_str()).concat(")"),
            host: "unknown".to_owned(),
            port: 3306,
            username: "unknown".to_owned(),
            database_name: database_name.clone(),
        };
        BackupMetadata {
            id: new_uuid_string(),
            database_name,
            database_config_id: "unknown".to_owned(),
            task_id: None,
            used_database: None,
            file_path: backup_path.to_owned(),
            meta_path: meta_path.to_owned(),
            file_size,
            compression_type,
            created_at,
            backup_type: BackupKind::External,
            ident: Some(ident),
            database_config,
            task_info: None,
        }
    }
}

impl FilesystemBackupService {
    /// Aggregates a listing: how many artifacts, their summed bytes,
    /// and tallies by kind and by database.
    pub fn get_backup_stats(&self, backups: &Vec<Backup>) -> (r: BackupStats)
        requires
            spec_total_size(backups@) <= u64::MAX,
        ensures
            r.total_count == backups@.len(),
            r.total_size as int == spec_total_size(backups@),
            spec_tally_ok(r.by_type@, spec_kind_labels(backups@)),
            spec_tally_ok(r.by_database@, spec_database_names(backups@)),
    {
        let mut total_size: u64 = 0;
        let mut kinds: Vec<String> = Vec::new();
        let mut dbs: Vec<String> = Vec::new();
        let mut i: usize = 0;
        proof {
            assert(backups@.take(0) =~= Seq::<Backup>::empty());
            assert(kinds.deep_view() =~~= spec_kind_labels(backups@.take(0)));
            assert(dbs.deep_view() =~~= spec_database_names(backups@.take(0)));
            lemma_total_size_prefix(backups@, 0);
        }
        while i < backups.len()
            invariant
                i <= backups@.len(),
                kinds@.len() == i as int,
                dbs@.len() == i as int,
                total_size as int == spec_total_size(backups@.take(i as int)),
                spec_total_size(backups@.take(i as int)) <= spec_total_size(backups@),
                spec_total_size(backups@) <= u64::MAX,
                kinds.deep_view() == spec_kind_labels(backups@.take(i as int)),
                dbs.deep_view() == spec_database_names(backups@.take(i as int)),
            decreases backups@.len() - i,
        {
            let ghost k0 = kinds.deep_view();
            let ghost d0 = dbs.deep_view();
            proof {
                assert(backups@.take(i + 1).drop_last() =~= backups@.take(i as int));
                assert(backups@.take(i + 1).last() == backups@[i as int]);
                lemma_total_size_prefix(backups@, i + 1);
            }
            total_size = total_size + backups[i].file_size;
            kinds.push(backups[i].backup_type.label());
            dbs.push(backups[i].database_name.clone());
            i = i + 1;
            proof {
                assert(kinds.deep_view().len() == i as int);
                assert(dbs.deep_view().len() == i as int);
                assert forall|m: int| 0 <= m < i implies kinds.deep_view()[m] == spec_kind_labels(
                    backups@.take(i as int),
                )[m] && dbs.deep_view()[m] == spec_database_names(backups@.take(i as int))[m] by {
                    assert(kinds.deep_view()[m] == kinds@[m]@);
                    assert(dbs.deep_view()[m] == dbs@[m]@);
                    assert(backups@.take(i as int)[m] == backups@[m]);
                    if m < i - 1 {
                        assert(k0[m] == kinds@[m]@);
                        assert(d0[m] == dbs@[m]@);
                        assert(spec_kind_labels(backups@.take(i - 1))[m] == k0[m]);
                        assert(spec_database_names(backups@.take(i - 1))[m] == d0[m]);
                        assert(backups@.take(i - 1)[m] == backups@[m]);
                    }
                }
                assert(kinds.deep_view() =~~= spec_kind_labels(backups@.take(i as int)));
                assert(dbs.deep_view() =~~= spec_database_names(backups@.take(i as int)));
            }
        }
        proof {
            assert(backups@.take(backups@.len() as int) =~= backups@);
            assert(kinds.deep_view() == spec_kind_labels(backups@));
            assert(dbs.deep_view() == spec_database_names(backups@));
        }
        let by_type = count_occurrences(&kinds);
        let by_database = count_occurrences(&dbs);
        BackupStats { total_count: backups.len(), total_size, by_type, by_database }
    }

    /// Orders a listing newest first by creation instant, keeping
    /// exactly the same artifacts.
    pub fn sort_backups_newest_first(&self, v: &mut Vec<Backup>)
        ensures
            final (v)@.len() == old(v)@.len(),
            final (v)@.to_multiset() == old(v)@.to_multiset(),
            forall|a: int, b: int|
                0 <= a < b < final (v)@.len() ==> (#[trigger] final (v)@[a]).created_at >= (
                #[trigger] final (v)@[b]).created_at,
    {
        let ghost orig = v@;
        let mut i: usize = 1;
        while i < v.len()
            invariant
                1 <= i || v@.len() <= 1,
                i <= v@.len() || v@.len() == 0,
                v@.len() == orig.len(),
                v@.to_multiset() == orig.to_multiset(),
                forall|a: int, b: int|
                    0 <= a < b < i ==> (#[trigger] v@[a]).created_at >= (
                    #[trigger] v@[b]).created_at,
            decreases v@.len() - i,
        {
            let mut j: usize = i;
            while j > 0 && v[j - 1].created_at < v[j].created_at
                invariant
                    j <= i < v@.len(),
                    v@.len() == orig.len(),
                    v@.to_multiset() == orig.to_multiset(),
                    forall|a: int, b: int|
                        0 <= a < b <= i && b != j ==> (#[trigger] v@[a]).created_at >= (
                        #[trigger] v@[b]).created_at,
                decreases j,
            {
                let ghost pre = v@;
                let moved = v.remove(j - 1);
                v.insert(j, moved);
                proof {
                    assert(v@ =~= pre.update(j - 1, pre[j as int]).update(j as int, pre[j - 1]));
                    lemma_swap_multiset(pre, v@, j - 1);
                    assert forall|a: int, b: int|
                        0 <= a < b <= i && b != j - 1 implies (#[trigger] v@[a]).created_at >= (
                        #[trigger] v@[b]).created_at by {
                        if a == j - 1 {
                            assert(v@[a] == pre[j as int]);
                            if b == j {
                            } else {
                                assert(v@[b] == pre[b]);
                            }
                        } else if a == j {
                            assert(v@[a] == pre[j - 1]);
                            assert(v@[b] == pre[b]);
                        } else if b == j {
                            assert(v@[a] == pre[a]);
                            assert(v@[b] == pre[j - 1]);
                        } else {
                            assert(v@[a] == pre[a]);
                            assert(v@[b] == pre[b]);
                        }
                    }
                }
                j = j - 1;
            }
            proof {
                assert forall|a: int, b: int|
                    0 <= a < b <= i implies (#[trigger] v@[a]).created_at >= (
                    #[trigger] v@[b]).created_at by {
                    if b == j && j > 0 {
                        assert(v@[j - 1].created_at >= v@[j as int].created_at);
                        if a < j - 1 {
                            assert(v@[a].created_at >= v@[j - 1].created_at);
                        }
                    }
                }
            }
            i = i + 1;
        }
    }
}

/// The size of a prefix never exceeds the size of the whole listing.
proof fn lemma_total_size_prefix(s: Seq<Backup>, k: int)
    requires
        0 <= k <= s.len(),
    ensures
        spec_total_size(s.take(k)) <= spec_total_size(s),
    decreases s.len() - k,
{
    if k < s.len() {
        lemma_total_size_prefix(s, k + 1);
        assert(s.take(k + 1).drop_last() =~= s.take(k));
        assert(s.take(k + 1).last().file_size >= 0);
    } else {
        assert(s.take(k) =~= s);
    }
}

/// Exchanging two neighbours leaves the multiset of a row unchanged.
proof fn lemma_swap_multiset(pre: Seq<Backup>, post: Seq<Backup>, a: int)
    requires
        0 <= a,
        a + 1 < pre.len(),
        post == pre.update(a, pre[a + 1]).update(a + 1, pre[a]),
    ensures
        post.to_multiset() == pre.to_multiset(),
{
    let x = pre[a];
    let y = pre[a + 1];
    broadcast use vstd::seq_lib::group_to_multiset_ensures;

    assert(pre.remove(a).to_multiset() =~= pre.to_multiset().remove(x));
    assert(pre.remove(a)[a] == y);
    assert(pre.remove(a).remove(a).to_multiset() =~= pre.remove(a).to_multiset().remove(y));
    assert(post.remove(a).to_multiset() =~= post.to_multiset().remove(y));
    assert(post.remove(a)[a] == x);
    assert(post.remove(a).remove(a).to_multiset() =~= post.remove(a).to_multiset().remove(x));
    assert(pre.remove(a).remove(a) =~= post.remove(a).remove(a));
    let base = pre.remove(a).remove(a).to_multiset();
    assert(pre.to_multiset() =~= base.insert(y).insert(x)) by {
        lemma_multiset_remove_insert(pre.to_multiset(), pre.remove(a).to_multiset(), x);
        lemma_multiset_remove_insert(pre.remove(a).to_multiset(), base, y);
        assert(pre.contains(x));
        assert(pre.remove(a).contains(y));
    }
    assert(post.to_multiset() =~= base.insert(x).insert(y)) by {
        lemma_multiset_remove_insert(post.to_multiset(), post.remove(a).to_multiset(), y);
        lemma_multiset_remove_insert(post.remove(a).to_multiset(), base, x);
        assert(post.contains(y)) by {
            assert(post[a] == y);
        }
        assert(post.remove(a).contains(x)) by {
            assert(post.remove(a)[a] == x);
        }
    }
    assert(base.insert(y).insert(x) =~= base.insert(x).insert(y));
}

/// Removing an element a multiset holds and putting it back changes
/// nothing.
proof fn lemma_multiset_remove_insert(m: Multiset<Backup>, removed: Multiset<Backup>, x: Backup)
    requires
        removed == m.remove(x),
        m.count(x) >= 1,
    ensures
        m == removed.insert(x),
{
    assert(m =~= removed.insert(x));
}

} // verus!
