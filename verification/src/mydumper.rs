//! The dump tool's side of the logic: classifying a database's tables
//! by storage engine into the transactionally safe and the excluded,
//! and assembling the exact argument lists handed to the dump, restore
//! and archive tools.

use vstd::prelude::*;
use vstd::string::StringExecFns;
use crate::config::DatabaseConfig;
use crate::task::CompressionType;
use crate::text::{spec_decimal, u64_to_string, spec_join, join_path, spec_rfind};

verus! {

/// An ASCII letter folded to upper case; other characters unchanged.
pub open spec fn spec_ascii_upper(c: char) -> char {
    if 'a' <= c && c <= 'z' {
        ((c as u32) - 32) as char
    } else {
        c
    }
}

pub open spec fn spec_upper(s: Seq<char>) -> Seq<char> {
    s.map(|i: int, c: char| spec_ascii_upper(c))
}

fn ascii_upper(c: char) -> (r: char)
    ensures
        r == spec_ascii_upper(c),
{
    if 'a' <= c && c <= 'z' {
        (((c as u32) - 32) as u8) as char
    } else {
        c
    }
}

fn to_upper(s: &str) -> (r: String)
    ensures
        r@ == spec_upper(s@),
{
    let chars = crate::text::str_to_chars(s);
    let mut up: Vec<char> = Vec::new();
    let mut i: usize = 0;
    while i < chars.len()
        invariant
            i <= chars@.len(),
            chars@ == s@,
            up@ == spec_upper(s@.subrange(0, i as int)),
        decreases chars@.len() - i,
    {
        up.push(ascii_upper(chars[i]));
        i = i + 1;
        proof {
            assert(up@ =~= spec_upper(s@.subrange(0, i as int)));
        }
    }
    proof {
        assert(s@.subrange(0, s@.len() as int) =~= s@);
    }
    crate::foreign::chars_to_string(&up)
}

/// The storage engines excluded from transactionally safe dumps.
pub open spec fn spec_engine_excluded(engine: Seq<char>) -> bool {
    let u = spec_upper(engine);
    u == "MYISAM"@ || u == "MEMORY"@ || u == "CSV"@ || u == "ARCHIVE"@ || u == "FEDERATED"@ || u
        == "MERGE"@ || u == "BLACKHOLE"@
}

/// Whether a table's engine keeps it out of the safe set.
pub fn engine_excluded(engine: &str) -> (r: bool)
    ensures
        r == spec_engine_excluded(engine@),
{
    let u = to_upper(engine);
    let a = "MYISAM".to_owned();
    let b = "MEMORY".to_owned();
    let c = "CSV".to_owned();
    let d = "ARCHIVE".to_owned();
    let e = "FEDERATED".to_owned();
    let f = "MERGE".to_owned();
    let g = "BLACKHOLE".to_owned();
    u == a || u == b || u == c || u == d || u == e || u == f || u == g
}

/// The split of `(table, engine)` rows: tables on safe engines (and on
/// unknown ones, included by choice) on the left, the excluded on the
/// right, each excluded entry annotated `name (ENGINE)` with the
/// engine's original spelling.
pub open spec fn spec_classify(rows: Seq<(Seq<char>, Seq<char>)>) -> (
    Seq<Seq<char>>,
    Seq<Seq<char>>,
)
    decreases rows.len(),
{
    if rows.len() == 0 {
        (Seq::empty(), Seq::empty())
    } else {
        let p = spec_classify(rows.drop_last());
        let row = rows.last();
        if spec_engine_excluded(row.1) {
            (p.0, p.1.push(row.0 + " ("@ + row.1 + ")"@))
        } else {
            (p.0.push(row.0), p.1)
        }
    }
}

/// The service that drives the dump and restore tools.
pub struct MydumperService {
    pub backup_base_dir: String,
    pub log_base_dir: String,
}

impl MydumperService {
    pub fn new(backup_base_dir: String, log_base_dir: String) -> (s: MydumperService)
        ensures
            s.backup_base_dir == backup_base_dir,
            s.log_base_dir == log_base_dir,
    {
        MydumperService { backup_base_dir, log_base_dir }
    }

    /// Splits the catalog's `(table, engine)` rows into the safe and the
    /// excluded sets, as the dump invocation and the progress manifest
    /// need them.
    pub fn analyze_table_engines(&self, rows: &Vec<(String, String)>) -> (r: (
        Vec<String>,
        Vec<String>,
    ))
        ensures
            (r.0.deep_view(), r.1.deep_view()) == spec_classify(rows.deep_view()),
    {
        let ghost dv = rows.deep_view();
        let mut included: Vec<String> = Vec::new();
        let mut excluded: Vec<String> = Vec::new();
        let mut i: usize = 0;
        proof {
            assert(dv.len() == rows@.len());
            assert(dv.take(0) =~= Seq::<(Seq<char>, Seq<char>)>::empty());
            assert(included.deep_view() =~= spec_classify(dv.take(0)).0);
            assert(excluded.deep_view() =~= spec_classify(dv.take(0)).1);
        }
        while i < rows.len()
            invariant
                i <= rows@.len(),
                dv == rows.deep_view(),
                dv.len() == rows@.len(),
                included.deep_view() == spec_classify(dv.take(i as int)).0,
                excluded.deep_view() == spec_classify(dv.take(i as int)).1,
            decreases rows@.len() - i,
        {
            let ghost inc0 = included.deep_view();
            let ghost exc0 = excluded.deep_view();
            proof {
                assert(dv[i as int] == (rows@[i as int].0@, rows@[i as int].1@));
                assert(dv.take(i + 1).drop_last() =~= dv.take(i as int));
                assert(dv.take(i + 1).last() == dv[i as int]);
            }
            let name = rows[i].0.clone();
            let engine = rows[i].1.clone();
            if engine_excluded(engine.as_str()) {
                let entry = name.concat(" (").concat(engine.as_str()).concat(")");
                let ghost ev = entry@;
                excluded.push(entry);
                proof {
                    assert(excluded.deep_view() =~= exc0.push(ev));
                }
            } else {
                let ghost nv = name@;
                included.push(name);
                proof {
                    assert(included.deep_view() =~= inc0.push(nv));
                }
            }
            i = i + 1;
            proof {
                assert(included.deep_view() =~= spec_classify(dv.take(i as int)).0);
                assert(excluded.deep_view() =~= spec_classify(dv.take(i as int)).1);
            }
        }
        proof {
            assert(dv.take(dv.len() as int) =~= dv);
        }
        (included, excluded)
    }

    /// Where a job's log directory lives.
    pub fn job_log_dir(&self, job_id: &str) -> (r: String)
        ensures
            r@ == spec_join(self.log_base_dir@, job_id@),
    {
        join_path(self.log_base_dir.as_str(), job_id)
    }

    /// Where a job's log file would live for a given backup path, named
    /// after the backup's own directory.
    pub fn log_path_for_backup(&self, backup_path: &str) -> (r: String)
        ensures
            r@ == spec_join(
                spec_join(self.log_base_dir@, spec_base_name(backup_path@)),
                "mydumper.log"@,
            ),
    {
        let chars = crate::text::str_to_chars(backup_path);
        let n = chars.len();
        let base: Vec<char> = match crate::text::find_last(&chars, '/') {
            Some(d) => crate::text::sub_vec(&chars, d + 1, n),
            None => crate::text::sub_vec(&chars, 0, n),
        };
        proof {
            match spec_rfind(backup_path@, '/') {
                Some(d) => {
                    assert(base@ =~= backup_path@.skip(d + 1));
                },
                None => {
                    assert(base@ =~= backup_path@);
                },
            }
        }
        let folder = crate::foreign::chars_to_string(&base);
        join_path(join_path(self.log_base_dir.as_str(), folder.as_str()).as_str(), "mydumper.log")
    }
}

/// What stands after the last slash of a path: the file or directory
/// name itself.
pub open spec fn spec_base_name(s: Seq<char>) -> Seq<char> {
    match spec_rfind(s, '/') {
        Some(d) => s.skip(d + 1),
        None => s,
    }
}

/// A stored log pointer that names a log file rather than holding the
/// log text: it mentions the log extension.
pub fn is_log_file_pointer(s: &str) -> (r: bool)
    ensures
        r == (crate::text::spec_find(s@, ".log"@) is Some),
{
    let chars = crate::text::str_to_chars(s);
    let pat = crate::text::str_to_chars(".log");
    crate::text::find_sub(&chars, &pat).is_some()
}

/// A stored log pointer that holds inline text rather than a path: it
/// carries no path separator.
pub fn is_inline_log(s: &str) -> (r: bool)
    ensures
        r == (crate::text::spec_find_char(s@, '/') is None && crate::text::spec_find_char(
            s@,
            '\\',
        ) is None),
{
    let chars = crate::text::str_to_chars(s);
    let mut i: usize = 0;
    proof {
        crate::text::lemma_find_char_first(s@, '/');
        crate::text::lemma_find_char_first(s@, '\\');
    }
    while i < chars.len()
        invariant
            i <= chars@.len(),
            chars@ == s@,
            forall|k: int| 0 <= k < i ==> s@[k] != '/' && s@[k] != '\\',
        decreases chars@.len() - i,
    {
        if chars[i] == '/' || chars[i] == '\\' {
            proof {
                crate::text::lemma_find_char_first(s@, '/');
                crate::text::lemma_find_char_first(s@, '\\');
            }
            return false;
        }
        i = i + 1;
    }
    proof {
        crate::text::lemma_find_char_first(s@, '/');
        crate::text::lemma_find_char_first(s@, '\\');
        match crate::text::spec_find_char(s@, '/') {
            Some(b) => {
                assert(s@[b] != '/');
            },
            None => {},
        }
        match crate::text::spec_find_char(s@, '\\') {
            Some(b) => {
                assert(s@[b] != '\\');
            },
            None => {},
        }
    }
    true
}

/// The engine list handed to the dump tool when non-transactional
/// tables are suppressed.
pub open spec fn spec_ignore_engines() -> Seq<char> {
    "MyISAM,MEMORY,CSV,ARCHIVE,FEDERATED,MERGE,BLACKHOLE"@
}

/// The argument list of a dump invocation: connection, target database,
/// output and log locations, fixed verbosity and thread count, the
/// trigger/event/routine flags, then either the lock-based options or
/// the engine exclusions, then the compression flag.
pub open spec fn spec_mydumper_args(
    c: DatabaseConfig,
    database: Seq<char>,
    outputdir: Seq<char>,
    logfile: Seq<char>,
    use_non_transactional: bool,
    compression: CompressionType,
) -> Seq<Seq<char>> {
    let base = seq![
        "--host"@,
        c.host@,
        "--port"@,
        spec_decimal(c.port as nat),
        "--user"@,
        c.username@,
        "--password"@,
        c.password@,
        "--database"@,
        database,
        "--outputdir"@,
        outputdir,
        "--verbose"@,
        "3"@,
        "--threads"@,
        "4"@,
        "--logfile"@,
        logfile,
        "--triggers"@,
        "--events"@,
        "--routines"@,
    ];
    let locked = if use_non_transactional {
        base + seq!["--trx-tables"@, "0"@, "--no-backup-locks"@]
    } else {
        base + seq!["--ignore-engines"@, spec_ignore_engines()]
    };
    match compression {
        CompressionType::Gzip => locked + seq!["--compress"@],
        CompressionType::Zstd => locked + seq!["--compress-protocol"@],
        CompressionType::NoCompression => locked,
    }
}

/// Builds the dump tool's argument list.
pub fn build_mydumper_args(
    c: &DatabaseConfig,
    database: &str,
    outputdir: &str,
    logfile: &str,
    use_non_transactional: bool,
    compression: &CompressionType,
) -> (r: Vec<String>)
    ensures
        r.deep_view() == spec_mydumper_args(
            *c,
            database@,
            outputdir@,
            logfile@,
            use_non_transactional,
            *compression,
        ),
{
    let mut args: Vec<String> = Vec::new();
    args.push("--host".to_owned());
    args.push(c.host.clone());
    args.push("--port".to_owned());
    args.push(u64_to_string(c.port as u64));
    args.push("--user".to_owned());
    args.push(c.username.clone());
    args.push("--password".to_owned());
    args.push(c.password.clone());
    args.push("--database".to_owned());
    args.push(database.to_owned());
    args.push("--outputdir".to_owned());
    args.push(outputdir.to_owned());
    args.push("--verbose".to_owned());
    args.push("3".to_owned());
    args.push("--threads".to_owned());
    args.push("4".to_owned());
    args.push("--logfile".to_owned());
    args.push(logfile.to_owned());
    args.push("--triggers".to_owned());
    args.push("--events".to_owned());
    args.push("--routines".to_owned());
    if use_non_transactional {
        args.push("--trx-tables".to_owned());
        args.push("0".to_owned());
        args.push("--no-backup-locks".to_owned());
    } else {
        args.push("--ignore-engines".to_owned());
        args.push("MyISAM,MEMORY,CSV,ARCHIVE,FEDERATED,MERGE,BLACKHOLE".to_owned());
    }
    match compression {
        CompressionType::Gzip => {
            args.push("--compress".to_owned());
        },
        CompressionType::Zstd => {
            args.push("--compress-protocol".to_owned());
        },
        CompressionType::NoCompression => {},
    }
    proof {
        assert(args.deep_view() =~~= spec_mydumper_args(
            *c,
            database@,
            outputdir@,
            logfile@,
            use_non_transactional,
            *compression,
        ));
    }
    args
}

/// The argument list of a restore invocation.
pub open spec fn spec_myloader_args(
    c: DatabaseConfig,
    database: Seq<char>,
    directory: Seq<char>,
    overwrite: bool,
) -> Seq<Seq<char>> {
    let base = seq![
        "--host"@,
        c.host@,
        "--port"@,
        spec_decimal(c.port as nat),
        "--user"@,
        c.username@,
        "--password"@,
        c.password@,
        "--database"@,
        database,
        "--directory"@,
        directory,
        "--verbose"@,
        "3"@,
        "--threads"@,
        "4"@,
    ];
    if overwrite {
        base + seq!["--overwrite-tables"@]
    } else {
        base
    }
}

/// Builds the restore tool's argument list.
pub fn build_myloader_args(
    c: &DatabaseConfig,
    database: &str,
    directory: &str,
    overwrite: bool,
) -> (r: Vec<String>)
    ensures
        r.deep_view() == spec_myloader_args(*c, database@, directory@, overwrite),
{
    let mut args: Vec<String> = Vec::new();
    args.push("--host".to_owned());
    args.push(c.host.clone());
    args.push("--port".to_owned());
    args.push(u64_to_string(c.port as u64));
    args.push("--user".to_owned());
    args.push(c.username.clone());
    args.push("--password".to_owned());
    args.push(c.password.clone());
    args.push("--database".to_owned());
    args.push(database.to_owned());
    args.push("--directory".to_owned());
    args.push(directory.to_owned());
    args.push("--verbose".to_owned());
    args.push("3".to_owned());
    args.push("--threads".to_owned());
    args.push("4".to_owned());
    if overwrite {
        args.push("--overwrite-tables".to_owned());
    }
    proof {
        assert(args.deep_view() =~~= spec_myloader_args(*c, database@, directory@, overwrite));
    }
    args
}

/// The argument list of the archive invocation that packs the scratch
/// directory into the named archive.
pub open spec fn spec_tar_create_args(
    output: Seq<char>,
    scratch: Seq<char>,
    compression: CompressionType,
) -> Seq<Seq<char>> {
    let head = match compression {
        CompressionType::Gzip => seq!["-czf"@, output],
        CompressionType::Zstd => seq!["-c"@, "--zstd"@, "-f"@, output],
        CompressionType::NoCompression => seq!["-cf"@, output],
    };
    head + seq!["-C"@, scratch, "--warning=no-file-changed"@, "."@]
}

/// Builds the archive tool's packing argument list.
pub fn build_tar_create_args(output: &str, scratch: &str, compression: &CompressionType) -> (r:
    Vec<String>)
    ensures
        r.deep_view() == spec_tar_create_args(output@, scratch@, *compression),
{
    let mut args: Vec<String> = Vec::new();
    match compression {
        CompressionType::Gzip => {
            args.push("-czf".to_owned());
            args.push(output.to_owned());
        },
        CompressionType::Zstd => {
            args.push("-c".to_owned());
            args.push("--zstd".to_owned());
            args.push("-f".to_owned());
            args.push(output.to_owned());
        },
        CompressionType::NoCompression => {
            args.push("-cf".to_owned());
            args.push(output.to_owned());
        },
    }
    args.push("-C".to_owned());
    args.push(scratch.to_owned());
    args.push("--warning=no-file-changed".to_owned());
    args.push(".".to_owned());
    proof {
        assert(args.deep_view() =~~= spec_tar_create_args(output@, scratch@, *compression));
    }
    args
}

/// The argument list of the archive invocation that unpacks an archive
/// for restore; nothing for an unsupported extension.
pub open spec fn spec_tar_extract_args(archive: Seq<char>, dest: Seq<char>) -> Option<
    Seq<Seq<char>>,
> {
    if crate::text::spec_ends_with(archive, ".tar.gz"@) {
        Some(seq!["-xzf"@, archive, "-C"@, dest])
    } else if crate::text::spec_ends_with(archive, ".tar.zst"@) {
        Some(seq!["--zstd"@, "-xf"@, archive, "-C"@, dest])
    } else {
        None
    }
}

/// Builds the archive tool's extraction argument list.
pub fn build_tar_extract_args(archive: &str, dest: &str) -> (r: Option<Vec<String>>)
    ensures
        match (r, spec_tar_extract_args(archive@, dest@)) {
            (Some(a), Some(b)) => a.deep_view() == b,
            (None, None) => true,
            _ => false,
        },
{
    let chars = crate::text::str_to_chars(archive);
    let gz = crate::text::str_to_chars(".tar.gz");
    let zst = crate::text::str_to_chars(".tar.zst");
    if crate::text::chars_end_with(&chars, &gz) {
        let mut args: Vec<String> = Vec::new();
        args.push("-xzf".to_owned());
        args.push(archive.to_owned());
        args.push("-C".to_owned());
        args.push(dest.to_owned());
        proof {
            assert(args.deep_view() =~~= spec_tar_extract_args(archive@, dest@).unwrap());
        }
        Some(args)
    } else if crate::text::chars_end_with(&chars, &zst) {
        let mut args: Vec<String> = Vec::new();
        args.push("--zstd".to_owned());
        args.push("-xf".to_owned());
        args.push(archive.to_owned());
        args.push("-C".to_owned());
        args.push(dest.to_owned());
        proof {
            assert(args.deep_view() =~~= spec_tar_extract_args(archive@, dest@).unwrap());
        }
        Some(args)
    } else {
        None
    }
}

} // verus!
