//! Persistence decisions: schema versions, migrations, and what to do when a
//! configuration file will not load.
//!
//! Settings and programs live in separate files so that a corrupt settings
//! file can never cost the user the program list. Each file carries a schema
//! version; a file written by a newer version is loaded as nothing and never
//! overwritten, and a file that will not parse is moved aside (never deleted)
//! and the backup of the last save is tried in its place.
use crate::error::EfError;
use crate::fs_guard::with_suffix;
use crate::paths::AppPaths;
use crate::fs_guard::FsGuard;
use crate::project::Program;
use crate::textops::{chars_of, owned, push_str, string_from_chars};
use vstd::prelude::*;

verus! {

pub const PROGRAMS_SCHEMA: u32 = 2;

pub const SETTINGS_SCHEMA: u32 = 1;

/// The program list as stored.
#[derive(Debug, Clone)]
pub struct ProgramsFile {
    pub schema_version: u32,
    pub programs: Vec<Program>,
}

impl Default for ProgramsFile {
    fn default() -> (f: ProgramsFile)
        ensures
            f.schema_version == PROGRAMS_SCHEMA,
            f.programs@.len() == 0,
    {
        ProgramsFile { schema_version: PROGRAMS_SCHEMA, programs: Vec::new() }
    }
}

/// What happened while loading, so the interface can say so plainly rather
/// than silently starting empty.
#[derive(Debug, Clone, PartialEq, Eq)]
pub enum LoadNote {
    /// No file yet: first run.
    Fresh,
    Loaded,
    /// The file would not parse; it was moved aside and the backup was used.
    RecoveredFromBackup { corrupt_saved_to: String },
    /// The file would not parse and there was no usable backup.
    StartedEmpty { corrupt_saved_to: String },
    /// Written by a newer version: nothing loaded, and it must not be overwritten.
    TooNew { found: u32 },
}

/// The schema a file declares: its `schema_version` integer, read as `u32`
/// the way `as` reads it, or the current schema when it declares none.
pub fn schema_found(declared: Option<i64>, current: u32) -> (r: u32)
    ensures
        r == (match declared {
            Some(v) => v as u32,
            None => current,
        }),
{
    match declared {
        Some(v) => {
            #[verifier::truncate]
            let r = v as u32;
            r
        },
        None => current,
    }
}

/// A file from a newer schema is refused before its contents are read.
pub fn check_schema(path: &str, found: u32, supported: u32) -> (r: Result<(), EfError>)
    ensures
        found > supported ==> (r matches Err(EfError::ConfigTooNew { path: p, found: f, supported: s })
            && p@ == path@ && f == found && s == supported),
        found <= supported ==> r is Ok,
{
    if found > supported {
        Err(EfError::ConfigTooNew { path: owned(path), found, supported })
    } else {
        Ok(())
    }
}

/// One program after the 1 -> 2 migration: a schema 1 file's
/// `keep_window_open = false` recorded the old default, not a choice.
pub open spec fn migrated(p: Program, from: u32) -> Program {
    if from < 2 {
        Program { options: crate::project::BuildOptions { keep_window_open: true, ..p.options }, ..p }
    } else {
        p
    }
}

/// Bring a program list read at schema `from` up to the current schema. From
/// schema 2 on, a stored value is a choice, and choices are kept.
pub fn migrate_programs(f: ProgramsFile, from: u32) -> (r: ProgramsFile)
    ensures
        r.schema_version == PROGRAMS_SCHEMA,
        r.programs@.len() == f.programs@.len(),
        forall|i: int| 0 <= i < f.programs@.len() ==> #[trigger] r.programs@[i] == migrated(f.programs@[i], from),
        from >= 2 ==> r.programs@ == f.programs@,
{
    let mut src = f.programs;
    let ghost orig = src@;
    let mut out: Vec<Program> = Vec::new();
    while src.len() > 0
        invariant
            out@.len() + src@.len() == orig.len(),
            src@ == orig.skip(out@.len() as int),
            forall|i: int| 0 <= i < out@.len() ==> #[trigger] out@[i] == migrated(orig[i], from),
        decreases src@.len(),
    {
        let ghost k = out@.len() as int;
        let mut p = src.remove(0);
        assert(p == orig[k]);
        if from < 2 {
            p.options.keep_window_open = true;
        }
        out.push(p);
        assert(src@ =~= orig.skip(out@.len() as int));
    }
    proof {
        if from >= 2 {
            assert(out@ =~= orig);
        }
    }
    ProgramsFile { schema_version: PROGRAMS_SCHEMA, programs: out }
}

/// What to do after reading the live file: finish, or move it aside and try
/// the backup.
#[derive(Debug)]
pub enum FirstRead<T> {
    Done(Option<T>, LoadNote),
    MoveAsideAndTryBackup,
}

/// Decide on the live file: none yet, parsed, from a newer version, or
/// unreadable.
pub fn after_reading<T>(read: Option<Result<T, EfError>>) -> (r: FirstRead<T>)
    ensures
        match read {
            None => r matches FirstRead::Done(None, LoadNote::Fresh),
            Some(Ok(v)) => r matches FirstRead::Done(Some(x), LoadNote::Loaded) && x == v,
            Some(Err(EfError::ConfigTooNew { found, .. })) => r matches FirstRead::Done(None, LoadNote::TooNew { found: f }) && f == found,
            Some(Err(_)) => r matches FirstRead::MoveAsideAndTryBackup,
        },
{
    match read {
        None => FirstRead::Done(None, LoadNote::Fresh),
        Some(Ok(v)) => FirstRead::Done(Some(v), LoadNote::Loaded),
        Some(Err(EfError::ConfigTooNew { found, .. })) => FirstRead::Done(None, LoadNote::TooNew { found }),
        Some(Err(_)) => FirstRead::MoveAsideAndTryBackup,
    }
}

/// Decide after the unreadable file was moved to `stamped` and the backup
/// read: the backup if it parses, otherwise nothing, and either way say where
/// the unreadable file went.
pub fn after_backup<T>(stamped: String, backup: Option<Result<T, EfError>>) -> (r: (Option<T>, LoadNote))
    ensures
        match backup {
            Some(Ok(v)) => r.0 == Some(v) && (r.1 matches LoadNote::RecoveredFromBackup { corrupt_saved_to } && corrupt_saved_to@ == stamped@),
            _ => r.0 is None && (r.1 matches LoadNote::StartedEmpty { corrupt_saved_to } && corrupt_saved_to@ == stamped@),
        },
{
    match backup {
        Some(Ok(v)) => (Some(v), LoadNote::RecoveredFromBackup { corrupt_saved_to: stamped }),
        _ => (None, LoadNote::StartedEmpty { corrupt_saved_to: stamped }),
    }
}

/// A timestamp with its `:` and `-` taken out, so it can go in a file name.
pub open spec fn strip_seps(s: Seq<char>) -> Seq<char>
    decreases s.len(),
{
    if s.len() == 0 {
        Seq::empty()
    } else {
        strip_seps(s.drop_last()) + if s.last() == ':' || s.last() == '-' {
            Seq::empty()
        } else {
            seq![s.last()]
        }
    }
}

/// Where an unreadable file is moved: `<path>.<what>-<stamp>`, the stamp made
/// from the time `now` (RFC 3339) with its separators removed.
pub fn with_stamp(path: &str, what: &str, now: &str) -> (r: String)
    ensures
        r@ == path@ + "."@ + what@ + "-"@ + strip_seps(now@),
{
    let nc = chars_of(now);
    let mut stamp: Vec<char> = Vec::new();
    for i in 0..nc.len()
        invariant
            stamp@ == strip_seps(nc@.take(i as int)),
    {
        assert(nc@.take(i + 1).drop_last() =~= nc@.take(i as int));
        let c = nc[i];
        if c != ':' && c != '-' {
            stamp.push(c);
        }
        assert(stamp@ =~= strip_seps(nc@.take(i + 1)));
    }
    assert(nc@.take(nc@.len() as int) =~= nc@);
    let mut suffix: Vec<char> = Vec::new();
    push_str(&mut suffix, ".");
    push_str(&mut suffix, what);
    push_str(&mut suffix, "-");
    crate::textops::push_chars(&mut suffix, stamp.as_slice());
    let s = string_from_chars(suffix.as_slice());
    let r = with_suffix(path, s.as_str());
    assert(r@ =~= path@ + "."@ + what@ + "-"@ + strip_seps(now@));
    r
}

/// Where the files are, what may be written, and whether a newer version's
/// file was found and must be left alone.
pub struct Store {
    paths: AppPaths,
    guard: FsGuard,
    programs_readonly: bool,
    settings_readonly: bool,
}

impl Store {
    pub closed spec fn spec_programs_readonly(&self) -> bool {
        self.programs_readonly
    }

    pub closed spec fn spec_settings_readonly(&self) -> bool {
        self.settings_readonly
    }

    pub closed spec fn spec_paths(&self) -> AppPaths {
        self.paths
    }

    pub closed spec fn spec_guard(&self) -> FsGuard {
        self.guard
    }

    pub fn new(paths: AppPaths, guard: FsGuard) -> (s: Store)
        ensures
            !s.spec_programs_readonly(),
            !s.spec_settings_readonly(),
            s.spec_paths() == paths,
            s.spec_guard() == guard,
    {
        Store { paths, guard, programs_readonly: false, settings_readonly: false }
    }

    pub fn paths(&self) -> (p: &AppPaths)
        ensures
            *p == self.spec_paths(),
    {
        &self.paths
    }

    pub fn guard(&self) -> (g: &FsGuard)
        ensures
            *g == self.spec_guard(),
    {
        &self.guard
    }

    pub fn programs_readonly(&self) -> (r: bool)
        ensures
            r == self.spec_programs_readonly(),
    {
        self.programs_readonly
    }

    pub fn settings_readonly(&self) -> (r: bool)
        ensures
            r == self.spec_settings_readonly(),
    {
        self.settings_readonly
    }

    /// After the program list was loaded: a newer version's file makes the
    /// list read-only for this session.
    pub fn programs_loaded(&mut self, note: &LoadNote)
        ensures
            final(self).spec_programs_readonly() == (*note is TooNew),
            final(self).spec_settings_readonly() == old(self).spec_settings_readonly(),
            final(self).spec_paths() == old(self).spec_paths(),
            final(self).spec_guard() == old(self).spec_guard(),
    {
        self.programs_readonly = match note {
            LoadNote::TooNew { .. } => true,
            _ => false,
        };
    }

    /// After the settings were loaded: likewise for the settings file.
    pub fn settings_loaded(&mut self, note: &LoadNote)
        ensures
            final(self).spec_settings_readonly() == (*note is TooNew),
            final(self).spec_programs_readonly() == old(self).spec_programs_readonly(),
            final(self).spec_paths() == old(self).spec_paths(),
            final(self).spec_guard() == old(self).spec_guard(),
    {
        self.settings_readonly = match note {
            LoadNote::TooNew { .. } => true,
            _ => false,
        };
    }

    /// Loading the program list, once the live file was read: `read` is
    /// `None` when there is no file yet, else what parsing it gave. `None`
    /// back means the file would not parse: it is to be moved aside and the
    /// backup tried, with `programs_from_backup`. A file from a newer version
    /// loads nothing and makes the list read-only, so it is never overwritten.
    pub fn programs_from_file(&mut self, read: Option<Result<ProgramsFile, EfError>>) -> (r: Option<
        (Vec<Program>, LoadNote),
    >)
        ensures
            final(self).spec_paths() == old(self).spec_paths(),
            final(self).spec_guard() == old(self).spec_guard(),
            final(self).spec_settings_readonly() == old(self).spec_settings_readonly(),
            match read {
                None => r matches Some((ps, LoadNote::Fresh)) && ps@.len() == 0,
                Some(Ok(f)) => r matches Some((ps, LoadNote::Loaded)) && ps@ == f.programs@,
                Some(Err(EfError::ConfigTooNew { found, .. })) => r matches Some(
                    (ps, LoadNote::TooNew { found: n }),
                ) && n == found && ps@.len() == 0,
                Some(Err(_)) => r is None && final(self).spec_programs_readonly() == old(
                    self,
                ).spec_programs_readonly(),
            },
            r matches Some((_, note)) ==> final(self).spec_programs_readonly() == (note is TooNew),
    {
        match after_reading(read) {
            FirstRead::Done(v, note) => {
                let ps = match v {
                    Some(f) => f.programs,
                    None => Vec::new(),
                };
                self.programs_loaded(&note);
                Some((ps, note))
            },
            FirstRead::MoveAsideAndTryBackup => None,
        }
    }

    /// Loading the program list when the live file would not parse: it was
    /// moved to `stamped`, and `backup` is what reading the backup gave. The
    /// list is writable again either way.
    pub fn programs_from_backup(&mut self, stamped: String, backup: Option<Result<ProgramsFile, EfError>>) -> (r: (
        Vec<Program>,
        LoadNote,
    ))
        ensures
            final(self).spec_paths() == old(self).spec_paths(),
            final(self).spec_guard() == old(self).spec_guard(),
            final(self).spec_settings_readonly() == old(self).spec_settings_readonly(),
            !final(self).spec_programs_readonly(),
            match backup {
                Some(Ok(f)) => r.0@ == f.programs@ && (r.1 matches LoadNote::RecoveredFromBackup {
                    corrupt_saved_to,
                } && corrupt_saved_to@ == stamped@),
                _ => r.0@.len() == 0 && (r.1 matches LoadNote::StartedEmpty { corrupt_saved_to }
                    && corrupt_saved_to@ == stamped@),
            },
    {
        let (v, note) = after_backup(stamped, backup);
        let ps = match v {
            Some(f) => f.programs,
            None => Vec::new(),
        };
        self.programs_loaded(&note);
        (ps, note)
    }

    /// Whether saving the program list may write at all.
    pub fn may_save_programs(&self) -> (r: bool)
        ensures
            r == !self.spec_programs_readonly(),
    {
        !self.programs_readonly
    }

    /// Whether saving the settings may write at all.
    pub fn may_save_settings(&self) -> (r: bool)
        ensures
            r == !self.spec_settings_readonly(),
    {
        !self.settings_readonly
    }
}

} // verus!
