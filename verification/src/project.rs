//! The user's data model: a "program" is a named, ordered group of source files.
//!
//! Order is significant: it is both compile order and link order, which matches
//! the object-file-then-link model of the DOS-era tool this replaces.
//!
//! Paths arrive here already made absolute by the caller; everything from
//! there on (the name rules, the lists, their order) is decided here.
use crate::error::EfError;
use crate::pathops::{file_name, file_name_of, parent, parent_of};
use crate::text::{display_file_name, display_path, nfc, nfc_form};
use crate::textops::{
    chars_eq, chars_of, is_control, is_control_char, owned, push_chars, push_str, slice_range,
    string_from_chars, str_eq_ignore_ascii_case, eq_ignore_ascii_case, trim, trim_bounds,
    trim_char, trim_char_bounds, views, contains_string,
};
use vstd::prelude::*;

verus! {

/// How permissive the compiler should be about pre-standard code.
#[derive(Debug, Clone, Copy, PartialEq, Eq, Structural)]
pub enum Dialect {
    /// `-std=legacy`: accepts everything gfortran knows. The right default for 1980s code.
    Legacy,
    /// `-std=f95`: warn about extensions.
    Standard,
}

impl Default for Dialect {
    fn default() -> (d: Dialect)
        ensures
            d == Dialect::Legacy,
    {
        Dialect::Legacy
    }
}

/// Fixed-form source lines are significant only up to a column.
#[derive(Debug, Clone, Copy, PartialEq, Eq, Structural)]
pub enum LineLength {
    /// The standard, and the default: card-image code keeps sequence numbers in
    /// columns 73-80.
    Col72,
    /// Extended source, as offered by Lahey/Watcom/MS Fortran.
    Col132,
    /// The whole line is significant. Only safe when there are no sequence numbers.
    NoLimit,
}

impl Default for LineLength {
    fn default() -> (l: LineLength)
        ensures
            l == LineLength::Col72,
    {
        LineLength::Col72
    }
}

pub open spec fn line_length_flag(l: LineLength) -> Seq<char> {
    match l {
        LineLength::Col72 => "-ffixed-line-length-72"@,
        LineLength::Col132 => "-ffixed-line-length-132"@,
        LineLength::NoLimit => "-ffixed-line-length-none"@,
    }
}

impl LineLength {
    pub fn flag(self) -> (s: &'static str)
        ensures
            s@ == line_length_flag(self),
    {
        match self {
            LineLength::Col72 => "-ffixed-line-length-72",
            LineLength::Col132 => "-ffixed-line-length-132",
            LineLength::NoLimit => "-ffixed-line-length-none",
        }
    }
}

#[derive(Debug, Clone, Copy, PartialEq, Eq, Structural)]
pub enum OptLevel {
    O0,
    O1,
    O2,
}

impl Default for OptLevel {
    fn default() -> (o: OptLevel)
        ensures
            o == OptLevel::O1,
    {
        OptLevel::O1
    }
}

pub open spec fn opt_level_flag(o: OptLevel) -> Seq<char> {
    match o {
        OptLevel::O0 => "-O0"@,
        OptLevel::O1 => "-O1"@,
        OptLevel::O2 => "-O2"@,
    }
}

impl OptLevel {
    pub fn flag(self) -> (s: &'static str)
        ensures
            s@ == opt_level_flag(self),
    {
        match self {
            OptLevel::O0 => "-O0",
            OptLevel::O1 => "-O1",
            OptLevel::O2 => "-O2",
        }
    }
}

/// Whether to run the C preprocessor. Almost always `Never`.
#[derive(Debug, Clone, Copy, PartialEq, Eq, Structural)]
pub enum Preprocess {
    Never,
    Always,
}

impl Default for Preprocess {
    fn default() -> (p: Preprocess)
        ensures
            p == Preprocess::Never,
    {
        Preprocess::Never
    }
}

#[derive(Debug, Clone, PartialEq, Eq)]
pub struct BuildOptions {
    pub dialect: Dialect,
    pub line_length: LineLength,
    /// `-fdec`: the VAX/DEC extensions MS Fortran, Lahey, Watcom and DVF inherited.
    pub dec_extensions: bool,
    /// `-fno-automatic -finit-local-zero`: DOS-era static, zero-initialised storage.
    pub static_storage: bool,
    /// `-fd-lines-as-code`: treat `D` in column 1 as code rather than a comment.
    pub d_lines_as_code: bool,
    /// Promote REAL from four bytes to eight, leaving DOUBLE PRECISION at eight.
    pub default_real8: bool,
    /// Large local arrays overflow the 1 MB Windows stack.
    pub big_stack: bool,
    /// `-fcheck=bounds`: stop when an array index is outside the array.
    pub check_bounds: bool,
    /// Link a small shim that waits before a double-clicked console window closes.
    pub keep_window_open: bool,
    /// `-s`: drop the symbol table from the linked program.
    pub strip_symbols: bool,
    pub opt_level: OptLevel,
    pub preprocess: Preprocess,
    pub extra_flags: Vec<String>,
}

/// The defaults: permissive for legacy code, bounds checked, nothing stripped.
pub open spec fn is_default_options(o: BuildOptions) -> bool {
    &&& o.dialect == Dialect::Legacy
    &&& o.line_length == LineLength::Col72
    &&& o.dec_extensions
    &&& o.static_storage
    &&& !o.d_lines_as_code
    &&& !o.default_real8
    &&& !o.big_stack
    &&& o.check_bounds
    &&& !o.strip_symbols
    &&& o.keep_window_open
    &&& o.opt_level == OptLevel::O1
    &&& o.preprocess == Preprocess::Never
    &&& o.extra_flags@.len() == 0
}

impl Default for BuildOptions {
    fn default() -> (o: BuildOptions)
        ensures
            is_default_options(o),
    {
        BuildOptions {
            dialect: Dialect::Legacy,
            line_length: LineLength::Col72,
            dec_extensions: true,
            static_storage: true,
            d_lines_as_code: false,
            default_real8: false,
            big_stack: false,
            check_bounds: true,
            strip_symbols: false,
            keep_window_open: true,
            opt_level: OptLevel::O1,
            preprocess: Preprocess::Never,
            extra_flags: Vec::new(),
        }
    }
}

impl BuildOptions {
    /// Should this build carry the shim that waits before the window closes?
    /// Gated on the toolchain's suffix rather than the host, so a Windows
    /// program cross-built elsewhere still gets it.
    pub fn wants_pause_shim(&self, exe_suffix: &str) -> (r: bool)
        ensures
            r == (self.keep_window_open && eq_ignore_ascii_case(exe_suffix@, ".exe"@)),
    {
        self.keep_window_open && str_eq_ignore_ascii_case(exe_suffix, ".exe")
    }
}

/// One of the user's files in one of the program's lists.
///
/// A source is copied, renamed and compiled; a library only ever appended to
/// the link line. The two stay separate types, and this trait lets the list
/// mechanics be written once.
pub trait FileEntry: Sized {
    spec fn entry_path(&self) -> Seq<char>;

    fn path(&self) -> (p: &str)
        ensures
            p@ == self.entry_path(),
    ;

    fn from_path(path: String) -> (e: Self)
        ensures
            e.entry_path() == path@,
    ;
}

pub open spec fn entry_paths<T: FileEntry>(list: Seq<T>) -> Seq<Seq<char>> {
    list.map_values(|e: T| e.entry_path())
}

/// What is wrong with a path as a user file, if anything: a name a compiler
/// would read as an option, or a character that cannot travel in argv.
pub open spec fn path_problem(p: Seq<char>) -> Option<Seq<char>> {
    let name = match file_name(p) {
        Some(n) => n,
        None => Seq::empty(),
    };
    if name.len() == 0 {
        Some("the path has no file name"@)
    } else if name[0] == '-' {
        Some("`"@ + name + "` starts with a dash, which a compiler reads as an option"@)
    } else if p.contains('\0') || p.contains('\n') || p.contains('\r') {
        Some("the path contains a control character"@)
    } else {
        None
    }
}

pub open spec fn refused_for(r: Result<(), EfError>, reason: Seq<char>) -> bool {
    r matches Err(EfError::UnsafeSourceName { reason: got }) && got@ == reason
}

/// gcc has no `--` end-of-options separator, so a file called `-lkernel32.f`
/// would be parsed as a linker flag. Such names are refused when they are
/// added rather than escaped later.
pub fn validate_user_path(path: &str) -> (r: Result<(), EfError>)
    ensures
        match path_problem(path@) {
            None => r is Ok,
            Some(reason) => refused_for(r, reason),
        },
{
    let name = match file_name_of(path) {
        Some(n) => n,
        None => String::new(),
    };
    let nc = chars_of(name.as_str());
    if nc.len() == 0 {
        return Err(EfError::UnsafeSourceName { reason: owned("the path has no file name") });
    }
    if nc[0] == '-' {
        let mut v: Vec<char> = Vec::new();
        push_str(&mut v, "`");
        push_chars(&mut v, nc.as_slice());
        push_str(&mut v, "` starts with a dash, which a compiler reads as an option");
        return Err(EfError::UnsafeSourceName { reason: string_from_chars(v.as_slice()) });
    }
    let pc = chars_of(path);
    assert(file_name(path@) == Some(nc@));
    for i in 0..pc.len()
        invariant
            pc@ == path@,
            file_name(path@) == Some(nc@),
            nc@.len() > 0,
            nc@[0] != '-',
            forall|j: int| 0 <= j < i ==> pc@[j] != '\0' && pc@[j] != '\n' && pc@[j] != '\r',
    {
        if pc[i] == '\0' || pc[i] == '\n' || pc[i] == '\r' {
            proof {
                let c = path@[i as int];
                if c == '\0' {
                    assert(path@.contains('\0'));
                } else if c == '\n' {
                    assert(path@.contains('\n'));
                } else {
                    assert(path@.contains('\r'));
                }
                assert(file_name(path@) is Some);
                assert(path_problem(path@) == Some("the path contains a control character"@));
            }
            return Err(
                EfError::UnsafeSourceName { reason: owned("the path contains a control character") },
            );
        }
    }
    Ok(())
}

fn find_entry<T: FileEntry>(list: &Vec<T>, path: &str) -> (r: bool)
    ensures
        r == entry_paths(list@).contains(path@),
{
    let pc = chars_of(path);
    for i in 0..list.len()
        invariant
            pc@ == path@,
            forall|j: int| 0 <= j < i ==> #[trigger] list@[j].entry_path() != path@,
    {
        let ec = chars_of(list[i].path());
        if chars_eq(ec.as_slice(), pc.as_slice()) {
            assert(entry_paths(list@)[i as int] == path@);
            return true;
        }
    }
    proof {
        if entry_paths(list@).contains(path@) {
            let k = choose|k: int| 0 <= k < entry_paths(list@).len() && entry_paths(list@)[k] == path@;
            assert(list@[k].entry_path() == path@);
        }
    }
    false
}

/// Add a file to a list, refusing a name a compiler would read as an option and
/// ignoring an exact duplicate. `Ok(true)` when the list grew.
fn add_file<T: FileEntry>(list: &mut Vec<T>, path: &str) -> (r: Result<bool, EfError>)
    ensures
        match path_problem(path@) {
            Some(reason) => r matches Err(EfError::UnsafeSourceName { reason: got }) && got@
                == reason && final(list)@ == old(list)@,
            None => if entry_paths(old(list)@).contains(path@) {
                r == Ok::<bool, EfError>(false) && final(list)@ == old(list)@
            } else {
                r == Ok::<bool, EfError>(true) && entry_paths(final(list)@) == entry_paths(
                    old(list)@,
                ).push(path@) && final(list)@.take(old(list)@.len() as int) == old(list)@
            },
        },
{
    match validate_user_path(path) {
        Err(e) => return Err(e),
        Ok(()) => {},
    }
    if find_entry(list, path) {
        return Ok(false);
    }
    let e = T::from_path(owned(path));
    list.push(e);
    assert(entry_paths(list@) =~= entry_paths(old(list)@).push(path@));
    assert(list@.take(old(list)@.len() as int) =~= old(list)@);
    Ok(true)
}

/// Point an existing entry at a file the user has found again, validated
/// exactly as adding one is. `Ok(false)` when there is no such entry.
fn relocate_file<T: FileEntry>(list: &mut Vec<T>, index: usize, path: &str) -> (r: Result<
    bool,
    EfError,
>)
    ensures
        match path_problem(path@) {
            Some(reason) => r matches Err(EfError::UnsafeSourceName { reason: got }) && got@
                == reason && final(list)@ == old(list)@,
            None => if index < old(list)@.len() {
                r == Ok::<bool, EfError>(true) && final(list)@.len() == old(list)@.len() && final(list)@[index as int].entry_path() == path@ && forall|j: int|
                    0 <= j < old(list)@.len() && j != index ==> #[trigger] final(list)@[j] == old(list)@[j]
            } else {
                r == Ok::<bool, EfError>(false) && final(list)@ == old(list)@
            },
        },
{
    match validate_user_path(path) {
        Err(e) => return Err(e),
        Ok(()) => {},
    }
    if index < list.len() {
        list[index] = T::from_path(owned(path));
        Ok(true)
    } else {
        Ok(false)
    }
}

fn remove_file<T>(list: &mut Vec<T>, index: usize) -> (r: bool)
    ensures
        r == (index < old(list)@.len()),
        r ==> final(list)@ == old(list)@.remove(index as int),
        !r ==> final(list)@ == old(list)@,
{
    if index < list.len() {
        list.remove(index);
        return true;
    }
    false
}

/// Where `index` moves by `delta`, if both ends are in the list.
pub open spec fn move_target(len: nat, index: int, delta: int) -> Option<int> {
    if 0 <= index < len && 0 <= index + delta < len {
        Some(index + delta)
    } else {
        None
    }
}

/// The list with two entries exchanged.
pub open spec fn swapped<T>(s: Seq<T>, i: int, j: int) -> Seq<T> {
    s.update(i, s[j]).update(j, s[i])
}

/// Moving a file and then moving it back by the same distance restores the
/// list exactly.
pub proof fn law_moving_back_undoes_a_move<T>(s: Seq<T>, i: int, d: int)
    requires
        move_target(s.len(), i, d) is Some,
    ensures
        ({
            let t = move_target(s.len(), i, d)->0;
            &&& move_target(s.len(), t, -d) == Some(i)
            &&& swapped(swapped(s, i, t), t, i) == s
        }),
{
    let t = move_target(s.len(), i, d)->0;
    assert(swapped(swapped(s, i, t), t, i) =~= s);
}

fn move_file<T>(list: &mut Vec<T>, index: usize, delta: isize) -> (r: bool)
    ensures
        match move_target(old(list)@.len(), index as int, delta as int) {
            Some(t) => r && final(list)@ == swapped(old(list)@, index as int, t),
            None => !r && final(list)@ == old(list)@,
        },
{
    let target: i128 = index as i128 + delta as i128;
    if index < list.len() && target >= 0 && target < list.len() as i128 {
        let t = target as usize;
        if t != index {
            let (lo, hi) = if t < index {
                (t, index)
            } else {
                (index, t)
            };
            let ghost s = list@;
            let b = list.remove(hi);
            let a = list.remove(lo);
            list.insert(lo, b);
            list.insert(hi, a);
            assert(list@ =~= swapped(s, index as int, t as int));
        } else {
            assert(list@ =~= swapped(list@, index as int, t as int));
        }
        return true;
    }
    false
}

/// One of the user's source files. Only the path is stored; existence and
/// readability are re-checked before every build and never persisted.
#[derive(Debug, Clone, PartialEq, Eq)]
pub struct SourceRef {
    pub path: String,
}

impl FileEntry for SourceRef {
    open spec fn entry_path(&self) -> Seq<char> {
        self.path@
    }

    fn path(&self) -> (p: &str) {
        self.path.as_str()
    }

    fn from_path(path: String) -> (e: Self) {
        SourceRef { path }
    }
}

impl SourceRef {
    pub fn new(path: &str) -> (s: SourceRef)
        ensures
            s.path@ == path@,
    {
        SourceRef { path: owned(path) }
    }

    pub fn display_name(&self) -> (s: String)
        ensures
            file_name(self.path@) is Some ==> s@ == nfc_form(file_name(self.path@).unwrap()),
    {
        display_file_name(self.path.as_str())
    }

    pub fn display_path(&self) -> (s: String)
        ensures
            s@ == nfc_form(self.path@) || (self.path@.len() >= 4 && s@ == nfc_form(
                self.path@.skip(4),
            )),
    {
        display_path(self.path.as_str())
    }
}

/// One of the user's pre-compiled library files.
#[derive(Debug, Clone, PartialEq, Eq)]
pub struct LibraryRef {
    pub path: String,
}

impl FileEntry for LibraryRef {
    open spec fn entry_path(&self) -> Seq<char> {
        self.path@
    }

    fn path(&self) -> (p: &str) {
        self.path.as_str()
    }

    fn from_path(path: String) -> (e: Self) {
        LibraryRef { path }
    }
}

impl LibraryRef {
    pub fn new(path: &str) -> (s: LibraryRef)
        ensures
            s.path@ == path@,
    {
        LibraryRef { path: owned(path) }
    }

    pub fn display_name(&self) -> (s: String)
        ensures
            file_name(self.path@) is Some ==> s@ == nfc_form(file_name(self.path@).unwrap()),
    {
        display_file_name(self.path.as_str())
    }

    pub fn display_path(&self) -> (s: String)
        ensures
            s@ == nfc_form(self.path@) || (self.path@.len() >= 4 && s@ == nfc_form(
                self.path@.skip(4),
            )),
    {
        display_path(self.path.as_str())
    }
}

/// Transient, never serialized: the configuration is not a source of truth
/// about what exists on disk.
#[derive(Debug, Clone, PartialEq, Eq)]
pub enum FileStatus {
    Present { len: u64 },
    Missing,
    Unreadable(String),
}

impl FileStatus {
    pub fn is_usable(&self) -> (r: bool)
        ensures
            r == (*self is Present),
    {
        match self {
            FileStatus::Present { .. } => true,
            _ => false,
        }
    }
}

pub open spec fn is_lower_hex(c: char) -> bool {
    ('0' <= c && c <= '9') || ('a' <= c && c <= 'f')
}

/// `uuid::Uuid::new_v4().simple().to_string()`: a random identifier, which the
/// crate writes as thirty-two lowercase hexadecimal digits.
#[verifier::external_body]
pub(crate) fn new_id() -> (s: String)
    ensures
        s@.len() == 32,
        forall|i: int| 0 <= i < 32 ==> is_lower_hex(#[trigger] s@[i]),
{
    uuid::Uuid::new_v4().simple().to_string()
}

pub open spec fn is_digit_at(s: Seq<char>, i: int) -> bool {
    '0' <= s[i] && s[i] <= '9'
}

/// A UTC timestamp as RFC 3339 writes it: `YYYY-MM-DDTHH:MM:SS`, then, when
/// the second has a fraction, a point and one to nine digits, then `Z`.
pub open spec fn is_rfc3339_utc(s: Seq<char>) -> bool {
    &&& (s.len() == 20 || (22 <= s.len() <= 30 && s[19] == '.'))
    &&& is_digit_at(s, 0) && is_digit_at(s, 1) && is_digit_at(s, 2) && is_digit_at(s, 3)
    &&& s[4] == '-' && is_digit_at(s, 5) && is_digit_at(s, 6)
    &&& s[7] == '-' && is_digit_at(s, 8) && is_digit_at(s, 9)
    &&& s[10] == 'T' && is_digit_at(s, 11) && is_digit_at(s, 12)
    &&& s[13] == ':' && is_digit_at(s, 14) && is_digit_at(s, 15)
    &&& s[16] == ':' && is_digit_at(s, 17) && is_digit_at(s, 18)
    &&& forall|i: int| 20 <= i < s.len() - 1 ==> #[trigger] is_digit_at(s, i)
    &&& s[s.len() - 1] == 'Z'
}

/// `OffsetDateTime::now_utc()` formatted as RFC 3339 by the `time` crate;
/// `None` when formatting fails (a year outside 0 to 9999). The clock is read,
/// so which instant is not said; the crate writes a UTC time as four-digit
/// year, month, day, `T`, hours, minutes, seconds, a fraction of one to nine
/// digits only when the nanoseconds are not zero, and `Z`.
#[verifier::external_body]
fn utc_now_rfc3339() -> (r: Option<String>)
    ensures
        match r {
            Some(s) => is_rfc3339_utc(s@),
            None => true,
        },
{
    time::OffsetDateTime::now_utc().format(&time::format_description::well_known::Rfc3339).ok()
}

/// The current time, for the created and modified stamps, as an RFC 3339 UTC
/// timestamp; the epoch when the clock cannot be formatted.
pub fn now_rfc3339() -> (s: String)
    ensures
        is_rfc3339_utc(s@),
{
    match utc_now_rfc3339() {
        Some(s) => s,
        None => {
            proof {
                reveal_strlit("1970-01-01T00:00:00Z");
            }
            owned("1970-01-01T00:00:00Z")
        },
    }
}

#[derive(Debug, Clone, PartialEq, Eq)]
pub struct Program {
    pub id: String,
    pub name: String,
    pub created: String,
    pub modified: String,
    pub sources: Vec<SourceRef>,
    /// Pre-compiled libraries to link against, in link order.
    pub libraries: Vec<LibraryRef>,
    pub options: BuildOptions,
}

impl Default for Program {
    fn default() -> (p: Program)
        ensures
            is_program_id(p.id@),
            p.name@.len() == 0,
            p.created == p.modified,
            is_rfc3339_utc(p.created@),
            p.sources@.len() == 0,
            p.libraries@.len() == 0,
            is_default_options(p.options),
    {
        let now = now_rfc3339();
        Program {
            id: new_id(),
            name: String::new(),
            created: now.clone(),
            modified: now,
            sources: Vec::new(),
            libraries: Vec::new(),
            options: BuildOptions::default(),
        }
    }
}

/// Every distinct directory among the first `k` paths, in first-seen order.
pub open spec fn distinct_parents(paths: Seq<Seq<char>>, k: int) -> Seq<Seq<char>>
    decreases k,
{
    if k <= 0 {
        Seq::empty()
    } else {
        let before = distinct_parents(paths, k - 1);
        match parent(paths[k - 1]) {
            Some(d) => if before.contains(d) {
                before
            } else {
                before.push(d)
            },
            None => before,
        }
    }
}

pub open spec fn source_paths(s: Seq<SourceRef>) -> Seq<Seq<char>> {
    s.map_values(|e: SourceRef| e.path@)
}

/// Nothing changed.
pub open spec fn unchanged(a: Program, b: Program) -> bool {
    &&& a.id == b.id
    &&& a.name == b.name
    &&& a.created == b.created
    &&& a.modified == b.modified
    &&& a.sources@ == b.sources@
    &&& a.libraries@ == b.libraries@
    &&& a.options == b.options
}

/// What an edit keeps, the program's name, identity and creation stamp, and
/// the new `modified` stamp it leaves: the time of the edit.
pub open spec fn edited(a: Program, b: Program) -> bool {
    &&& a.id == b.id
    &&& a.name == b.name
    &&& a.created == b.created
    &&& is_rfc3339_utc(a.modified@)
}

/// A random identifier as this program writes one: 32 lowercase hex digits.
pub open spec fn is_program_id(id: Seq<char>) -> bool {
    id.len() == 32 && forall|i: int| 0 <= i < 32 ==> is_lower_hex(#[trigger] id[i])
}

/// Everything but `modified` kept.
pub open spec fn same_but_stamp(a: Program, b: Program) -> bool {
    &&& a.id == b.id
    &&& a.name == b.name
    &&& a.created == b.created
    &&& a.sources == b.sources
    &&& a.libraries == b.libraries
    &&& a.options == b.options
}

impl Program {
    pub fn new(name: &str) -> (p: Program)
        ensures
            p.name@ == nfc_form(name@),
            is_program_id(p.id@),
            p.created == p.modified,
            is_rfc3339_utc(p.created@),
            p.sources@.len() == 0,
            p.libraries@.len() == 0,
            is_default_options(p.options),
    {
        let d = Program::default();
        Program { name: nfc(name), ..d }
    }

    /// Mark the program as edited now: its `modified` stamp becomes the
    /// current time, and nothing else changes.
    pub fn touch(&mut self)
        ensures
            same_but_stamp(*final(self), *old(self)),
            is_rfc3339_utc(final(self).modified@),
    {
        self.modified = now_rfc3339();
    }

    /// Add a source file. Duplicates are ignored; unusable names are refused.
    pub fn add_source(&mut self, path: &str) -> (r: Result<(), EfError>)
        ensures
            match path_problem(path@) {
                Some(reason) => refused_for(r, reason) && unchanged(*final(self), *old(self)),
                None => r is Ok && if entry_paths(old(self).sources@).contains(path@) {
                    unchanged(*final(self), *old(self))
                } else {
                    &&& entry_paths(final(self).sources@) == entry_paths(old(self).sources@).push(
                        path@,
                    )
                    &&& final(self).sources@.take(old(self).sources@.len() as int) == old(self).sources@
                    &&& final(self).libraries@ == old(self).libraries@
                    &&& final(self).options == old(self).options
                    &&& edited(*final(self), *old(self))
                },
            },
    {
        match add_file(&mut self.sources, path) {
            Err(e) => Err(e),
            Ok(grew) => {
                if grew {
                    self.touch();
                }
                Ok(())
            },
        }
    }

    /// Add a library to link against.
    pub fn add_library(&mut self, path: &str) -> (r: Result<(), EfError>)
        ensures
            match path_problem(path@) {
                Some(reason) => refused_for(r, reason) && unchanged(*final(self), *old(self)),
                None => r is Ok && if entry_paths(old(self).libraries@).contains(path@) {
                    unchanged(*final(self), *old(self))
                } else {
                    &&& entry_paths(final(self).libraries@) == entry_paths(
                        old(self).libraries@,
                    ).push(path@)
                    &&& final(self).libraries@.take(old(self).libraries@.len() as int) == old(self).libraries@
                    &&& final(self).sources@ == old(self).sources@
                    &&& final(self).options == old(self).options
                    &&& edited(*final(self), *old(self))
                },
            },
    {
        match add_file(&mut self.libraries, path) {
            Err(e) => Err(e),
            Ok(grew) => {
                if grew {
                    self.touch();
                }
                Ok(())
            },
        }
    }

    pub fn remove_source(&mut self, index: usize)
        ensures
            index < old(self).sources@.len() ==> final(self).sources@ == old(self).sources@.remove(
                index as int,
            ) && final(self).libraries@ == old(self).libraries@ && final(self).options == old(self).options
                && edited(*final(self), *old(self)),
            index >= old(self).sources@.len() ==> unchanged(*final(self), *old(self)),
    {
        if remove_file(&mut self.sources, index) {
            self.touch();
        }
    }

    pub fn remove_library(&mut self, index: usize)
        ensures
            index < old(self).libraries@.len() ==> final(self).libraries@ == old(self).libraries@.remove(index as int) && final(self).sources@ == old(self).sources@
                && final(self).options == old(self).options && edited(*final(self), *old(self)),
            index >= old(self).libraries@.len() ==> unchanged(*final(self), *old(self)),
    {
        if remove_file(&mut self.libraries, index) {
            self.touch();
        }
    }

    /// Source order is compile and link order, so moving one is a real edit.
    pub fn move_source(&mut self, index: usize, delta: isize)
        ensures
            match move_target(old(self).sources@.len(), index as int, delta as int) {
                Some(t) => final(self).sources@ == swapped(old(self).sources@, index as int, t)
                    && final(self).libraries@ == old(self).libraries@ && final(self).options == old(self).options
                    && edited(*final(self), *old(self)),
                None => unchanged(*final(self), *old(self)),
            },
    {
        if move_file(&mut self.sources, index, delta) {
            self.touch();
        }
    }

    /// A static library only satisfies symbols referenced by something earlier
    /// on the link line, so library order matters too.
    pub fn move_library(&mut self, index: usize, delta: isize)
        ensures
            match move_target(old(self).libraries@.len(), index as int, delta as int) {
                Some(t) => final(self).libraries@ == swapped(
                    old(self).libraries@,
                    index as int,
                    t,
                ) && final(self).sources@ == old(self).sources@ && final(self).options == old(self).options
                    && edited(*final(self), *old(self)),
                None => unchanged(*final(self), *old(self)),
            },
    {
        if move_file(&mut self.libraries, index, delta) {
            self.touch();
        }
    }

    pub fn relocate_source(&mut self, index: usize, path: &str) -> (r: Result<(), EfError>)
        ensures
            match path_problem(path@) {
                Some(reason) => refused_for(r, reason) && unchanged(*final(self), *old(self)),
                None => r is Ok && if index < old(self).sources@.len() {
                    &&& final(self).sources@.len() == old(self).sources@.len()
                    &&& final(self).sources@[index as int].path@ == path@
                    &&& forall|j: int|
                        0 <= j < old(self).sources@.len() && j != index ==> #[trigger] final(self).sources@[j] == old(self).sources@[j]
                    &&& final(self).libraries@ == old(self).libraries@
                    &&& final(self).options == old(self).options
                    &&& edited(*final(self), *old(self))
                } else {
                    unchanged(*final(self), *old(self))
                },
            },
    {
        match relocate_file(&mut self.sources, index, path) {
            Err(e) => Err(e),
            Ok(changed) => {
                if changed {
                    self.touch();
                }
                Ok(())
            },
        }
    }

    pub fn relocate_library(&mut self, index: usize, path: &str) -> (r: Result<(), EfError>)
        ensures
            match path_problem(path@) {
                Some(reason) => refused_for(r, reason) && unchanged(*final(self), *old(self)),
                None => r is Ok && if index < old(self).libraries@.len() {
                    &&& final(self).libraries@.len() == old(self).libraries@.len()
                    &&& final(self).libraries@[index as int].path@ == path@
                    &&& forall|j: int|
                        0 <= j < old(self).libraries@.len() && j != index ==> #[trigger] final(self).libraries@[j] == old(self).libraries@[j]
                    &&& final(self).sources@ == old(self).sources@
                    &&& final(self).options == old(self).options
                    &&& edited(*final(self), *old(self))
                } else {
                    unchanged(*final(self), *old(self))
                },
            },
    {
        match relocate_file(&mut self.libraries, index, path) {
            Err(e) => Err(e),
            Ok(changed) => {
                if changed {
                    self.touch();
                }
                Ok(())
            },
        }
    }

    /// Every distinct directory holding one of the user's sources, in first-seen
    /// order. These become `-I` arguments, so `INCLUDE 'COMMON.INC'` keeps
    /// resolving after the sources are staged elsewhere.
    pub fn include_dirs(&self) -> (v: Vec<String>)
        ensures
            views(v@) == distinct_parents(
                source_paths(self.sources@),
                self.sources@.len() as int,
            ),
    {
        let mut out: Vec<String> = Vec::new();
        let ghost paths = source_paths(self.sources@);
        for i in 0..self.sources.len()
            invariant
                paths == source_paths(self.sources@),
                views(out@) == distinct_parents(paths, i as int),
        {
            if let Some(dir) = parent_of(self.sources[i].path.as_str()) {
                let seen = contains_string(&out, &dir);
                if !seen {
                    let ghost before = out@;
                    out.push(dir);
                    assert(views(out@) =~= views(before).push(dir@));
                }
            }
        }
        out
    }
}

pub open spec fn is_illegal_in_name(c: char) -> bool {
    c == '/' || c == '\\' || c == ':' || c == '*' || c == '?' || c == '"' || c == '<' || c == '>'
        || c == '|'
}

/// The characters a file system will not accept, and control characters,
/// replaced by `_`.
pub open spec fn cleaned_name(s: Seq<char>) -> Seq<char> {
    s.map_values(
        |c: char|
            if is_illegal_in_name(c) || is_control(c) {
                '_'
            } else {
                c
            },
    )
}

/// The stem offered for a program called `name`: its own words, cleaned,
/// trimmed of blanks and dots; `program` when nothing is left.
pub open spec fn suggested_stem(name: Seq<char>) -> Seq<char> {
    let t = trim(trim_char(trim(cleaned_name(nfc_form(name))), '.'));
    if t.len() == 0 {
        "program"@
    } else {
        t
    }
}

/// A file name to offer in the save dialog for a program called `name`, with
/// the toolchain's executable suffix.
pub fn suggested_program_file_name(name: &str, exe_suffix: &str) -> (r: String)
    ensures
        r@ == suggested_stem(name@) + exe_suffix@,
{
    let n = nfc(name);
    let nc = chars_of(n.as_str());
    let mut cleaned: Vec<char> = Vec::new();
    for i in 0..nc.len()
        invariant
            cleaned@ == cleaned_name(nc@.take(i as int)),
    {
        let c = nc[i];
        let ghost before = cleaned@;
        if c == '/' || c == '\\' || c == ':' || c == '*' || c == '?' || c == '"' || c == '<' || c
            == '>' || c == '|' || is_control_char(c) {
            cleaned.push('_');
        } else {
            cleaned.push(c);
        }
        assert(cleaned@ =~= cleaned_name(nc@.take(i + 1)));
    }
    assert(nc@.take(nc@.len() as int) =~= nc@);
    let (a, b) = trim_bounds(cleaned.as_slice());
    let t1 = slice_range(cleaned.as_slice(), a, b);
    let (c, d) = trim_char_bounds(t1, '.');
    let t2 = slice_range(t1, c, d);
    let (e, f) = trim_bounds(t2);
    let t3 = slice_range(t2, e, f);
    let mut out: Vec<char> = Vec::new();
    if t3.len() == 0 {
        push_str(&mut out, "program");
    } else {
        push_chars(&mut out, t3);
    }
    push_str(&mut out, exe_suffix);
    string_from_chars(out.as_slice())
}

} // verus!
