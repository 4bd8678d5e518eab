//! The library's errors, and the one shape every refusal of a user's file takes.
use crate::textops::{chars_of, decimal, decimal_of, push_chars, push_str, string_from_chars};
use vstd::prelude::*;

verus! {

/// A named substitution in a problem message.
///
/// `Key` exists because some substitutions are themselves prose: "this is a
/// {what}" needs `{what}` in the user's language too.
#[derive(Debug, Clone, PartialEq, Eq)]
pub enum ProblemArg {
    /// Already in the user's terms: a file name, or a proper name like "64-bit x86".
    Text(String),
    /// A catalog key to resolve in the user's language before substituting.
    Key(&'static str),
}

impl ProblemArg {
    pub fn text(s: String) -> (r: ProblemArg)
        ensures
            r == ProblemArg::Text(s),
    {
        ProblemArg::Text(s)
    }
}

/// Why one of the user's files cannot be used, in a form the interface can translate.
#[derive(Debug, Clone, PartialEq, Eq)]
pub struct FileProblem {
    /// The file name as the user sees it.
    pub name: String,
    /// Catalog key for the heading, naming which list the file is in.
    pub title_key: &'static str,
    /// Catalog key for the explanation.
    pub reason_key: &'static str,
    /// Named substitutions for `reason_key`.
    pub args: Vec<(&'static str, ProblemArg)>,
}

/// Everything that can go wrong, held as plain values.
#[derive(Debug, Clone, PartialEq, Eq)]
pub enum EfError {
    /// An operating-system error while reading or writing `path`.
    Io { path: String, message: String },
    /// A write that would land outside the application's own directories.
    EscapesWriteRoot { path: String },
    /// A file name that a compiler would misread.
    UnsafeSourceName { reason: String },
    /// No Fortran compiler could be found.
    ToolchainMissing,
    /// A toolchain that did not pass its checks.
    ToolchainInvalid { path: String, reason: String },
    /// The platform directories for this user could not be determined.
    NoProjectDirs,
    /// A configuration file that would not parse.
    ConfigParse { path: String, message: String },
    /// A configuration file written by a newer version.
    ConfigTooNew { path: String, found: u32, supported: u32 },
    /// The configuration could not be written out.
    ConfigSerialize(String),
    /// A source file, or all of them together, over the size limit.
    SourceTooLarge { len: u64, limit: u64 },
    /// A program with nothing to compile.
    NoSources,
    /// One of the user's files cannot be used, and we can say why in their language.
    UnusableFile { problem: Box<FileProblem>, english: String },
    /// A library over the size limit.
    LibraryTooLarge { len: u64, limit: u64 },
    /// Anything else, already worded.
    Other(String),
}

pub open spec fn dec(n: u64) -> Seq<char> {
    decimal(n as nat)
}

/// The one-line English description of an error, as a log or the command
/// line shows it.
pub open spec fn spec_describe(e: EfError) -> Seq<char> {
    match e {
        EfError::Io { path, message } => "io error at "@ + path@ + ": "@ + message@,
        EfError::EscapesWriteRoot { path } => "refused to write outside the application data directory: "@ + path@,
        EfError::UnsafeSourceName { reason } => "source file name is not usable: "@ + reason@,
        EfError::ToolchainMissing => "no Fortran compiler (gfortran) could be found"@,
        EfError::ToolchainInvalid { path, reason } => "toolchain at "@ + path@ + " failed verification: "@ + reason@,
        EfError::NoProjectDirs => "could not determine the platform directories for this user"@,
        EfError::ConfigParse { path, message } => "configuration file "@ + path@ + " could not be parsed: "@ + message@,
        EfError::ConfigTooNew { path, found, supported } => "configuration file "@ + path@
            + " was written by a newer version (schema "@ + dec(found as u64) + ", we support "@
            + dec(supported as u64) + ")"@,
        EfError::ConfigSerialize(m) => "configuration could not be serialized: "@ + m@,
        EfError::SourceTooLarge { len, limit } => "source file is too large ("@ + dec(len) + " bytes, limit "@
            + dec(limit) + ")"@,
        EfError::NoSources => "the program has no source files"@,
        EfError::UnusableFile { problem, english } => "`"@ + problem.name@ + "`: "@ + english@,
        EfError::LibraryTooLarge { len, limit } => "library file is too large ("@ + dec(len) + " bytes, limit "@
            + dec(limit) + ")"@,
        EfError::Other(m) => m@,
    }
}

fn push_dec(v: &mut Vec<char>, n: u64)
    ensures
        final(v)@ == old(v)@ + dec(n),
{
    let d = decimal_of(n);
    push_chars(v, d.as_slice());
}

impl EfError {
    /// What went wrong, in one line of plain English.
    pub fn describe(&self) -> (s: String)
        ensures
            s@ == spec_describe(*self),
    {
        let mut v: Vec<char> = Vec::new();
        match self {
            EfError::Io { path, message } => {
                push_str(&mut v, "io error at ");
                push_str(&mut v, path.as_str());
                push_str(&mut v, ": ");
                push_str(&mut v, message.as_str());
            },
            EfError::EscapesWriteRoot { path } => {
                push_str(&mut v, "refused to write outside the application data directory: ");
                push_str(&mut v, path.as_str());
            },
            EfError::UnsafeSourceName { reason } => {
                push_str(&mut v, "source file name is not usable: ");
                push_str(&mut v, reason.as_str());
            },
            EfError::ToolchainMissing => {
                push_str(&mut v, "no Fortran compiler (gfortran) could be found");
            },
            EfError::ToolchainInvalid { path, reason } => {
                push_str(&mut v, "toolchain at ");
                push_str(&mut v, path.as_str());
                push_str(&mut v, " failed verification: ");
                push_str(&mut v, reason.as_str());
            },
            EfError::NoProjectDirs => {
                push_str(&mut v, "could not determine the platform directories for this user");
            },
            EfError::ConfigParse { path, message } => {
                push_str(&mut v, "configuration file ");
                push_str(&mut v, path.as_str());
                push_str(&mut v, " could not be parsed: ");
                push_str(&mut v, message.as_str());
            },
            EfError::ConfigTooNew { path, found, supported } => {
                push_str(&mut v, "configuration file ");
                push_str(&mut v, path.as_str());
                push_str(&mut v, " was written by a newer version (schema ");
                push_dec(&mut v, *found as u64);
                push_str(&mut v, ", we support ");
                push_dec(&mut v, *supported as u64);
                push_str(&mut v, ")");
            },
            EfError::ConfigSerialize(m) => {
                push_str(&mut v, "configuration could not be serialized: ");
                push_str(&mut v, m.as_str());
            },
            EfError::SourceTooLarge { len, limit } => {
                push_str(&mut v, "source file is too large (");
                push_dec(&mut v, *len);
                push_str(&mut v, " bytes, limit ");
                push_dec(&mut v, *limit);
                push_str(&mut v, ")");
            },
            EfError::NoSources => {
                push_str(&mut v, "the program has no source files");
            },
            EfError::UnusableFile { problem, english } => {
                push_str(&mut v, "`");
                push_str(&mut v, problem.name.as_str());
                push_str(&mut v, "`: ");
                push_str(&mut v, english.as_str());
            },
            EfError::LibraryTooLarge { len, limit } => {
                push_str(&mut v, "library file is too large (");
                push_dec(&mut v, *len);
                push_str(&mut v, " bytes, limit ");
                push_dec(&mut v, *limit);
                push_str(&mut v, ")");
            },
            EfError::Other(m) => {
                push_str(&mut v, m.as_str());
            },
        }
        string_from_chars(v.as_slice())
    }
}

pub open spec fn arg_view(a: ProblemArg) -> ProblemArgSpec {
    match a {
        ProblemArg::Text(s) => ProblemArgSpec::Text(s@),
        ProblemArg::Key(k) => ProblemArgSpec::Key(k@),
    }
}

pub open spec fn args_view(v: Seq<(&'static str, ProblemArg)>) -> Seq<(Seq<char>, ProblemArgSpec)> {
    v.map_values(|a: (&'static str, ProblemArg)| (a.0@, arg_view(a.1)))
}

/// A substitution as plain values.
pub enum ProblemArgSpec {
    Text(Seq<char>),
    Key(Seq<char>),
}

/// A problem as plain values.
pub struct FileProblemSpec {
    pub name: Seq<char>,
    pub title_key: Seq<char>,
    pub reason_key: Seq<char>,
    pub args: Seq<(Seq<char>, ProblemArgSpec)>,
}

impl View for FileProblem {
    type V = FileProblemSpec;

    open spec fn view(&self) -> FileProblemSpec {
        FileProblemSpec {
            name: self.name@,
            title_key: self.title_key@,
            reason_key: self.reason_key@,
            args: args_view(self.args@),
        }
    }
}

impl FileProblem {
    /// A copy with the same contents.
    pub fn duplicate(&self) -> (p: FileProblem)
        ensures
            p@ == self@,
    {
        let mut args: Vec<(&'static str, ProblemArg)> = Vec::new();
        for i in 0..self.args.len()
            invariant
                args_view(args@) == args_view(self.args@.take(i as int)),
        {
            let k: &'static str = self.args[i].0;
            let c = match &self.args[i].1 {
                ProblemArg::Text(s) => ProblemArg::Text(s.clone()),
                ProblemArg::Key(x) => ProblemArg::Key(x),
            };
            assert(arg_view(c) == arg_view(self.args@[i as int].1));
            let ghost before = args@;
            args.push((k, c));
            assert(args_view(args@) =~= args_view(before).push((k@, arg_view(c))));
            assert(self.args@.take(i + 1) =~= self.args@.take(i as int).push(self.args@[i as int]));
            assert(args_view(self.args@.take(i + 1)) =~= args_view(self.args@.take(i as int)).push(
                (self.args@[i as int].0@, arg_view(self.args@[i as int].1)),
            ));
        }
        assert(self.args@.take(self.args@.len() as int) =~= self.args@);
        FileProblem {
            name: self.name.clone(),
            title_key: self.title_key,
            reason_key: self.reason_key,
            args,
        }
    }
}

} // verus!
