//! Every path in the application derives from `AppPaths`, resolved once at startup.
//!
//! Finding the platform's directories is the application's part; everything
//! derived from them is here.
use crate::pathops::{
    components, join, join_of, law_a_joined_path_stays_under_its_base, Comp, lemma_path_starts_trans, path_starts,
};
use crate::project::{is_lower_hex, new_id};
use crate::textops::{chars_of, decimal, decimal_of, lemma_decimal_injective, owned, push_chars, push_str, string_from_chars, views};
use sha2::Digest;
use vstd::prelude::*;
use vstd::utf8::encode_utf8;

verus! {

/// Reverse-DNS qualifier. Changing this moves every user's saved data.
pub const QUALIFIER: &'static str = "io.github";

pub const ORGANIZATION: &'static str = "easy-fortran-77";

pub const APPLICATION: &'static str = "Easy Fortran 77";

/// The SHA-256 digest of some bytes.
pub uninterp spec fn sha256_of(b: Seq<u8>) -> Seq<u8>;

/// `sha2::Sha256::digest`: thirty-two bytes that depend on the input alone.
#[verifier::external_body]
pub(crate) fn sha256(b: &[u8]) -> (r: Vec<u8>)
    ensures
        r@ == sha256_of(b@),
        r@.len() == 32,
{
    sha2::Sha256::digest(b).to_vec()
}

pub open spec fn hex_char(n: int) -> char {
    if n < 10 {
        (n + ('0' as int)) as char
    } else {
        (n - 10 + ('a' as int)) as char
    }
}

/// Bytes as lowercase hexadecimal, two digits each, high half first.
pub open spec fn hex_bytes(b: Seq<u8>) -> Seq<char>
    decreases b.len(),
{
    if b.len() == 0 {
        Seq::empty()
    } else {
        hex_bytes(b.drop_last()).push(hex_char((b.last() / 16) as int)).push(hex_char((b.last() % 16) as int))
    }
}

fn hex_digit(n: u8) -> (c: char)
    requires
        n < 16,
    ensures
        c == hex_char(n as int),
        is_lower_hex(c),
{
    let c = if n == 0 {
        '0'
    } else if n == 1 {
        '1'
    } else if n == 2 {
        '2'
    } else if n == 3 {
        '3'
    } else if n == 4 {
        '4'
    } else if n == 5 {
        '5'
    } else if n == 6 {
        '6'
    } else if n == 7 {
        '7'
    } else if n == 8 {
        '8'
    } else if n == 9 {
        '9'
    } else if n == 10 {
        'a'
    } else if n == 11 {
        'b'
    } else if n == 12 {
        'c'
    } else if n == 13 {
        'd'
    } else if n == 14 {
        'e'
    } else {
        'f'
    };
    c
}

pub open spec fn all_ascii(s: Seq<char>) -> bool {
    forall|i: int| 0 <= i < s.len() ==> (#[trigger] s[i] as u32) < 128
}

fn is_all_ascii(s: &[char]) -> (r: bool)
    ensures
        r == all_ascii(s@),
{
    for i in 0..s.len()
        invariant
            forall|k: int| 0 <= k < i ==> (#[trigger] s@[k] as u32) < 128,
    {
        if (s[i] as u32) >= 128 {
            return false;
        }
    }
    true
}

pub(crate) fn hex_of(b: &[u8]) -> (r: Vec<char>)
    ensures
        r@ == hex_bytes(b@),
{
    let mut r: Vec<char> = Vec::new();
    for i in 0..b.len()
        invariant
            r@ == hex_bytes(b@.take(i as int)),
    {
        let x = b[i];
        r.push(hex_digit(x / 16));
        r.push(hex_digit(x % 16));
        assert(b@.take(i + 1).drop_last() =~= b@.take(i as int));
    }
    assert(b@.take(b@.len() as int) =~= b@);
    r
}

/// At most the first sixteen characters.
pub open spec fn first16(h: Seq<char>) -> Seq<char> {
    if h.len() <= 16 {
        h
    } else {
        h.take(16)
    }
}

/// Where a build's scratch tree goes: under the data directory, unless that
/// path is not pure ASCII and an ASCII base exists. MinGW's driver hands paths
/// to the assembler through the system ANSI codepage, so a profile named
/// `Nguyễn Văn A` cannot survive the trip. The moved tree is named from a hash
/// of the data directory, so two accounts never share one and the same account
/// always gets the same one.
pub open spec fn spec_work_root(data_dir: Seq<char>, base: Option<Seq<char>>) -> Seq<char> {
    let natural = join(data_dir, "work"@);
    if all_ascii(natural) || base is None {
        natural
    } else {
        join(
            join(join(base.unwrap(), "EasyFortran77"@), "work"@),
            first16(hex_bytes(sha256_of(encode_utf8(data_dir)))),
        )
    }
}

pub fn choose_work_root(data_dir: &str, base: Option<&str>) -> (r: String)
    ensures
        r@ == spec_work_root(data_dir@, match base {
            Some(b) => Some(b@),
            None => None,
        }),
{
    let natural = join_of(data_dir, "work");
    let nc = chars_of(natural.as_str());
    if is_all_ascii(nc.as_slice()) {
        return natural;
    }
    let b = match base {
        None => return natural,
        Some(b) => b,
    };
    let digest = sha256(data_dir.as_bytes());
    let hex = hex_of(digest.as_slice());
    proof {
        lemma_hex_len(digest@);
    }
    let mut short: Vec<char> = Vec::new();
    let mut i: usize = 0;
    while i < 16
        invariant
            i <= 16,
            hex@.len() == 64,
            short@ == hex@.take(i as int),
        decreases 16 - i,
    {
        short.push(hex[i]);
        i += 1;
        assert(short@ =~= hex@.take(i as int));
    }
    proof {
        lemma_hex_len(digest@);
    }
    let name = string_from_chars(short.as_slice());
    let a = join_of(b, "EasyFortran77");
    let w = join_of(a.as_str(), "work");
    join_of(w.as_str(), name.as_str())
}

proof fn lemma_hex_len(b: Seq<u8>)
    ensures
        hex_bytes(b).len() == 2 * b.len(),
    decreases b.len(),
{
    if b.len() > 0 {
        lemma_hex_len(b.drop_last());
    }
}

proof fn lemma_hex_ascii(b: Seq<u8>)
    ensures
        all_ascii(hex_bytes(b)),
    decreases b.len(),
{
    if b.len() > 0 {
        lemma_hex_ascii(b.drop_last());
        let h = hex_bytes(b);
        let p = hex_bytes(b.drop_last());
        assert forall|i: int| 0 <= i < h.len() implies (#[trigger] h[i] as u32) < 128 by {
            if i < p.len() {
                assert(h[i] == p[i]);
            }
        }
    }
}

proof fn lemma_join_ascii(a: Seq<char>, b: Seq<char>)
    requires
        all_ascii(a),
        all_ascii(b),
    ensures
        all_ascii(join(a, b)),
{
    reveal_strlit("/");
    let j = join(a, b);
    if !(b.len() > 0 && b[0] == '/') && a.len() > 0 && a.last() != '/' {
        assert forall|i: int| 0 <= i < j.len() implies (#[trigger] j[i] as u32) < 128 by {
            if i < a.len() {
                assert(j[i] == a[i]);
            } else if i == a.len() {
                assert(j[i] == '/');
            } else {
                assert(j[i] == b[i - a.len() - 1]);
            }
        }
    } else if !(b.len() > 0 && b[0] == '/') {
        assert forall|i: int| 0 <= i < j.len() implies (#[trigger] j[i] as u32) < 128 by {
            if i < a.len() {
                assert(j[i] == a[i]);
            } else {
                assert(j[i] == b[i - a.len()]);
            }
        }
    }
}

/// Wherever the scratch tree lands, its path is pure ASCII whenever an ASCII
/// base was offered, so it survives the compiler's codepage.
pub proof fn law_the_work_root_is_ascii_when_it_can_be(data_dir: Seq<char>, base: Seq<char>)
    requires
        all_ascii(base),
    ensures
        all_ascii(spec_work_root(data_dir, Some(base))),
{
    reveal_strlit("EasyFortran77");
    reveal_strlit("work");
    let natural = join(data_dir, "work"@);
    if !all_ascii(natural) {
        let h = hex_bytes(sha256_of(encode_utf8(data_dir)));
        lemma_hex_ascii(sha256_of(encode_utf8(data_dir)));
        assert(all_ascii("EasyFortran77"@));
        assert(all_ascii("work"@));
        lemma_join_ascii(base, "EasyFortran77"@);
        lemma_join_ascii(join(base, "EasyFortran77"@), "work"@);
        let f = first16(h);
        assert forall|i: int| 0 <= i < f.len() implies (#[trigger] f[i] as u32) < 128 by {
            assert(f[i] == h[i]);
        }
        lemma_join_ascii(join(join(base, "EasyFortran77"@), "work"@), f);
    }
}

pub struct AppPaths {
    config_dir: String,
    data_dir: String,
    cache_dir: String,
    /// Scratch space for builds. Usually under `data_dir`, but not always.
    work_root: String,
    /// Every directory we are allowed to write under.
    write_roots: Vec<String>,
    session_id: String,
}

/// The directories, as plain values.
pub struct AppPathsSpec {
    pub config_dir: Seq<char>,
    pub data_dir: Seq<char>,
    pub cache_dir: Seq<char>,
    pub work_root: Seq<char>,
    pub write_roots: Seq<Seq<char>>,
    pub session_id: Seq<char>,
}

impl View for AppPaths {
    type V = AppPathsSpec;

    closed spec fn view(&self) -> AppPathsSpec {
        AppPathsSpec {
            config_dir: self.config_dir@,
            data_dir: self.data_dir@,
            cache_dir: self.cache_dir@,
            work_root: self.work_root@,
            write_roots: views(self.write_roots@),
            session_id: self.session_id@,
        }
    }
}

impl AppPaths {
    /// The write roots are exactly the three directories and the work root,
    /// which is never empty, and the session has a 32-digit hexadecimal
    /// identifier.
    pub open spec fn wf(&self) -> bool {
        &&& self@.write_roots == seq![
            self@.config_dir,
            self@.data_dir,
            self@.cache_dir,
            self@.work_root,
        ]
        &&& self@.work_root.len() > 0
        &&& self@.session_id.len() == 32
        &&& forall|i: int| 0 <= i < 32 ==> is_lower_hex(#[trigger] self@.session_id[i])
    }

    /// Every value is well-formed: the constructors make it so and nothing
    /// changes it afterwards.
    #[verifier::type_invariant]
    spec fn always_wf(self) -> bool {
        self.wf()
    }

    /// The application's directories, given the platform's three and, where
    /// the platform has one, an ASCII place for scratch trees.
    pub fn from_dirs(config_dir: String, data_dir: String, cache_dir: String, scratch_base: Option<
        &str,
    >) -> (p: AppPaths)
        ensures
            p.wf(),
            p@.config_dir == config_dir@,
            p@.data_dir == data_dir@,
            p@.cache_dir == cache_dir@,
            p@.work_root == spec_work_root(data_dir@, match scratch_base {
                Some(b) => Some(b@),
                None => None,
            }),
    {
        let work_root = choose_work_root(data_dir.as_str(), scratch_base);
        proof {
            lemma_work_root_nonempty(data_dir@, match scratch_base {
                Some(b) => Some(b@),
                None => None,
            });
        }
        let mut write_roots: Vec<String> = Vec::new();
        write_roots.push(config_dir.clone());
        write_roots.push(data_dir.clone());
        write_roots.push(cache_dir.clone());
        write_roots.push(work_root.clone());
        let session_id = new_id();
        assert(views(write_roots@) =~= seq![config_dir@, data_dir@, cache_dir@, work_root@]);
        let p = AppPaths { config_dir, data_dir, cache_dir, work_root, write_roots, session_id };
        p
    }

    /// Everything under one directory: used by tests and by `EF77_HOME`.
    pub fn under(root: &str, scratch_base: Option<&str>) -> (p: AppPaths)
        ensures
            p.wf(),
            p@.config_dir == join(root@, "config"@),
            p@.data_dir == join(root@, "data"@),
            p@.cache_dir == join(root@, "cache"@),
            p@.work_root == spec_work_root(join(root@, "data"@), match scratch_base {
                Some(b) => Some(b@),
                None => None,
            }),
    {
        AppPaths::from_dirs(
            join_of(root, "config"),
            join_of(root, "data"),
            join_of(root, "cache"),
            scratch_base,
        )
    }

    pub fn config_dir(&self) -> (s: &str)
        ensures
            s@ == self@.config_dir,
            self.wf(),
    {
        proof {
            use_type_invariant(self);
        }
        self.config_dir.as_str()
    }

    pub fn data_dir(&self) -> (s: &str)
        ensures
            s@ == self@.data_dir,
            self.wf(),
    {
        proof {
            use_type_invariant(self);
        }
        self.data_dir.as_str()
    }

    pub fn cache_dir(&self) -> (s: &str)
        ensures
            s@ == self@.cache_dir,
            self.wf(),
    {
        proof {
            use_type_invariant(self);
        }
        self.cache_dir.as_str()
    }

    pub fn write_roots(&self) -> (r: &[String])
        ensures
            views(r@) == self@.write_roots,
            self.wf(),
            views(r@) == seq![self@.config_dir, self@.data_dir, self@.cache_dir, self@.work_root],
    {
        proof {
            use_type_invariant(self);
        }
        self.write_roots.as_slice()
    }

    pub fn programs_file(&self) -> (s: String)
        ensures
            s@ == join(self@.config_dir, "programs.toml"@),
            self.wf(),
            path_starts(s@, self@.config_dir),
            path_starts(s@, self@.write_roots[0]),
    {
        proof {
            use_type_invariant(self);
        }
        let r = join_of(self.config_dir.as_str(), "programs.toml");
        proof {
            reveal_strlit("programs.toml");
            lemma_named_under(self@.config_dir, "programs.toml"@);
            assert(self@.write_roots[0] == self@.config_dir);
        }
        r
    }

    pub fn settings_file(&self) -> (s: String)
        ensures
            s@ == join(self@.config_dir, "settings.toml"@),
            self.wf(),
            path_starts(s@, self@.config_dir),
            path_starts(s@, self@.write_roots[0]),
    {
        proof {
            use_type_invariant(self);
        }
        let r = join_of(self.config_dir.as_str(), "settings.toml");
        proof {
            reveal_strlit("settings.toml");
            lemma_named_under(self@.config_dir, "settings.toml"@);
            assert(self@.write_roots[0] == self@.config_dir);
        }
        r
    }

    pub fn log_dir(&self) -> (s: String)
        ensures
            s@ == join(self@.data_dir, "logs"@),
            self.wf(),
            path_starts(s@, self@.data_dir),
            path_starts(s@, self@.write_roots[1]),
    {
        proof {
            use_type_invariant(self);
        }
        let r = join_of(self.data_dir.as_str(), "logs");
        proof {
            reveal_strlit("logs");
            lemma_named_under(self@.data_dir, "logs"@);
            assert(self@.write_roots[1] == self@.data_dir);
        }
        r
    }

    pub fn work_root(&self) -> (s: String)
        ensures
            s@ == self@.work_root,
            self.wf(),
    {
        proof {
            use_type_invariant(self);
        }
        self.work_root.clone()
    }

    pub fn session_work_dir(&self) -> (s: String)
        ensures
            s@ == join(self@.work_root, self@.session_id),
            self.wf(),
    {
        proof {
            use_type_invariant(self);
        }
        join_of(self.work_root.as_str(), self.session_id.as_str())
    }

    /// The scratch tree of one build in this session.
    pub fn build_dir(&self, n: u64) -> (s: String)
        ensures
            s@ == join(join(self@.work_root, self@.session_id), "build-"@ + decimal(n as nat)),
            self.wf(),
            path_starts(s@, self@.work_root),
            path_starts(s@, self@.write_roots[3]),
    {
        proof {
            use_type_invariant(self);
        }
        let mut v: Vec<char> = Vec::new();
        push_str(&mut v, "build-");
        let d = decimal_of(n);
        push_chars(&mut v, d.as_slice());
        let name = string_from_chars(v.as_slice());
        let dir = self.session_work_dir();
        let r = join_of(dir.as_str(), name.as_str());
        proof {
            law_a_build_directory_is_under_the_work_root(*self, n as nat);
        }
        r
    }

    pub fn session_id(&self) -> (s: &str)
        ensures
            s@ == self@.session_id,
            self.wf(),
    {
        proof {
            use_type_invariant(self);
        }
        self.session_id.as_str()
    }
}

/// A name that is not absolute, joined onto a directory, lies under it.
proof fn lemma_named_under(base: Seq<char>, name: Seq<char>)
    requires
        !(name.len() > 0 && name[0] == '/'),
    ensures
        path_starts(join(base, name), base),
{
    if base.len() > 0 {
        law_a_joined_path_stays_under_its_base(base, name);
    } else {
        let segs = crate::pathops::segments(base);
        assert(segs =~= seq![Seq::<char>::empty()]);
        assert(segs.drop_last() =~= Seq::<Seq<char>>::empty());
        assert(crate::pathops::named(segs.drop_last()) =~= Seq::<Comp>::empty());
        assert(crate::pathops::comp_of(segs.last()) =~= Seq::<Comp>::empty());
        assert(crate::pathops::named(segs) =~= Seq::<Comp>::empty());
        assert(components(base) =~= Seq::<Comp>::empty());
        assert(components(join(base, name)).take(0) =~= Seq::<Comp>::empty());
    }
}

/// Joining onto a non-empty name gives a non-empty path.
proof fn lemma_join_nonempty(base: Seq<char>, rel: Seq<char>)
    requires
        base.len() > 0 || rel.len() > 0,
    ensures
        join(base, rel).len() > 0,
{
    reveal_strlit("/");
}

/// The work root is never empty, wherever it is chosen.
proof fn lemma_work_root_nonempty(data_dir: Seq<char>, base: Option<Seq<char>>)
    ensures
        spec_work_root(data_dir, base).len() > 0,
{
    reveal_strlit("work");
    reveal_strlit("EasyFortran77");
    lemma_join_nonempty(data_dir, "work"@);
    match base {
        Some(b) => {
            lemma_join_nonempty(b, "EasyFortran77"@);
            lemma_join_nonempty(join(b, "EasyFortran77"@), "work"@);
            lemma_join_nonempty(
                join(join(b, "EasyFortran77"@), "work"@),
                first16(hex_bytes(sha256_of(encode_utf8(data_dir)))),
            );
        },
        None => {},
    }
}

/// Every build's directory lies under the work root, and so under one of the
/// write roots: it is the session's directory, named by its identifier, under
/// the work root. Every `AppPaths` value is well-formed, which is its type
/// invariant and which each of its accessors states.
pub proof fn law_a_build_directory_is_under_the_work_root(p: AppPaths, n: nat)
    requires
        p.wf(),
    ensures
        path_starts(join(join(p@.work_root, p@.session_id), "build-"@ + decimal(n)), p@.work_root),
        p@.write_roots.contains(p@.work_root),
{
    reveal_strlit("build-");
    assert(p@.session_id[0] != '/') by {
        assert(is_lower_hex(p@.session_id[0]));
    }
    law_a_joined_path_stays_under_its_base(p@.work_root, p@.session_id);
    let s = join(p@.work_root, p@.session_id);
    lemma_join_nonempty(p@.work_root, p@.session_id);
    law_a_joined_path_stays_under_its_base(s, "build-"@ + decimal(n));
    lemma_path_starts_trans(join(s, "build-"@ + decimal(n)), s, p@.work_root);
    assert(p@.write_roots[3] == p@.work_root);
}

/// Two builds of one session never share a scratch tree: distinct numbers
/// give distinct build directories.
pub proof fn law_distinct_builds_have_distinct_directories(p: AppPaths, n: nat, m: nat)
    requires
        n != m,
    ensures
        join(join(p@.work_root, p@.session_id), "build-"@ + decimal(n)) != join(
            join(p@.work_root, p@.session_id),
            "build-"@ + decimal(m),
        ),
{
    reveal_strlit("build-");
    reveal_strlit("/");
    let s = join(p@.work_root, p@.session_id);
    let x = "build-"@ + decimal(n);
    let y = "build-"@ + decimal(m);
    let prefix = if s.len() > 0 && s.last() != '/' {
        s + "/"@
    } else {
        s
    };
    assert(join(s, x) == prefix + x);
    assert(join(s, y) == prefix + y);
    if join(s, x) == join(s, y) {
        assert(x =~= (prefix + x).skip(prefix.len() as int));
        assert(y =~= (prefix + y).skip(prefix.len() as int));
        assert(decimal(n) =~= x.skip(6));
        assert(decimal(m) =~= y.skip(6));
        lemma_decimal_injective(n, m);
    }
}

/// The work root is one of the write roots, so the guard lets builds write
/// there; this holds of every `AppPaths` value, each being well-formed.
pub proof fn law_the_work_root_is_a_write_root(p: AppPaths)
    requires
        p.wf(),
    ensures
        p@.write_roots.contains(p@.work_root),
{
    assert(p@.write_roots[3] == p@.work_root);
}

/// Layout of one build's working tree. Nothing outside this is ever written.
#[derive(Debug, Clone)]
pub struct WorkLayout {
    pub root: String,
}

impl WorkLayout {
    pub fn new(root: String) -> (l: WorkLayout)
        ensures
            l.root == root,
    {
        WorkLayout { root }
    }

    pub fn src(&self) -> (p: String)
        ensures
            p@ == join(self.root@, "src"@),
    {
        join_of(self.root.as_str(), "src")
    }

    pub fn obj(&self) -> (p: String)
        ensures
            p@ == join(self.root@, "obj"@),
    {
        join_of(self.root.as_str(), "obj")
    }

    pub fn module(&self) -> (p: String)
        ensures
            p@ == join(self.root@, "mod"@),
    {
        join_of(self.root.as_str(), "mod")
    }

    pub fn tmp(&self) -> (p: String)
        ensures
            p@ == join(self.root@, "tmp"@),
    {
        join_of(self.root.as_str(), "tmp")
    }

    pub fn out(&self) -> (p: String)
        ensures
            p@ == join(self.root@, "out"@),
    {
        join_of(self.root.as_str(), "out")
    }

    /// Staged copies of the user's pre-compiled libraries.
    pub fn lib(&self) -> (p: String)
        ensures
            p@ == join(self.root@, "lib"@),
    {
        join_of(self.root.as_str(), "lib")
    }

    /// The built program, for a target whose executables carry `suffix`. The
    /// suffix comes from the toolchain, not from the host.
    pub fn exe_with_suffix(&self, suffix: &str) -> (p: String)
        ensures
            p@ == join(join(self.root@, "out"@), "program"@ + suffix@),
    {
        let mut v: Vec<char> = Vec::new();
        push_str(&mut v, "program");
        push_str(&mut v, suffix);
        let name = string_from_chars(v.as_slice());
        let out = self.out();
        join_of(out.as_str(), name.as_str())
    }

    pub fn all_dirs(&self) -> (v: Vec<String>)
        ensures
            views(v@) == seq![
                join(self.root@, "src"@),
                join(self.root@, "obj"@),
                join(self.root@, "mod"@),
                join(self.root@, "tmp"@),
                join(self.root@, "out"@),
                join(self.root@, "lib"@),
            ],
    {
        let mut v: Vec<String> = Vec::new();
        v.push(self.src());
        v.push(self.obj());
        v.push(self.module());
        v.push(self.tmp());
        v.push(self.out());
        v.push(self.lib());
        assert(views(v@) =~= seq![
            join(self.root@, "src"@),
            join(self.root@, "obj"@),
            join(self.root@, "mod"@),
            join(self.root@, "tmp"@),
            join(self.root@, "out"@),
            join(self.root@, "lib"@),
        ]);
        v
    }
}

} // verus!
