//! Paths kept portable across drive letters, the choice of the data folder,
//! and where the application's helpers live.

use crate::paths::{join_path, join_with, joined_with, portable_form};
use crate::programs::{relative_to, strip_root};
use crate::shortcuts::{texts, ShellCommand};
use crate::text::{concat3, escape_text, escape_with, has_prefix, starts_with, tail_from};
use vstd::prelude::*;

verus! {

/// A path written portably: `data/` and its place under the data root,
/// with forward slashes, where it lies there; else unchanged.
pub open spec fn portable_of(path: Seq<char>, data_root: Seq<char>) -> Seq<char> {
    match relative_to(path, data_root) {
        Some(rel) => "data/"@ + rel.map_values(|c: char| if c == '\\' { '/' } else { c }),
        None => path,
    }
}

/// Writes a path portably (see `portable_of`).
pub fn make_portable_path(absolute_path: &str, data_root: &str) -> (r: String)
    ensures
        r@ == portable_of(absolute_path@, data_root@),
{
    match strip_root(absolute_path, data_root) {
        Some(rel) => portable_form(rel.as_str()),
        None => String::from_str(absolute_path),
    }
}

/// `s` without the repeated copies of `p` at its start.
pub open spec fn drop_repeated(s: Seq<char>, p: Seq<char>) -> Seq<char>
    decreases s.len(),
{
    if p.len() > 0 && has_prefix(s, p) {
        drop_repeated(s.subrange(p.len() as int, s.len() as int), p)
    } else {
        s
    }
}

fn strip_repeated(s: &str, p: &str) -> (r: String)
    requires
        p@.len() > 0,
    ensures
        r@ == drop_repeated(s@, p@),
{
    let n = s.unicode_len();
    let m = p.unicode_len();
    let mut i: usize = 0;
    let mut rest = String::from_str(s);
    assert(s@.subrange(0, n as int) =~= s@);
    while starts_with(rest.as_str(), p)
        invariant
            m == p@.len() > 0,
            n == s@.len(),
            i <= n,
            rest@ == s@.subrange(i as int, n as int),
            drop_repeated(s@, p@) == drop_repeated(rest@, p@),
        decreases n - i,
    {
        assert(rest@.subrange(m as int, rest@.len() as int) =~= s@.subrange(i + m, n as int));
        i = i + m;
        rest = tail_from(s, i);
    }
    rest
}

/// A portable path made absolute again: a path that starts with `data/` or
/// `data\` is taken under the data root (every leading `data/`, then every
/// leading `data\`, dropped); any other path is kept.
pub open spec fn resolved_portable(portable: Seq<char>, data_root: Seq<char>) -> Seq<char> {
    if has_prefix(portable, "data/"@) || has_prefix(portable, "data\\"@) {
        joined_with(data_root, drop_repeated(drop_repeated(portable, "data/"@), "data\\"@), '/')
    } else {
        portable
    }
}

/// Makes a portable path absolute again (see `resolved_portable`).
pub fn resolve_portable_path(portable_path: &str, data_root: &str) -> (r: String)
    ensures
        r@ == resolved_portable(portable_path@, data_root@),
{
    if starts_with(portable_path, "data/") || starts_with(portable_path, "data\\") {
        proof {
            reveal_strlit("data/");
            reveal_strlit("data\\");
        }
        let a = strip_repeated(portable_path, "data/");
        let b = strip_repeated(a.as_str(), "data\\");
        join_path(data_root, b.as_str())
    } else {
        String::from_str(portable_path)
    }
}

/// The data folder: the folder named by the override where it is a
/// directory; else the `data` folder beside the executable where it is one;
/// else the `data` folder of the source tree, where that has a parent; else
/// `data` under the working directory.
pub open spec fn data_dir_of(
    override_dir: Option<Seq<char>>,
    override_is_dir: bool,
    exe_data: Option<Seq<char>>,
    exe_data_is_dir: bool,
    tree_root: Option<Seq<char>>,
    cwd: Seq<char>,
) -> Seq<char> {
    if override_dir is Some && override_is_dir {
        override_dir->0
    } else if exe_data is Some && exe_data_is_dir {
        exe_data->0
    } else if tree_root is Some {
        joined_with(tree_root->0, "data"@, '/')
    } else {
        joined_with(cwd, "data"@, '/')
    }
}

/// The view of an optional text.
pub open spec fn opt_text(o: Option<&str>) -> Option<Seq<char>> {
    match o {
        Some(s) => Some(s@),
        None => None,
    }
}

/// Chooses the data folder (see `data_dir_of`). `exe_data` is the `data`
/// folder beside the executable and `tree_root` the parent of the source
/// tree, where they exist.
pub fn resolve_data_dir(
    override_dir: Option<&str>,
    override_is_dir: bool,
    exe_data: Option<&str>,
    exe_data_is_dir: bool,
    tree_root: Option<&str>,
    cwd: &str,
) -> (r: String)
    ensures
        r@ == data_dir_of(
            opt_text(override_dir),
            override_is_dir,
            opt_text(exe_data),
            exe_data_is_dir,
            opt_text(tree_root),
            cwd@,
        ),
{
    if let Some(d) = override_dir {
        if override_is_dir {
            return String::from_str(d);
        }
    }
    if let Some(d) = exe_data {
        if exe_data_is_dir {
            return String::from_str(d);
        }
    }
    match tree_root {
        Some(root) => join_path(root, "data"),
        None => join_path(cwd, "data"),
    }
}

/// The folders the front end is told about.
#[derive(Clone, Debug)]
pub struct DataDirs {
    pub data: String,
    pub reports: String,
    pub programs: String,
    pub settings: String,
    pub resources: String,
    pub exe_dir: String,
    pub sidecar_runner: String,
}

/// The data folder, its four standard folders, the executable's folder and
/// the helper runner beside it (`binaries/service_runner.exe`).
pub fn get_data_dirs(data_root: &str, exe_dir: &str) -> (r: DataDirs)
    ensures
        r.data@ == data_root@,
        r.reports@ == joined_with(data_root@, "reports"@, '/'),
        r.programs@ == joined_with(data_root@, "programs"@, '/'),
        r.settings@ == joined_with(data_root@, "settings"@, '/'),
        r.resources@ == joined_with(data_root@, "resources"@, '/'),
        r.exe_dir@ == exe_dir@,
        r.sidecar_runner@ == joined_with(
            joined_with(exe_dir@, "binaries"@, '/'),
            "service_runner.exe"@,
            '/',
        ),
{
    let (reports, programs, settings, resources) = crate::paths::subdirs(data_root);
    let binaries = join_path(exe_dir, "binaries");
    DataDirs {
        data: String::from_str(data_root),
        reports,
        programs,
        settings,
        resources,
        exe_dir: String::from_str(exe_dir),
        sidecar_runner: join_path(binaries.as_str(), "service_runner.exe"),
    }
}

/// A greeting, to try the link with the front end.
pub fn greet(name: &str) -> (r: String)
    ensures
        r@ == "Hello, "@ + name@ + "! You've been greeted from Rust!"@,
{
    concat3("Hello, ", name, "! You've been greeted from Rust!")
}

/// Whether `a` comes before `b` in the order of their characters
/// (the order of code points, so that of UTF-8 bytes too) (a proper prefix comes first).
pub open spec fn text_less(a: Seq<char>, b: Seq<char>) -> bool
    decreases a.len(),
{
    if b.len() == 0 {
        false
    } else if a.len() == 0 {
        true
    } else if a[0] != b[0] {
        a[0] < b[0]
    } else {
        text_less(a.drop_first(), b.drop_first())
    }
}

pub(crate) proof fn lemma_text_less_irreflexive(a: Seq<char>)
    ensures
        !text_less(a, a),
    decreases a.len(),
{
    if a.len() > 0 {
        lemma_text_less_irreflexive(a.drop_first());
    }
}

pub(crate) proof fn lemma_text_less_transitive(a: Seq<char>, b: Seq<char>, c: Seq<char>)
    requires
        text_less(a, b),
        text_less(b, c),
    ensures
        text_less(a, c),
    decreases a.len(),
{
    if a.len() > 0 && b.len() > 0 && c.len() > 0 && a[0] == b[0] && b[0] == c[0] {
        lemma_text_less_transitive(a.drop_first(), b.drop_first(), c.drop_first());
    }
}

pub(crate) proof fn lemma_text_less_total(a: Seq<char>, b: Seq<char>)
    ensures
        text_less(a, b) || text_less(b, a) || a == b,
    decreases a.len(),
{
    if a.len() > 0 && b.len() > 0 {
        if a[0] == b[0] {
            lemma_text_less_total(a.drop_first(), b.drop_first());
            if a.drop_first() == b.drop_first() {
                assert(a =~= seq![a[0]] + a.drop_first());
                assert(b =~= seq![b[0]] + b.drop_first());
            }
        }
    } else if a.len() == 0 && b.len() == 0 {
        assert(a =~= b);
    }
}

/// Whether `a` comes before `b` (see `text_less`).
pub fn is_text_less(a: &str, b: &str) -> (r: bool)
    ensures
        r == text_less(a@, b@),
{
    let n = a.unicode_len();
    let m = b.unicode_len();
    let mut i: usize = 0;
    assert(a@.subrange(0, n as int) =~= a@);
    assert(b@.subrange(0, m as int) =~= b@);
    while i < n && i < m && a.get_char(i) == b.get_char(i)
        invariant
            n == a@.len(),
            m == b@.len(),
            i <= n,
            i <= m,
            text_less(a@, b@) == text_less(a@.subrange(i as int, n as int), b@.subrange(i as int, m as int)),
        decreases n - i,
    {
        assert(a@.subrange(i as int, n as int).drop_first() =~= a@.subrange(i + 1, n as int));
        assert(b@.subrange(i as int, m as int).drop_first() =~= b@.subrange(i + 1, m as int));
        i = i + 1;
    }
    if i == m {
        false
    } else if i == n {
        true
    } else {
        a.get_char(i) < b.get_char(i)
    }
}

/// Picks the greatest name in code-point order, the first of equal ones.
pub fn latest_name(names: &Vec<String>) -> (r: Option<usize>)
    ensures
        r is None <==> names@.len() == 0,
        r matches Some(i) ==> i < names@.len() && (forall|j: int|
            0 <= j < names@.len() ==> !text_less(names@[i as int]@, names@[j]@)) && (forall|j: int|
            0 <= j < i ==> text_less(names@[j]@, names@[i as int]@)),
{
    if names.len() == 0 {
        return None;
    }
    let mut best: usize = 0;
    let mut k: usize = 1;
    proof {
        lemma_text_less_irreflexive(names@[0]@);
    }
    while k < names.len()
        invariant
            0 < names@.len(),
            best < k <= names@.len(),
            forall|j: int| 0 <= j < k ==> !text_less(names@[best as int]@, names@[j]@),
            forall|j: int| 0 <= j < best ==> text_less(names@[j]@, names@[best as int]@),
        decreases names@.len() - k,
    {
        if is_text_less(names[best].as_str(), names[k].as_str()) {
            proof {
                let c = names@[k as int]@;
                let b = names@[best as int]@;
                assert forall|j: int| 0 <= j < k implies text_less(names@[j]@, c) by {
                    lemma_text_less_total(b, names@[j]@);
                    if names@[j]@ != b {
                        lemma_text_less_transitive(names@[j]@, b, c);
                    }
                }
                assert forall|j: int| 0 <= j <= k implies !text_less(c, names@[j]@) by {
                    if j < k {
                        if text_less(c, names@[j]@) {
                            lemma_text_less_transitive(c, names@[j]@, c);
                            lemma_text_less_irreflexive(c);
                        }
                    } else {
                        lemma_text_less_irreflexive(c);
                    }
                }
            }
            best = k;
        }
        k = k + 1;
    }
    Some(best)
}

/// The folder that holds Windows Defender's platform versions, under the
/// program-data folder (`C:\ProgramData` where none is known).
pub open spec fn defender_platform_of(program_data: Option<Seq<char>>) -> Seq<char> {
    let base = match program_data {
        Some(p) => p,
        None => "C:\\ProgramData"@,
    };
    joined_with(
        joined_with(joined_with(base, "Microsoft"@, '\\'), "Windows Defender"@, '\\'),
        "Platform"@,
        '\\',
    )
}

/// The folder that holds Windows Defender's platform versions.
pub fn defender_platform_dir(program_data: Option<&str>) -> (r: String)
    ensures
        r@ == defender_platform_of(opt_text(program_data)),
{
    let base = match program_data {
        Some(p) => String::from_str(p),
        None => String::from_str("C:\\ProgramData"),
    };
    let a = join_with(base.as_str(), "Microsoft", '\\');
    let b = join_with(a.as_str(), "Windows Defender", '\\');
    join_with(b.as_str(), "Platform", '\\')
}

/// Where Windows Defender's command-line scanner is looked for: in the
/// latest platform version (the greatest folder name, see `latest_name`) of
/// the platform folder; none where there is no version. The caller checks
/// that the file exists.
pub fn find_defender_mpcmdrun(program_data: Option<&str>, versions: &Vec<String>) -> (r: Option<String>)
    ensures
        r is None <==> versions@.len() == 0,
        r matches Some(p) ==> exists|i: int|
            0 <= i < versions@.len() && (forall|j: int|
                0 <= j < versions@.len() ==> !text_less(versions@[i]@, versions@[j]@)) && p@
                == joined_with(
                joined_with(defender_platform_of(opt_text(program_data)), versions@[i]@, '\\'),
                "MpCmdRun.exe"@,
                '\\',
            ),
{
    match latest_name(versions) {
        None => None,
        Some(i) => {
            let platform = defender_platform_dir(program_data);
            let dir = join_with(platform.as_str(), versions[i].as_str(), '\\');
            Some(join_with(dir.as_str(), "MpCmdRun.exe", '\\'))
        },
    }
}


/// The PowerShell arguments that run Windows Defender's scanner `exe` with
/// the given switches (`-SignatureUpdate`, `-Scan -ScanType 1`), double
/// quotes in its path escaped by a backslash.
pub open spec fn defender_args_of(exe: Seq<char>, switches: Seq<char>) -> Seq<Seq<char>> {
    seq![
        "-NoProfile"@,
        "-ExecutionPolicy"@,
        "Bypass"@,
        "-Command"@,
        "& '"@ + escape_with(exe, '"', "\\\""@, '"', "\\\""@) + "' "@ + switches,
    ]
}

fn defender_command(exe: &str, switches: &str) -> (r: ShellCommand)
    ensures
        r.program@ == "powershell.exe"@,
        texts(r.args@) == defender_args_of(exe@, switches@),
{
    let escaped = escape_text(exe, '"', "\\\"", '"', "\\\"");
    let mut cmd = concat3("& '", escaped.as_str(), "' ");
    cmd.append(switches);
    let mut args: Vec<String> = Vec::new();
    args.push(String::from_str("-NoProfile"));
    args.push(String::from_str("-ExecutionPolicy"));
    args.push(String::from_str("Bypass"));
    args.push(String::from_str("-Command"));
    args.push(cmd);
    let r = ShellCommand { program: String::from_str("powershell.exe"), args };
    assert(texts(r.args@) =~= defender_args_of(exe@, switches@));
    r
}

/// The two commands of a Defender scan: a signature update, then a quick
/// scan.
pub fn defender_scan_commands(exe: &str) -> (r: (ShellCommand, ShellCommand))
    ensures
        r.0.program@ == "powershell.exe"@,
        texts(r.0.args@) == defender_args_of(exe@, "-SignatureUpdate"@),
        r.1.program@ == "powershell.exe"@,
        texts(r.1.args@) == defender_args_of(exe@, "-Scan -ScanType 1"@),
{
    (defender_command(exe, "-SignatureUpdate"), defender_command(exe, "-Scan -ScanType 1"))
}

} // verus!
