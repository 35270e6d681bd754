//! Paths as strings: joining, parents, extensions, and the layout of the
//! application's data directory.

use crate::text::push_char;
use vstd::prelude::*;

verus! {

/// Whether `c` separates path components (either slash is accepted).
pub open spec fn is_sep(c: char) -> bool {
    c == '/' || c == '\\'
}

/// The index of the last character of `s` equal to `a` or `b`, or -1.
pub open spec fn last_of(s: Seq<char>, a: char, b: char) -> int
    decreases s.len(),
{
    if s.len() == 0 {
        -1
    } else if s.last() == a || s.last() == b {
        s.len() - 1
    } else {
        last_of(s.drop_last(), a, b)
    }
}

proof fn lemma_last_of(s: Seq<char>, a: char, b: char, j: int)
    requires
        -1 <= j < s.len(),
        j >= 0 ==> (s[j] == a || s[j] == b),
        forall|k: int| j < k < s.len() ==> !(s[k] == a || s[k] == b),
    ensures
        last_of(s, a, b) == j,
    decreases s.len(),
{
    if s.len() > 0 && j < s.len() - 1 {
        assert(!(s.last() == a || s.last() == b));
        lemma_last_of(s.drop_last(), a, b, j);
    }
}

/// `base` and `name` joined by `sep`: no separator is added where `base` is
/// empty or already ends with one.
pub open spec fn joined_with(base: Seq<char>, name: Seq<char>, sep: char) -> Seq<char> {
    if base.len() == 0 {
        name
    } else if is_sep(base.last()) {
        base + name
    } else {
        base.push(sep) + name
    }
}

/// Joins `name` to `base` with `sep`.
pub fn join_with(base: &str, name: &str, sep: char) -> (r: String)
    ensures
        r@ == joined_with(base@, name@, sep),
{
    let n = base.unicode_len();
    let mut s = String::from_str(base);
    if n > 0 {
        let last = base.get_char(n - 1);
        if !(last == '/' || last == '\\') {
            push_char(&mut s, sep);
        }
    }
    s.append(name);
    s
}

/// Joins `name` to `base` with `/`, which every supported platform accepts.
pub fn join_path(base: &str, name: &str) -> (r: String)
    ensures
        r@ == joined_with(base@, name@, '/'),
{
    join_with(base, name, '/')
}

/// The four standard folders under the data root: reports, programs,
/// settings and resources.
pub fn subdirs(data_root: &str) -> (r: (String, String, String, String))
    ensures
        r.0@ == joined_with(data_root@, "reports"@, '/'),
        r.1@ == joined_with(data_root@, "programs"@, '/'),
        r.2@ == joined_with(data_root@, "settings"@, '/'),
        r.3@ == joined_with(data_root@, "resources"@, '/'),
{
    (
        join_path(data_root, "reports"),
        join_path(data_root, "programs"),
        join_path(data_root, "settings"),
        join_path(data_root, "resources"),
    )
}

/// The settings folder under the data root.
pub open spec fn settings_dir(data_root: Seq<char>) -> Seq<char> {
    joined_with(data_root, "settings"@, '/')
}

/// The file `name` in the settings folder under the data root.
fn settings_file(data_root: &str, name: &str) -> (r: String)
    ensures
        r@ == joined_with(settings_dir(data_root@), name@, '/'),
{
    let (_reports, _programs, settings, _resources) = subdirs(data_root);
    join_path(settings.as_str(), name)
}

/// Where the saved programs are listed.
pub fn programs_json_path(data_root: &str) -> (r: String)
    ensures
        r@ == joined_with(settings_dir(data_root@), "programs.json"@, '/'),
{
    settings_file(data_root, "programs.json")
}

/// Where the saved scripts are listed.
pub fn scripts_json_path(data_root: &str) -> (r: String)
    ensures
        r@ == joined_with(settings_dir(data_root@), "scripts.json"@, '/'),
{
    settings_file(data_root, "scripts.json")
}

/// Where the application settings are kept.
pub fn settings_file_path(data_root: &str) -> (r: String)
    ensures
        r@ == joined_with(settings_dir(data_root@), "app_settings.json"@, '/'),
{
    settings_file(data_root, "app_settings.json")
}

/// Where the history of task durations is kept.
pub fn task_times_file_path(data_root: &str) -> (r: String)
    ensures
        r@ == joined_with(settings_dir(data_root@), "task_times.json"@, '/'),
{
    settings_file(data_root, "task_times.json")
}

/// `s` without the separators at its end.
pub open spec fn trim_end_seps(s: Seq<char>) -> Seq<char>
    decreases s.len(),
{
    if s.len() > 0 && is_sep(s.last()) {
        trim_end_seps(s.drop_last())
    } else {
        s
    }
}

/// The index of the last separator of `s`, or -1.
pub open spec fn last_sep(s: Seq<char>) -> int {
    last_of(s, '/', '\\')
}

/// The folder that holds `p`: `p` without trailing separators and without
/// its last component. A single component has the empty parent; a root (or
/// the empty path) has none.
pub open spec fn parent_of(p: Seq<char>) -> Option<Seq<char>> {
    let q = trim_end_seps(p);
    let k = last_sep(q);
    if q.len() == 0 {
        None
    } else if k < 0 {
        Some(Seq::empty())
    } else if k == 0 {
        Some(q.subrange(0, 1))
    } else {
        Some(q.subrange(0, k))
    }
}

/// The index of the last character of `s[..end]` equal to `a` or `b`.
pub(crate) fn find_last_in(s: &str, end: usize, a: char, b: char) -> (r: Option<usize>)
    requires
        end <= s@.len(),
    ensures
        match r {
            Some(k) => k < end && last_of(s@.subrange(0, end as int), a, b) == k,
            None => last_of(s@.subrange(0, end as int), a, b) == -1,
        },
{
    let ghost t = s@.subrange(0, end as int);
    let mut i: usize = end;
    while i > 0
        invariant
            i <= end <= s@.len(),
            t == s@.subrange(0, end as int),
            forall|k: int| i <= k < end ==> !(t[k] == a || t[k] == b),
        decreases i,
    {
        let c = s.get_char(i - 1);
        if c == a || c == b {
            proof {
                lemma_last_of(t, a, b, i - 1);
            }
            return Some(i - 1);
        }
        i = i - 1;
    }
    proof {
        lemma_last_of(t, a, b, -1);
    }
    None
}

/// The length of `s` without the separators at its end.
pub(crate) fn trimmed_end_len(s: &str) -> (r: usize)
    ensures
        r <= s@.len(),
        trim_end_seps(s@) == s@.subrange(0, r as int),
{
    let n = s.unicode_len();
    assert(s@.subrange(0, n as int) =~= s@);
    let mut i: usize = n;
    while i > 0 && (s.get_char(i - 1) == '/' || s.get_char(i - 1) == '\\')
        invariant
            i <= n == s@.len(),
            trim_end_seps(s@) == trim_end_seps(s@.subrange(0, i as int)),
        decreases i,
    {
        assert(s@.subrange(0, i as int).drop_last() =~= s@.subrange(0, i - 1));
        i = i - 1;
    }
    i
}

/// The folder that holds `p` (see `parent_of`).
pub fn parent_path(p: &str) -> (r: Option<String>)
    ensures
        match r {
            Some(s) => parent_of(p@) == Some(s@),
            None => parent_of(p@) is None,
        },
{
    let len = trimmed_end_len(p);
    if len == 0 {
        return None;
    }
    let ghost q = p@.subrange(0, len as int);
    assert(q.subrange(0, len as int) =~= q);
    match find_last_in(p, len, '/', '\\') {
        None => {
            assert(last_sep(q) == -1);
            Some(String::new())
        },
        Some(k) => {
            if k == 0 {
                assert(q.subrange(0, 1) =~= p@.subrange(0, 1));
                Some(String::from_str(p.substring_char(0, 1)))
            } else {
                assert(q.subrange(0, k as int) =~= p@.subrange(0, k as int));
                Some(String::from_str(p.substring_char(0, k)))
            }
        },
    }
}

/// `p` with the extension of its last component replaced by `ext`: the
/// extension starts at the last `.` of that component, unless the `.` opens
/// it; a component without extension gets one.
pub open spec fn with_extension(p: Seq<char>, ext: Seq<char>) -> Seq<char> {
    let s = last_sep(p);
    let d = last_of(p, '.', '.');
    if d > s + 1 {
        p.subrange(0, d).push('.') + ext
    } else {
        p.push('.') + ext
    }
}

/// Replaces the extension of the last component of `p` by `ext`.
pub fn replace_extension(p: &str, ext: &str) -> (r: String)
    ensures
        r@ == with_extension(p@, ext@),
{
    let n = p.unicode_len();
    assert(p@.subrange(0, n as int) =~= p@);
    let s = find_last_in(p, n, '/', '\\');
    let d = find_last_in(p, n, '.', '.');
    let start: usize = match s {
        Some(k) => k + 1,
        None => 0,
    };
    let mut r = match d {
        Some(k) => if k > start {
            String::from_str(p.substring_char(0, k))
        } else {
            String::from_str(p)
        },
        None => String::from_str(p),
    };
    push_char(&mut r, '.');
    r.append(ext);
    r
}

/// The last component of `p`, trailing separators aside, if it has one (a
/// root, or the empty path, has none).
pub open spec fn file_name_of(p: Seq<char>) -> Option<Seq<char>> {
    let q = trim_end_seps(p);
    let k = last_sep(q);
    if k + 1 < q.len() {
        Some(q.subrange(k + 1, q.len() as int))
    } else {
        None
    }
}

/// The last component of `p` (see `file_name_of`).
pub fn file_name(p: &str) -> (r: Option<String>)
    ensures
        match r {
            Some(s) => file_name_of(p@) == Some(s@),
            None => file_name_of(p@) is None,
        },
{
    let n = trimmed_end_len(p);
    let ghost q = p@.subrange(0, n as int);
    assert(q.subrange(0, n as int) =~= q);
    let s = find_last_in(p, n, '/', '\\');
    let start: usize = match s {
        Some(k) => k + 1,
        None => 0,
    };
    if start < n {
        assert(q.subrange(start as int, n as int) =~= p@.subrange(start as int, n as int));
        Some(String::from_str(p.substring_char(start, n)))
    } else {
        None
    }
}

/// Joins the data root and a path relative to it.
pub fn in_data_root(data_root: &str, rel: &str) -> (r: String)
    ensures
        r@ == joined_with(data_root@, rel@, '/'),
{
    join_path(data_root, rel)
}

/// A path under the data root written portably: `data/` and the relative
/// path with forward slashes.
pub fn portable_form(rel: &str) -> (r: String)
    ensures
        r@ == "data/"@ + rel@.map_values(|c: char| if c == '\\' { '/' } else { c }),
{
    let n = rel.unicode_len();
    let mut s = String::from_str("data/");
    let ghost start = s@;
    let mut i: usize = 0;
    while i < n
        invariant
            n == rel@.len(),
            i <= n,
            start == "data/"@,
            s@ == start + rel@.subrange(0, i as int).map_values(
                |c: char| if c == '\\' { '/' } else { c },
            ),
        decreases n - i,
    {
        let c = rel.get_char(i);
        push_char(&mut s, if c == '\\' { '/' } else { c });
        assert(rel@.subrange(0, i + 1).map_values(|c: char| if c == '\\' { '/' } else { c })
            =~= rel@.subrange(0, i as int).map_values(
            |c: char| if c == '\\' { '/' } else { c },
        ).push(if c == '\\' { '/' } else { c }));
        i = i + 1;
    }
    assert(rel@.subrange(0, n as int) =~= rel@);
    s
}

} // verus!
