//! Saved programs: keeping their list, storing their executables relative
//! to the data root, and resolving them again.

use crate::network::PathStyle;
use crate::paths::{is_sep, join_path, joined_with, trim_end_seps, trimmed_end_len};
use crate::scripts::{is_windows_absolute, windows_absolute, ScriptEntry};
use crate::shortcuts::{texts, ShellCommand};
use crate::text::{concat2, concat3, escape_text, escape_with, tail_from};
use vstd::prelude::*;

verus! {

/// A saved program. Its id is the 128-bit value of its UUID.
#[derive(Clone, Debug)]
pub struct ProgramEntry {
    pub id: u128,
    pub name: String,
    pub version: String,
    pub description: String,
    pub exe_path: String,
    pub logo_data_url: String,
    pub exe_exists: bool,
    pub launch_count: u32,
}

/// The index of the first program of `s` with id `id`, or -1.
pub open spec fn first_program(s: Seq<ProgramEntry>, id: u128) -> int
    decreases s.len(),
{
    if s.len() == 0 {
        -1
    } else if s[0].id == id {
        0
    } else {
        let k = first_program(s.drop_first(), id);
        if k < 0 {
            -1
        } else {
            k + 1
        }
    }
}

proof fn lemma_first_program(s: Seq<ProgramEntry>, id: u128, j: int)
    requires
        -1 <= j < s.len(),
        forall|k: int| 0 <= k < s.len() && (j < 0 || k < j) ==> s[k].id != id,
        j >= 0 ==> s[j].id == id,
    ensures
        first_program(s, id) == j,
    decreases s.len(),
{
    if s.len() > 0 && j != 0 {
        lemma_first_program(s.drop_first(), id, if j < 0 { -1 } else { j - 1 });
    }
}

/// The index of the first script of `s` with id `id`, or -1.
pub open spec fn first_script(s: Seq<ScriptEntry>, id: u128) -> int
    decreases s.len(),
{
    if s.len() == 0 {
        -1
    } else if s[0].id == id {
        0
    } else {
        let k = first_script(s.drop_first(), id);
        if k < 0 {
            -1
        } else {
            k + 1
        }
    }
}

proof fn lemma_first_script(s: Seq<ScriptEntry>, id: u128, j: int)
    requires
        -1 <= j < s.len(),
        forall|k: int| 0 <= k < s.len() && (j < 0 || k < j) ==> s[k].id != id,
        j >= 0 ==> s[j].id == id,
    ensures
        first_script(s, id) == j,
    decreases s.len(),
{
    if s.len() > 0 && j != 0 {
        lemma_first_script(s.drop_first(), id, if j < 0 { -1 } else { j - 1 });
    }
}

/// The list after saving `p`: an entry with the same id is replaced, keeping
/// its launch count; else `p` is added at the end.
pub open spec fn programs_after_save(list: Seq<ProgramEntry>, p: ProgramEntry) -> Seq<ProgramEntry> {
    let k = first_program(list, p.id);
    if k >= 0 {
        list.update(k, ProgramEntry { launch_count: list[k].launch_count, ..p })
    } else {
        list.push(p)
    }
}

fn find_program(list: &Vec<ProgramEntry>, id: u128) -> (r: Option<usize>)
    ensures
        match r {
            Some(k) => k < list@.len() && first_program(list@, id) == k,
            None => first_program(list@, id) == -1,
        },
{
    let mut i: usize = 0;
    while i < list.len()
        invariant
            i <= list@.len(),
            forall|k: int| 0 <= k < i ==> list@[k].id != id,
        decreases list@.len() - i,
    {
        if list[i].id == id {
            proof {
                lemma_first_program(list@, id, i as int);
            }
            return Some(i);
        }
        i = i + 1;
    }
    proof {
        lemma_first_program(list@, id, -1);
    }
    None
}

/// Saves a program into the list: it replaces the entry with the same id,
/// whose launch count it keeps, or is added at the end.
pub fn save_program(list: &mut Vec<ProgramEntry>, program: ProgramEntry)
    ensures
        final(list)@ == programs_after_save(old(list)@, program),
{
    match find_program(list, program.id) {
        Some(k) => {
            let count = list[k].launch_count;
            let mut p = program;
            p.launch_count = count;
            list.set(k, p);
        },
        None => {
            list.push(program);
        },
    }
}

/// `s` without the programs whose id is `id`.
pub open spec fn programs_without(s: Seq<ProgramEntry>, id: u128) -> Seq<ProgramEntry>
    decreases s.len(),
{
    if s.len() == 0 {
        s
    } else {
        let rest = programs_without(s.drop_last(), id);
        if s.last().id == id {
            rest
        } else {
            rest.push(s.last())
        }
    }
}

/// `s` without the scripts whose id is `id`.
pub open spec fn scripts_without(s: Seq<ScriptEntry>, id: u128) -> Seq<ScriptEntry>
    decreases s.len(),
{
    if s.len() == 0 {
        s
    } else {
        let rest = scripts_without(s.drop_last(), id);
        if s.last().id == id {
            rest
        } else {
            rest.push(s.last())
        }
    }
}

/// Removes the programs whose id is `id`, keeping the order of the others.
pub fn remove_program(list: Vec<ProgramEntry>, id: u128) -> (r: Vec<ProgramEntry>)
    ensures
        r@ == programs_without(list@, id),
{
    let ghost orig = list@;
    let mut rest = list;
    let mut r: Vec<ProgramEntry> = Vec::new();
    let ghost mut i: int = 0;
    while rest.len() > 0
        invariant
            0 <= i <= orig.len(),
            rest@ == orig.subrange(i, orig.len() as int),
            r@ == programs_without(orig.subrange(0, i), id),
        decreases rest.len(),
    {
        let e = rest.remove(0);
        proof {
            assert(orig.subrange(0, i + 1).drop_last() =~= orig.subrange(0, i));
            assert(e == orig[i]);
        }
        if e.id != id {
            r.push(e);
        }
        proof {
            assert(rest@ =~= orig.subrange(i + 1, orig.len() as int));
            i = i + 1;
        }
    }
    assert(orig.subrange(0, orig.len() as int) =~= orig);
    r
}

/// Counts a launch of the program `id`: the first entry with that id has
/// its launch count raised by one, staying at the largest count once there.
pub fn record_launch(list: &mut Vec<ProgramEntry>, id: u128)
    ensures
        ({
            let k = first_program(old(list)@, id);
            if k >= 0 {
                final(list)@ == old(list)@.update(
                    k,
                    ProgramEntry {
                        launch_count: if old(list)@[k].launch_count == u32::MAX {
                            u32::MAX
                        } else {
                            (old(list)@[k].launch_count + 1) as u32
                        },
                        ..old(list)@[k]
                    },
                )
            } else {
                final(list)@ == old(list)@
            }
        }),
{
    if let Some(k) = find_program(list, id) {
        let ghost before = list@;
        let mut p = list.remove(k);
        p.launch_count = p.launch_count.saturating_add(1);
        list.insert(k, p);
        proof {
            assert(list@ =~= before.update(k as int, p));
        }
    }
}

/// The list after saving the script `s`: it replaces the entry with the same
/// id, or is added at the end.
pub open spec fn scripts_after_save(list: Seq<ScriptEntry>, s: ScriptEntry) -> Seq<ScriptEntry> {
    let k = first_script(list, s.id);
    if k >= 0 {
        list.update(k, s)
    } else {
        list.push(s)
    }
}

/// Saves a script into the list: it replaces the entry with the same id, or
/// is added at the end.
pub fn save_script(list: &mut Vec<ScriptEntry>, script: ScriptEntry)
    ensures
        final(list)@ == scripts_after_save(old(list)@, script),
{
    let mut i: usize = 0;
    while i < list.len()
        invariant
            i <= list@.len(),
            list@ == old(list)@,
            forall|k: int| 0 <= k < i ==> list@[k].id != script.id,
        decreases list@.len() - i,
    {
        if list[i].id == script.id {
            proof {
                lemma_first_script(list@, script.id, i as int);
            }
            list.set(i, script);
            return;
        }
        i = i + 1;
    }
    proof {
        lemma_first_script(list@, script.id, -1);
    }
    list.push(script);
}

/// Removes the scripts whose id is `id`, keeping the order of the others.
pub fn remove_script(list: Vec<ScriptEntry>, id: u128) -> (r: Vec<ScriptEntry>)
    ensures
        r@ == scripts_without(list@, id),
{
    let ghost orig = list@;
    let mut rest = list;
    let mut r: Vec<ScriptEntry> = Vec::new();
    let ghost mut i: int = 0;
    while rest.len() > 0
        invariant
            0 <= i <= orig.len(),
            rest@ == orig.subrange(i, orig.len() as int),
            r@ == scripts_without(orig.subrange(0, i), id),
        decreases rest.len(),
    {
        let e = rest.remove(0);
        proof {
            assert(orig.subrange(0, i + 1).drop_last() =~= orig.subrange(0, i));
            assert(e == orig[i]);
        }
        if e.id != id {
            r.push(e);
        }
        proof {
            assert(rest@ =~= orig.subrange(i + 1, orig.len() as int));
            i = i + 1;
        }
    }
    assert(orig.subrange(0, orig.len() as int) =~= orig);
    r
}

/// Whether `p` is absolute in the given style: on Windows see
/// `windows_absolute`; elsewhere it starts with `/`.
pub open spec fn absolute_in(p: Seq<char>, style: PathStyle) -> bool {
    match style {
        PathStyle::Windows => windows_absolute(p),
        PathStyle::Posix => p.len() > 0 && p[0] == '/',
    }
}

/// Whether `p` is absolute in the given style (see `absolute_in`).
pub fn is_absolute_in(p: &str, style: PathStyle) -> (r: bool)
    ensures
        r == absolute_in(p@, style),
{
    match style {
        PathStyle::Windows => is_windows_absolute(p),
        PathStyle::Posix => p.unicode_len() > 0 && p.get_char(0) == '/',
    }
}

/// `s` without the separators at its start.
pub open spec fn drop_leading_seps(s: Seq<char>) -> Seq<char>
    decreases s.len(),
{
    if s.len() > 0 && is_sep(s[0]) {
        drop_leading_seps(s.drop_first())
    } else {
        s
    }
}

/// `path` relative to `root`, where `path` lies in `root`: `root` (trailing
/// separators aside) must be a prefix of `path` that ends at a component
/// boundary; the separators after it are dropped.
pub open spec fn relative_to(path: Seq<char>, root: Seq<char>) -> Option<Seq<char>> {
    let r = trim_end_seps(root);
    if r.len() <= path.len() && path.subrange(0, r.len() as int) == r && (path.len() == r.len()
        || is_sep(path[r.len() as int])) {
        Some(drop_leading_seps(path.subrange(r.len() as int, path.len() as int)))
    } else {
        None
    }
}

/// `path` relative to `root`, if it lies there (see `relative_to`).
pub fn strip_root(path: &str, root: &str) -> (r: Option<String>)
    ensures
        match r {
            Some(s) => relative_to(path@, root@) == Some(s@),
            None => relative_to(path@, root@) is None,
        },
{
    let m = trimmed_end_len(root);
    let n = path.unicode_len();
    if m > n {
        return None;
    }
    let mut i: usize = 0;
    while i < m
        invariant
            m <= n,
            n == path@.len(),
            m <= root@.len(),
            trim_end_seps(root@) == root@.subrange(0, m as int),
            i <= m,
            forall|j: int| 0 <= j < i ==> path@[j] == root@[j],
        decreases m - i,
    {
        if path.get_char(i) != root.get_char(i) {
            assert(path@.subrange(0, m as int)[i as int] != trim_end_seps(root@)[i as int]);
            return None;
        }
        i = i + 1;
    }
    assert(path@.subrange(0, m as int) =~= trim_end_seps(root@));
    if m < n {
        let c = path.get_char(m);
        if !(c == '/' || c == '\\') {
            return None;
        }
    }
    let mut k: usize = m;
    while k < n && (path.get_char(k) == '/' || path.get_char(k) == '\\')
        invariant
            m <= k <= n,
            n == path@.len(),
            drop_leading_seps(path@.subrange(m as int, n as int)) == drop_leading_seps(
                path@.subrange(k as int, n as int),
            ),
        decreases n - k,
    {
        assert(path@.subrange(k as int, n as int).drop_first() =~= path@.subrange(k + 1, n as int));
        k = k + 1;
    }
    Some(tail_from(path, k))
}

/// An executable path as stored: relative to the data root where it is an
/// absolute path inside it, else unchanged.
pub open spec fn stored_exe_path(exe: Seq<char>, data_root: Seq<char>, style: PathStyle) -> Seq<char> {
    if absolute_in(exe, style) && relative_to(exe, data_root) is Some {
        relative_to(exe, data_root)->0
    } else {
        exe
    }
}

/// Writes an executable path as stored (see `stored_exe_path`).
pub fn portable_exe_path(exe: &str, data_root: &str, style: PathStyle) -> (r: String)
    ensures
        r@ == stored_exe_path(exe@, data_root@, style),
{
    if is_absolute_in(exe, style) {
        if let Some(rel) = strip_root(exe, data_root) {
            return rel;
        }
    }
    String::from_str(exe)
}

/// Stores each program's executable relative to the data root where it
/// lies there. Returns whether any entry changed.
pub fn normalize_program_paths(list: &mut Vec<ProgramEntry>, data_root: &str, style: PathStyle) -> (changed: bool)
    ensures
        final(list)@.len() == old(list)@.len(),
        forall|i: int|
            0 <= i < final(list)@.len() ==> final(list)@[i] == (ProgramEntry {
                exe_path: final(list)@[i].exe_path,
                ..old(list)@[i]
            }) && final(list)@[i].exe_path@ == stored_exe_path(
                old(list)@[i].exe_path@,
                data_root@,
                style,
            ),
        changed <==> exists|i: int|
            0 <= i < old(list)@.len() && absolute_in(old(list)@[i].exe_path@, style) && relative_to(
                old(list)@[i].exe_path@,
                data_root@,
            ) is Some,
{
    let mut changed = false;
    let mut i: usize = 0;
    while i < list.len()
        invariant
            i <= list@.len() == old(list)@.len(),
            forall|j: int|
                0 <= j < i ==> list@[j] == (ProgramEntry { exe_path: list@[j].exe_path, ..old(list)@[j] })
                    && list@[j].exe_path@ == stored_exe_path(old(list)@[j].exe_path@, data_root@, style),
            forall|j: int| i <= j < list@.len() ==> list@[j] == old(list)@[j],
            changed <==> exists|j: int|
                0 <= j < i && absolute_in(old(list)@[j].exe_path@, style) && relative_to(
                    old(list)@[j].exe_path@,
                    data_root@,
                ) is Some,
        decreases list@.len() - i,
    {
        let ghost before = list@;
        let mut p = list.remove(i);
        let moved = is_absolute_in(p.exe_path.as_str(), style) && strip_root(
            p.exe_path.as_str(),
            data_root,
        ).is_some();
        let stored = portable_exe_path(p.exe_path.as_str(), data_root, style);
        p.exe_path = stored;
        list.insert(i, p);
        proof {
            assert(list@ =~= before.update(i as int, p));
            if moved {
                assert(absolute_in(old(list)@[i as int].exe_path@, style) && relative_to(
                    old(list)@[i as int].exe_path@,
                    data_root@,
                ) is Some);
            }
        }
        changed = changed || moved;
        i = i + 1;
    }
    changed
}

/// Where an executable is looked for: the given path where it is absolute;
/// else under the data root, then under the programs folder.
pub open spec fn exe_candidates_of(data_root: Seq<char>, exe: Seq<char>) -> (Seq<char>, Seq<char>) {
    (
        joined_with(data_root, exe, '/'),
        joined_with(joined_with(data_root, "programs"@, '/'), exe, '/'),
    )
}

/// The two places where a relative executable is looked for.
pub fn exe_candidates(data_root: &str, exe_path: &str) -> (r: (String, String))
    ensures
        (r.0@, r.1@) == exe_candidates_of(data_root@, exe_path@),
{
    let programs = join_path(data_root, "programs");
    (join_path(data_root, exe_path), join_path(programs.as_str(), exe_path))
}

/// The executable to use: the path itself where absolute; else the first
/// candidate that is a file, and the one under the data root where neither
/// is.
pub fn resolve_exe_path(
    data_root: &str,
    exe_path: &str,
    style: PathStyle,
    in_root_is_file: bool,
    in_programs_is_file: bool,
) -> (r: String)
    ensures
        r@ == (if absolute_in(exe_path@, style) {
            exe_path@
        } else if !in_root_is_file && in_programs_is_file {
            exe_candidates_of(data_root@, exe_path@).1
        } else {
            exe_candidates_of(data_root@, exe_path@).0
        }),
{
    if is_absolute_in(exe_path, style) {
        return String::from_str(exe_path);
    }
    let (in_root, in_programs) = exe_candidates(data_root, exe_path);
    if !in_root_is_file && in_programs_is_file {
        in_programs
    } else {
        in_root
    }
}


/// The PowerShell command that starts a program detached:
/// `Start-Process -FilePath "<exe>"`, with each backtick and double quote of
/// the path escaped by a backtick.
pub open spec fn launch_command_of(exe: Seq<char>) -> (Seq<char>, Seq<Seq<char>>) {
    let escaped = escape_with(exe, '`', "``"@, '"', "`\""@);
    (
        "powershell.exe"@,
        seq![
            "-NoProfile"@,
            "-WindowStyle"@,
            "Hidden"@,
            "-Command"@,
            "Start-Process -FilePath \""@ + escaped + "\""@,
        ],
    )
}

/// The command that launches a saved program, whose executable resolved to
/// `exe_full`; `exe_is_file` tells whether that file exists. A missing file
/// is an error that names it.
pub fn launch_program(exe_full: &str, exe_is_file: bool) -> (r: Result<ShellCommand, String>)
    ensures
        !exe_is_file ==> (r matches Err(m) && m@ == "Executable not found: "@ + exe_full@),
        exe_is_file ==> (r matches Ok(c) && (c.program@, texts(c.args@)) == launch_command_of(exe_full@)),
{
    if !exe_is_file {
        return Err(concat2("Executable not found: ", exe_full));
    }
    let escaped = escape_text(exe_full, '`', "``", '"', "`\"");
    let ps = concat3("Start-Process -FilePath \"", escaped.as_str(), "\"");
    let mut args: Vec<String> = Vec::new();
    args.push(String::from_str("-NoProfile"));
    args.push(String::from_str("-WindowStyle"));
    args.push(String::from_str("Hidden"));
    args.push(String::from_str("-Command"));
    args.push(ps);
    let r = ShellCommand { program: String::from_str("powershell.exe"), args };
    assert(texts(r.args@) =~= launch_command_of(exe_full@).1);
    Ok(r)
}

} // verus!
