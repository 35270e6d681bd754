//! Saved scripts and the command that runs one in a visible console.

use crate::network::{trim_ws, trimmed_ws, PathStyle};
use crate::programs::{absolute_in, is_absolute_in, portable_exe_path, stored_exe_path};
use crate::paths::{is_sep, join_path, join_with, joined_with};
use crate::shortcuts::{ps_quoted, quote_list, quoted_list, same_text, texts, ShellCommand};
use crate::text::{concat2, concat3, ends_with, has_prefix, has_suffix, lower_of, lowercase, starts_with};
use vstd::prelude::*;

verus! {

/// A saved script. Its id is the 128-bit value of its UUID.
#[derive(Clone, Debug)]
pub struct ScriptEntry {
    pub id: u128,
    pub name: String,
    pub version: String,
    pub description: String,
    /// `powershell`, `powershell-admin`, `cmd` or `cmd-admin`.
    pub runner: String,
    /// `file`, `link` or `inline`.
    pub source: String,
    pub path: String,
    pub url: String,
    pub inline: String,
    pub run_count: u32,
    pub path_exists: bool,
}

/// Whether `p` is an absolute Windows path: a drive letter, `:` and a
/// separator, or a path that starts with two separators (a share or a
/// device path).
pub open spec fn windows_absolute(p: Seq<char>) -> bool {
    (p.len() >= 3 && (('a' <= p[0] && p[0] <= 'z') || ('A' <= p[0] && p[0] <= 'Z')) && p[1] == ':'
        && is_sep(p[2])) || (p.len() >= 2 && is_sep(p[0]) && is_sep(p[1]))
}

/// Whether `p` is an absolute Windows path (see `windows_absolute`).
pub fn is_windows_absolute(p: &str) -> (r: bool)
    ensures
        r == windows_absolute(p@),
{
    let n = p.unicode_len();
    if n >= 3 {
        let c = p.get_char(0);
        let d = p.get_char(1);
        let e = p.get_char(2);
        if (('a' <= c && c <= 'z') || ('A' <= c && c <= 'Z')) && d == ':' && (e == '/' || e == '\\') {
            return true;
        }
    }
    if n >= 2 {
        let a = p.get_char(0);
        let b = p.get_char(1);
        return (a == '/' || a == '\\') && (b == '/' || b == '\\');
    }
    false
}

/// A script's path as run: kept where absolute, else under the data root.
pub open spec fn resolved_script_path(data_root: Seq<char>, path: Seq<char>) -> Seq<char> {
    if windows_absolute(path) {
        path
    } else {
        joined_with(data_root, path, '\\')
    }
}

/// The arguments of the console that runs a script: for `cmd`, `/K` and the
/// script (a file, `curl -sL <url> | cmd` for a link, or the inline text);
/// for PowerShell, `-NoExit -NoProfile -ExecutionPolicy Bypass` and then
/// `-File <path>`, `-Command Invoke-Expression (...)` for a link, or
/// `-Command <inline>`. A file whose path is blank is refused.
pub open spec fn console_args(
    is_cmd: bool,
    source: Seq<char>,
    path: Seq<char>,
    url: Seq<char>,
    inline: Seq<char>,
) -> Result<Seq<Seq<char>>, Seq<char>> {
    if source == "file"@ && trimmed_ws(path).len() == 0 {
        Err("Script path is empty"@)
    } else if is_cmd {
        let x = if source == "file"@ {
            path
        } else if source == "link"@ {
            "curl -sL "@ + url + " | cmd"@
        } else {
            inline
        };
        Ok(seq!["/K"@, x])
    } else {
        let head = seq!["-NoExit"@, "-NoProfile"@, "-ExecutionPolicy"@, "Bypass"@];
        let tail = if source == "file"@ {
            seq!["-File"@, path]
        } else if source == "link"@ {
            seq![
                "-Command"@,
                "Invoke-Expression (Invoke-WebRequest -UseBasicParsing -Uri '"@ + url
                    + "').Content"@,
            ]
        } else {
            seq!["-Command"@, inline]
        };
        Ok(head + tail)
    }
}

/// The command that opens a console running a script, given the runner in
/// lower case: PowerShell's `Start-Process` on `cmd.exe` (runner starting
/// with `cmd`) or `powershell.exe`, with `-Verb RunAs` for a runner ending
/// in `-admin`, each console argument single-quoted.
pub open spec fn script_command_of(
    runner_lower: Seq<char>,
    source: Seq<char>,
    path: Seq<char>,
    url: Seq<char>,
    inline: Seq<char>,
) -> Result<(Seq<char>, Seq<Seq<char>>), Seq<char>> {
    let is_cmd = has_prefix(runner_lower, "cmd"@);
    let is_admin = has_suffix(runner_lower, "-admin"@);
    match console_args(is_cmd, source, path, url, inline) {
        Err(e) => Err(e),
        Ok(inner) => {
            let target = if is_cmd {
                "cmd.exe"@
            } else {
                "powershell.exe"@
            };
            let verb = if is_admin {
                " -Verb RunAs"@
            } else {
                Seq::<char>::empty()
            };
            let ps = "Start-Process -FilePath "@ + ps_quoted(target) + verb + " -ArgumentList @("@
                + quoted_list(inner, ","@) + ")"@;
            Ok(
                (
                    "powershell.exe"@,
                    seq!["-NoProfile"@, "-ExecutionPolicy"@, "Bypass"@, "-Command"@, ps],
                ),
            )
        },
    }
}

fn push_text(v: &mut Vec<String>, w: String)
    ensures
        texts(final(v)@) == texts(old(v)@).push(w@),
{
    let ghost before = v@;
    v.push(w);
    assert(texts(v@) =~= texts(before).push(w@));
}

/// The command that runs a script, given its runner already in lower case
/// and its path already resolved (see `script_command_of`).
pub fn script_command(
    runner_lower: &str,
    source: &str,
    path: &str,
    url: &str,
    inline: &str,
) -> (r: Result<ShellCommand, String>)
    ensures
        match r {
            Ok(c) => script_command_of(runner_lower@, source@, path@, url@, inline@) == Ok::<
                (Seq<char>, Seq<Seq<char>>),
                Seq<char>,
            >((c.program@, texts(c.args@))),
            Err(e) => script_command_of(runner_lower@, source@, path@, url@, inline@) == Err::<
                (Seq<char>, Seq<Seq<char>>),
                Seq<char>,
            >(e@),
        },
{
    let is_cmd = starts_with(runner_lower, "cmd");
    let is_admin = ends_with(runner_lower, "-admin");
    let is_file = same_text(source, "file");
    let is_link = same_text(source, "link");
    if is_file {
        let t = trim_ws(path);
        if t.unicode_len() == 0 {
            return Err(String::from_str("Script path is empty"));
        }
    }
    let mut inner: Vec<String> = Vec::new();
    if is_cmd {
        push_text(&mut inner, String::from_str("/K"));
        let x = if is_file {
            String::from_str(path)
        } else if is_link {
            concat3("curl -sL ", url, " | cmd")
        } else {
            String::from_str(inline)
        };
        push_text(&mut inner, x);
    } else {
        push_text(&mut inner, String::from_str("-NoExit"));
        push_text(&mut inner, String::from_str("-NoProfile"));
        push_text(&mut inner, String::from_str("-ExecutionPolicy"));
        push_text(&mut inner, String::from_str("Bypass"));
        if is_file {
            push_text(&mut inner, String::from_str("-File"));
            push_text(&mut inner, String::from_str(path));
        } else if is_link {
            push_text(&mut inner, String::from_str("-Command"));
            push_text(
                &mut inner,
                concat3(
                    "Invoke-Expression (Invoke-WebRequest -UseBasicParsing -Uri '",
                    url,
                    "').Content",
                ),
            );
        } else {
            push_text(&mut inner, String::from_str("-Command"));
            push_text(&mut inner, String::from_str(inline));
        }
    }
    let ghost expected = console_args(is_cmd, source@, path@, url@, inline@);
    assert(expected == Ok::<Seq<Seq<char>>, Seq<char>>(texts(inner@))) by {
        assert(expected->Ok_0 =~= texts(inner@));
    }
    let target = if is_cmd {
        "cmd.exe"
    } else {
        "powershell.exe"
    };
    let mut ps = concat2("Start-Process -FilePath ", crate::shortcuts::ps_quote(target).as_str());
    if is_admin {
        ps.append(" -Verb RunAs");
    }
    ps.append(" -ArgumentList @(");
    let joined = quote_list(&inner, ",");
    ps.append(joined.as_str());
    ps.append(")");
    let ghost verb = if is_admin {
        " -Verb RunAs"@
    } else {
        Seq::<char>::empty()
    };
    assert(ps@ =~= "Start-Process -FilePath "@ + ps_quoted(target@) + verb + " -ArgumentList @("@
        + quoted_list(texts(inner@), ","@) + ")"@);
    let mut args: Vec<String> = Vec::new();
    push_text(&mut args, String::from_str("-NoProfile"));
    push_text(&mut args, String::from_str("-ExecutionPolicy"));
    push_text(&mut args, String::from_str("Bypass"));
    push_text(&mut args, String::from_str("-Command"));
    push_text(&mut args, ps);
    let r = ShellCommand { program: String::from_str("powershell.exe"), args };
    proof {
        let spec = script_command_of(runner_lower@, source@, path@, url@, inline@);
        assert(spec->Ok_0.1 =~= texts(r.args@));
    }
    Ok(r)
}

/// The command that runs `script`, its relative path taken under the data
/// root and its runner compared in lower case.
pub fn run_script(script: &ScriptEntry, data_root: &str) -> (r: Result<ShellCommand, String>)
    ensures
        match r {
            Ok(c) => script_command_of(
                lower_of(script.runner@),
                script.source@,
                resolved_script_path(data_root@, script.path@),
                script.url@,
                script.inline@,
            ) == Ok::<(Seq<char>, Seq<Seq<char>>), Seq<char>>((c.program@, texts(c.args@))),
            Err(e) => script_command_of(
                lower_of(script.runner@),
                script.source@,
                resolved_script_path(data_root@, script.path@),
                script.url@,
                script.inline@,
            ) == Err::<(Seq<char>, Seq<Seq<char>>), Seq<char>>(e@),
        },
{
    let runner = lowercase(script.runner.as_str());
    let path = if is_windows_absolute(script.path.as_str()) {
        String::from_str(script.path.as_str())
    } else {
        join_with(data_root, script.path.as_str(), '\\')
    };
    script_command(
        runner.as_str(),
        script.source.as_str(),
        path.as_str(),
        script.url.as_str(),
        script.inline.as_str(),
    )
}


/// The file whose existence a script's listing shows: for a file script,
/// its path, taken under the data root where relative; other scripts need
/// no file.
pub fn script_path_to_check(source: &str, path: &str, data_root: &str, style: PathStyle) -> (r: Option<String>)
    ensures
        source@ != "file"@ ==> r is None,
        source@ == "file"@ ==> (r matches Some(p) && p@ == (if absolute_in(path@, style) {
            path@
        } else {
            joined_with(data_root@, path@, '/')
        })),
{
    if !same_text(source, "file") {
        return None;
    }
    if is_absolute_in(path, style) {
        Some(String::from_str(path))
    } else {
        Some(join_path(data_root, path))
    }
}

/// A script's path as stored: a file script inside the data root is kept
/// relative to it; anything else is kept as given.
pub fn stored_script_path(source: &str, path: &str, data_root: &str, style: PathStyle) -> (r: String)
    ensures
        r@ == (if source@ == "file"@ {
            stored_exe_path(path@, data_root@, style)
        } else {
            path@
        }),
{
    if same_text(source, "file") {
        portable_exe_path(path, data_root, style)
    } else {
        String::from_str(path)
    }
}

} // verus!
