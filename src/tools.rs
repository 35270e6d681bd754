//! Which of the known tools are available, matched among the saved
//! programs by name and executable path.

use crate::models::ToolStatus;
use crate::text::{has_prefix, is_alnum, alphanumeric, lower_of, lowercase, starts_with};
use crate::shortcuts::same_text;
use vstd::prelude::*;

verus! {

/// Whether `s[i..j]` is one of the pieces that splitting `s` at every
/// non-alphanumeric character gives.
pub open spec fn is_piece(s: Seq<char>, i: int, j: int) -> bool {
    0 <= i <= j <= s.len() && (i == 0 || !alphanumeric(s[i - 1])) && (j == s.len()
        || !alphanumeric(s[j])) && forall|k: int| i <= k < j ==> alphanumeric(s[k])
}

/// Whether `w` is one of the pieces of `s` split at non-alphanumeric
/// characters.
pub open spec fn has_word(s: Seq<char>, w: Seq<char>) -> bool {
    exists|i: int, j: int| is_piece(s, i, j) && s.subrange(i, j) == w
}

/// Whether `w` is one of the pieces of `s` split at non-alphanumeric
/// characters.
pub fn contains_word(s: &str, w: &str) -> (r: bool)
    ensures
        r == has_word(s@, w@),
{
    let n = s.unicode_len();
    let mut start: usize = 0;
    let mut j: usize = 0;
    while j <= n
        invariant
            n == s@.len(),
            start <= j <= n,
            start == 0 || (start <= n && !alphanumeric(s@[start - 1])),
            forall|k: int| start <= k < j ==> alphanumeric(s@[k]),
            forall|a: int, b: int| is_piece(s@, a, b) && b < j ==> s@.subrange(a, b) != w@,
        decreases n - j,
    {
        let boundary = j == n || !is_alnum(s.get_char(j));
        if boundary {
            proof {
                assert forall|a: int| is_piece(s@, a, j as int) implies a == start by {
                    if a < start {
                        assert(!alphanumeric(s@[start - 1]));
                    } else if a > start {
                        assert(!alphanumeric(s@[a - 1]));
                    }
                }
            }
            let piece = s.substring_char(start, j);
            if same_text(piece, w) {
                assert(is_piece(s@, start as int, j as int));
                return true;
            }
            if j == n {
                return false;
            }
            start = j + 1;
        }
        j = j + 1;
    }
    false
}

/// The score of a saved program for a known tool, all texts in lower case:
/// 1000 where the program's name starts with the key, 500 where it is the
/// key or the tool's name, 100 where the key is a word of the program's name,
/// 50 where it is a word of its executable path.
pub open spec fn tool_score(key: Seq<char>, name: Seq<char>, p_name: Seq<char>, p_exe: Seq<char>) -> int {
    (if has_prefix(p_name, key) {
        1000int
    } else {
        0int
    }) + (if p_name == key || p_name == name {
        500int
    } else {
        0int
    }) + (if has_word(p_name, key) {
        100int
    } else {
        0int
    }) + (if has_word(p_exe, key) {
        50int
    } else {
        0int
    })
}

/// Scores a saved program for a known tool (see `tool_score`).
pub fn score_candidate(key: &str, name: &str, p_name: &str, p_exe: &str) -> (r: u32)
    ensures
        r as int == tool_score(key@, name@, p_name@, p_exe@),
{
    let mut score: u32 = 0;
    if starts_with(p_name, key) {
        score = score + 1000;
    }
    if same_text(p_name, key) || same_text(p_name, name) {
        score = score + 500;
    }
    if contains_word(p_name, key) {
        score = score + 100;
    }
    if contains_word(p_exe, key) {
        score = score + 50;
    }
    score
}

/// A saved program as matched: its name and executable path, the executable
/// resolved against the data folder, and whether that file exists.
#[derive(Clone, Debug)]
pub struct ToolCandidate {
    pub name: String,
    pub exe_path: String,
    pub resolved_path: String,
    pub exists: bool,
}

/// Whether `i` is the best candidate for the scores `sc`: its score is
/// positive and the highest, and every earlier one scores less.
pub open spec fn is_best(sc: Seq<int>, i: int) -> bool {
    0 <= i < sc.len() && sc[i] > 0 && (forall|j: int| 0 <= j < sc.len() ==> sc[j] <= sc[i]) && (
    forall|j: int| 0 <= j < i ==> sc[j] < sc[i])
}

/// The scores of the candidates for a tool.
pub open spec fn scores_of(key: Seq<char>, name: Seq<char>, cands: Seq<ToolCandidate>) -> Seq<int> {
    Seq::new(
        cands.len(),
        |i: int| tool_score(lower_of(key), lower_of(name), lower_of(cands[i].name@), lower_of(cands[i].exe_path@)),
    )
}

/// The status of one known tool: the best candidate's executable and
/// whether it exists, or nothing found where no candidate scores.
pub open spec fn status_fits(
    s: ToolStatus,
    key: Seq<char>,
    name: Seq<char>,
    hint: Seq<char>,
    cands: Seq<ToolCandidate>,
) -> bool {
    let sc = scores_of(key, name, cands);
    &&& s.key@ == key
    &&& s.name@ == name
    &&& s.hint matches Some(h) && h@ == hint
    &&& match s.path {
        Some(p) => exists|i: int| is_best(sc, i) && p@ == cands[i].resolved_path@ && s.exists
            == cands[i].exists,
        None => !s.exists && forall|j: int| 0 <= j < sc.len() ==> sc[j] <= 0,
    }
}

/// The status of the known tool `key` among the saved programs.
pub fn tool_status(key: &str, name: &str, hint: &str, cands: &Vec<ToolCandidate>) -> (r: ToolStatus)
    ensures
        status_fits(r, key@, name@, hint@, cands@),
{
    let ghost sc = scores_of(key@, name@, cands@);
    let key_l = lowercase(key);
    let name_l = lowercase(name);
    let mut best: Option<usize> = None;
    let mut best_score: u32 = 0;
    let mut i: usize = 0;
    while i < cands.len()
        invariant
            i <= cands@.len(),
            sc == scores_of(key@, name@, cands@),
            key_l@ == lower_of(key@),
            name_l@ == lower_of(name@),
            best_score as int <= 1650,
            match best {
                Some(b) => b < i && best_score as int == sc[b as int] && best_score > 0 && (forall|j: int|
                    0 <= j < i ==> sc[j] <= sc[b as int]) && (forall|j: int|
                    0 <= j < b ==> sc[j] < sc[b as int]),
                None => best_score == 0 && forall|j: int| 0 <= j < i ==> sc[j] <= 0,
            },
        decreases cands@.len() - i,
    {
        let p_name = lowercase(cands[i].name.as_str());
        let p_exe = lowercase(cands[i].exe_path.as_str());
        let score = score_candidate(key_l.as_str(), name_l.as_str(), p_name.as_str(), p_exe.as_str());
        assert(score as int == sc[i as int]);
        if score > best_score {
            best = Some(i);
            best_score = score;
        }
        i = i + 1;
    }
    let (path, exists) = match best {
        Some(b) => (Some(String::from_str(cands[b].resolved_path.as_str())), cands[b].exists),
        None => (None, false),
    };
    let r = ToolStatus {
        key: String::from_str(key),
        name: String::from_str(name),
        exists,
        path,
        hint: Some(String::from_str(hint)),
    };
    proof {
        if let Some(b) = best {
            assert(is_best(sc, b as int));
        }
    }
    r
}

/// The known tools, as key, display name and usual executable.
pub open spec fn known_tools() -> Seq<(Seq<char>, Seq<char>, Seq<char>)> {
    seq![
        ("ccleaner"@, "CCleaner"@, "CCleaner.exe"@),
        ("bleachbit"@, "BleachBit"@, "bleachbit.exe"@),
        ("adwcleaner"@, "AdwCleaner"@, "adwcleaner.exe"@),
        ("clamav"@, "ClamAV"@, "clamscan.exe"@),
        ("kvrt"@, "KVRT"@, "KVRT.exe"@),
        ("trellix_stinger"@, "Trellix Stinger"@, "stinger64.exe"@),
        ("defender"@, "Windows Defender (MpCmdRun)"@, "MpCmdRun.exe"@),
        ("furmark2"@, "Furmark 2"@, "FurMark.exe"@),
        ("smartctl"@, "smartctl"@, "smartctl.exe"@),
        ("prime95"@, "Prime95"@, "prime95.exe"@),
        ("sdi"@, "Snappy Driver Installer"@, "SDI.exe"@),
        ("gsmartcontrol"@, "GSmartControl"@, "gsmartcontrol.exe"@),
        ("err"@, "Microsoft Error Lookup Tool"@, "Err_6.4.5.exe"@),
        ("heavyload"@, "HeavyLoad"@, "heavyload.exe"@),
        ("furmark"@, "FurMark"@, "furmark.exe"@),
        ("iperf3"@, "iPerf3"@, "iperf3.exe"@),
        ("whynotwin11"@, "WhyNotWin11 Portable"@, "WhyNotWin11Portable.exe"@),
        ("drivecleanup"@, "DriveCleanup"@, "DriveCleanup.exe"@),
    ]
}

/// A known tool, as plain texts.
#[derive(Clone, Debug)]
pub struct KnownTool {
    pub key: String,
    pub name: String,
    pub hint: String,
}

/// The view of the known-tool table.
pub open spec fn tool_views(t: Seq<KnownTool>) -> Seq<(Seq<char>, Seq<char>, Seq<char>)> {
    t.map_values(|k: KnownTool| (k.key@, k.name@, k.hint@))
}

fn push_tool(t: &mut Vec<KnownTool>, key: &str, name: &str, hint: &str)
    ensures
        tool_views(final(t)@) == tool_views(old(t)@).push((key@, name@, hint@)),
{
    let ghost before = t@;
    t.push(
        KnownTool {
            key: String::from_str(key),
            name: String::from_str(name),
            hint: String::from_str(hint),
        },
    );
    assert(tool_views(t@) =~= tool_views(before).push((key@, name@, hint@)));
}

/// The known tools, in the order the pages ask for them.
pub fn known_tool_table() -> (r: Vec<KnownTool>)
    ensures
        tool_views(r@) == known_tools(),
{
    let mut t: Vec<KnownTool> = Vec::new();
    push_tool(&mut t, "ccleaner", "CCleaner", "CCleaner.exe");
    push_tool(&mut t, "bleachbit", "BleachBit", "bleachbit.exe");
    push_tool(&mut t, "adwcleaner", "AdwCleaner", "adwcleaner.exe");
    push_tool(&mut t, "clamav", "ClamAV", "clamscan.exe");
    push_tool(&mut t, "kvrt", "KVRT", "KVRT.exe");
    push_tool(&mut t, "trellix_stinger", "Trellix Stinger", "stinger64.exe");
    push_tool(&mut t, "defender", "Windows Defender (MpCmdRun)", "MpCmdRun.exe");
    push_tool(&mut t, "furmark2", "Furmark 2", "FurMark.exe");
    push_tool(&mut t, "smartctl", "smartctl", "smartctl.exe");
    push_tool(&mut t, "prime95", "Prime95", "prime95.exe");
    push_tool(&mut t, "sdi", "Snappy Driver Installer", "SDI.exe");
    push_tool(&mut t, "gsmartcontrol", "GSmartControl", "gsmartcontrol.exe");
    push_tool(&mut t, "err", "Microsoft Error Lookup Tool", "Err_6.4.5.exe");
    push_tool(&mut t, "heavyload", "HeavyLoad", "heavyload.exe");
    push_tool(&mut t, "furmark", "FurMark", "furmark.exe");
    push_tool(&mut t, "iperf3", "iPerf3", "iperf3.exe");
    push_tool(&mut t, "whynotwin11", "WhyNotWin11 Portable", "WhyNotWin11Portable.exe");
    push_tool(&mut t, "drivecleanup", "DriveCleanup", "DriveCleanup.exe");
    assert(tool_views(t@) =~= known_tools());
    t
}

/// The status of each known tool, in table order, matched among the saved
/// programs.
pub fn get_tool_statuses(cands: &Vec<ToolCandidate>) -> (r: Vec<ToolStatus>)
    ensures
        r@.len() == known_tools().len(),
        forall|i: int|
            0 <= i < r@.len() ==> status_fits(
                r@[i],
                known_tools()[i].0,
                known_tools()[i].1,
                known_tools()[i].2,
                cands@,
            ),
{
    let table = known_tool_table();
    let mut out: Vec<ToolStatus> = Vec::new();
    let mut i: usize = 0;
    while i < table.len()
        invariant
            i <= table@.len(),
            tool_views(table@) == known_tools(),
            out@.len() == i,
            forall|k: int|
                0 <= k < i ==> status_fits(
                    out@[k],
                    known_tools()[k].0,
                    known_tools()[k].1,
                    known_tools()[k].2,
                    cands@,
                ),
        decreases table@.len() - i,
    {
        let s = tool_status(
            table[i].key.as_str(),
            table[i].name.as_str(),
            table[i].hint.as_str(),
            cands,
        );
        assert(tool_views(table@)[i as int] == (table@[i as int].key@, table@[i as int].name@, table@[i as int].hint@));
        out.push(s);
        i = i + 1;
    }
    out
}

} // verus!
