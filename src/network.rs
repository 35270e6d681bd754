//! Replicating saved reports to a network share: how share paths are
//! written, the reachability probe, and the walk that copies a report
//! folder under a deadline, logging each step.

use crate::paths::{file_name, file_name_of, join_with, joined_with};
use crate::text::{concat2, concat3, has_prefix, push_char, starts_with, tail_from};
use vstd::prelude::*;

verus! {

/// The path conventions of the host.
#[derive(Clone, Copy, Debug, PartialEq, Eq, Structural)]
pub enum PathStyle {
    /// Backslash separators, UNC shares, extended-length `\\?\` paths.
    Windows,
    /// Forward-slash separators.
    Posix,
}

/// The separator that a style puts between components.
pub open spec fn sep_of(style: PathStyle) -> char {
    match style {
        PathStyle::Windows => '\\',
        PathStyle::Posix => '/',
    }
}

impl PathStyle {
    /// The separator that this style puts between components.
    pub fn separator(&self) -> (r: char)
        ensures
            r == sep_of(*self),
    {
        match self {
            PathStyle::Windows => '\\',
            PathStyle::Posix => '/',
        }
    }
}

/// `s` with every `from` replaced by `to`.
pub open spec fn replaced(s: Seq<char>, from: char, to: char) -> Seq<char> {
    s.map_values(|c: char| if c == from { to } else { c })
}

/// Replaces every `from` in `s` by `to`.
pub fn replace_char(s: &str, from: char, to: char) -> (r: String)
    ensures
        r@ == replaced(s@, from, to),
{
    let n = s.unicode_len();
    let mut r = String::new();
    let mut i: usize = 0;
    while i < n
        invariant
            n == s@.len(),
            i <= n,
            r@ == replaced(s@.subrange(0, i as int), from, to),
        decreases n - i,
    {
        let c = s.get_char(i);
        push_char(&mut r, if c == from { to } else { c });
        assert(replaced(s@.subrange(0, i + 1), from, to) =~= replaced(
            s@.subrange(0, i as int),
            from,
            to,
        ).push(if c == from { to } else { c }));
        i = i + 1;
    }
    assert(s@.subrange(0, n as int) =~= s@);
    r
}

/// Whether `c` has Unicode's White_Space property, which
/// `char::is_whitespace` tests and `str::trim` cuts: tab to carriage return,
/// space, next line, no-break space, ogham space mark, the spaces from en
/// quad to hair space, line and paragraph separators, narrow no-break
/// space, medium mathematical space and ideographic space.
pub open spec fn white_space(c: char) -> bool {
    let u = c as u32;
    (0x9 <= u && u <= 0xD) || u == 0x20 || u == 0x85 || u == 0xA0 || u == 0x1680 || (0x2000 <= u
        && u <= 0x200A) || u == 0x2028 || u == 0x2029 || u == 0x202F || u == 0x205F || u == 0x3000
}

/// `s` without the white space at its start.
pub open spec fn without_leading_ws(s: Seq<char>) -> Seq<char>
    decreases s.len(),
{
    if s.len() > 0 && white_space(s[0]) {
        without_leading_ws(s.drop_first())
    } else {
        s
    }
}

/// `s` without the white space at its end.
pub open spec fn without_trailing_ws(s: Seq<char>) -> Seq<char>
    decreases s.len(),
{
    if s.len() > 0 && white_space(s.last()) {
        without_trailing_ws(s.drop_last())
    } else {
        s
    }
}

/// What `str::trim` leaves of a text: the text without its leading and
/// trailing white space.
pub open spec fn trimmed_ws(s: Seq<char>) -> Seq<char> {
    without_trailing_ws(without_leading_ws(s))
}

/// Whether neither end of `s` is white space.
pub open spec fn ends_not_white(s: Seq<char>) -> bool {
    s.len() > 0 ==> !white_space(s[0]) && !white_space(s.last())
}

proof fn lemma_leading_ws(s: Seq<char>)
    ensures
        without_leading_ws(s).len() > 0 ==> !white_space(without_leading_ws(s)[0]),
    decreases s.len(),
{
    if s.len() > 0 && white_space(s[0]) {
        lemma_leading_ws(s.drop_first());
    }
}

proof fn lemma_trailing_ws(s: Seq<char>)
    ensures
        without_trailing_ws(s).len() <= s.len(),
        without_trailing_ws(s) == s.subrange(0, without_trailing_ws(s).len() as int),
        without_trailing_ws(s).len() > 0 ==> !white_space(without_trailing_ws(s).last()),
    decreases s.len(),
{
    if s.len() > 0 && white_space(s.last()) {
        lemma_trailing_ws(s.drop_last());
        let t = without_trailing_ws(s.drop_last());
        assert(s.drop_last().subrange(0, t.len() as int) =~= s.subrange(0, t.len() as int));
    } else {
        assert(s.subrange(0, s.len() as int) =~= s);
    }
}

/// A trimmed text has no white space at either end, and trimming it again
/// leaves it as it is.
pub proof fn lemma_trimmed_ends(s: Seq<char>)
    ensures
        ends_not_white(trimmed_ws(s)),
        trimmed_ws(trimmed_ws(s)) == trimmed_ws(s),
{
    let u = without_leading_ws(s);
    lemma_leading_ws(s);
    lemma_trailing_ws(u);
    let t = trimmed_ws(s);
    if t.len() > 0 {
        assert(t[0] == u[0]);
    }
    lemma_trim_fixed(t);
}

/// A text whose ends are not white space is its own trimming.
pub proof fn lemma_trim_fixed(s: Seq<char>)
    requires
        ends_not_white(s),
    ensures
        trimmed_ws(s) == s,
{
}

/// Relies on `str::trim`: the text without its leading and trailing white
/// space, white space as `char::is_whitespace` defines it (Unicode's
/// White_Space property).
#[verifier::external_body]
pub(crate) fn trim_ws(s: &str) -> (r: String)
    ensures
        r@ == trimmed_ws(s@),
{
    s.trim().to_string()
}

/// A share path, already trimmed, written in the host's convention. On
/// Windows every `/` becomes `\` and a path with a single leading `\` gets a
/// second one; elsewhere `\` becomes `/`, unless the path starts with `//`.
pub open spec fn normalized_unc(t: Seq<char>, style: PathStyle) -> Seq<char> {
    match style {
        PathStyle::Windows => {
            let s = replaced(t, '/', '\\');
            if has_prefix(s, "\\\\"@) {
                s
            } else if has_prefix(s, "\\"@) {
                seq!['\\'] + s
            } else {
                s
            }
        },
        PathStyle::Posix => if has_prefix(t, "//"@) {
            t
        } else {
            replaced(t, '\\', '/')
        },
    }
}

/// Writes a trimmed share path in the host's convention (see
/// `normalized_unc`).
pub fn normalize_trimmed(t: &str, style: PathStyle) -> (r: String)
    ensures
        r@ == normalized_unc(t@, style),
{
    match style {
        PathStyle::Windows => {
            let s = replace_char(t, '/', '\\');
            if starts_with(s.as_str(), "\\\\") {
                s
            } else if starts_with(s.as_str(), "\\") {
                proof {
                    reveal_strlit("\\");
                    assert("\\"@ =~= seq!['\\']);
                }
                concat2("\\", s.as_str())
            } else {
                s
            }
        },
        PathStyle::Posix => if starts_with(t, "//") {
            String::from_str(t)
        } else {
            replace_char(t, '\\', '/')
        },
    }
}

/// Trims a share path of surrounding white space and writes it in the
/// host's convention.
pub fn normalize_unc_path(unc: &str, style: PathStyle) -> (r: String)
    ensures
        r@ == normalized_unc(trimmed_ws(unc@), style),
        ends_not_white(r@),
        normalized_unc(trimmed_ws(r@), style) == r@,
{
    proof {
        lemma_normalize_twice(unc@, style);
    }
    let t = trim_ws(unc);
    normalize_trimmed(t.as_str(), style)
}

proof fn lemma_replaced_ends(t: Seq<char>, from: char, to: char)
    requires
        !white_space(to),
        ends_not_white(t),
    ensures
        ends_not_white(replaced(t, from, to)),
        replaced(t, from, to).len() == t.len(),
{
}

proof fn lemma_replaced_idem(t: Seq<char>, from: char, to: char)
    ensures
        replaced(replaced(t, from, to), from, to) == replaced(t, from, to),
        forall|k: int| 0 <= k < t.len() ==> replaced(t, from, to)[k] != from || from == to,
{
    assert(replaced(replaced(t, from, to), from, to) =~= replaced(t, from, to));
}

/// A normalized share path has no white space at either end, and
/// normalizing it again (trimming included) leaves it as it is.
pub proof fn lemma_normalize_twice(unc: Seq<char>, style: PathStyle)
    ensures
        ends_not_white(normalized_unc(trimmed_ws(unc), style)),
        normalized_unc(trimmed_ws(normalized_unc(trimmed_ws(unc), style)), style) == normalized_unc(
            trimmed_ws(unc),
            style,
        ),
{
    lemma_trimmed_ends(unc);
    let t = trimmed_ws(unc);
    let n = normalized_unc(t, style);
    match style {
        PathStyle::Windows => {
            let s = replaced(t, '/', '\\');
            lemma_replaced_ends(t, '/', '\\');
            lemma_replaced_idem(t, '/', '\\');
            if !has_prefix(s, "\\\\"@) && has_prefix(s, "\\"@) {
                reveal_strlit("\\");
                reveal_strlit("\\\\");
                let p = seq!['\\'] + s;
                assert(s.subrange(0, 1)[0] == s[0]);
                assert("\\"@[0] == '\\');
                assert(s[0] == '\\');
                assert(p[1] == s[0]);
                assert(p.last() == s.last());
                assert(p.subrange(0, 2) =~= "\\\\"@);
                assert(replaced(p, '/', '\\') =~= p);
            }
        },
        PathStyle::Posix => {
            lemma_replaced_ends(t, '\\', '/');
            lemma_replaced_idem(t, '\\', '/');
            if !has_prefix(t, "//"@) {
                let s = replaced(t, '\\', '/');
                if !has_prefix(s, "//"@) {
                    assert(replaced(s, '\\', '/') =~= s);
                }
            }
        },
    }
    lemma_trim_fixed(n);
}

/// `s` without the repeated `\\` pairs at its start.
pub open spec fn drop_pairs(s: Seq<char>) -> Seq<char>
    decreases s.len(),
{
    if s.len() >= 2 && has_prefix(s, "\\\\"@) {
        drop_pairs(s.subrange(2, s.len() as int))
    } else {
        s
    }
}

fn drop_leading_pairs(s: &str) -> (r: String)
    ensures
        r@ == drop_pairs(s@),
{
    let n = s.unicode_len();
    let mut i: usize = 0;
    assert(s@.subrange(0, n as int) =~= s@);
    while n - i >= 2 && s.get_char(i) == '\\' && s.get_char(i + 1) == '\\'
        invariant
            n == s@.len(),
            i <= n,
            drop_pairs(s@) == drop_pairs(s@.subrange(i as int, n as int)),
        decreases n - i,
    {
        let ghost t = s@.subrange(i as int, n as int);
        proof {
            reveal_strlit("\\\\");
            assert(t.subrange(0, 2) =~= "\\\\"@);
            assert(t.subrange(2, t.len() as int) =~= s@.subrange(i + 2, n as int));
        }
        i = i + 2;
    }
    proof {
        let t = s@.subrange(i as int, n as int);
        reveal_strlit("\\\\");
        if t.len() >= 2 && has_prefix(t, "\\\\"@) {
            assert(t[0] == "\\\\"@[0] && t[1] == "\\\\"@[1]);
            assert(false);
        }
    }
    tail_from(s, i)
}

/// The form of a path that the file system is given. On Windows a path gets
/// the extended-length prefix `\\?\` (`\\?\UNC\` for a share, whose leading
/// `\\` pairs it replaces) unless it has it already; elsewhere the path is
/// kept.
pub open spec fn io_path(p: Seq<char>, style: PathStyle) -> Seq<char> {
    match style {
        PathStyle::Windows => if has_prefix(p, "\\\\?\\"@) {
            p
        } else if has_prefix(p, "\\\\"@) {
            "\\\\?\\UNC\\"@ + drop_pairs(p)
        } else {
            "\\\\?\\"@ + p
        },
        PathStyle::Posix => p,
    }
}

/// Writes a path in the form the file system is given (see `io_path`).
pub fn prepare_path_for_io(path: &str, style: PathStyle) -> (r: String)
    ensures
        r@ == io_path(path@, style),
{
    match style {
        PathStyle::Windows => if starts_with(path, "\\\\?\\") {
            String::from_str(path)
        } else if starts_with(path, "\\\\") {
            let rest = drop_leading_pairs(path);
            concat2("\\\\?\\UNC\\", rest.as_str())
        } else {
            concat2("\\\\?\\", path)
        },
        PathStyle::Posix => String::from_str(path),
    }
}

/// The form of a path shown to the operator: on Windows the extended-length
/// prefix is taken off again (`\\?\UNC\x` shows as `\\x`, `\\?\x` as `x`);
/// elsewhere the path is kept.
pub open spec fn visible_path(p: Seq<char>, style: PathStyle) -> Seq<char> {
    match style {
        PathStyle::Windows => if has_prefix(p, "\\\\?\\UNC\\"@) {
            "\\\\"@ + p.subrange(8, p.len() as int)
        } else if has_prefix(p, "\\\\?\\"@) {
            p.subrange(4, p.len() as int)
        } else {
            p
        },
        PathStyle::Posix => p,
    }
}

/// Writes a path in the form shown to the operator (see `visible_path`).
pub fn to_user_visible_path(path: &str, style: PathStyle) -> (r: String)
    ensures
        r@ == visible_path(path@, style),
{
    match style {
        PathStyle::Windows => if starts_with(path, "\\\\?\\UNC\\") {
            proof {
                reveal_strlit("\\\\?\\UNC\\");
            }
            let rest = tail_from(path, 8);
            concat2("\\\\", rest.as_str())
        } else if starts_with(path, "\\\\?\\") {
            proof {
                reveal_strlit("\\\\?\\");
            }
            tail_from(path, 4)
        } else {
            String::from_str(path)
        },
        PathStyle::Posix => String::from_str(path),
    }
}


/// What listing the share before the copy gave.
#[derive(Clone, Debug)]
pub enum ProbeResult {
    /// The share was listed.
    Listed,
    /// The share does not exist.
    NotFound { reason: String },
    /// Listing failed otherwise (a slow or flaky share, say).
    Failed { reason: String },
}

/// What the probe of share `n` leads to: a line for the copy log and going
/// on, or, where the share was not found, the error that ends the copy.
pub open spec fn probe_verdict(n: Seq<char>, probe: ProbeResult) -> Result<Seq<char>, Seq<char>> {
    match probe {
        ProbeResult::Listed => Ok("Verified network share is reachable: "@ + n),
        ProbeResult::NotFound { .. } => Err("Network share not found: "@ + n),
        ProbeResult::Failed { reason } => Ok(
            "Warning: unable to list network share "@ + n + ": "@ + reason@,
        ),
    }
}

/// Decides on the probe of share `normalized`: only a share that is not
/// found stops the copy; another listing error is logged as a warning and the
/// copy goes on, its deadline being the final judge.
pub fn check_share(normalized: &str, probe: &ProbeResult) -> (r: Result<String, String>)
    ensures
        match r {
            Ok(line) => probe_verdict(normalized@, *probe) == Ok::<Seq<char>, Seq<char>>(line@),
            Err(msg) => probe_verdict(normalized@, *probe) == Err::<Seq<char>, Seq<char>>(msg@),
        },
{
    match probe {
        ProbeResult::Listed => Ok(concat2("Verified network share is reachable: ", normalized)),
        ProbeResult::NotFound { .. } => Err(concat2("Network share not found: ", normalized)),
        ProbeResult::Failed { reason } => {
            let mut s = concat3("Warning: unable to list network share ", normalized, ": ");
            s.append(reason.as_str());
            Ok(s)
        },
    }
}

/// Where a report folder goes on a share.
#[derive(Clone, Debug)]
pub struct NetworkCopyPlan {
    /// The share path in the host's convention.
    pub normalized: String,
    /// The report folder, in the form given to the file system.
    pub src: String,
    /// The share, in the form given to the file system.
    pub dst_root: String,
    /// The folder of the same name on the share that receives the copy.
    pub dst: String,
}

/// The error of a copy request whose share path is empty.
pub open spec fn empty_share_text() -> Seq<char> {
    "UNC path is empty"@
}

/// The error of a copy request whose report folder is missing.
pub open spec fn missing_source_text(report_path: Seq<char>, style: PathStyle) -> Seq<char> {
    "Local report path not found or not a directory: "@ + visible_path(report_path, style)
}

/// The error of a copy request whose report folder has no name.
pub open spec fn nameless_source_text(report_path: Seq<char>, style: PathStyle) -> Seq<char> {
    "Failed to derive folder name from "@ + visible_path(report_path, style)
}

/// Plans the copy of the report folder `report_path` to the share
/// `normalized` (already in the host's convention). `src_is_dir` tells
/// whether the report folder exists as a directory. Fails where the share
/// path is empty, the folder is missing, or its path has no last component;
/// else the copy goes to the folder of the same name on the share.
pub fn plan_copy_to_share(
    report_path: &str,
    normalized: &str,
    style: PathStyle,
    src_is_dir: bool,
) -> (r: Result<NetworkCopyPlan, String>)
    ensures
        normalized@.len() == 0 ==> (r matches Err(m) && m@ == empty_share_text()),
        normalized@.len() > 0 && !src_is_dir ==> (r matches Err(m) && m@ == missing_source_text(
            report_path@,
            style,
        )),
        normalized@.len() > 0 && src_is_dir && file_name_of(report_path@) is None ==> (r matches Err(
            m,
        ) && m@ == nameless_source_text(report_path@, style)),
        normalized@.len() > 0 && src_is_dir && file_name_of(report_path@) is Some ==> (r matches Ok(
            plan,
        ) && plan.normalized@ == normalized@ && plan.src@ == io_path(report_path@, style)
            && plan.dst_root@ == io_path(normalized@, style) && plan.dst@ == joined_with(
            io_path(normalized@, style),
            file_name_of(report_path@)->0,
            sep_of(style),
        )),
{
    if normalized.unicode_len() == 0 {
        return Err(String::from_str("UNC path is empty"));
    }
    if !src_is_dir {
        let shown = to_user_visible_path(report_path, style);
        return Err(concat2("Local report path not found or not a directory: ", shown.as_str()));
    }
    let folder = match file_name(report_path) {
        Some(f) => f,
        None => {
            let shown = to_user_visible_path(report_path, style);
            return Err(concat2("Failed to derive folder name from ", shown.as_str()));
        },
    };
    let src = prepare_path_for_io(report_path, style);
    let dst_root = prepare_path_for_io(normalized, style);
    let dst = join_with(dst_root.as_str(), folder.as_str(), style.separator());
    Ok(NetworkCopyPlan { normalized: String::from_str(normalized), src, dst_root, dst })
}

/// Plans the copy of a report folder to a share given as the operator wrote
/// it: the share path is trimmed and normalized first (see
/// `plan_copy_to_share`).
pub fn plan_network_copy(report_path: &str, unc_path: &str, style: PathStyle, src_is_dir: bool) -> (r:
    Result<NetworkCopyPlan, String>)
    ensures
        ({
            let n = normalized_unc(trimmed_ws(unc_path@), style);
            &&& n.len() == 0 ==> (r matches Err(m) && m@ == empty_share_text())
            &&& n.len() > 0 && !src_is_dir ==> (r matches Err(m) && m@ == missing_source_text(
                report_path@,
                style,
            ))
            &&& n.len() > 0 && src_is_dir && file_name_of(report_path@) is None ==> (r matches Err(m)
                && m@ == nameless_source_text(report_path@, style))
            &&& n.len() > 0 && src_is_dir && file_name_of(report_path@) is Some ==> (r matches Ok(plan)
                && plan.normalized@ == n && plan.src@ == io_path(report_path@, style) && plan.dst_root@
                == io_path(n, style) && plan.dst@ == joined_with(
                io_path(n, style),
                file_name_of(report_path@)->0,
                sep_of(style),
            ))
        }),
{
    let normalized = normalize_unc_path(unc_path, style);
    plan_copy_to_share(report_path, normalized.as_str(), style, src_is_dir)
}

/// Starts the copy that `plan` describes, given the probe of its share: a
/// share that was not found ends it with an error before any walk exists,
/// so no file is copied; otherwise the probe's log line comes with a fresh
/// walk from the report folder to its folder on the share.
pub fn start_copy(plan: &NetworkCopyPlan, probe: &ProbeResult, style: PathStyle) -> (r: Result<
    (String, CopyWalk),
    String,
>)
    ensures
        probe is NotFound ==> (r matches Err(m) && m@ == "Network share not found: "@
            + plan.normalized@),
        !(probe is NotFound) ==> (r matches Ok((line, walk)) && probe_verdict(
            plan.normalized@,
            *probe,
        ) == Ok::<Seq<char>, Seq<char>>(line@) && walk.style == style && walk.result is None
            && walk.log@.len() == 0 && walk.frames@.len() == 1 && walk.frames@[0].src == plan.src
            && walk.frames@[0].dst == plan.dst && walk.frames@[0].phase is Start),
{
    let line = check_share(plan.normalized.as_str(), probe)?;
    let walk = CopyWalk::new(plan.src.clone(), plan.dst.clone(), style);
    Ok((line, walk))
}

/// How a network copy of `report_path` to `plan.dst` ends, given what the
/// walk ended with: the last line of the copy log, and the answer to the
/// operator (`true`, or the walk's error behind `Copy failed: `). Nothing is
/// rolled back: what was copied before a failure stays.
pub open spec fn copy_end_of(
    report_path: Seq<char>,
    dst: Seq<char>,
    style: PathStyle,
    outcome: Result<(), Seq<char>>,
) -> (Seq<char>, Result<bool, Seq<char>>) {
    let shown = visible_path(report_path, style) + " -> "@ + visible_path(dst, style);
    match outcome {
        Ok(()) => ("Network copy completed successfully for "@ + shown, Ok(true)),
        Err(e) => ("Copy failed for "@ + shown + ": "@ + e, Err("Copy failed: "@ + e)),
    }
}

/// Ends a network copy (see `copy_end_of`).
pub fn finish_copy(report_path: &str, plan: &NetworkCopyPlan, style: PathStyle, outcome: &Result<
    (),
    String,
>) -> (r: (String, Result<bool, String>))
    ensures
        ({
            let spec_outcome = match outcome {
                Ok(()) => Ok::<(), Seq<char>>(()),
                Err(e) => Err::<(), Seq<char>>(e@),
            };
            let (line, answer) = copy_end_of(report_path@, plan.dst@, style, spec_outcome);
            &&& r.0@ == line
            &&& match r.1 {
                Ok(b) => answer == Ok::<bool, Seq<char>>(b),
                Err(m) => answer == Err::<bool, Seq<char>>(m@),
            }
        }),
{
    let mut shown = to_user_visible_path(report_path, style);
    shown.append(" -> ");
    let d = to_user_visible_path(plan.dst.as_str(), style);
    shown.append(d.as_str());
    match outcome {
        Ok(()) => (concat2("Network copy completed successfully for ", shown.as_str()), Ok(true)),
        Err(e) => {
            let mut line = concat3("Copy failed for ", shown.as_str(), ": ");
            line.append(e.as_str());
            (line, Err(concat2("Copy failed: ", e.as_str())))
        },
    }
}

/// One entry of a listed directory.
#[derive(Clone, Debug)]
pub struct DirEntry {
    pub name: String,
    pub is_dir: bool,
}

/// What became of a request to make sure a directory exists.
#[derive(Clone, Debug)]
pub enum DirOutcome {
    /// It existed already.
    Existed,
    /// It was created.
    Created,
    /// Creating it failed.
    Failed { reason: String },
}

/// Where the copy of one directory stands.
#[derive(Clone, Debug)]
pub enum FramePhase {
    /// Nothing done yet: the deadline is checked first.
    Start,
    /// Waiting for the destination directory to be made sure of.
    AwaitDir,
    /// The source directory is to be listed.
    List,
    /// Waiting for the listing.
    AwaitList,
    /// Going through the entries.
    Entries,
    /// Waiting for a file copy.
    AwaitCopy { src: String, dst: String },
    /// An entry was processed: the deadline is checked.
    AfterEntry { path: String },
}

/// The copy of one directory.
#[derive(Clone, Debug)]
pub struct CopyFrame {
    pub src: String,
    pub dst: String,
    pub phase: FramePhase,
    pub entries: Vec<DirEntry>,
    pub next: usize,
}

/// What the walk asks its driver to do next.
#[derive(Clone, Debug)]
pub enum CopyAction {
    /// Nothing outside: call `step` again.
    Continue,
    /// Make sure that `dst` exists (create it with its parents if not), then
    /// call `dir_ready`.
    EnsureDir { dst: String },
    /// List `src`, then call `listed`.
    ListDir { src: String },
    /// Copy the file `src` to `dst`, then call `copied`.
    CopyFile { src: String, dst: String },
    /// The whole folder was copied.
    Finished,
    /// The copy stopped; nothing more is asked.
    Failed { message: String },
}

/// The log line written before a file is copied.
pub open spec fn copy_line(src: Seq<char>, dst: Seq<char>, style: PathStyle) -> Seq<char> {
    "Copying file "@ + visible_path(src, style) + " -> "@ + visible_path(dst, style)
}

/// Whether `later` is `earlier` with lines added at its end.
pub open spec fn log_extends(earlier: Seq<String>, later: Seq<String>) -> bool {
    earlier.len() <= later.len() && forall|i: int| 0 <= i < earlier.len() ==> later[i] == earlier[i]
}

/// The copy of a folder tree, depth first, as a machine driven from outside:
/// the driver performs each action it asks for and reports the outcome. The
/// deadline is checked before each directory and after each entry. Every
/// directory created, descent and file copy is logged; the first failure
/// stops the whole copy, leaving what was copied before it in place.
#[derive(Clone, Debug)]
pub struct CopyWalk {
    pub style: PathStyle,
    pub frames: Vec<CopyFrame>,
    pub log: Vec<String>,
    pub result: Option<Result<(), String>>,
}

/// Whether `b` is the frame `a` with another phase (and possibly another
/// position in its entries).
pub open spec fn same_directory(a: CopyFrame, b: CopyFrame) -> bool {
    a.src == b.src && a.dst == b.dst && a.entries@ == b.entries@
}

/// Whether the frames below the top one are kept.
pub open spec fn lower_frames_kept(old: Seq<CopyFrame>, new: Seq<CopyFrame>) -> bool {
    old.len() >= 1 && new.len() >= old.len() - 1 && forall|i: int| 0 <= i < old.len() - 1 ==> new[i] == old[i]
}

/// Whether the top frame is replaced by one of the same directory, at the
/// same position, in phase `p`.
pub open spec fn top_now(old: Seq<CopyFrame>, new: Seq<CopyFrame>, next: usize) -> bool {
    new.len() == old.len() && lower_frames_kept(old, new) && same_directory(old.last(), new.last())
        && new.last().next == next
}

/// One step of the walk, from `w` with the deadline passed or not, to `w2`
/// asking for `r`: what each phase of the current directory leads to.
pub open spec fn step_fits(w: CopyWalk, past_deadline: bool, w2: CopyWalk, r: CopyAction) -> bool {
    &&& step_log_fits(w, w2)
    &&& step_state_fits(w, past_deadline, w2, r)
}

/// The log after one step: a descent or a file copy about to be asked for
/// adds its one line; every other step leaves the log as it was.
pub open spec fn step_log_fits(w: CopyWalk, w2: CopyWalk) -> bool {
    let fs = w.frames@;
    let sep = sep_of(w.style);
    if w.result is None && fs.len() > 0 && fs.last().phase is Entries && fs.last().next
        < fs.last().entries@.len() {
        let top = fs.last();
        let e = top.entries@[top.next as int];
        let src = joined_with(top.src@, e.name@, sep);
        let dst = joined_with(top.dst@, e.name@, sep);
        w2.log@.len() == w.log@.len() + 1 && w2.log@.subrange(0, w.log@.len() as int) == w.log@
            && w2.log@.last()@ == (if e.is_dir {
            "Descending into "@ + visible_path(src, w.style)
        } else {
            copy_line(src, dst, w.style)
        })
    } else {
        w2.log@ == w.log@
    }
}

/// The state and the action after one step (see `step_fits`).
pub open spec fn step_state_fits(w: CopyWalk, past_deadline: bool, w2: CopyWalk, r: CopyAction) -> bool {
    let fs = w.frames@;
    let fs2 = w2.frames@;
    let sep = sep_of(w.style);
    if w.result is Some {
        unchanged(w, w2) && match w.result {
            Some(Ok(_)) => r is Finished,
            Some(Err(m)) => r == (CopyAction::Failed { message: m }),
            None => true,
        }
    } else if fs.len() == 0 {
        r is Finished && (w2.result matches Some(Ok(_))) && fs2.len() == 0
    } else {
        let top = fs.last();
        match top.phase {
            FramePhase::Start => if past_deadline {
                r matches CopyAction::Failed { message } && message@ == "Copy timed out before processing "@
                    + visible_path(top.src@, w.style) && w2.result == Some(Err::<(), String>(message))
            } else {
                r == (CopyAction::EnsureDir { dst: top.dst }) && w2.result is None && top_now(
                    fs,
                    fs2,
                    top.next,
                ) && fs2.last().phase is AwaitDir
            },
            FramePhase::AwaitDir => r == (CopyAction::EnsureDir { dst: top.dst }) && w2.result is None
                && fs2 == fs,
            FramePhase::List => r == (CopyAction::ListDir { src: top.src }) && w2.result is None
                && top_now(fs, fs2, top.next) && fs2.last().phase is AwaitList,
            FramePhase::AwaitList => r == (CopyAction::ListDir { src: top.src }) && w2.result is None
                && fs2 == fs,
            FramePhase::AwaitCopy { src, dst } => r == (CopyAction::CopyFile { src, dst })
                && w2.result is None && fs2 == fs,
            FramePhase::AfterEntry { path } => if past_deadline {
                r matches CopyAction::Failed { message } && message@ == "Copy timed out while processing "@
                    + visible_path(path@, w.style) && w2.result == Some(Err::<(), String>(message))
            } else {
                r is Continue && w2.result is None && top_now(fs, fs2, top.next)
                    && fs2.last().phase is Entries
            },
            FramePhase::Entries => if top.next >= top.entries@.len() {
                fs2 == fs.drop_last() && (if fs2.len() == 0 {
                    r is Finished && (w2.result matches Some(Ok(_)))
                } else {
                    r is Continue && w2.result is None
                })
            } else {
                let e = top.entries@[top.next as int];
                let src = joined_with(top.src@, e.name@, sep);
                let dst = joined_with(top.dst@, e.name@, sep);
                w2.result is None && if e.is_dir {
                    r is Continue && fs2.len() == fs.len() + 1 && lower_frames_kept(fs, fs2)
                        && same_directory(top, fs2[fs.len() - 1]) && fs2[fs.len() - 1].next == top.next + 1
                        && (fs2[fs.len() - 1].phase matches FramePhase::AfterEntry { path } && path@ == src)
                        && fs2.last().src@ == src && fs2.last().dst@ == dst && fs2.last().phase is Start
                        && fs2.last().next == 0 && fs2.last().entries@.len() == 0
                        && w2.log@.last()@ == "Descending into "@ + visible_path(src, w.style)
                } else {
                    (r matches CopyAction::CopyFile { src: s, dst: d } && s@ == src && d@ == dst)
                        && top_now(fs, fs2, (top.next + 1) as usize) && (fs2.last().phase matches FramePhase::AwaitCopy {
                        src: s,
                        dst: d,
                    } && s@ == src && d@ == dst)
                }
            },
        }
    }
}

/// What reporting the destination directory does while the walk waits for
/// it: the directory is listed next (a created one is logged first); a
/// failure ends the copy with a message naming the directory.
pub open spec fn dir_ready_fits(w: CopyWalk, outcome: DirOutcome, w2: CopyWalk) -> bool {
    let fs = w.frames@;
    let fs2 = w2.frames@;
    w.result is None && fs.len() > 0 && fs.last().phase is AwaitDir ==> match outcome {
        DirOutcome::Failed { reason } => (w2.result matches Some(Err(m)) && m@ == "Failed to create directory "@
            + visible_path(fs.last().dst@, w.style) + ": "@ + reason@) && w2.log@ == w.log@,
        DirOutcome::Existed => w2.result is None && top_now(fs, fs2, fs.last().next)
            && fs2.last().phase is List && w2.log@ == w.log@,
        DirOutcome::Created => w2.result is None && top_now(fs, fs2, fs.last().next)
            && fs2.last().phase is List && w2.log@.len() == w.log@.len() + 1 && w2.log@.last()@
            == "Created directory "@ + visible_path(fs.last().dst@, w.style),
    }
}

/// What reporting the listing does while the walk waits for it: the
/// entries are gone through from the first; a failure ends the copy with a
/// message naming the directory.
pub open spec fn listed_fits(w: CopyWalk, listing: Result<Vec<DirEntry>, String>, w2: CopyWalk) -> bool {
    let fs = w.frames@;
    let fs2 = w2.frames@;
    w.result is None && fs.len() > 0 && fs.last().phase is AwaitList ==> match listing {
        Ok(entries) => w2.result is None && fs2.len() == fs.len() && lower_frames_kept(fs, fs2)
            && fs2.last().src == fs.last().src && fs2.last().dst == fs.last().dst
            && fs2.last().entries@ == entries@ && fs2.last().next == 0 && fs2.last().phase is Entries,
        Err(reason) => w2.result matches Some(Err(m)) && m@ == "Failed to read directory "@
            + visible_path(fs.last().src@, w.style) + ": "@ + reason@,
    }
}

/// What reporting a file copy does while the walk waits for it: a copied
/// file is followed by the deadline check; a failure ends the copy.
pub open spec fn copied_fits(w: CopyWalk, outcome: Result<(), String>, w2: CopyWalk) -> bool {
    let fs = w.frames@;
    let fs2 = w2.frames@;
    w.result is None && fs.len() > 0 && fs.last().phase is AwaitCopy ==> match outcome {
        Ok(()) => w2.result is None && top_now(fs, fs2, fs.last().next) && (fs2.last().phase matches FramePhase::AfterEntry {
            path,
        } && path == fs.last().phase->src),
        Err(reason) => w2.result matches Some(Err(m)) && m@ == "Failed to copy "@ + visible_path(
            fs.last().phase->src@,
            w.style,
        ) + " -> "@ + visible_path(fs.last().phase->dst@, w.style) + ": "@ + reason@,
    }
}

/// Copying one file logs it exactly once: from a walk at a file entry of
/// the current directory, the step that asks for the copy, its successful
/// report, and the step that checks the deadline in time, leave the log with
/// that file's copy line added and nothing else, and the walk at the next
/// entry of the same directory.
pub proof fn lemma_file_copy_logged_once(
    w0: CopyWalk,
    w1: CopyWalk,
    r1: CopyAction,
    w2: CopyWalk,
    w3: CopyWalk,
    r3: CopyAction,
)
    requires
        w0.result is None,
        w0.frames@.len() > 0,
        w0.frames@.last().phase is Entries,
        w0.frames@.last().next < w0.frames@.last().entries@.len(),
        !w0.frames@.last().entries@[w0.frames@.last().next as int].is_dir,
        w1.style == w0.style,
        step_fits(w0, false, w1, r1),
        copied_fits(w1, Ok(()), w2),
        w2.log@ == w1.log@,
        w2.style == w1.style,
        step_fits(w2, false, w3, r3),
    ensures
        ({
            let top = w0.frames@.last();
            let e = top.entries@[top.next as int];
            let src = joined_with(top.src@, e.name@, sep_of(w0.style));
            let dst = joined_with(top.dst@, e.name@, sep_of(w0.style));
            &&& r1 matches CopyAction::CopyFile { src: s, dst: d } && s@ == src && d@ == dst
            &&& w3.log@.len() == w0.log@.len() + 1
            &&& w3.log@.subrange(0, w0.log@.len() as int) == w0.log@
            &&& w3.log@.last()@ == copy_line(src, dst, w0.style)
            &&& w3.result is None
            &&& r3 is Continue
            &&& top_now(w0.frames@, w3.frames@, (top.next + 1) as usize)
            &&& w3.frames@.last().phase is Entries
        }),
{
    let fs0 = w0.frames@;
    let fs1 = w1.frames@;
    let fs2 = w2.frames@;
    let fs3 = w3.frames@;
    assert(fs1.last().phase is AwaitCopy);
    assert(w2.result is None);
    assert(fs2.last().phase is AfterEntry);
    assert(w3.log@ == w2.log@);
    assert(fs3.len() == fs0.len());
    assert forall|i: int| 0 <= i < fs0.len() - 1 implies fs3[i] == fs0[i] by {
        assert(fs1[i] == fs0[i]);
        assert(fs2[i] == fs1[i]);
    }
}

/// Entering a subdirectory logs the descent, then the creation of its copy
/// where it was created, and nothing else: from a walk at a directory entry
/// of the current directory, the step that descends, the step that asks for
/// the destination directory, the report that it was created, and the step
/// that asks for the listing.
pub proof fn lemma_descent_logged(
    w0: CopyWalk,
    w1: CopyWalk,
    r1: CopyAction,
    w2: CopyWalk,
    r2: CopyAction,
    w3: CopyWalk,
    w4: CopyWalk,
    r4: CopyAction,
)
    requires
        w0.result is None,
        w0.frames@.len() > 0,
        w0.frames@.last().phase is Entries,
        w0.frames@.last().next < w0.frames@.last().entries@.len(),
        w0.frames@.last().entries@[w0.frames@.last().next as int].is_dir,
        w1.style == w0.style,
        step_fits(w0, false, w1, r1),
        w2.style == w1.style,
        log_extends(w1.log@, w2.log@),
        step_fits(w1, false, w2, r2),
        w3.style == w2.style,
        log_extends(w2.log@, w3.log@),
        dir_ready_fits(w2, DirOutcome::Created, w3),
        step_fits(w3, false, w4, r4),
    ensures
        ({
            let top = w0.frames@.last();
            let e = top.entries@[top.next as int];
            let src = joined_with(top.src@, e.name@, sep_of(w0.style));
            let dst = joined_with(top.dst@, e.name@, sep_of(w0.style));
            let n = w0.log@.len();
            &&& r1 is Continue
            &&& r2 matches CopyAction::EnsureDir { dst: d } && d@ == dst
            &&& r4 matches CopyAction::ListDir { src: s } && s@ == src
            &&& w4.result is None
            &&& w4.log@.len() == n + 2
            &&& w4.log@.subrange(0, n as int) == w0.log@
            &&& w4.log@[n as int]@ == "Descending into "@ + visible_path(src, w0.style)
            &&& w4.log@[n as int + 1]@ == "Created directory "@ + visible_path(dst, w0.style)
            &&& w4.frames@.len() == w0.frames@.len() + 1
            &&& w4.frames@.last().src@ == src && w4.frames@.last().dst@ == dst
            &&& w4.frames@.last().phase is AwaitList
        }),
{
    let fs0 = w0.frames@;
    let fs1 = w1.frames@;
    let fs2 = w2.frames@;
    let fs3 = w3.frames@;
    let fs4 = w4.frames@;
    let n = w0.log@.len();
    assert(fs1.last().phase is Start);
    assert(w2.log@ == w1.log@);
    assert(fs2.last().phase is AwaitDir);
    assert(fs3.last().phase is List);
    assert(w4.log@ == w3.log@);
    assert(w3.log@[n as int] == w2.log@[n as int]);
    assert(w1.log@[n as int] == w1.log@.last());
    assert(w4.log@.subrange(0, n as int) =~= w1.log@.subrange(0, n as int));
}

/// A failed file copy ends the whole copy: after it, the next step asks
/// for nothing more, reports the failure naming both paths, and leaves the
/// walk, its log included, as the failure left it.
pub proof fn lemma_failed_copy_is_final(
    w1: CopyWalk,
    reason: String,
    w2: CopyWalk,
    past_deadline: bool,
    w3: CopyWalk,
    r3: CopyAction,
)
    requires
        w1.result is None,
        w1.frames@.len() > 0,
        w1.frames@.last().phase is AwaitCopy,
        copied_fits(w1, Err(reason), w2),
        w2.log@ == w1.log@,
        w2.style == w1.style,
        step_fits(w2, past_deadline, w3, r3),
    ensures
        r3 matches CopyAction::Failed { message } && message@ == "Failed to copy "@ + visible_path(
            w1.frames@.last().phase->src@,
            w1.style,
        ) + " -> "@ + visible_path(w1.frames@.last().phase->dst@, w1.style) + ": "@ + reason@,
        w3.log@ == w1.log@,
        unchanged(w2, w3),
{
}

/// Whether `w2` is `w` unchanged.
pub open spec fn unchanged(w: CopyWalk, w2: CopyWalk) -> bool {
    w2.style == w.style && w2.frames@ == w.frames@ && w2.log@ == w.log@ && w2.result == w.result
}

impl CopyWalk {
    /// A walk that copies the tree at `src` to `dst`.
    pub fn new(src: String, dst: String, style: PathStyle) -> (r: CopyWalk)
        ensures
            r.style == style,
            r.result is None,
            r.log@.len() == 0,
            r.frames@.len() == 1,
            r.frames@[0].src == src,
            r.frames@[0].dst == dst,
            r.frames@[0].phase is Start,
    {
        let mut frames: Vec<CopyFrame> = Vec::new();
        frames.push(CopyFrame { src, dst, phase: FramePhase::Start, entries: Vec::new(), next: 0 });
        CopyWalk { style, frames, log: Vec::new(), result: None }
    }

    fn fail(&mut self, message: String) -> (r: CopyAction)
        ensures
            final(self).result == Some(Err::<(), String>(message)),
            final(self).log@ == old(self).log@,
            final(self).style == old(self).style,
            r == (CopyAction::Failed { message }),
    {
        self.result = Some(Err(message.clone()));
        CopyAction::Failed { message }
    }

    fn log_line(&mut self, line: String)
        ensures
            final(self).log@ == old(self).log@.push(line),
            final(self).frames@ == old(self).frames@,
            final(self).result == old(self).result,
            final(self).style == old(self).style,
    {
        self.log.push(line);
    }

    /// Takes the walk one step further. `past_deadline` tells whether the
    /// deadline has passed by now. A finished or failed walk stays as it is
    /// and says so again. A descent, and a file copy when first asked for,
    /// each add exactly one line to the log; no other step writes to it.
    /// A file copy is asked for only after its line was
    /// added to the log.
    pub fn step(&mut self, past_deadline: bool) -> (r: CopyAction)
        ensures
            log_extends(old(self).log@, final(self).log@),
            final(self).style == old(self).style,
            old(self).result matches Some(Ok(_)) ==> unchanged(*old(self), *final(self))
                && r is Finished,
            old(self).result matches Some(Err(m)) ==> unchanged(*old(self), *final(self))
                && r == (CopyAction::Failed { message: m }),
            r is CopyFile ==> old(self).result is None && final(self).result is None,
            r matches CopyAction::Failed { message } ==> final(self).result == Some(
                Err::<(), String>(message),
            ),
            r is Finished ==> final(self).result matches Some(Ok(_)),
            step_fits(*old(self), past_deadline, *final(self), r),
    {
        match &self.result {
            Some(Ok(())) => {
                return CopyAction::Finished;
            },
            Some(Err(m)) => {
                return CopyAction::Failed { message: m.clone() };
            },
            None => {},
        }
        let style = self.style;
        let sep = style.separator();
        let ghost fs0 = self.frames@;
        let ghost log0 = self.log@;
        let top = self.frames.pop();
        let mut f = match top {
            None => {
                self.result = Some(Ok(()));
                return CopyAction::Finished;
            },
            Some(f) => f,
        };
        match f.phase {
            FramePhase::Start => {
                if past_deadline {
                    let shown = to_user_visible_path(f.src.as_str(), style);
                    let msg = concat2("Copy timed out before processing ", shown.as_str());
                    self.frames.push(f);
                    return self.fail(msg);
                }
                let dst = f.dst.clone();
                f.phase = FramePhase::AwaitDir;
                self.frames.push(f);
                CopyAction::EnsureDir { dst }
            },
            FramePhase::AwaitDir => {
                let dst = f.dst.clone();
                self.frames.push(f);
                assert(self.frames@ =~= fs0);
                CopyAction::EnsureDir { dst }
            },
            FramePhase::List => {
                let src = f.src.clone();
                f.phase = FramePhase::AwaitList;
                self.frames.push(f);
                CopyAction::ListDir { src }
            },
            FramePhase::AwaitList => {
                let src = f.src.clone();
                self.frames.push(f);
                assert(self.frames@ =~= fs0);
                CopyAction::ListDir { src }
            },
            FramePhase::AwaitCopy { src, dst } => {
                let a = CopyAction::CopyFile { src: src.clone(), dst: dst.clone() };
                f.phase = FramePhase::AwaitCopy { src, dst };
                self.frames.push(f);
                assert(self.frames@ =~= fs0);
                a
            },
            FramePhase::AfterEntry { path } => {
                if past_deadline {
                    let shown = to_user_visible_path(path.as_str(), style);
                    let msg = concat2("Copy timed out while processing ", shown.as_str());
                    return self.fail(msg);
                }
                f.phase = FramePhase::Entries;
                self.frames.push(f);
                CopyAction::Continue
            },
            FramePhase::Entries => {
                if f.next >= f.entries.len() {
                    if self.frames.len() == 0 {
                        self.result = Some(Ok(()));
                        return CopyAction::Finished;
                    }
                    return CopyAction::Continue;
                }
                let i = f.next;
                f.next = i + 1;
                let name = f.entries[i].name.clone();
                let is_dir = f.entries[i].is_dir;
                let src = join_with(f.src.as_str(), name.as_str(), sep);
                let dst = join_with(f.dst.as_str(), name.as_str(), sep);
                if is_dir {
                    let shown = to_user_visible_path(src.as_str(), style);
                    self.log_line(concat2("Descending into ", shown.as_str()));
                    assert(self.log@.subrange(0, log0.len() as int) =~= log0);
                    f.phase = FramePhase::AfterEntry { path: src.clone() };
                    self.frames.push(f);
                    self.frames.push(
                        CopyFrame {
                            src,
                            dst,
                            phase: FramePhase::Start,
                            entries: Vec::new(),
                            next: 0,
                        },
                    );
                    CopyAction::Continue
                } else {
                    let line = copy_text(src.as_str(), dst.as_str(), style);
                    self.log_line(line);
                    assert(self.log@.subrange(0, log0.len() as int) =~= log0);
                    let a = CopyAction::CopyFile { src: src.clone(), dst: dst.clone() };
                    f.phase = FramePhase::AwaitCopy { src, dst };
                    self.frames.push(f);
                    a
                }
            },
        }
    }

    /// Reports what became of the destination directory that `step` asked
    /// for. A failure stops the copy; a created directory is logged. Outside
    /// that wait, the report is ignored.
    pub fn dir_ready(&mut self, outcome: DirOutcome)
        ensures
            log_extends(old(self).log@, final(self).log@),
            final(self).style == old(self).style,
            old(self).result is Some ==> unchanged(*old(self), *final(self)),
            dir_ready_fits(*old(self), outcome, *final(self)),
    {
        if self.result.is_some() {
            return;
        }
        let style = self.style;
        let top = self.frames.pop();
        let mut f = match top {
            None => {
                return;
            },
            Some(f) => f,
        };
        if let FramePhase::AwaitDir = f.phase {
            match outcome {
                DirOutcome::Existed => {},
                DirOutcome::Created => {
                    let shown = to_user_visible_path(f.dst.as_str(), style);
                    self.log_line(concat2("Created directory ", shown.as_str()));
                },
                DirOutcome::Failed { reason } => {
                    let shown = to_user_visible_path(f.dst.as_str(), style);
                    let mut msg = concat3("Failed to create directory ", shown.as_str(), ": ");
                    msg.append(reason.as_str());
                    self.frames.push(f);
                    self.fail(msg);
                    return;
                },
            }
            f.phase = FramePhase::List;
        }
        self.frames.push(f);
    }

    /// Reports the listing of the source directory that `step` asked for. A
    /// failure stops the copy. Outside that wait, the report is ignored.
    pub fn listed(&mut self, listing: Result<Vec<DirEntry>, String>)
        ensures
            final(self).log@ == old(self).log@,
            final(self).style == old(self).style,
            old(self).result is Some ==> unchanged(*old(self), *final(self)),
            listed_fits(*old(self), listing, *final(self)),
    {
        if self.result.is_some() {
            return;
        }
        let style = self.style;
        let top = self.frames.pop();
        let mut f = match top {
            None => {
                return;
            },
            Some(f) => f,
        };
        if let FramePhase::AwaitList = f.phase {
            match listing {
                Ok(entries) => {
                    f.entries = entries;
                    f.next = 0;
                    f.phase = FramePhase::Entries;
                },
                Err(reason) => {
                    let shown = to_user_visible_path(f.src.as_str(), style);
                    let mut msg = concat3("Failed to read directory ", shown.as_str(), ": ");
                    msg.append(reason.as_str());
                    self.frames.push(f);
                    self.fail(msg);
                    return;
                },
            }
        }
        self.frames.push(f);
    }

    /// Reports the file copy that `step` asked for. A failure stops the whole
    /// copy at once, with a message that names both paths. Outside that wait,
    /// the report is ignored.
    pub fn copied(&mut self, outcome: Result<(), String>)
        ensures
            final(self).log@ == old(self).log@,
            final(self).style == old(self).style,
            old(self).result is Some ==> unchanged(*old(self), *final(self)),
            copied_fits(*old(self), outcome, *final(self)),
    {
        if self.result.is_some() {
            return;
        }
        let style = self.style;
        let top = self.frames.pop();
        let mut f = match top {
            None => {
                return;
            },
            Some(f) => f,
        };
        let mut failure: Option<String> = None;
        if let FramePhase::AwaitCopy { src, dst } = &f.phase {
            match outcome {
                Ok(()) => {
                    let path = src.clone();
                    f.phase = FramePhase::AfterEntry { path };
                },
                Err(reason) => {
                    let a = to_user_visible_path(src.as_str(), style);
                    let b = to_user_visible_path(dst.as_str(), style);
                    let mut msg = concat3("Failed to copy ", a.as_str(), " -> ");
                    msg.append(b.as_str());
                    msg.append(": ");
                    msg.append(reason.as_str());
                    failure = Some(msg);
                },
            }
        }
        self.frames.push(f);
        if let Some(msg) = failure {
            self.fail(msg);
        }
    }
}

/// The log line written before a file is copied.
pub fn copy_text(src: &str, dst: &str, style: PathStyle) -> (r: String)
    ensures
        r@ == copy_line(src@, dst@, style),
{
    let a = to_user_visible_path(src, style);
    let b = to_user_visible_path(dst, style);
    let mut s = concat3("Copying file ", a.as_str(), " -> ");
    s.append(b.as_str());
    s
}

} // verus!
