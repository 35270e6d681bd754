//! Saved reports: their records, the names of their folders, and the order
//! in which they are listed.

use crate::paths::{join_path, joined_with};
use crate::text::{sanitize_name, sanitized};
use vstd::prelude::*;

verus! {

/// A request to save the report of a finished run.
#[derive(Clone, Debug)]
pub struct SaveReportRequest {
    /// The final report, as JSON text.
    pub report_json: String,
    /// The run's plan file, if any.
    pub plan_file_path: Option<String>,
    /// The run's log file, if any.
    pub log_file_path: Option<String>,
    /// The computer's host name.
    pub hostname: Option<String>,
    /// The customer's name.
    pub customer_name: Option<String>,
    /// The technician's name.
    pub technician_name: Option<String>,
}

/// The answer to a save request.
#[derive(Clone, Debug)]
pub struct SaveReportResponse {
    /// Whether the report was saved.
    pub success: bool,
    /// The folder that holds the saved report.
    pub report_folder: Option<String>,
    /// Why the save failed.
    pub error: Option<String>,
}

/// What `metadata.json` records of a saved report.
#[derive(Clone, Debug)]
pub struct ReportMetadata {
    /// When the report was saved, in seconds since the Unix epoch.
    pub timestamp: u64,
    pub hostname: Option<String>,
    pub customer_name: Option<String>,
    pub technician_name: Option<String>,
    /// When the report was saved, as an RFC 3339 date in local time.
    pub saved_at: String,
}

/// A saved report as listed.
#[derive(Clone, Debug)]
pub struct ReportListItem {
    pub folder_name: String,
    pub folder_path: String,
    pub metadata: Option<ReportMetadata>,
    pub has_report_json: bool,
    pub has_execution_log: bool,
    pub has_run_plan: bool,
}

/// A saved report as loaded.
#[derive(Clone, Debug)]
pub struct LoadedReport {
    pub report_json: String,
    pub execution_log: Option<String>,
    pub run_plan: Option<String>,
    pub metadata: ReportMetadata,
}

/// Where reports are shared on the network.
#[derive(Clone, Debug)]
pub struct NetworkConfig {
    /// The share, as the operator wrote it.
    pub unc_path: String,
    /// Where the front end saves ("local", "network" or "both"); only logged.
    pub save_mode: Option<String>,
}

/// The view of an optional text.
pub open spec fn opt_view(o: Option<&str>) -> Option<Seq<char>> {
    match o {
        Some(s) => Some(s@),
        None => None,
    }
}

/// The text of `o`, or `default` where there is none.
pub open spec fn or_default(o: Option<Seq<char>>, default: Seq<char>) -> Seq<char> {
    match o {
        Some(s) => s,
        None => default,
    }
}

/// The folder name of a report:
/// `<host>_<customer>[_<technician>]__<date>`, each name sanitized, with
/// `Unknown_PC` for a missing host and `Report` for a missing customer.
pub open spec fn folder_name_of(
    hostname: Option<Seq<char>>,
    customer: Option<Seq<char>>,
    technician: Option<Seq<char>>,
    date: Seq<char>,
) -> Seq<char> {
    let head = sanitized(or_default(hostname, "Unknown_PC"@)) + "_"@ + sanitized(
        or_default(customer, "Report"@),
    );
    let named = match technician {
        Some(t) => head + "_"@ + sanitized(t),
        None => head,
    };
    named + "__"@ + date
}

/// The folder name of a report whose date reads `date`.
pub fn folder_name_from_parts(
    hostname: Option<&str>,
    customer_name: Option<&str>,
    technician_name: Option<&str>,
    date: &str,
) -> (r: String)
    ensures
        r@ == folder_name_of(
            opt_view(hostname),
            opt_view(customer_name),
            opt_view(technician_name),
            date@,
        ),
{
    let host = match hostname {
        Some(h) => sanitize_name(h),
        None => sanitize_name("Unknown_PC"),
    };
    let customer = match customer_name {
        Some(c) => sanitize_name(c),
        None => sanitize_name("Report"),
    };
    let mut s = host;
    s.append("_");
    s.append(customer.as_str());
    if let Some(t) = technician_name {
        let tech = sanitize_name(t);
        s.append("_");
        s.append(tech.as_str());
    }
    s.append("__");
    s.append(date);
    s
}

/// How chrono writes the UTC date and time of `secs` seconds after the Unix
/// epoch with the pattern `%Y-%m-%d_%H-%M-%S`, where chrono has a date for it.
pub uninterp spec fn utc_stamp(secs: int) -> Option<Seq<char>>;

/// Relies on `chrono::DateTime::from_timestamp` and `format`: the UTC date
/// and time of `secs` written as `%Y-%m-%d_%H-%M-%S`, or none where the
/// second is out of chrono's range.
#[verifier::external_body]
fn format_utc_stamp(secs: i64) -> (r: Option<String>)
    ensures
        match r {
            Some(s) => utc_stamp(secs as int) == Some(s@),
            None => utc_stamp(secs as int) is None,
        },
{
    match chrono::DateTime::from_timestamp(secs, 0) {
        Some(d) => Some(d.format("%Y-%m-%d_%H-%M-%S").to_string()),
        None => None,
    }
}

/// Relies on `chrono::Utc::now` and `format`: the present UTC date and time
/// written as `%Y-%m-%d_%H-%M-%S`.
#[verifier::external_body]
fn format_now_stamp() -> (r: String) {
    chrono::Utc::now().format("%Y-%m-%d_%H-%M-%S").to_string()
}

/// The folder name of a report saved at `timestamp` (seconds since the Unix
/// epoch), dated in UTC; a second out of the calendar's range is dated now.
pub fn generate_folder_name(
    hostname: Option<&str>,
    customer_name: Option<&str>,
    technician_name: Option<&str>,
    timestamp: u64,
) -> (r: String)
    ensures
        timestamp <= i64::MAX && utc_stamp(timestamp as int) is Some ==> r@ == folder_name_of(
            opt_view(hostname),
            opt_view(customer_name),
            opt_view(technician_name),
            utc_stamp(timestamp as int)->0,
        ),
        exists|date: Seq<char>|
            r@ == folder_name_of(
                opt_view(hostname),
                opt_view(customer_name),
                opt_view(technician_name),
                date,
            ),
{
    let stamp = if timestamp <= i64::MAX as u64 {
        format_utc_stamp(timestamp as i64)
    } else {
        None
    };
    let date = match stamp {
        Some(d) => d,
        None => format_now_stamp(),
    };
    folder_name_from_parts(hostname, customer_name, technician_name, date.as_str())
}

/// Where the parts of a saved report go.
#[derive(Clone, Debug)]
pub struct ReportLayout {
    pub report_folder: String,
    pub report_file: String,
    pub run_plan_file: String,
    pub execution_log_file: String,
    pub metadata_file: String,
}

/// Lays out a report folder named `folder_name` in the reports folder:
/// `report.json`, `run_plan.json`, `execution.log` and `metadata.json`.
pub fn report_layout(reports_dir: &str, folder_name: &str) -> (r: ReportLayout)
    ensures
        r.report_folder@ == joined_with(reports_dir@, folder_name@, '/'),
        r.report_file@ == joined_with(r.report_folder@, "report.json"@, '/'),
        r.run_plan_file@ == joined_with(r.report_folder@, "run_plan.json"@, '/'),
        r.execution_log_file@ == joined_with(r.report_folder@, "execution.log"@, '/'),
        r.metadata_file@ == joined_with(r.report_folder@, "metadata.json"@, '/'),
{
    let report_folder = join_path(reports_dir, folder_name);
    let report_file = join_path(report_folder.as_str(), "report.json");
    let run_plan_file = join_path(report_folder.as_str(), "run_plan.json");
    let execution_log_file = join_path(report_folder.as_str(), "execution.log");
    let metadata_file = join_path(report_folder.as_str(), "metadata.json");
    ReportLayout { report_folder, report_file, run_plan_file, execution_log_file, metadata_file }
}

/// The time by which a listed report is ordered: its saving time, or 0
/// where it has no metadata.
pub open spec fn report_time(item: ReportListItem) -> u64 {
    match item.metadata {
        Some(m) => m.timestamp,
        None => 0,
    }
}

fn time_of(item: &ReportListItem) -> (r: u64)
    ensures
        r == report_time(*item),
{
    match &item.metadata {
        Some(m) => m.timestamp,
        None => 0,
    }
}

/// Whether `r` is `items` ordered newest first, stably: `perm` maps each
/// position of `r` to the position in `items` of the report there, each
/// position once, and reports of the same time keep their order.
pub open spec fn newest_first_of(items: Seq<ReportListItem>, r: Seq<ReportListItem>, perm: Seq<int>) -> bool {
    &&& r.len() == items.len() && perm.len() == r.len()
    &&& forall|i: int| 0 <= i < r.len() ==> 0 <= #[trigger] perm[i] < items.len() && r[i] == items[perm[i]]
    &&& forall|i: int, j: int| 0 <= i < j < r.len() ==> perm[i] != perm[j]
    &&& forall|i: int, j: int|
        0 <= i < j < r.len() ==> report_time(r[i]) > report_time(r[j]) || (report_time(r[i])
            == report_time(r[j]) && perm[i] < perm[j])
}

/// Orders listed reports newest first; reports of the same time keep their
/// order.
pub fn sort_newest_first(items: Vec<ReportListItem>) -> (r: Vec<ReportListItem>)
    ensures
        exists|perm: Seq<int>| #[trigger] newest_first_of(items@, r@, perm),
{
    let ghost orig = items@;
    let mut rest = items;
    let mut out: Vec<ReportListItem> = Vec::new();
    let ghost mut perm: Seq<int> = Seq::empty();
    let ghost mut rem: Seq<int> = Seq::new(orig.len(), |i: int| i);
    while rest.len() > 0
        invariant
            rest@.len() == rem.len(),
            out@.len() == perm.len(),
            out@.len() + rest@.len() == orig.len(),
            forall|k: int| 0 <= k < rem.len() ==> 0 <= #[trigger] rem[k] < orig.len() && rest@[k] == orig[rem[k]],
            forall|k: int, l: int| 0 <= k < l < rem.len() ==> rem[k] < rem[l],
            forall|i: int| 0 <= i < out@.len() ==> 0 <= #[trigger] perm[i] < orig.len() && out@[i] == orig[perm[i]],
            forall|i: int, j: int| 0 <= i < j < out@.len() ==> perm[i] != perm[j],
            forall|i: int, k: int| 0 <= i < out@.len() && 0 <= k < rem.len() ==> perm[i] != rem[k],
            forall|i: int, j: int|
                #![trigger out@[i], out@[j]]
                0 <= i < j < out@.len() ==> report_time(out@[i]) > report_time(out@[j]) || (report_time(out@[i])
                    == report_time(out@[j]) && perm[i] < perm[j]),
            forall|i: int, k: int|
                #![trigger out@[i], rest@[k]]
                0 <= i < out@.len() && 0 <= k < rest@.len() ==> report_time(out@[i]) > report_time(rest@[k]) || (
                report_time(out@[i]) == report_time(rest@[k]) && perm[i] < rem[k]),
        decreases rest.len(),
    {
        let mut best: usize = 0;
        let mut best_time = time_of(&rest[0]);
        let mut k: usize = 1;
        while k < rest.len()
            invariant
                0 < rest@.len(),
                best < k <= rest@.len(),
                best_time == report_time(rest@[best as int]),
                forall|j: int| 0 <= j < k ==> report_time(rest@[j]) <= best_time,
                forall|j: int| 0 <= j < best ==> report_time(rest@[j]) < best_time,
            decreases rest.len() - k,
        {
            let t = time_of(&rest[k]);
            if t > best_time {
                best = k;
                best_time = t;
            }
            k = k + 1;
        }
        let ghost before = rest@;
        let ghost rem0 = rem;
        let ghost perm0 = perm;
        let ghost out0 = out@;
        let item = rest.remove(best);
        out.push(item);
        proof {
            perm = perm.push(rem0[best as int]);
            rem = rem0.remove(best as int);
            assert(rest@ == before.remove(best as int));
            assert forall|q: int| 0 <= q < rem.len() implies 0 <= #[trigger] rem[q] < orig.len() && rest@[q] == orig[rem[q]] by {
                if q < best {
                    assert(rem[q] == rem0[q]);
                } else {
                    assert(rem[q] == rem0[q + 1]);
                }
            }
            assert forall|q: int, l: int| 0 <= q < l < rem.len() implies rem[q] < rem[l] by {
                let qq = if q < best { q } else { q + 1 };
                let ll = if l < best { l } else { l + 1 };
                assert(rem[q] == rem0[qq]);
                assert(rem[l] == rem0[ll]);
            }
            assert forall|i: int| 0 <= i < out@.len() implies 0 <= #[trigger] perm[i] < orig.len() && out@[i] == orig[perm[i]] by {
                if i < out0.len() {
                    assert(perm[i] == perm0[i]);
                }
            }
            assert forall|i: int, j: int| 0 <= i < j < out@.len() implies perm[i] != perm[j] by {
                if j == out0.len() {
                    assert(perm[i] == perm0[i]);
                }
            }
            assert forall|i: int, q: int| 0 <= i < out@.len() && 0 <= q < rem.len() implies perm[i] != rem[q] by {
                let qq = if q < best { q } else { q + 1 };
                assert(rem[q] == rem0[qq]);
                if i < out0.len() {
                    assert(perm[i] == perm0[i]);
                } else {
                    assert(perm[i] == rem0[best as int]);
                }
            }
            assert forall|i: int, j: int|
                #![trigger out@[i], out@[j]]
                0 <= i < j < out@.len() implies report_time(out@[i]) > report_time(out@[j]) || (report_time(out@[i])
                    == report_time(out@[j]) && perm[i] < perm[j]) by {
                assert(out@[i] == out0[i]);
                assert(perm[i] == perm0[i]);
                if j == out0.len() {
                    assert(out@[j] == before[best as int]);
                    assert(perm[j] == rem0[best as int]);
                    assert(report_time(out0[i]) > report_time(before[best as int]) || (report_time(out0[i])
                        == report_time(before[best as int]) && perm0[i] < rem0[best as int]));
                } else {
                    assert(out@[j] == out0[j]);
                    assert(perm[j] == perm0[j]);
                }
            }
            assert forall|i: int, q: int|
                #![trigger out@[i], rest@[q]]
                0 <= i < out@.len() && 0 <= q < rest@.len() implies report_time(out@[i]) > report_time(rest@[q]) || (
                report_time(out@[i]) == report_time(rest@[q]) && perm[i] < rem[q]) by {
                let qq = if q < best { q } else { q + 1 };
                assert(rest@[q] == before[qq]);
                assert(rem[q] == rem0[qq]);
                if i < out0.len() {
                    assert(perm[i] == perm0[i]);
                    assert(out@[i] == out0[i]);
                    assert(report_time(out0[i]) > report_time(before[qq]) || (report_time(out0[i])
                        == report_time(before[qq]) && perm0[i] < rem0[qq]));
                } else {
                    assert(perm[i] == rem0[best as int]);
                    assert(out@[i] == before[best as int]);
                    assert(report_time(before[qq]) <= report_time(before[best as int]));
                    if qq < best {
                        assert(report_time(before[qq]) < report_time(before[best as int]));
                    } else {
                        assert(rem0[best as int] < rem0[qq]);
                    }
                }
            }
        }
    }
    proof {
        assert(out@.len() == orig.len());
        assert(newest_first_of(orig, out@, perm));
    }
    out
}

} // verus!
