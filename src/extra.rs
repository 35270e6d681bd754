//! Reading the answers of the Windows queries that complete a system
//! snapshot: the last line of an answer, its non-empty lines, and JSON
//! arrays.

use crate::network::{trim_ws, trimmed_ws};
use crate::runner::{json_array_len, parse_json};
use crate::text::push_char;
use vstd::prelude::*;

verus! {

/// `x` without one `\r` at its end.
pub open spec fn strip_cr(x: Seq<char>) -> Seq<char> {
    if x.len() > 0 && x.last() == '\r' {
        x.drop_last()
    } else {
        x
    }
}

/// The index of the first line feed of `s`, or -1.
pub open spec fn first_newline(s: Seq<char>) -> int
    decreases s.len(),
{
    if s.len() == 0 {
        -1
    } else if s[0] == '\n' {
        0
    } else {
        let k = first_newline(s.drop_first());
        if k < 0 {
            -1
        } else {
            k + 1
        }
    }
}

proof fn lemma_first_newline(s: Seq<char>, j: int)
    requires
        -1 <= j < s.len(),
        j >= 0 ==> s[j] == '\n',
        forall|k: int| 0 <= k < s.len() && (j < 0 || k < j) ==> s[k] != '\n',
    ensures
        first_newline(s) == j,
    decreases s.len(),
{
    if s.len() > 0 && j != 0 {
        lemma_first_newline(s.drop_first(), if j < 0 { -1 } else { j - 1 });
    }
}

/// The lines of a text as `str::lines` gives them: split after each line
/// feed, a `\r` before the line feed dropped; a final line feed ends the
/// last line without opening another.
pub open spec fn lines_of(s: Seq<char>) -> Seq<Seq<char>>
    decreases s.len(),
{
    if s.len() == 0 {
        Seq::empty()
    } else {
        let k = first_newline(s);
        if k < 0 || k >= s.len() {
            seq![s]
        } else {
            seq![strip_cr(s.subrange(0, k))] + lines_of(s.subrange(k + 1, s.len() as int))
        }
    }
}

fn char_range(s: &str, from: usize, to: usize) -> (r: String)
    requires
        from <= to <= s@.len(),
    ensures
        r@ == s@.subrange(from as int, to as int),
{
    String::from_str(s.substring_char(from, to))
}

/// Splits a text into its lines (see `lines_of`).
pub fn text_lines(s: &str) -> (r: Vec<String>)
    ensures
        r@.map_values(|l: String| l@) == lines_of(s@),
{
    let n = s.unicode_len();
    let mut out: Vec<String> = Vec::new();
    let mut start: usize = 0;
    let mut j: usize = 0;
    assert(s@.subrange(0, n as int) =~= s@);
    while j < n
        invariant
            n == s@.len(),
            start <= j <= n,
            forall|k: int| start <= k < j ==> s@[k] != '\n',
            lines_of(s@) == out@.map_values(|l: String| l@) + lines_of(s@.subrange(start as int, n as int)),
        decreases n - j,
    {
        if s.get_char(j) == '\n' {
            let ghost t = s@.subrange(start as int, n as int);
            proof {
                lemma_first_newline(t, j - start);
                assert(t.subrange(0, j - start) =~= s@.subrange(start as int, j as int));
                assert(t.subrange(j - start + 1, t.len() as int) =~= s@.subrange(j + 1, n as int));
            }
            let mut line = char_range(s, start, j);
            if j > start && s.get_char(j - 1) == '\r' {
                line = char_range(s, start, j - 1);
                assert(s@.subrange(start as int, j as int).drop_last() =~= s@.subrange(start as int, j - 1));
            }
            let ghost before = out@;
            out.push(line);
            assert(out@.map_values(|l: String| l@) =~= before.map_values(|l: String| l@).push(line@));
            assert(seq![line@] + lines_of(s@.subrange(j + 1, n as int)) =~= lines_of(t));
            assert(out@.map_values(|l: String| l@) + lines_of(s@.subrange(j + 1, n as int)) =~= before.map_values(
                |l: String| l@,
            ) + lines_of(t));
            start = j + 1;
        }
        j = j + 1;
    }
    if start < n {
        let ghost t = s@.subrange(start as int, n as int);
        proof {
            lemma_first_newline(t, -1);
        }
        let ghost before = out@;
        let last = char_range(s, start, n);
        out.push(last);
        assert(out@.map_values(|l: String| l@) =~= before.map_values(|l: String| l@) + seq![t]);
    } else {
        assert(s@.subrange(start as int, n as int) =~= Seq::<char>::empty());
        assert(out@.map_values(|l: String| l@) + Seq::<Seq<char>>::empty() =~= out@.map_values(
            |l: String| l@,
        ));
    }
    out
}

/// The last line of an answer (the answer trimmed first, the line trimmed
/// too), where there is one and it is not blank.
pub open spec fn last_line_of(answer: Seq<char>) -> Option<Seq<char>> {
    let ls = lines_of(trimmed_ws(answer));
    if ls.len() > 0 && trimmed_ws(ls.last()).len() > 0 {
        Some(trimmed_ws(ls.last()))
    } else {
        None
    }
}

/// The last non-blank line of an answer, if any (see `last_line_of`).
pub fn last_line(answer: Option<&str>) -> (r: Option<String>)
    ensures
        match answer {
            None => r is None,
            Some(a) => match r {
                Some(l) => last_line_of(a@) == Some(l@),
                None => last_line_of(a@) is None,
            },
        },
{
    let a = match answer {
        Some(a) => a,
        None => {
            return None;
        },
    };
    let t = trim_ws(a);
    let ls = text_lines(t.as_str());
    if ls.len() == 0 {
        return None;
    }
    let last = trim_ws(ls[ls.len() - 1].as_str());
    proof {
        assert(ls@.map_values(|l: String| l@).last() == ls@.last()@);
    }
    if last.unicode_len() == 0 {
        None
    } else {
        Some(last)
    }
}

/// The trimmed lines of `ls` that are not blank, in order.
pub open spec fn nonblank(ls: Seq<Seq<char>>) -> Seq<Seq<char>>
    decreases ls.len(),
{
    if ls.len() == 0 {
        Seq::empty()
    } else {
        let rest = nonblank(ls.drop_last());
        let t = trimmed_ws(ls.last());
        if t.len() > 0 {
            rest.push(t)
        } else {
            rest
        }
    }
}

/// The non-blank lines of an answer, each trimmed; none without an answer.
pub fn nonblank_lines(answer: Option<&str>) -> (r: Vec<String>)
    ensures
        r@.map_values(|l: String| l@) == (match answer {
            Some(a) => nonblank(lines_of(trimmed_ws(a@))),
            None => Seq::<Seq<char>>::empty(),
        }),
{
    let mut out: Vec<String> = Vec::new();
    let a = match answer {
        Some(a) => a,
        None => {
            assert(out@.map_values(|l: String| l@) =~= Seq::<Seq<char>>::empty());
            return out;
        },
    };
    let t = trim_ws(a);
    let ls = text_lines(t.as_str());
    let ghost lv = ls@.map_values(|l: String| l@);
    let mut i: usize = 0;
    while i < ls.len()
        invariant
            i <= ls@.len(),
            lv == ls@.map_values(|l: String| l@),
            out@.map_values(|l: String| l@) == nonblank(lv.subrange(0, i as int)),
        decreases ls@.len() - i,
    {
        let x = trim_ws(ls[i].as_str());
        assert(lv.subrange(0, i + 1).drop_last() =~= lv.subrange(0, i as int));
        assert(lv.subrange(0, i + 1).last() == ls@[i as int]@);
        if x.unicode_len() > 0 {
            let ghost before = out@;
            out.push(x);
            assert(out@.map_values(|l: String| l@) =~= before.map_values(|l: String| l@).push(x@));
        }
        i = i + 1;
    }
    assert(lv.subrange(0, ls@.len() as int) =~= lv);
    out
}

/// The values of an answer in JSON: the items of an array, a single other
/// value alone, nothing where the answer is missing or no JSON document.
pub fn json_values(answer: Option<&str>) -> (r: Vec<serde_json::Value>)
    ensures
        answer is None ==> r@.len() == 0,
        answer matches Some(a) && !crate::runner::json_document(a@) ==> r@.len() == 0,
        match answer {
            Some(a) => crate::runner::json_document(a@) ==> r@.len() == match json_array_len(a@) {
                Some(n) => n,
                None => 1,
            },
            None => true,
        },
{
    let a = match answer {
        Some(a) => a,
        None => {
            return Vec::new();
        },
    };
    match parse_json(a) {
        None => Vec::new(),
        Some((_, Some(items))) => items,
        Some((v, None)) => {
            let mut one: Vec<serde_json::Value> = Vec::new();
            one.push(v);
            one
        },
    }
}

/// The query for `secure_boot`.
pub const QUERY_SECURE_BOOT: &'static str = "(Confirm-SecureBootUEFI) 2>$null | Out-String";

/// The query for `tpm`.
pub const QUERY_TPM: &'static str = "Get-Tpm | Select-Object -Property TpmPresent, TpmReady, ManagedAuthLevel, OwnerAuth, SpecVersion | ConvertTo-Json -Compress";

/// The query for `bios`.
pub const QUERY_BIOS: &'static str = "Get-CimInstance -ClassName Win32_BIOS | Select-Object Manufacturer, SMBIOSBIOSVersion, ReleaseDate | ConvertTo-Json -Compress";

/// The query for `hotfixes`.
pub const QUERY_HOTFIXES: &'static str = "Get-HotFix | Select-Object -ExpandProperty HotFixID | Out-String";

/// The query for `video_controllers`.
pub const QUERY_VIDEO_CONTROLLERS: &'static str = "Get-CimInstance Win32_VideoController | Select-Object -ExpandProperty Name | Out-String";

/// The query for `physical_disks`.
pub const QUERY_PHYSICAL_DISKS: &'static str = "Get-PhysicalDisk | Select-Object FriendlyName, MediaType, Size | ForEach-Object { \"$($_.FriendlyName) ($($_.MediaType)) $(\"{0:N1}\" -f ($_.Size/1GB)) GB\" } | Out-String";

/// The query for `dotnet`.
pub const QUERY_DOTNET: &'static str = "(Get-ChildItem 'HKLM:SOFTWARE\\Microsoft\\NET Framework Setup\\NDP' -Recurse | Get-ItemProperty -Name Version -ErrorAction SilentlyContinue | Sort-Object Version | Select-Object -Last 1).Version | Out-String";

/// The query for `ram_modules`.
pub const QUERY_RAM_MODULES: &'static str = "Get-CimInstance Win32_PhysicalMemory | Select-Object BankLabel, DeviceLocator, Manufacturer, Capacity, Speed, SerialNumber, PartNumber, MemoryType, FormFactor, ConfiguredVoltage, DataWidth, TotalWidth | ConvertTo-Json -Compress";

/// The query for `cpu_wmi`.
pub const QUERY_CPU_WMI: &'static str = "Get-CimInstance Win32_Processor | Select-Object Name, Manufacturer, NumberOfCores, NumberOfLogicalProcessors, MaxClockSpeed, LoadPercentage | ConvertTo-Json -Compress";

/// The query for `video_ctrl_ex`.
pub const QUERY_VIDEO_CTRL_EX: &'static str = "Get-CimInstance Win32_VideoController | Select-Object Name, AdapterRAM, DriverVersion, VideoModeDescription | ConvertTo-Json -Compress";

/// The query for `baseboard`.
pub const QUERY_BASEBOARD: &'static str = "Get-CimInstance Win32_BaseBoard | Select-Object Manufacturer, Product, SerialNumber | ConvertTo-Json -Compress";

/// The query for `disk_drives`.
pub const QUERY_DISK_DRIVES: &'static str = "Get-CimInstance Win32_DiskDrive | Select-Object Model, InterfaceType, MediaType, Size | ConvertTo-Json -Compress";

/// The query for `nic_enabled`.
pub const QUERY_NIC_ENABLED: &'static str = "Get-CimInstance Win32_NetworkAdapter | Where-Object {$_.NetEnabled -eq $true} | Select-Object Name, MACAddress, Speed | ConvertTo-Json -Compress";

/// The query for `computer_system`.
pub const QUERY_COMPUTER_SYSTEM: &'static str = "Get-CimInstance Win32_ComputerSystem | ConvertTo-Json -Compress";

/// The answers to the queries (each as PowerShell printed it, where the
/// query succeeded).
#[derive(Clone, Debug, Default)]
pub struct ExtraAnswers {
    pub secure_boot: Option<String>,
    pub tpm: Option<String>,
    pub bios: Option<String>,
    pub hotfixes: Option<String>,
    pub video_controllers: Option<String>,
    pub physical_disks: Option<String>,
    pub dotnet: Option<String>,
    pub ram_modules: Option<String>,
    pub cpu_wmi: Option<String>,
    pub video_ctrl_ex: Option<String>,
    pub baseboard: Option<String>,
    pub disk_drives: Option<String>,
    pub nic_enabled: Option<String>,
    pub computer_system: Option<String>,
}

/// Windows details that complete a system snapshot.
#[derive(Debug)]
pub struct ExtraInfo {
    pub secure_boot: Option<String>,
    pub tpm_summary: Option<String>,
    pub bios_vendor: Option<String>,
    pub bios_version: Option<String>,
    pub bios_release_date: Option<String>,
    pub hotfixes: Vec<String>,
    pub video_controllers: Vec<String>,
    pub physical_disks: Vec<String>,
    pub dotnet_version: Option<String>,
    pub ram_modules: Vec<serde_json::Value>,
    pub cpu_wmi: Vec<serde_json::Value>,
    pub video_ctrl_ex: Vec<serde_json::Value>,
    pub baseboard: Vec<serde_json::Value>,
    pub disk_drives: Vec<serde_json::Value>,
    pub nic_enabled: Vec<serde_json::Value>,
    pub computer_system: Vec<serde_json::Value>,
}

/// Relies on `serde_json::Value::get` and matching its `String` variant: the
/// text stored under `key` in a JSON object, if it is a string.
#[verifier::external_body]
fn text_field(v: &serde_json::Value, key: &str) -> (r: Option<String>) {
    match v.get(key) {
        Some(serde_json::Value::String(s)) => Some(s.clone()),
        _ => None,
    }
}

fn opt_str(o: &Option<String>) -> (r: Option<&str>)
    ensures
        match o {
            Some(s) => r matches Some(t) && t@ == s@,
            None => r is None,
        },
{
    match o {
        Some(s) => Some(s.as_str()),
        None => None,
    }
}

/// The view of an optional answer.
pub open spec fn answer_view(o: Option<String>) -> Option<Seq<char>> {
    match o {
        Some(s) => Some(s@),
        None => None,
    }
}

/// Reads the answers into the Windows details: secure boot and the .NET
/// version are last lines, hot fixes, video controllers and physical disks
/// are non-blank lines, the TPM summary is kept trimmed, the BIOS fields
/// come from its JSON object, and the other answers are JSON values.
pub fn extra_from_answers(a: &ExtraAnswers) -> (r: ExtraInfo)
    ensures
        answer_view(r.tpm_summary) == (match a.tpm {
            Some(t) => Some(trimmed_ws(t@)),
            None => None,
        }),
        match a.secure_boot {
            Some(t) => answer_view(r.secure_boot) == last_line_of(t@),
            None => r.secure_boot is None,
        },
        match a.dotnet {
            Some(t) => answer_view(r.dotnet_version) == last_line_of(t@),
            None => r.dotnet_version is None,
        },
        r.hotfixes@.map_values(|l: String| l@) == (match a.hotfixes {
            Some(t) => nonblank(lines_of(trimmed_ws(t@))),
            None => Seq::<Seq<char>>::empty(),
        }),
        r.video_controllers@.map_values(|l: String| l@) == (match a.video_controllers {
            Some(t) => nonblank(lines_of(trimmed_ws(t@))),
            None => Seq::<Seq<char>>::empty(),
        }),
        r.physical_disks@.map_values(|l: String| l@) == (match a.physical_disks {
            Some(t) => nonblank(lines_of(trimmed_ws(t@))),
            None => Seq::<Seq<char>>::empty(),
        }),
        a.bios is None ==> r.bios_vendor is None && r.bios_version is None && r.bios_release_date is None,
        a.ram_modules is None ==> r.ram_modules@.len() == 0,
        a.computer_system is None ==> r.computer_system@.len() == 0,
{
    let (mut bios_vendor, mut bios_version, mut bios_release_date) = (None, None, None);
    if let Some(b) = &a.bios {
        if let Some((v, _)) = parse_json(b.as_str()) {
            bios_vendor = text_field(&v, "Manufacturer");
            bios_version = text_field(&v, "SMBIOSBIOSVersion");
            bios_release_date = text_field(&v, "ReleaseDate");
        }
    }
    let tpm_summary = match &a.tpm {
        Some(t) => Some(trim_ws(t.as_str())),
        None => None,
    };
    ExtraInfo {
        secure_boot: last_line(opt_str(&a.secure_boot)),
        tpm_summary,
        bios_vendor,
        bios_version,
        bios_release_date,
        hotfixes: nonblank_lines(opt_str(&a.hotfixes)),
        video_controllers: nonblank_lines(opt_str(&a.video_controllers)),
        physical_disks: nonblank_lines(opt_str(&a.physical_disks)),
        dotnet_version: last_line(opt_str(&a.dotnet)),
        ram_modules: json_values(opt_str(&a.ram_modules)),
        cpu_wmi: json_values(opt_str(&a.cpu_wmi)),
        video_ctrl_ex: json_values(opt_str(&a.video_ctrl_ex)),
        baseboard: json_values(opt_str(&a.baseboard)),
        disk_drives: json_values(opt_str(&a.disk_drives)),
        nic_enabled: json_values(opt_str(&a.nic_enabled)),
        computer_system: json_values(opt_str(&a.computer_system)),
    }
}

} // verus!
