//! Built-in Windows tools, settings panels and utilities, launched by name.

use crate::text::{concat2, concat3, push_char};
use vstd::prelude::*;

verus! {

/// Whether two texts are equal, character by character.
pub fn same_text(a: &str, b: &str) -> (r: bool)
    ensures
        r == (a@ == b@),
{
    let n = a.unicode_len();
    let m = b.unicode_len();
    if n != m {
        return false;
    }
    let mut i: usize = 0;
    while i < n
        invariant
            n == a@.len() == b@.len(),
            i <= n,
            forall|k: int| 0 <= k < i ==> a@[k] == b@[k],
        decreases n - i,
    {
        if a.get_char(i) != b.get_char(i) {
            return false;
        }
        i = i + 1;
    }
    assert(a@ =~= b@);
    true
}

/// A shortcut: the program it starts, its arguments, and whether it needs
/// administrator rights.
#[derive(Clone, Debug)]
pub struct Shortcut {
    pub target: String,
    pub args: Vec<String>,
    pub elevated: bool,
}

/// A shortcut, as plain values.
pub struct ShortcutSpec {
    pub target: Seq<char>,
    pub args: Seq<Seq<char>>,
    pub elevated: bool,
}

/// The view of a list of texts.
pub open spec fn texts(v: Seq<String>) -> Seq<Seq<char>> {
    v.map_values(|s: String| s@)
}

/// The shortcut known by `id`, if any.
pub open spec fn shortcut_of(id: Seq<char>) -> Option<ShortcutSpec> {
    if id == "control_panel"@ {
        Some(ShortcutSpec { target: "control.exe"@, args: Seq::<Seq<char>>::empty(), elevated: false })
    } else if id == "power_options"@ {
        Some(ShortcutSpec { target: "control.exe"@, args: seq!["powercfg.cpl"@], elevated: false })
    } else if id == "programs_features"@ {
        Some(ShortcutSpec { target: "control.exe"@, args: seq!["appwiz.cpl"@], elevated: false })
    } else if id == "internet_options"@ {
        Some(ShortcutSpec { target: "control.exe"@, args: seq!["inetcpl.cpl"@], elevated: false })
    } else if id == "printers"@ {
        Some(ShortcutSpec { target: "control.exe"@, args: seq!["printers"@], elevated: false })
    } else if id == "network_connections"@ {
        Some(ShortcutSpec { target: "control.exe"@, args: seq!["ncpa.cpl"@], elevated: false })
    } else if id == "firewall_control"@ {
        Some(ShortcutSpec { target: "control.exe"@, args: seq!["firewall.cpl"@], elevated: false })
    } else if id == "user_accounts_advanced"@ {
        Some(ShortcutSpec { target: "control.exe"@, args: seq!["userpasswords2"@], elevated: false })
    } else if id == "netplwiz"@ {
        Some(ShortcutSpec { target: "netplwiz.exe"@, args: Seq::<Seq<char>>::empty(), elevated: false })
    } else if id == "device_manager"@ {
        Some(ShortcutSpec { target: "devmgmt.msc"@, args: Seq::<Seq<char>>::empty(), elevated: false })
    } else if id == "disk_management"@ {
        Some(ShortcutSpec { target: "diskmgmt.msc"@, args: Seq::<Seq<char>>::empty(), elevated: false })
    } else if id == "services"@ {
        Some(ShortcutSpec { target: "services.msc"@, args: Seq::<Seq<char>>::empty(), elevated: false })
    } else if id == "event_viewer"@ {
        Some(ShortcutSpec { target: "eventvwr.msc"@, args: Seq::<Seq<char>>::empty(), elevated: false })
    } else if id == "computer_management"@ {
        Some(ShortcutSpec { target: "compmgmt.msc"@, args: Seq::<Seq<char>>::empty(), elevated: false })
    } else if id == "firewall_advanced"@ {
        Some(ShortcutSpec { target: "wf.msc"@, args: Seq::<Seq<char>>::empty(), elevated: false })
    } else if id == "local_users_groups"@ {
        Some(ShortcutSpec { target: "lusrmgr.msc"@, args: Seq::<Seq<char>>::empty(), elevated: false })
    } else if id == "local_security_policy"@ {
        Some(ShortcutSpec { target: "secpol.msc"@, args: Seq::<Seq<char>>::empty(), elevated: false })
    } else if id == "group_policy"@ {
        Some(ShortcutSpec { target: "gpedit.msc"@, args: Seq::<Seq<char>>::empty(), elevated: false })
    } else if id == "task_manager"@ {
        Some(ShortcutSpec { target: "taskmgr.exe"@, args: Seq::<Seq<char>>::empty(), elevated: false })
    } else if id == "system_properties"@ {
        Some(ShortcutSpec { target: "sysdm.cpl"@, args: Seq::<Seq<char>>::empty(), elevated: false })
    } else if id == "system_information"@ {
        Some(ShortcutSpec { target: "msinfo32.exe"@, args: Seq::<Seq<char>>::empty(), elevated: false })
    } else if id == "performance_monitor"@ {
        Some(ShortcutSpec { target: "perfmon.exe"@, args: Seq::<Seq<char>>::empty(), elevated: false })
    } else if id == "resource_monitor"@ {
        Some(ShortcutSpec { target: "resmon.exe"@, args: Seq::<Seq<char>>::empty(), elevated: false })
    } else if id == "directx_diag"@ {
        Some(ShortcutSpec { target: "dxdiag.exe"@, args: Seq::<Seq<char>>::empty(), elevated: false })
    } else if id == "disk_cleanup"@ {
        Some(ShortcutSpec { target: "cleanmgr.exe"@, args: Seq::<Seq<char>>::empty(), elevated: false })
    } else if id == "windows_features"@ {
        Some(ShortcutSpec { target: "optionalfeatures.exe"@, args: Seq::<Seq<char>>::empty(), elevated: false })
    } else if id == "optimize_drives"@ {
        Some(ShortcutSpec { target: "dfrgui.exe"@, args: Seq::<Seq<char>>::empty(), elevated: false })
    } else if id == "system_config"@ {
        Some(ShortcutSpec { target: "msconfig.exe"@, args: Seq::<Seq<char>>::empty(), elevated: false })
    } else if id == "diskpart"@ {
        Some(ShortcutSpec { target: "diskpart.exe"@, args: Seq::<Seq<char>>::empty(), elevated: true })
    } else if id == "cmd"@ {
        Some(ShortcutSpec { target: "cmd.exe"@, args: Seq::<Seq<char>>::empty(), elevated: false })
    } else if id == "cmd_admin"@ {
        Some(ShortcutSpec { target: "cmd.exe"@, args: Seq::<Seq<char>>::empty(), elevated: true })
    } else if id == "powershell"@ {
        Some(ShortcutSpec { target: "powershell.exe"@, args: Seq::<Seq<char>>::empty(), elevated: false })
    } else if id == "powershell_admin"@ {
        Some(ShortcutSpec { target: "powershell.exe"@, args: Seq::<Seq<char>>::empty(), elevated: true })
    } else if id == "notepad"@ {
        Some(ShortcutSpec { target: "notepad.exe"@, args: Seq::<Seq<char>>::empty(), elevated: false })
    } else if id == "calculator"@ {
        Some(ShortcutSpec { target: "calc.exe"@, args: Seq::<Seq<char>>::empty(), elevated: false })
    } else if id == "snipping_tool"@ {
        Some(ShortcutSpec { target: "snippingtool.exe"@, args: Seq::<Seq<char>>::empty(), elevated: false })
    } else if id == "paint"@ {
        Some(ShortcutSpec { target: "mspaint.exe"@, args: Seq::<Seq<char>>::empty(), elevated: false })
    } else if id == "character_map"@ {
        Some(ShortcutSpec { target: "charmap.exe"@, args: Seq::<Seq<char>>::empty(), elevated: false })
    } else if id == "remote_desktop"@ {
        Some(ShortcutSpec { target: "mstsc.exe"@, args: Seq::<Seq<char>>::empty(), elevated: false })
    } else if id == "remote_assistance"@ {
        Some(ShortcutSpec { target: "msra.exe"@, args: Seq::<Seq<char>>::empty(), elevated: false })
    } else if id == "on_screen_keyboard"@ {
        Some(ShortcutSpec { target: "osk.exe"@, args: Seq::<Seq<char>>::empty(), elevated: false })
    } else if id == "magnifier"@ {
        Some(ShortcutSpec { target: "magnify.exe"@, args: Seq::<Seq<char>>::empty(), elevated: false })
    } else if id == "narrator"@ {
        Some(ShortcutSpec { target: "narrator.exe"@, args: Seq::<Seq<char>>::empty(), elevated: false })
    } else if id == "msrt"@ {
        Some(ShortcutSpec { target: "mrt.exe"@, args: Seq::<Seq<char>>::empty(), elevated: false })
    } else if id == "registry_editor"@ {
        Some(ShortcutSpec { target: "regedit.exe"@, args: Seq::<Seq<char>>::empty(), elevated: false })
    } else if id == "about_windows"@ {
        Some(ShortcutSpec { target: "winver.exe"@, args: Seq::<Seq<char>>::empty(), elevated: false })
    } else if id == "settings_power_sleep"@ {
        Some(ShortcutSpec { target: "explorer.exe"@, args: seq!["ms-settings:powersleep"@], elevated: false })
    } else if id == "settings_update"@ {
        Some(ShortcutSpec { target: "explorer.exe"@, args: seq!["ms-settings:windowsupdate"@], elevated: false })
    } else if id == "settings_apps_features"@ {
        Some(ShortcutSpec { target: "explorer.exe"@, args: seq!["ms-settings:appsfeatures"@], elevated: false })
    } else if id == "settings_network"@ {
        Some(ShortcutSpec { target: "explorer.exe"@, args: seq!["ms-settings:network"@], elevated: false })
    } else if id == "settings_windows_security"@ {
        Some(ShortcutSpec { target: "explorer.exe"@, args: seq!["windowsdefender:"@], elevated: false })
    } else if id == "control_troubleshooting"@ {
        Some(ShortcutSpec { target: "control.exe"@, args: seq!["/name"@, "Microsoft.Troubleshooting"@], elevated: false })
    } else {
        None
    }
}

proof fn lemma_texts_push(v: Seq<String>, s: String)
    ensures
        texts(v.push(s)) == texts(v).push(s@),
{
    assert(texts(v.push(s)) =~= texts(v).push(s@));
}

fn push_word(v: &mut Vec<String>, w: &str)
    ensures
        texts(final(v)@) == texts(old(v)@).push(w@),
{
    let s = String::from_str(w);
    proof {
        lemma_texts_push(old(v)@, s);
    }
    v.push(s);
}

fn one_word(a: &str) -> (r: Vec<String>)
    ensures
        texts(r@) == seq![a@],
{
    let mut r: Vec<String> = Vec::new();
    push_word(&mut r, a);
    assert(texts(Seq::<String>::empty()).push(a@) =~= seq![a@]);
    r
}

fn two_words(a: &str, b: &str) -> (r: Vec<String>)
    ensures
        texts(r@) == seq![a@, b@],
{
    let mut r: Vec<String> = Vec::new();
    push_word(&mut r, a);
    push_word(&mut r, b);
    assert(texts(Seq::<String>::empty()).push(a@).push(b@) =~= seq![a@, b@]);
    r
}

fn shortcut(target: &str, args: Vec<String>, elevated: bool) -> (r: Shortcut)
    ensures
        r.target@ == target@,
        r.args == args,
        r.elevated == elevated,
{
    Shortcut { target: String::from_str(target), args, elevated }
}

/// The shortcut known by `id`, if any.
#[verifier::rlimit(50)]
pub fn find_shortcut(id: &str) -> (r: Option<Shortcut>)
    ensures
        match r {
            Some(s) => shortcut_of(id@) matches Some(t) && s.target@ == t.target && texts(s.args@)
                == t.args && s.elevated == t.elevated,
            None => shortcut_of(id@) is None,
        },
{
    proof {
        reveal_strlit("");
    }
    if same_text(id, "control_panel") {
        Some(shortcut("control.exe", Vec::new(), false))
    } else if same_text(id, "power_options") {
        Some(shortcut("control.exe", one_word("powercfg.cpl"), false))
    } else if same_text(id, "programs_features") {
        Some(shortcut("control.exe", one_word("appwiz.cpl"), false))
    } else if same_text(id, "internet_options") {
        Some(shortcut("control.exe", one_word("inetcpl.cpl"), false))
    } else if same_text(id, "printers") {
        Some(shortcut("control.exe", one_word("printers"), false))
    } else if same_text(id, "network_connections") {
        Some(shortcut("control.exe", one_word("ncpa.cpl"), false))
    } else if same_text(id, "firewall_control") {
        Some(shortcut("control.exe", one_word("firewall.cpl"), false))
    } else if same_text(id, "user_accounts_advanced") {
        Some(shortcut("control.exe", one_word("userpasswords2"), false))
    } else if same_text(id, "netplwiz") {
        Some(shortcut("netplwiz.exe", Vec::new(), false))
    } else if same_text(id, "device_manager") {
        Some(shortcut("devmgmt.msc", Vec::new(), false))
    } else if same_text(id, "disk_management") {
        Some(shortcut("diskmgmt.msc", Vec::new(), false))
    } else if same_text(id, "services") {
        Some(shortcut("services.msc", Vec::new(), false))
    } else if same_text(id, "event_viewer") {
        Some(shortcut("eventvwr.msc", Vec::new(), false))
    } else if same_text(id, "computer_management") {
        Some(shortcut("compmgmt.msc", Vec::new(), false))
    } else if same_text(id, "firewall_advanced") {
        Some(shortcut("wf.msc", Vec::new(), false))
    } else if same_text(id, "local_users_groups") {
        Some(shortcut("lusrmgr.msc", Vec::new(), false))
    } else if same_text(id, "local_security_policy") {
        Some(shortcut("secpol.msc", Vec::new(), false))
    } else if same_text(id, "group_policy") {
        Some(shortcut("gpedit.msc", Vec::new(), false))
    } else if same_text(id, "task_manager") {
        Some(shortcut("taskmgr.exe", Vec::new(), false))
    } else if same_text(id, "system_properties") {
        Some(shortcut("sysdm.cpl", Vec::new(), false))
    } else if same_text(id, "system_information") {
        Some(shortcut("msinfo32.exe", Vec::new(), false))
    } else if same_text(id, "performance_monitor") {
        Some(shortcut("perfmon.exe", Vec::new(), false))
    } else if same_text(id, "resource_monitor") {
        Some(shortcut("resmon.exe", Vec::new(), false))
    } else if same_text(id, "directx_diag") {
        Some(shortcut("dxdiag.exe", Vec::new(), false))
    } else if same_text(id, "disk_cleanup") {
        Some(shortcut("cleanmgr.exe", Vec::new(), false))
    } else if same_text(id, "windows_features") {
        Some(shortcut("optionalfeatures.exe", Vec::new(), false))
    } else if same_text(id, "optimize_drives") {
        Some(shortcut("dfrgui.exe", Vec::new(), false))
    } else if same_text(id, "system_config") {
        Some(shortcut("msconfig.exe", Vec::new(), false))
    } else if same_text(id, "diskpart") {
        Some(shortcut("diskpart.exe", Vec::new(), true))
    } else if same_text(id, "cmd") {
        Some(shortcut("cmd.exe", Vec::new(), false))
    } else if same_text(id, "cmd_admin") {
        Some(shortcut("cmd.exe", Vec::new(), true))
    } else if same_text(id, "powershell") {
        Some(shortcut("powershell.exe", Vec::new(), false))
    } else if same_text(id, "powershell_admin") {
        Some(shortcut("powershell.exe", Vec::new(), true))
    } else if same_text(id, "notepad") {
        Some(shortcut("notepad.exe", Vec::new(), false))
    } else if same_text(id, "calculator") {
        Some(shortcut("calc.exe", Vec::new(), false))
    } else if same_text(id, "snipping_tool") {
        Some(shortcut("snippingtool.exe", Vec::new(), false))
    } else if same_text(id, "paint") {
        Some(shortcut("mspaint.exe", Vec::new(), false))
    } else if same_text(id, "character_map") {
        Some(shortcut("charmap.exe", Vec::new(), false))
    } else if same_text(id, "remote_desktop") {
        Some(shortcut("mstsc.exe", Vec::new(), false))
    } else if same_text(id, "remote_assistance") {
        Some(shortcut("msra.exe", Vec::new(), false))
    } else if same_text(id, "on_screen_keyboard") {
        Some(shortcut("osk.exe", Vec::new(), false))
    } else if same_text(id, "magnifier") {
        Some(shortcut("magnify.exe", Vec::new(), false))
    } else if same_text(id, "narrator") {
        Some(shortcut("narrator.exe", Vec::new(), false))
    } else if same_text(id, "msrt") {
        Some(shortcut("mrt.exe", Vec::new(), false))
    } else if same_text(id, "registry_editor") {
        Some(shortcut("regedit.exe", Vec::new(), false))
    } else if same_text(id, "about_windows") {
        Some(shortcut("winver.exe", Vec::new(), false))
    } else if same_text(id, "settings_power_sleep") {
        Some(shortcut("explorer.exe", one_word("ms-settings:powersleep"), false))
    } else if same_text(id, "settings_update") {
        Some(shortcut("explorer.exe", one_word("ms-settings:windowsupdate"), false))
    } else if same_text(id, "settings_apps_features") {
        Some(shortcut("explorer.exe", one_word("ms-settings:appsfeatures"), false))
    } else if same_text(id, "settings_network") {
        Some(shortcut("explorer.exe", one_word("ms-settings:network"), false))
    } else if same_text(id, "settings_windows_security") {
        Some(shortcut("explorer.exe", one_word("windowsdefender:"), false))
    } else if same_text(id, "control_troubleshooting") {
        Some(shortcut("control.exe", two_words("/name", "Microsoft.Troubleshooting"), false))
    } else {
        None
    }
}

/// A program to start, with its arguments.
#[derive(Clone, Debug)]
pub struct ShellCommand {
    pub program: String,
    pub args: Vec<String>,
}

/// A text in PowerShell single quotes, inner quotes doubled.
pub open spec fn ps_quoted(s: Seq<char>) -> Seq<char> {
    seq!['\''] + quote_doubled(s) + seq!['\'']
}

/// `s` with each `'` doubled.
pub open spec fn quote_doubled(s: Seq<char>) -> Seq<char>
    decreases s.len(),
{
    if s.len() == 0 {
        s
    } else {
        let head = if s[0] == '\'' {
            seq!['\'', '\'']
        } else {
            seq![s[0]]
        };
        head + quote_doubled(s.drop_first())
    }
}

proof fn lemma_quote_doubled_push(s: Seq<char>, c: char)
    ensures
        quote_doubled(s.push(c)) == quote_doubled(s) + (if c == '\'' {
            seq!['\'', '\'']
        } else {
            seq![c]
        }),
    decreases s.len(),
{
    if s.len() == 0 {
        assert(s.push(c).drop_first() =~= s);
        assert(quote_doubled(s) =~= Seq::<char>::empty());
    } else {
        lemma_quote_doubled_push(s.drop_first(), c);
        assert(s.push(c).drop_first() =~= s.drop_first().push(c));
        assert(s.push(c)[0] == s[0]);
    }
}

/// Quotes a text for PowerShell: single quotes around it, each inner `'`
/// doubled.
pub fn ps_quote(s: &str) -> (r: String)
    ensures
        r@ == ps_quoted(s@),
{
    let n = s.unicode_len();
    let mut body = String::new();
    let mut i: usize = 0;
    while i < n
        invariant
            n == s@.len(),
            i <= n,
            body@ == quote_doubled(s@.subrange(0, i as int)),
        decreases n - i,
    {
        let c = s.get_char(i);
        proof {
            lemma_quote_doubled_push(s@.subrange(0, i as int), c);
            assert(s@.subrange(0, i + 1) =~= s@.subrange(0, i as int).push(c));
        }
        push_char(&mut body, c);
        if c == '\'' {
            push_char(&mut body, '\'');
        }
        i = i + 1;
    }
    assert(s@.subrange(0, n as int) =~= s@);
    let mut r = String::new();
    push_char(&mut r, '\'');
    r.append(body.as_str());
    push_char(&mut r, '\'');
    proof {
        assert(r@ =~= ps_quoted(s@));
    }
    r
}

/// The items of `items`, each quoted for PowerShell, separated by `sep`.
pub open spec fn quoted_list(items: Seq<Seq<char>>, sep: Seq<char>) -> Seq<char>
    decreases items.len(),
{
    if items.len() == 0 {
        Seq::empty()
    } else if items.len() == 1 {
        ps_quoted(items[0])
    } else {
        quoted_list(items.drop_last(), sep) + sep + ps_quoted(items.last())
    }
}

/// Quotes each item for PowerShell and joins them with `sep`.
pub fn quote_list(items: &Vec<String>, sep: &str) -> (r: String)
    ensures
        r@ == quoted_list(texts(items@), sep@),
{
    let mut r = String::new();
    let mut i: usize = 0;
    while i < items.len()
        invariant
            i <= items@.len(),
            r@ == quoted_list(texts(items@.subrange(0, i as int)), sep@),
        decreases items@.len() - i,
    {
        let q = ps_quote(items[i].as_str());
        if i > 0 {
            r.append(sep);
        }
        r.append(q.as_str());
        proof {
            let t = texts(items@.subrange(0, i + 1));
            assert(t.drop_last() =~= texts(items@.subrange(0, i as int)));
            assert(t.last() == items@[i as int]@);
            if i == 0 {
                assert(r@ =~= quoted_list(t, sep@));
            }
        }
        i = i + 1;
    }
    assert(items@.subrange(0, items@.len() as int) =~= items@);
    r
}

/// The command that starts a shortcut. Without elevation:
/// `cmd /c start "" <target> <args...>`. With elevation, through PowerShell:
/// `Start-Process '<target>' -Verb runAs`, with ` -ArgumentList 'a', 'b'`
/// where there are arguments.
pub open spec fn shortcut_command(s: ShortcutSpec) -> (Seq<char>, Seq<Seq<char>>) {
    if s.elevated {
        let arg_list = if s.args.len() == 0 {
            Seq::<char>::empty()
        } else {
            " -ArgumentList "@ + quoted_list(s.args, ", "@)
        };
        (
            "powershell.exe"@,
            seq![
                "-NoProfile"@,
                "-WindowStyle"@,
                "Hidden"@,
                "-Command"@,
                "Start-Process '"@ + s.target + "' -Verb runAs"@ + arg_list,
            ],
        )
    } else {
        ("cmd"@, seq!["/c"@, "start"@, ""@, s.target] + s.args)
    }
}

/// The command that starts `s` (see `shortcut_command`).
pub fn command_for(s: &Shortcut) -> (r: ShellCommand)
    ensures
        (r.program@, texts(r.args@)) == shortcut_command(
            ShortcutSpec { target: s.target@, args: texts(s.args@), elevated: s.elevated },
        ),
{
    if s.elevated {
        let mut ps = concat3("Start-Process '", s.target.as_str(), "' -Verb runAs");
        let ghost arg_list = if s.args@.len() == 0 {
            Seq::<char>::empty()
        } else {
            " -ArgumentList "@ + quoted_list(texts(s.args@), ", "@)
        };
        if s.args.len() > 0 {
            let joined = quote_list(&s.args, ", ");
            ps.append(" -ArgumentList ");
            ps.append(joined.as_str());
        }
        assert(ps@ =~= "Start-Process '"@ + s.target@ + "' -Verb runAs"@ + arg_list);
        let mut args: Vec<String> = Vec::new();
        push_word(&mut args, "-NoProfile");
        push_word(&mut args, "-WindowStyle");
        push_word(&mut args, "Hidden");
        push_word(&mut args, "-Command");
        push_word(&mut args, ps.as_str());
        let r = ShellCommand { program: String::from_str("powershell.exe"), args };
        proof {
            let spec = shortcut_command(
                ShortcutSpec { target: s.target@, args: texts(s.args@), elevated: s.elevated },
            );
            assert(texts(r.args@) =~= spec.1);
        }
        r
    } else {
        let mut args: Vec<String> = Vec::new();
        push_word(&mut args, "/c");
        push_word(&mut args, "start");
        push_word(&mut args, "");
        push_word(&mut args, s.target.as_str());
        let mut i: usize = 0;
        let ghost head = texts(args@);
        while i < s.args.len()
            invariant
                i <= s.args@.len(),
                texts(args@) == head + texts(s.args@.subrange(0, i as int)),
            decreases s.args@.len() - i,
        {
            push_word(&mut args, s.args[i].as_str());
            proof {
                lemma_texts_push(s.args@.subrange(0, i as int), s.args@[i as int]);
                assert(s.args@.subrange(0, i + 1) =~= s.args@.subrange(0, i as int).push(
                    s.args@[i as int],
                ));
            }
            i = i + 1;
        }
        assert(s.args@.subrange(0, s.args@.len() as int) =~= s.args@);
        let r = ShellCommand { program: String::from_str("cmd"), args };
        proof {
            let spec = shortcut_command(
                ShortcutSpec { target: s.target@, args: texts(s.args@), elevated: s.elevated },
            );
            assert(texts(r.args@) =~= spec.1);
        }
        r
    }
}

/// The command that launches the shortcut `id`, or the error for an unknown
/// one.
pub fn launch_shortcut(id: &str) -> (r: Result<ShellCommand, String>)
    ensures
        shortcut_of(id@) is None <==> r is Err,
        r matches Err(m) ==> m@ == "Unknown shortcut id: "@ + id@,
        r matches Ok(c) ==> (c.program@, texts(c.args@)) == shortcut_command(shortcut_of(id@)->0),
{
    match find_shortcut(id) {
        Some(s) => Ok(command_for(&s)),
        None => Err(concat2("Unknown shortcut id: ", id)),
    }
}

} // verus!
