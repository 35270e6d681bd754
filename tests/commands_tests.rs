use autoservice::network::PathStyle;
use autoservice::scripts::{
    is_windows_absolute, run_script, script_command, script_path_to_check, stored_script_path, ScriptEntry,
};
use autoservice::shortcuts::{launch_shortcut, ps_quote, same_text};

fn strs(v: &[&str]) -> Vec<String> {
    v.iter().map(|s| s.to_string()).collect()
}

#[test]
fn detached_shortcuts_start_through_cmd() {
    let c = launch_shortcut("power_options").unwrap();
    assert_eq!(c.program, "cmd");
    assert_eq!(c.args, strs(&["/c", "start", "", "control.exe", "powercfg.cpl"]));
    let c = launch_shortcut("control_troubleshooting").unwrap();
    assert_eq!(c.args, strs(&["/c", "start", "", "control.exe", "/name", "Microsoft.Troubleshooting"]));
    let c = launch_shortcut("notepad").unwrap();
    assert_eq!(c.args, strs(&["/c", "start", "", "notepad.exe"]));
}

#[test]
fn elevated_shortcuts_go_through_powershell() {
    let c = launch_shortcut("cmd_admin").unwrap();
    assert_eq!(c.program, "powershell.exe");
    assert_eq!(
        c.args,
        strs(&["-NoProfile", "-WindowStyle", "Hidden", "-Command", "Start-Process 'cmd.exe' -Verb runAs"])
    );
}

#[test]
fn unknown_shortcut_is_refused() {
    assert_eq!(launch_shortcut("nope").unwrap_err(), "Unknown shortcut id: nope");
    assert_eq!(launch_shortcut("").unwrap_err(), "Unknown shortcut id: ");
}

#[test]
fn powershell_quoting() {
    assert_eq!(ps_quote("it's"), "'it''s'");
    assert_eq!(ps_quote(""), "''");
    assert!(same_text("a", "a"));
    assert!(!same_text("a", "ab"));
}

#[test]
fn cmd_script_commands() {
    let c = script_command("cmd-admin", "link", "", "http://x/s.cmd", "").unwrap();
    assert_eq!(c.program, "powershell.exe");
    assert_eq!(
        c.args,
        strs(&[
            "-NoProfile",
            "-ExecutionPolicy",
            "Bypass",
            "-Command",
            "Start-Process -FilePath 'cmd.exe' -Verb RunAs -ArgumentList @('/K','curl -sL http://x/s.cmd | cmd')",
        ])
    );
    assert_eq!(script_command("cmd", "file", "  ", "", "").unwrap_err(), "Script path is empty");
}

#[test]
fn powershell_script_commands() {
    let c = script_command("powershell", "inline", "", "", "Write-Host 'hi'").unwrap();
    assert_eq!(
        c.args[4],
        "Start-Process -FilePath 'powershell.exe' -ArgumentList @('-NoExit','-NoProfile','-ExecutionPolicy','Bypass','-Command','Write-Host ''hi''')"
    );
    let c = script_command("powershell", "file", "C:\\s.ps1", "", "").unwrap();
    assert!(c.args[4].ends_with("'-File','C:\\s.ps1')"));
}

#[test]
fn scripts_resolve_relative_paths_under_the_data_root() {
    assert!(is_windows_absolute("C:\\x"));
    assert!(is_windows_absolute("\\\\srv\\share"));
    assert!(!is_windows_absolute("scripts\\a.ps1"));
    let s = ScriptEntry {
        id: 1,
        name: "n".to_string(),
        version: String::new(),
        description: String::new(),
        runner: "PowerShell-Admin".to_string(),
        source: "file".to_string(),
        path: "scripts\\a.ps1".to_string(),
        url: String::new(),
        inline: String::new(),
        run_count: 0,
        path_exists: false,
    };
    let c = run_script(&s, "D:\\data").unwrap();
    assert_eq!(
        c.args[4],
        "Start-Process -FilePath 'powershell.exe' -Verb RunAs -ArgumentList @('-NoExit','-NoProfile','-ExecutionPolicy','Bypass','-File','D:\\data\\scripts\\a.ps1')"
    );
}

#[test]
fn script_files_to_check_and_store() {
    assert_eq!(script_path_to_check("inline", "x", "/d", PathStyle::Posix), None);
    assert_eq!(script_path_to_check("file", "s/a.ps1", "/d", PathStyle::Posix), Some("/d/s/a.ps1".to_string()));
    assert_eq!(script_path_to_check("file", "/abs/a.ps1", "/d", PathStyle::Posix), Some("/abs/a.ps1".to_string()));
    assert_eq!(stored_script_path("file", "/d/s/a.ps1", "/d", PathStyle::Posix), "s/a.ps1");
    assert_eq!(stored_script_path("link", "/d/s/a.ps1", "/d", PathStyle::Posix), "/d/s/a.ps1");
}
