use autoservice::network::PathStyle;
use autoservice::programs::{
    exe_candidates, normalize_program_paths, portable_exe_path, record_launch, remove_program, remove_script,
    resolve_exe_path, save_program, save_script, strip_root, ProgramEntry,
};
use autoservice::scripts::ScriptEntry;

fn program(id: u128, name: &str, exe: &str, count: u32) -> ProgramEntry {
    ProgramEntry {
        id,
        name: name.to_string(),
        version: String::new(),
        description: String::new(),
        exe_path: exe.to_string(),
        logo_data_url: String::new(),
        exe_exists: false,
        launch_count: count,
    }
}

fn script(id: u128, name: &str) -> ScriptEntry {
    ScriptEntry {
        id,
        name: name.to_string(),
        version: String::new(),
        description: String::new(),
        runner: "cmd".to_string(),
        source: "inline".to_string(),
        path: String::new(),
        url: String::new(),
        inline: "dir".to_string(),
        run_count: 0,
        path_exists: false,
    }
}

#[test]
fn saving_keeps_launch_count_of_existing_entry() {
    let mut list = vec![program(1, "a", "a.exe", 7), program(2, "b", "b.exe", 3)];
    save_program(&mut list, program(2, "b2", "b2.exe", 0));
    assert_eq!(list.len(), 2);
    assert_eq!(list[1].name, "b2");
    assert_eq!(list[1].launch_count, 3);
    save_program(&mut list, program(9, "c", "c.exe", 4));
    assert_eq!(list.len(), 3);
    assert_eq!(list[2].launch_count, 4);
}

#[test]
fn removing_and_counting_launches() {
    let list = vec![program(1, "a", "", 0), program(2, "b", "", 0), program(1, "a2", "", 0)];
    let left = remove_program(list, 1);
    assert_eq!(left.len(), 1);
    assert_eq!(left[0].id, 2);
    let mut list = vec![program(5, "x", "", u32::MAX), program(6, "y", "", 1)];
    record_launch(&mut list, 5);
    record_launch(&mut list, 6);
    record_launch(&mut list, 99);
    assert_eq!(list[0].launch_count, u32::MAX);
    assert_eq!(list[1].launch_count, 2);
}

#[test]
fn saving_and_removing_scripts() {
    let mut list = vec![script(1, "a"), script(2, "b")];
    save_script(&mut list, script(1, "a2"));
    assert_eq!(list[0].name, "a2");
    save_script(&mut list, script(3, "c"));
    assert_eq!(list.len(), 3);
    let left = remove_script(list, 2);
    let names: Vec<&str> = left.iter().map(|s| s.name.as_str()).collect();
    assert_eq!(names, vec!["a2", "c"]);
}

#[test]
fn executables_are_stored_relative_to_the_data_root() {
    assert_eq!(strip_root("/d/data/tools/x.exe", "/d/data"), Some("tools/x.exe".to_string()));
    assert_eq!(strip_root("/d/data/tools/x.exe", "/d/data/"), Some("tools/x.exe".to_string()));
    assert_eq!(strip_root("/d/database/x.exe", "/d/data"), None);
    assert_eq!(portable_exe_path("/d/data/x.exe", "/d/data", PathStyle::Posix), "x.exe");
    assert_eq!(portable_exe_path("tools/x.exe", "/d/data", PathStyle::Posix), "tools/x.exe");
    assert_eq!(portable_exe_path("C:\\data\\x.exe", "C:\\data", PathStyle::Windows), "x.exe");
    let mut list = vec![program(1, "a", "/d/data/a.exe", 0), program(2, "b", "/other/b.exe", 0)];
    assert!(normalize_program_paths(&mut list, "/d/data", PathStyle::Posix));
    assert_eq!(list[0].exe_path, "a.exe");
    assert_eq!(list[1].exe_path, "/other/b.exe");
    assert!(!normalize_program_paths(&mut list, "/d/data", PathStyle::Posix));
}

#[test]
fn executables_are_resolved() {
    assert_eq!(
        exe_candidates("/d", "x.exe"),
        ("/d/x.exe".to_string(), "/d/programs/x.exe".to_string())
    );
    assert_eq!(resolve_exe_path("/d", "/abs/x.exe", PathStyle::Posix, false, false), "/abs/x.exe");
    assert_eq!(resolve_exe_path("/d", "x.exe", PathStyle::Posix, false, true), "/d/programs/x.exe");
    assert_eq!(resolve_exe_path("/d", "x.exe", PathStyle::Posix, true, true), "/d/x.exe");
    assert_eq!(resolve_exe_path("/d", "x.exe", PathStyle::Posix, false, false), "/d/x.exe");
}
