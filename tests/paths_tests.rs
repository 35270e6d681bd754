use autoservice::paths::{
    file_name, join_path, parent_path, portable_form, programs_json_path, replace_extension,
    scripts_json_path, settings_file_path, subdirs, task_times_file_path,
};

#[test]
fn data_layout() {
    let (r, p, s, res) = subdirs("/d");
    assert_eq!((r.as_str(), p.as_str(), s.as_str(), res.as_str()), ("/d/reports", "/d/programs", "/d/settings", "/d/resources"));
    assert_eq!(programs_json_path("/d/"), "/d/settings/programs.json");
    assert_eq!(scripts_json_path("/d"), "/d/settings/scripts.json");
    assert_eq!(settings_file_path("/d"), "/d/settings/app_settings.json");
    assert_eq!(task_times_file_path("/d"), "/d/settings/task_times.json");
}

#[test]
fn joins_parents_and_names() {
    assert_eq!(join_path("", "x"), "x");
    assert_eq!(join_path("a\\", "x"), "a\\x");
    assert_eq!(parent_path("/a/b"), Some("/a".to_string()));
    assert_eq!(parent_path("/"), None);
    assert_eq!(file_name("/a/b/"), Some("b".to_string()));
    assert_eq!(file_name("b"), Some("b".to_string()));
    assert_eq!(file_name(""), None);
}

#[test]
fn extensions() {
    assert_eq!(replace_extension("/l/run_plan_1.json", "log.txt"), "/l/run_plan_1.log.txt");
    assert_eq!(replace_extension("/l.d/plan", "txt"), "/l.d/plan.txt");
    assert_eq!(replace_extension("/l/.hidden", "txt"), "/l/.hidden.txt");
}

#[test]
fn portable_paths() {
    assert_eq!(portable_form("resources\\logo.png"), "data/resources/logo.png");
}
