use autoservice::settings::{
    defender_platform_dir, find_defender_mpcmdrun, get_data_dirs, greet, is_text_less, latest_name,
    make_portable_path, resolve_data_dir, resolve_portable_path,
};

#[test]
fn portable_paths_round_trip() {
    assert_eq!(make_portable_path("/z/data/resources/logo.png", "/z/data"), "data/resources/logo.png");
    assert_eq!(make_portable_path("/elsewhere/logo.png", "/z/data"), "/elsewhere/logo.png");
    assert_eq!(resolve_portable_path("data/resources/logo.png", "/z/data"), "/z/data/resources/logo.png");
    assert_eq!(resolve_portable_path("data\\resources\\logo.png", "/z/data"), "/z/data/resources\\logo.png");
    assert_eq!(resolve_portable_path("https://x/y.png", "/z/data"), "https://x/y.png");
}

#[test]
fn data_dir_choice() {
    assert_eq!(resolve_data_dir(Some("/o"), true, Some("/e/data"), true, Some("/t"), "/c"), "/o");
    assert_eq!(resolve_data_dir(Some("/o"), false, Some("/e/data"), true, Some("/t"), "/c"), "/e/data");
    assert_eq!(resolve_data_dir(None, false, Some("/e/data"), false, Some("/t"), "/c"), "/t/data");
    assert_eq!(resolve_data_dir(None, false, None, false, None, "/c"), "/c/data");
}

#[test]
fn data_dirs_and_greeting() {
    let d = get_data_dirs("/d", "/app");
    assert_eq!(d.reports, "/d/reports");
    assert_eq!(d.sidecar_runner, "/app/binaries/service_runner.exe");
    assert_eq!(greet("Ann"), "Hello, Ann! You've been greeted from Rust!");
}

#[test]
fn defender_lookup_takes_latest_platform() {
    assert!(is_text_less("4.18.1", "4.18.2"));
    assert!(is_text_less("4.1", "4.18"));
    assert!(!is_text_less("b", "a"));
    let versions = vec!["4.18.2305.7".to_string(), "4.18.2401.1".to_string(), "4.18.2311.2".to_string()];
    assert_eq!(latest_name(&versions), Some(1));
    assert_eq!(latest_name(&Vec::new()), None);
    assert_eq!(defender_platform_dir(None), "C:\\ProgramData\\Microsoft\\Windows Defender\\Platform");
    assert_eq!(
        find_defender_mpcmdrun(Some("D:\\PD"), &versions),
        Some("D:\\PD\\Microsoft\\Windows Defender\\Platform\\4.18.2401.1\\MpCmdRun.exe".to_string())
    );
    assert_eq!(find_defender_mpcmdrun(None, &Vec::new()), None);
}
