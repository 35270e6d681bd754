use autoservice::tools::{contains_word, get_tool_statuses, known_tool_table, score_candidate, ToolCandidate};

fn cand(name: &str, exe: &str, exists: bool) -> ToolCandidate {
    ToolCandidate {
        name: name.to_string(),
        exe_path: exe.to_string(),
        resolved_path: format!("/d/{exe}"),
        exists,
    }
}

#[test]
fn words_are_split_at_non_alphanumerics() {
    assert!(contains_word("tools/kvrt/kvrt.exe", "kvrt"));
    assert!(contains_word("err_6.4.5.exe", "err"));
    assert!(!contains_word("kvrtx.exe", "kvrt"));
    assert!(!contains_word("trellix_stinger", "trellix_stinger"));
}

#[test]
fn scores_add_up() {
    assert_eq!(score_candidate("err", "microsoft error lookup tool", "err_6.4.5", "tools/err_6.4.5.exe"), 1150);
    assert_eq!(score_candidate("kvrt", "kvrt", "kvrt", "kvrt.exe"), 1650);
    assert_eq!(score_candidate("sdi", "snappy driver installer", "snappy driver installer", "sdi/sdi.exe"), 550);
    assert_eq!(score_candidate("clamav", "clamav", "other", "x.exe"), 0);
}

#[test]
fn statuses_pick_best_match() {
    let cands = vec![
        cand("My KVRT copy", "kvrt/old.exe", false),
        cand("KVRT", "KVRT.exe", true),
        cand("Notepad++", "npp.exe", true),
    ];
    let st = get_tool_statuses(&cands);
    assert_eq!(st.len(), known_tool_table().len());
    assert_eq!(st.len(), 18);
    let kvrt = st.iter().find(|s| s.key == "kvrt").unwrap();
    assert_eq!(kvrt.path.as_deref(), Some("/d/KVRT.exe"));
    assert!(kvrt.exists);
    assert_eq!(kvrt.hint.as_deref(), Some("KVRT.exe"));
    let clam = st.iter().find(|s| s.key == "clamav").unwrap();
    assert_eq!(clam.path, None);
    assert!(!clam.exists);
    assert_eq!(st[0].key, "ccleaner");
    assert_eq!(st[17].key, "drivecleanup");
}

#[test]
fn first_of_equal_scores_wins() {
    let cands = vec![cand("prime95", "a.exe", false), cand("prime95", "b.exe", true)];
    let st = get_tool_statuses(&cands);
    let p = st.iter().find(|s| s.key == "prime95").unwrap();
    assert_eq!(p.path.as_deref(), Some("/d/a.exe"));
    assert!(!p.exists);
}
