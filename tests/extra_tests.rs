use autoservice::extra::{extra_from_answers, json_values, last_line, nonblank_lines, text_lines, ExtraAnswers};

#[test]
fn lines_follow_str_lines() {
    assert_eq!(text_lines("a\r\nb\n\nc\n"), vec!["a", "b", "", "c"]);
    assert_eq!(text_lines("a\rb"), vec!["a\rb"]);
    assert_eq!(text_lines(""), Vec::<String>::new());
    assert_eq!(text_lines("\n"), vec![""]);
    let sample = "x\r\n\r\ny\nz\r";
    let expected: Vec<String> = sample.lines().map(|l| l.to_string()).collect();
    assert_eq!(text_lines(sample), expected);
}

#[test]
fn last_and_nonblank_lines() {
    assert_eq!(last_line(Some("  \r\nTrue\r\n")), Some("True".to_string()));
    assert_eq!(last_line(Some("   ")), None);
    assert_eq!(last_line(None), None);
    assert_eq!(nonblank_lines(Some("KB1\r\n\r\n  KB2 \r\n")), vec!["KB1", "KB2"]);
    assert!(nonblank_lines(None).is_empty());
}

#[test]
fn json_answers() {
    assert_eq!(json_values(Some("[1,2,3]")).len(), 3);
    assert_eq!(json_values(Some("{\"a\":1}")).len(), 1);
    assert!(json_values(Some("not json")).is_empty());
    assert!(json_values(None).is_empty());
}

#[test]
fn answers_become_details() {
    let a = ExtraAnswers {
        secure_boot: Some("\r\nTrue\r\n".to_string()),
        tpm: Some("{\"TpmPresent\":true}".to_string()),
        bios: Some("{\"Manufacturer\":\"ACME\",\"SMBIOSBIOSVersion\":\"1.2\",\"ReleaseDate\":7}".to_string()),
        hotfixes: Some("KB1\r\nKB2\r\n".to_string()),
        ram_modules: Some("{\"Capacity\":8}".to_string()),
        ..Default::default()
    };
    let e = extra_from_answers(&a);
    assert_eq!(e.secure_boot.as_deref(), Some("True"));
    assert_eq!(e.tpm_summary.as_deref(), Some("{\"TpmPresent\":true}"));
    assert_eq!(e.bios_vendor.as_deref(), Some("ACME"));
    assert_eq!(e.bios_version.as_deref(), Some("1.2"));
    assert_eq!(e.bios_release_date, None);
    assert_eq!(e.hotfixes, vec!["KB1", "KB2"]);
    assert_eq!(e.ram_modules.len(), 1);
    assert!(e.computer_system.is_empty());
    assert_eq!(e.dotnet_version, None);
}

#[test]
fn history_keeps_young_and_newest_records() {
    let now = 100_000_000u64;
    let year = autoservice::history::MAX_AGE_SECONDS;
    let mut rs: Vec<(u64, String)> = Vec::new();
    rs.push((now - year - 1, "a|{}".to_string()));
    rs.push((now - year, "a|{}".to_string()));
    rs.push((now + 5, "b|{}".to_string()));
    for k in 0..102u64 {
        rs.push((now - 10 - (k % 3), "c|{}".to_string()));
    }
    let kept = autoservice::history::retained_records(now, &rs);
    assert!(!kept.contains(&0));
    assert!(kept.contains(&1));
    assert!(kept.contains(&2));
    let c_kept = kept.iter().filter(|&&i| i >= 3).count();
    assert_eq!(c_kept, 100);
    assert!(kept.windows(2).all(|w| w[0] < w[1]));
    assert!(!kept.contains(&(3 + 101)));
    assert!(!kept.contains(&(3 + 98)));
    assert!(autoservice::history::retained_records(now, &Vec::new()).is_empty());
}
