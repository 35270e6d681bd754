use autoservice::reports::{
    folder_name_from_parts, generate_folder_name, report_layout, sort_newest_first, ReportListItem,
    ReportMetadata,
};

#[test]
fn test_generate_folder_name() {
    let timestamp = 1760000000;
    let name = generate_folder_name(Some("MyPC"), Some("John Doe"), Some("Tech Smith"), timestamp);
    assert!(name.contains("MyPC"));
    assert!(name.contains("John_Doe"));
    assert!(name.contains("Tech_Smith"));
    assert!(name.contains("__"));

    let name_no_tech = generate_folder_name(Some("MyPC"), Some("John Doe"), None, timestamp);
    assert!(name_no_tech.contains("MyPC"));
    assert!(name_no_tech.contains("John_Doe"));
    assert!(!name_no_tech.contains("Tech_Smith"));
    assert!(name_no_tech.contains("__"));
}

#[test]
fn test_generate_folder_name_defaults() {
    let timestamp = 1760000000;
    let name = generate_folder_name(None, None, None, timestamp);
    assert!(name.contains("Unknown_PC"));
    assert!(name.contains("Report"));
}

#[test]
fn folder_name_is_dated_in_utc() {
    assert_eq!(
        generate_folder_name(Some("MyPC"), Some("John Doe"), Some("Tech Smith"), 1760000000),
        "MyPC_John_Doe_Tech_Smith__2025-10-09_08-53-20"
    );
    assert_eq!(generate_folder_name(None, None, None, 0), "Unknown_PC_Report__1970-01-01_00-00-00");
}

#[test]
fn folder_name_parts() {
    assert_eq!(
        folder_name_from_parts(Some("PC 1"), None, Some("@Bob@"), "D"),
        "PC_1_Report_Bob__D"
    );
    assert_eq!(folder_name_from_parts(None, Some("Acme"), None, "X"), "Unknown_PC_Acme__X");
}

#[test]
fn layout_of_a_report_folder() {
    let l = report_layout("/d/reports", "F");
    assert_eq!(l.report_folder, "/d/reports/F");
    assert_eq!(l.report_file, "/d/reports/F/report.json");
    assert_eq!(l.run_plan_file, "/d/reports/F/run_plan.json");
    assert_eq!(l.execution_log_file, "/d/reports/F/execution.log");
    assert_eq!(l.metadata_file, "/d/reports/F/metadata.json");
}

fn item(name: &str, ts: Option<u64>) -> ReportListItem {
    ReportListItem {
        folder_name: name.to_string(),
        folder_path: format!("/r/{name}"),
        metadata: ts.map(|t| ReportMetadata {
            timestamp: t,
            hostname: None,
            customer_name: None,
            technician_name: None,
            saved_at: String::new(),
        }),
        has_report_json: true,
        has_execution_log: false,
        has_run_plan: false,
    }
}

#[test]
fn reports_are_listed_newest_first() {
    let sorted = sort_newest_first(vec![
        item("a", Some(5)),
        item("b", None),
        item("c", Some(9)),
        item("d", Some(5)),
    ]);
    let names: Vec<&str> = sorted.iter().map(|i| i.folder_name.as_str()).collect();
    assert_eq!(names, vec!["c", "a", "d", "b"]);
    assert!(sort_newest_first(Vec::new()).is_empty());
}
