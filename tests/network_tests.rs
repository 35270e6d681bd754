use std::collections::{BTreeMap, BTreeSet};

use autoservice::network::{
    check_share, finish_copy, normalize_trimmed, normalize_unc_path, plan_copy_to_share, plan_network_copy,
    prepare_path_for_io, start_copy, to_user_visible_path, CopyAction, CopyWalk, DirEntry, DirOutcome,
    PathStyle, ProbeResult,
};

#[test]
fn share_paths_on_windows() {
    let w = PathStyle::Windows;
    assert_eq!(normalize_unc_path("  //server/share/x  ", w), "\\\\server\\share\\x");
    assert_eq!(normalize_unc_path("\\server\\share", w), "\\\\server\\share");
    assert_eq!(normalize_unc_path("\\\\server\\share", w), "\\\\server\\share");
    assert_eq!(normalize_unc_path("   ", w), "");
    assert_eq!(normalize_trimmed("C:/x", w), "C:\\x");
}

#[test]
fn share_paths_elsewhere() {
    let p = PathStyle::Posix;
    assert_eq!(normalize_unc_path(" //server/share ", p), "//server/share");
    assert_eq!(normalize_unc_path("\\\\server\\share", p), "//server/share");
    assert_eq!(normalize_trimmed("/mnt\\share", p), "/mnt/share");
}

#[test]
fn io_and_visible_forms() {
    let w = PathStyle::Windows;
    assert_eq!(prepare_path_for_io("\\\\server\\share", w), "\\\\?\\UNC\\server\\share");
    assert_eq!(prepare_path_for_io("C:\\data", w), "\\\\?\\C:\\data");
    assert_eq!(prepare_path_for_io("\\\\?\\C:\\data", w), "\\\\?\\C:\\data");
    assert_eq!(to_user_visible_path("\\\\?\\UNC\\server\\share", w), "\\\\server\\share");
    assert_eq!(to_user_visible_path("\\\\?\\C:\\data", w), "C:\\data");
    assert_eq!(to_user_visible_path("C:\\data", w), "C:\\data");
    assert_eq!(prepare_path_for_io("/a/b", PathStyle::Posix), "/a/b");
    assert_eq!(to_user_visible_path("/a/b", PathStyle::Posix), "/a/b");
}

#[test]
fn missing_share_stops_before_copy() {
    let r = check_share("//srv/share", &ProbeResult::NotFound { reason: "gone".to_string() });
    assert_eq!(r, Err("Network share not found: //srv/share".to_string()));
    let r = check_share("//srv/share", &ProbeResult::Failed { reason: "slow".to_string() });
    assert_eq!(r, Ok("Warning: unable to list network share //srv/share: slow".to_string()));
    let r = check_share("//srv/share", &ProbeResult::Listed);
    assert_eq!(r, Ok("Verified network share is reachable: //srv/share".to_string()));
}

#[test]
fn copy_plans() {
    let p = PathStyle::Posix;
    assert_eq!(plan_network_copy("/r/F", "  ", p, true).unwrap_err(), "UNC path is empty");
    assert_eq!(
        plan_copy_to_share("/r/F", "//s/x", p, false).unwrap_err(),
        "Local report path not found or not a directory: /r/F"
    );
    assert_eq!(plan_copy_to_share("/", "//s/x", p, true).unwrap_err(), "Failed to derive folder name from /");
    let plan = plan_network_copy("/r/F/", "\\\\s\\x", p, true).unwrap();
    assert_eq!(plan.normalized, "//s/x");
    assert_eq!(plan.dst, "//s/x/F");
    let plan = plan_network_copy("C:\\r\\F", "//s/x", PathStyle::Windows, true).unwrap();
    assert_eq!(plan.src, "\\\\?\\C:\\r\\F");
    assert_eq!(plan.dst_root, "\\\\?\\UNC\\s\\x");
    assert_eq!(plan.dst, "\\\\?\\UNC\\s\\x\\F");
}

/// An in-memory file system that drives a copy walk.
struct Fs {
    dirs: BTreeSet<String>,
    files: BTreeMap<String, Vec<u8>>,
    unwritable: BTreeSet<String>,
}

impl Fs {
    fn list(&self, dir: &str) -> Vec<DirEntry> {
        let prefix = format!("{dir}/");
        let mut out = Vec::new();
        for d in &self.dirs {
            if let Some(rest) = d.strip_prefix(&prefix) {
                if !rest.contains('/') {
                    out.push(DirEntry { name: rest.to_string(), is_dir: true });
                }
            }
        }
        for f in self.files.keys() {
            if let Some(rest) = f.strip_prefix(&prefix) {
                if !rest.contains('/') {
                    out.push(DirEntry { name: rest.to_string(), is_dir: false });
                }
            }
        }
        out
    }

    fn drive(&mut self, walk: &mut CopyWalk, deadline_after: usize) -> Result<(), String> {
        let mut steps = 0;
        loop {
            steps += 1;
            match walk.step(steps > deadline_after) {
                CopyAction::Continue => {}
                CopyAction::EnsureDir { dst } => {
                    if self.dirs.contains(&dst) {
                        walk.dir_ready(DirOutcome::Existed);
                    } else {
                        self.dirs.insert(dst);
                        walk.dir_ready(DirOutcome::Created);
                    }
                }
                CopyAction::ListDir { src } => {
                    let l = self.list(&src);
                    walk.listed(Ok(l));
                }
                CopyAction::CopyFile { src, dst } => {
                    if self.unwritable.contains(&dst) {
                        walk.copied(Err("permission denied".to_string()));
                    } else {
                        let bytes = self.files[&src].clone();
                        self.files.insert(dst, bytes);
                        walk.copied(Ok(()));
                    }
                }
                CopyAction::Finished => return Ok(()),
                CopyAction::Failed { message } => return Err(message),
            }
        }
    }
}

fn sample() -> Fs {
    let mut fs = Fs { dirs: BTreeSet::new(), files: BTreeMap::new(), unwritable: BTreeSet::new() };
    fs.dirs.insert("/r/F".to_string());
    fs.dirs.insert("/r/F/sub".to_string());
    fs.dirs.insert("/share".to_string());
    fs.files.insert("/r/F/a.json".to_string(), b"{\"a\":1}".to_vec());
    fs.files.insert("/r/F/sub/inner.txt".to_string(), vec![0, 1, 2, 255]);
    fs.files.insert("/r/F/z.log".to_string(), b"log".to_vec());
    fs
}

#[test]
fn nested_tree_is_reproduced() {
    let mut fs = sample();
    let mut walk = CopyWalk::new("/r/F".to_string(), "/share/F".to_string(), PathStyle::Posix);
    fs.drive(&mut walk, usize::MAX).unwrap();
    assert!(fs.dirs.contains("/share/F/sub"));
    assert_eq!(fs.files["/share/F/sub/inner.txt"], vec![0, 1, 2, 255]);
    assert_eq!(fs.files["/share/F/a.json"], b"{\"a\":1}".to_vec());
    assert_eq!(fs.files["/share/F/z.log"], b"log".to_vec());
    assert_eq!(
        walk.log,
        vec![
            "Created directory /share/F".to_string(),
            "Descending into /r/F/sub".to_string(),
            "Created directory /share/F/sub".to_string(),
            "Copying file /r/F/sub/inner.txt -> /share/F/sub/inner.txt".to_string(),
            "Copying file /r/F/a.json -> /share/F/a.json".to_string(),
            "Copying file /r/F/z.log -> /share/F/z.log".to_string(),
        ]
    );
    assert!(matches!(walk.step(false), CopyAction::Finished));
}

#[test]
fn failed_copy_aborts_and_keeps_log() {
    let mut fs = sample();
    fs.unwritable.insert("/share/F/a.json".to_string());
    let mut walk = CopyWalk::new("/r/F".to_string(), "/share/F".to_string(), PathStyle::Posix);
    let err = fs.drive(&mut walk, usize::MAX).unwrap_err();
    assert_eq!(err, "Failed to copy /r/F/a.json -> /share/F/a.json: permission denied");
    assert!(fs.files.contains_key("/share/F/sub/inner.txt"));
    assert!(!fs.files.contains_key("/share/F/z.log"));
    assert!(walk.log.contains(&"Copying file /r/F/sub/inner.txt -> /share/F/sub/inner.txt".to_string()));
    assert!(!walk.log.iter().any(|l| l.contains("z.log")));
    assert!(matches!(walk.step(false), CopyAction::Failed { .. }));
}

#[test]
fn deadline_stops_the_copy() {
    let mut fs = sample();
    let mut walk = CopyWalk::new("/r/F".to_string(), "/share/F".to_string(), PathStyle::Posix);
    let err = fs.drive(&mut walk, 0).unwrap_err();
    assert_eq!(err, "Copy timed out before processing /r/F");
    assert!(!fs.dirs.contains("/share/F"));
    let mut fs = sample();
    let mut walk = CopyWalk::new("/r/F".to_string(), "/share/F".to_string(), PathStyle::Posix);
    let err = fs.drive(&mut walk, 5).unwrap_err();
    assert!(err.starts_with("Copy timed out"));
}

#[test]
fn listing_and_directory_failures() {
    let mut walk = CopyWalk::new("/r/F".to_string(), "/s/F".to_string(), PathStyle::Posix);
    assert!(matches!(walk.step(false), CopyAction::EnsureDir { .. }));
    walk.dir_ready(DirOutcome::Failed { reason: "denied".to_string() });
    match walk.step(false) {
        CopyAction::Failed { message } => assert_eq!(message, "Failed to create directory /s/F: denied"),
        other => panic!("unexpected {:?}", other),
    }
    let mut walk = CopyWalk::new("/r/F".to_string(), "/s/F".to_string(), PathStyle::Posix);
    walk.step(false);
    walk.dir_ready(DirOutcome::Existed);
    assert!(matches!(walk.step(false), CopyAction::ListDir { .. }));
    walk.listed(Err("gone".to_string()));
    match walk.step(false) {
        CopyAction::Failed { message } => assert_eq!(message, "Failed to read directory /r/F: gone"),
        other => panic!("unexpected {:?}", other),
    }
    assert!(walk.log.is_empty());
}

#[test]
fn share_not_found_gives_no_walk() {
    let plan = plan_network_copy("/r/F", "//srv/gone", PathStyle::Posix, true).unwrap();
    let r = start_copy(&plan, &ProbeResult::NotFound { reason: "no such share".to_string() }, PathStyle::Posix);
    assert_eq!(r.err(), Some("Network share not found: //srv/gone".to_string()));
    let (line, mut walk) =
        start_copy(&plan, &ProbeResult::Failed { reason: "slow".to_string() }, PathStyle::Posix).unwrap();
    assert_eq!(line, "Warning: unable to list network share //srv/gone: slow");
    assert!(walk.log.is_empty());
    match walk.step(false) {
        CopyAction::EnsureDir { dst } => assert_eq!(dst, "//srv/gone/F"),
        other => panic!("unexpected {:?}", other),
    }
}

#[test]
fn repeated_copy_request_logs_once() {
    let mut walk = CopyWalk::new("/r/F".to_string(), "/s/F".to_string(), PathStyle::Posix);
    walk.step(false);
    walk.dir_ready(DirOutcome::Existed);
    walk.step(false);
    walk.listed(Ok(vec![DirEntry { name: "a.txt".to_string(), is_dir: false }]));
    assert!(matches!(walk.step(false), CopyAction::CopyFile { .. }));
    assert_eq!(walk.log.len(), 1);
    assert!(matches!(walk.step(false), CopyAction::CopyFile { .. }));
    assert_eq!(walk.log, vec!["Copying file /r/F/a.txt -> /s/F/a.txt".to_string()]);
}

#[test]
fn copy_end_messages() {
    let plan = plan_network_copy("/r/F", "//srv/x", PathStyle::Posix, true).unwrap();
    let (line, answer) = finish_copy("/r/F", &plan, PathStyle::Posix, &Ok(()));
    assert_eq!(line, "Network copy completed successfully for /r/F -> //srv/x/F");
    assert_eq!(answer, Ok(true));
    let (line, answer) = finish_copy("/r/F", &plan, PathStyle::Posix, &Err("denied".to_string()));
    assert_eq!(line, "Copy failed for /r/F -> //srv/x/F: denied");
    assert_eq!(answer, Err("Copy failed: denied".to_string()));
}
