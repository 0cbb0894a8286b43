use std::path::{Component, Path};
use tidysync::mover::{
    FileMove, MoveReply, MoveRequest, MoveStage, RenameFailure,
    destination_for, display_name, is_syncthing_dir, join_path, partial_path, relative_to,
    should_skip_file, PreScan, ScanAction, ScanInput,
};

#[test]
fn skips_syncthing_markers_temporaries_and_nomedia() {
    assert!(should_skip_file("/data/sync/.nomedia"));
    assert!(should_skip_file("/data/sync/.stignore"));
    assert!(should_skip_file("/data/sync/.stfolder"));
    assert!(should_skip_file("/data/sync/movie.mkv.tmp"));
    assert!(should_skip_file(".tmp"));
    assert!(!should_skip_file("/data/sync/report.pdf"));
    assert!(!should_skip_file("/data/sync/report.tmp.pdf"));
    assert!(!should_skip_file(""));
}

#[test]
fn skips_files_inside_syncthing_dirs_by_path() {
    assert!(should_skip_file("/tmp/x/.stfolder/~syncthing~marker"));
    assert!(should_skip_file("/tmp/x/.stversions/old.txt"));
    assert!(should_skip_file(".stversions/a/b/c.txt"));
    assert!(!should_skip_file("/tmp/x/stfolder/file.txt"));
    assert!(!should_skip_file("/tmp/x/.stfolderx/file.txt"));
}

#[test]
fn the_file_name_ignores_trailing_separators_and_dots() {
    assert!(should_skip_file("/a/.nomedia/"));
    assert!(should_skip_file("/a/.nomedia/."));
    assert!(should_skip_file("a//.stignore"));
    // `..` has no file name.
    assert!(!should_skip_file("/a/x.tmp/.."));
    assert_eq!(display_name("/a/b/report.pdf"), "report.pdf");
    assert_eq!(display_name("/a/b/"), "b");
    assert_eq!(display_name("/"), "/");
    assert_eq!(display_name("a/.."), "a/..");
}

#[test]
fn recognises_syncthing_dirs_by_name() {
    assert!(is_syncthing_dir(".stfolder"));
    assert!(is_syncthing_dir(".stversions"));
    assert!(!is_syncthing_dir(".stignore"));
    assert!(!is_syncthing_dir("source"));
}

#[test]
fn partial_copies_get_a_suffix() {
    assert_eq!(partial_path("/disk/nested/movie.mkv"), "/disk/nested/movie.mkv.tidysync-part");
}

#[test]
fn paths_join_like_std() {
    assert_eq!(join_path("/target", "a/b.txt"), "/target/a/b.txt");
    assert_eq!(join_path("/target/", "b.txt"), "/target/b.txt");
    assert_eq!(join_path("", "b.txt"), "b.txt");
    assert_eq!(join_path("/target", "/abs.txt"), "/abs.txt");
    for (base, child) in [("/t", "a/b"), ("/t/", "a"), ("", "x"), ("/t", "/y")] {
        let std_join = std::path::Path::new(base).join(child);
        assert_eq!(join_path(base, child), std_join.to_str().unwrap());
    }
}

#[test]
fn relative_paths_below_a_root() {
    assert_eq!(relative_to("/src", "/src/a/b.txt"), Some("a/b.txt".to_string()));
    assert_eq!(relative_to("/src/", "/src/b.txt"), Some("b.txt".to_string()));
    assert_eq!(relative_to("/src", "/srcx/b.txt"), None);
    assert_eq!(relative_to("/src", "/src"), None);
    assert_eq!(
        destination_for("/src", "/dst", "/src/a/b.txt"),
        Some("/dst/a/b.txt".to_string())
    );
    assert_eq!(destination_for("/src", "/dst", "/elsewhere/b.txt"), None);
}

fn entry(path: &str, keep_going: bool) -> ScanInput {
    ScanInput::Entry { path: path.to_string(), is_dir: false, keep_going }
}

#[test]
fn pre_scan_sweep_counts_moves_and_honours_cancellation() {
    let mut scan = PreScan::new("/s".to_string(), "/t".to_string());
    for name in ["a.txt", "b.txt", "c.txt"] {
        let action = scan.step(entry(&format!("/s/{name}"), true));
        assert_eq!(
            action,
            ScanAction::Move { source: format!("/s/{name}"), destination: format!("/t/{name}") }
        );
        assert_eq!(scan.step(ScanInput::MoveResult(Ok(true))), ScanAction::Next);
    }
    // Skipped files are neither moved nor counted.
    assert_eq!(scan.step(entry("/s/.nomedia", true)), ScanAction::Next);
    assert_eq!(
        scan.step(ScanInput::Entry { path: "/s/dir".to_string(), is_dir: true, keep_going: true }),
        ScanAction::Next
    );
    // A move that failed or was skipped is not counted either.
    assert_eq!(scan.step(entry("/s/d.txt", true)), ScanAction::Move {
        source: "/s/d.txt".to_string(),
        destination: "/t/d.txt".to_string(),
    });
    assert_eq!(scan.step(ScanInput::MoveResult(Err("denied".to_string()))), ScanAction::Next);
    assert_eq!(scan.step(ScanInput::MoveResult(Ok(false))), ScanAction::Next);
    assert_eq!(scan.step(ScanInput::End), ScanAction::Done { moved: 3 });

    // With the watcher switched off nothing is swept at all.
    let mut off = PreScan::new("/s".to_string(), "/t".to_string());
    assert_eq!(off.step(entry("/s/d.txt", false)), ScanAction::Done { moved: 0 });
}

#[test]
fn pre_scan_sweep_fails_on_a_path_outside_the_root() {
    let mut scan = PreScan::new("/s".to_string(), "/t".to_string());
    assert_eq!(
        scan.step(entry("/elsewhere/a.txt", true)),
        ScanAction::Fail {
            message: "failed to get relative path for existing file: prefix not found".to_string()
        }
    );
}

/// The rule as `std::path` components spell it, to hold the library's
/// text-based reading of paths against.
fn skip_by_std_path(path: &str) -> bool {
    let path = Path::new(path);
    for component in path.components() {
        if let Component::Normal(name) = component {
            if name == ".stfolder" || name == ".stversions" {
                return true;
            }
        }
    }
    let file_name = path.file_name().and_then(|n| n.to_str()).unwrap_or("");
    file_name == ".stfolder"
        || file_name == ".stignore"
        || file_name.ends_with(".tmp")
        || file_name == ".nomedia"
}

#[test]
fn skip_rule_agrees_with_std_path_components() {
    let corpus = [
        "", "/", ".", "..", "./", "/.", "a", "a/", "a/.", "a/..", "./.nomedia", "../.tmp",
        ".stfolder", "/x/.stfolder", "/x/.stfolder/", "/x/.stfolder/y", "x//.stversions//y",
        "/x/./.stignore", "/x/.stignore/..", "a.tmp", "a.tmp/", "a.tmp/.", "/a/b.tmp/c",
        "/a/.nomedia", "/a/.nomedia.txt", "/a/x.TMP", "/a/.tmpx", "//", "/./.", "a/./b/./",
        "/é/ü.tmp", "/data/sync/report.pdf", ".stversions", "..stfolder", "/a/../.stfolder",
    ];
    for path in corpus {
        assert_eq!(should_skip_file(path), skip_by_std_path(path), "{path:?}");
        let std_name = Path::new(path)
            .file_name()
            .unwrap_or(Path::new(path).as_os_str())
            .to_string_lossy()
            .into_owned();
        assert_eq!(display_name(path), std_name, "{path:?}");
    }
}

#[test]
fn a_skipped_file_is_not_touched() {
    let mut m = FileMove::new("/s/.nomedia".to_string(), "/t/.nomedia".to_string());
    assert_eq!(m.step(MoveReply::Begin), MoveRequest::Finish { result: Ok(false) });
    let mut m = FileMove::new("/s/.stfolder/~syncthing~marker".to_string(), "/t/x".to_string());
    assert_eq!(m.step(MoveReply::Begin), MoveRequest::Finish { result: Ok(false) });
}

#[test]
fn a_move_within_one_filesystem_is_a_rename() {
    let mut m = FileMove::new("/s/report.pdf".to_string(), "/t/report.pdf".to_string());
    assert_eq!(m.step(MoveReply::Begin), MoveRequest::MakeParentDirs { path: "/t/report.pdf".to_string() });
    assert_eq!(
        m.step(MoveReply::ParentMade(Ok(()))),
        MoveRequest::Rename { from: "/s/report.pdf".to_string(), to: "/t/report.pdf".to_string() }
    );
    assert_eq!(m.step(MoveReply::Renamed(Ok(()))), MoveRequest::Finish { result: Ok(true) });
    assert_eq!(m.stage, MoveStage::Finished);
}

#[test]
fn a_move_across_filesystems_copies_through_a_partial_file() {
    let mut m = FileMove::new("/tmp/movie.mkv".to_string(), "/disk/nested/movie.mkv".to_string());
    m.step(MoveReply::Begin);
    m.step(MoveReply::ParentMade(Ok(())));
    assert_eq!(
        m.step(MoveReply::Renamed(Err(RenameFailure::CrossesDevices))),
        MoveRequest::Copy {
            from: "/tmp/movie.mkv".to_string(),
            to: "/disk/nested/movie.mkv.tidysync-part".to_string(),
        }
    );
    assert_eq!(
        m.step(MoveReply::Copied(Ok(()))),
        MoveRequest::Rename {
            from: "/disk/nested/movie.mkv.tidysync-part".to_string(),
            to: "/disk/nested/movie.mkv".to_string(),
        }
    );
    assert_eq!(m.step(MoveReply::Placed(Ok(()))), MoveRequest::RemoveSource { path: "/tmp/movie.mkv".to_string() });
    assert_eq!(m.step(MoveReply::Removed(Ok(()))), MoveRequest::Finish { result: Ok(true) });
}

#[test]
fn failed_moves_report_their_context() {
    let mut m = FileMove::new("/s/a".to_string(), "/t/a".to_string());
    m.step(MoveReply::Begin);
    assert_eq!(
        m.step(MoveReply::ParentMade(Err("denied".to_string()))),
        MoveRequest::Finish { result: Err("failed to create parent directories for target file: denied".to_string()) }
    );
    let mut m = FileMove::new("/s/a".to_string(), "/t/a".to_string());
    m.step(MoveReply::Begin);
    m.step(MoveReply::ParentMade(Ok(())));
    assert_eq!(
        m.step(MoveReply::Renamed(Err(RenameFailure::Other("gone".to_string())))),
        MoveRequest::Finish { result: Err("failed to move file: gone".to_string()) }
    );
    let mut m = FileMove::new("/s/a".to_string(), "/t/a".to_string());
    m.step(MoveReply::Begin);
    m.step(MoveReply::ParentMade(Ok(())));
    m.step(MoveReply::Renamed(Err(RenameFailure::CrossesDevices)));
    assert_eq!(
        m.step(MoveReply::Copied(Err("disk full".to_string()))),
        MoveRequest::RemovePartial { path: "/t/a.tidysync-part".to_string() }
    );
    assert_eq!(
        m.step(MoveReply::CleanedUp),
        MoveRequest::Finish { result: Err("failed to copy file to target filesystem: disk full".to_string()) }
    );
    let mut m = FileMove::new("/s/a".to_string(), "/t/a".to_string());
    m.step(MoveReply::Begin);
    m.step(MoveReply::ParentMade(Ok(())));
    m.step(MoveReply::Renamed(Err(RenameFailure::CrossesDevices)));
    m.step(MoveReply::Copied(Ok(())));
    assert_eq!(
        m.step(MoveReply::Placed(Err("busy".to_string()))),
        MoveRequest::Finish { result: Err("failed to rename copied file into place: busy".to_string()) }
    );
    let mut m = FileMove::new("/s/a".to_string(), "/t/a".to_string());
    m.step(MoveReply::Begin);
    m.step(MoveReply::ParentMade(Ok(())));
    m.step(MoveReply::Renamed(Err(RenameFailure::CrossesDevices)));
    m.step(MoveReply::Copied(Ok(())));
    m.step(MoveReply::Placed(Ok(())));
    assert_eq!(
        m.step(MoveReply::Removed(Err("read-only".to_string()))),
        MoveRequest::Finish { result: Err("copied file to target but failed to remove the original: read-only".to_string()) }
    );
    assert_eq!(
        m.step(MoveReply::Begin),
        MoveRequest::Finish { result: Err("file move received a reply it did not ask for".to_string()) }
    );
}
