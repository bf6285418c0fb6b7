use diskanalyzer::app::{disk_deletion, App, DiskDeletion, ScanOutcome};
use diskanalyzer::app_model::{Action, Key, KeyCommand};
use diskanalyzer::model::{Node, NodeKind, ScanResult};
use diskanalyzer::scanner::ScanProgressEvent;
use diskanalyzer::storage::result_to_json;

fn file(path: &str, size: u64) -> Node {
    Node {
        name: path.rsplit('/').next().unwrap().to_string(),
        path: path.to_string(),
        kind: NodeKind::File,
        size,
        children: vec![],
    }
}

fn dir(path: &str, size: u64, children: Vec<Node>) -> Node {
    Node { kind: NodeKind::Directory, children, ..file(path, size) }
}

fn sample() -> ScanResult {
    ScanResult {
        root: dir(
            "/r",
            34,
            vec![
                file("/r/big", 20),
                dir("/r/a", 14, vec![dir("/r/a/deep", 9, vec![file("/r/a/deep/x", 9)]), file("/r/a/1", 5)]),
                dir("/r/empty", 0, vec![]),
            ],
        ),
        scanned_at_unix: 1,
        scan_duration_ms: 1500,
        warnings: vec![],
    }
}

fn loaded() -> App {
    App::new(Some(sample()))
}

fn here(app: &App) -> String {
    app.current_dir().unwrap().path.clone()
}

fn press(app: &mut App, keys: &str) {
    for c in keys.chars() {
        assert_eq!(app.handle_key(Key::Char(c)), Action::Continue);
    }
}

#[test]
fn the_browser_begins_empty() {
    let mut app = App::new(None);
    assert_eq!(app.status(), "s: scan current dir / a: full disk scan / o: load / p: save");
    assert!(app.result().is_none() && app.current_dir().is_none() && app.selected_node().is_none());
    assert_eq!(app.current_children_len(), 0);
    assert_eq!((app.selected(), app.history_index(), app.history_len()), (0, 0, 0));
    assert!(!app.is_scanning());
    assert_eq!(app.scan_target(), None);
    press(&mut app, "jk");
    assert_eq!(app.selected(), 0);
    press(&mut app, "l");
    assert_eq!(app.status(), "No entry selected");
    press(&mut app, "u");
    assert_eq!(app.status(), "No scan data. Press s or a to start scanning.");
    press(&mut app, "b");
    assert_eq!(app.status(), "No older history");
    press(&mut app, "f");
    assert_eq!(app.status(), "No newer history");
    press(&mut app, "d");
    assert_eq!(app.status(), "No entry selected");
    assert!(app.pending_delete().is_none());
}

#[test]
fn a_result_is_shown_from_its_root() {
    let app = loaded();
    assert_eq!(app.status(), "Scan loaded. Duration: 1.500s");
    assert_eq!(here(&app), "/r");
    assert_eq!((app.history_index(), app.history_len()), (0, 1));
    let entry = app.selected_node().unwrap();
    assert_eq!((entry.name.as_str(), entry.size, entry.child_count), ("big", 20, 0));
    assert_eq!((entry.path.as_str(), entry.kind), ("/r/big", NodeKind::File));
    assert_eq!(app.scan_target(), Some("/r".to_string()));
}

#[test]
fn the_selection_stays_among_the_entries() {
    let mut app = loaded();
    press(&mut app, "k");
    assert_eq!(app.selected(), 0);
    app.handle_key(Key::Down);
    press(&mut app, "jjj");
    assert_eq!(app.selected(), 2);
    app.handle_key(Key::Up);
    assert_eq!(app.selected(), 1);
    app.handle_key(Key::Home);
    assert_eq!(app.selected(), 0);
    app.handle_key(Key::End);
    assert_eq!(app.selected(), 2);
    app.handle_key(Key::Enter);
    assert_eq!(here(&app), "/r/empty");
    app.handle_key(Key::End);
    assert_eq!(app.selected(), 0);
    assert!(app.selected_node().is_none());
}

#[test]
fn only_directories_are_opened() {
    let mut app = loaded();
    press(&mut app, "l");
    assert_eq!(app.status(), "Selected entry is not a directory");
    assert_eq!(here(&app), "/r");
    press(&mut app, "jl");
    assert_eq!(app.status(), "Browsing /r/a");
    assert_eq!((here(&app).as_str(), app.selected()), ("/r/a", 0));
    assert_eq!((app.history_index(), app.history_len()), (1, 2));
}

#[test]
fn back_and_forward_lead_through_the_history() {
    let mut app = loaded();
    press(&mut app, "jl");
    app.handle_key(Key::Enter);
    assert_eq!(here(&app), "/r/a/deep");
    press(&mut app, "b");
    assert_eq!((here(&app).as_str(), app.status()), ("/r/a", "Browsing /r/a"));
    app.handle_key(Key::Left);
    assert_eq!((here(&app).as_str(), app.selected()), ("/r", 0));
    press(&mut app, "[");
    assert_eq!((here(&app).as_str(), app.status()), ("/r", "No older history"));
    press(&mut app, "f");
    assert_eq!(here(&app), "/r/a");
    app.handle_key(Key::Right);
    assert_eq!(here(&app), "/r/a/deep");
    press(&mut app, "]");
    assert_eq!((here(&app).as_str(), app.status()), ("/r/a/deep", "No newer history"));
}

#[test]
fn opening_a_directory_forgets_what_lay_ahead() {
    let mut app = loaded();
    press(&mut app, "jl");
    press(&mut app, "b");
    app.handle_key(Key::End);
    app.handle_key(Key::Enter);
    assert_eq!(here(&app), "/r/empty");
    assert_eq!((app.history_index(), app.history_len()), (1, 2));
    press(&mut app, "f");
    assert_eq!(app.status(), "No newer history");
}

#[test]
fn up_leads_to_the_parent() {
    let mut app = loaded();
    press(&mut app, "jll");
    assert_eq!(here(&app), "/r/a/deep");
    press(&mut app, "u");
    assert_eq!((here(&app).as_str(), app.status()), ("/r/a", "Browsing /r/a"));
    assert_eq!((app.history_index(), app.history_len()), (3, 4));
    app.handle_key(Key::Backspace);
    assert_eq!(here(&app), "/r");
    press(&mut app, "h");
    assert_eq!((here(&app).as_str(), app.status()), ("/r", "Already at root"));
}

#[test]
fn a_parent_outside_the_result_leads_to_the_root() {
    let mut app = loaded();
    press(&mut app, "jll");
    app.go_parent_to(Some("/elsewhere".to_string()));
    assert_eq!(here(&app), "/r");
    press(&mut app, "b");
    app.go_parent_to(Some(String::new()));
    assert_eq!(here(&app), "/r");
    press(&mut app, "b");
    app.go_parent_to(None);
    assert_eq!(here(&app), "/r");
    press(&mut app, "b");
    app.go_parent_to(Some("/r/a".to_string()));
    assert_eq!(here(&app), "/r/a");
}

#[test]
fn a_relative_path_of_one_part_has_no_parent_to_go_to() {
    let mut app = App::new(Some(ScanResult { root: dir("r", 0, vec![dir("x", 0, vec![])]), ..sample() }));
    press(&mut app, "l");
    assert_eq!(here(&app), "x");
    app.go_parent();
    assert_eq!(here(&app), "r");
}

fn below(paths: &[&str]) -> App {
    let mut inner = dir("top/none", 0, vec![]);
    for path in paths.iter().rev() {
        inner = dir(path, 0, vec![inner]);
    }
    App::new(Some(ScanResult { root: dir("top", 0, vec![inner]), ..sample() }))
}

#[test]
fn up_undoes_opening_wherever_the_directory_lies() {
    for (outer, inner) in [
        ("/", "/a"),
        ("r", "r/x"),
        ("/a/b", "/a/b/c d"),
        ("../up", "../up/.hidden"),
        ("a//b", "a//b/c"),
        ("/v1.", "/v1./.."),
        ("/c:d", "/c:d/e:"),
        ("/r", "/r/a/"),
        ("/r", "/r//a"),
        ("/r", "/r/./a/."),
        ("/", "/./a/"),
        (".", "./a"),
    ] {
        let mut app = below(&[outer, inner]);
        press(&mut app, "ll");
        assert_eq!(here(&app), inner);
        press(&mut app, "h");
        assert_eq!(here(&app), outer);
        press(&mut app, "b");
        app.go_parent();
        assert_eq!(here(&app), outer);
    }
}

#[test]
fn up_goes_one_step_at_a_time() {
    let mut app = below(&["/a", "/a/b", "/a/b/c"]);
    press(&mut app, "lll");
    press(&mut app, "u");
    assert_eq!(here(&app), "/a/b");
    press(&mut app, "u");
    assert_eq!(here(&app), "/a");
    press(&mut app, "u");
    assert_eq!(here(&app), "top");
}

#[test]
fn a_deletion_has_to_be_confirmed() {
    let mut app = loaded();
    press(&mut app, "d");
    let pending = app.pending_delete().unwrap();
    assert_eq!((pending.name.as_str(), pending.path.as_str()), ("big", "/r/big"));
    assert_eq!((pending.dir_path.as_str(), pending.child_index, pending.kind), ("/r", 0, NodeKind::File));
    press(&mut app, "jlubfsapoqd");
    app.handle_key(Key::Enter);
    assert!(app.pending_delete().is_some());
    assert_eq!((here(&app).as_str(), app.selected()), ("/r", 0));
    press(&mut app, "n");
    assert!(app.pending_delete().is_none());
    assert_eq!(app.status(), "Delete canceled");
    assert_eq!(app.current_children_len(), 3);
    press(&mut app, "d");
    app.handle_key(Key::Esc);
    assert!(app.pending_delete().is_none());
    press(&mut app, "d");
    assert_eq!(app.handle_key(Key::Char('y')), Action::Delete);
    assert!(app.pending_delete().is_some());
}

#[test]
fn a_confirmed_deletion_updates_the_result() {
    let mut app = loaded();
    press(&mut app, "d");
    assert!(app.deletion_fits());
    app.confirm_delete(None);
    assert_eq!(app.status(), "Deleted big");
    let root = &app.result().unwrap().root;
    assert_eq!(root.size, 14);
    assert_eq!(root.children[0].path, "/r/a");
    assert_eq!(app.current_children_len(), 2);
    assert!(app.pending_delete().is_none());
}

#[test]
fn the_selection_moves_up_when_the_last_entry_goes() {
    let mut app = loaded();
    app.handle_key(Key::End);
    press(&mut app, "d");
    app.confirm_delete(None);
    assert_eq!((app.status(), app.selected()), ("Deleted empty", 1));
}

#[test]
fn a_failed_deletion_keeps_the_result() {
    let mut app = loaded();
    press(&mut app, "d");
    app.confirm_delete(Some("denied".to_string()));
    assert_eq!(app.status(), "Delete failed: denied");
    assert_eq!(app.current_children_len(), 3);
    assert!(app.pending_delete().is_none());
    app.confirm_delete(None);
    assert_eq!(app.status(), "Delete failed: denied");
}

#[test]
fn only_directories_lose_entries() {
    let mut root = file("/f", 1);
    root.children = vec![file("/f/x", 1)];
    let mut app = App::new(Some(ScanResult { root, ..sample() }));
    press(&mut app, "d");
    app.confirm_delete(None);
    assert_eq!(app.status(), "Deleted on disk, but in-memory tree update failed");
    assert_eq!(app.current_children_len(), 1);
}

#[test]
fn sizes_that_cannot_be_held_are_noticed_before_a_deletion() {
    let root = dir("/r", 0, vec![file("/r/a", 1), file("/r/b", u64::MAX), file("/r/c", 7)]);
    let mut app = App::new(Some(ScanResult { root, ..sample() }));
    press(&mut app, "d");
    assert!(!app.deletion_fits());
    press(&mut app, "njd");
    assert!(app.deletion_fits());
}

#[test]
fn a_directory_that_was_deleted_is_gone_from_the_history() {
    let mut app = loaded();
    press(&mut app, "jl");
    press(&mut app, "b");
    press(&mut app, "jd");
    app.confirm_delete(None);
    assert_eq!(app.status(), "Deleted a");
    press(&mut app, "f");
    assert_eq!(app.status(), "History target no longer exists; moved to root");
    assert_eq!((here(&app).as_str(), app.history_index()), ("/r", 1));
    press(&mut app, "b");
    press(&mut app, "f");
    assert_eq!(app.status(), "Browsing /r");
}

#[test]
fn entries_are_deleted_by_their_kind() {
    assert_eq!(disk_deletion(NodeKind::File), DiskDeletion::File);
    assert_eq!(disk_deletion(NodeKind::Symlink), DiskDeletion::FileOrEmptyDirectory);
    assert_eq!(disk_deletion(NodeKind::Directory), DiskDeletion::Tree);
}

#[test]
fn keys_that_need_the_outside_leave_the_browser_alone() {
    let mut app = loaded();
    let before = format!("{app:?}");
    assert_eq!(app.handle_key(Key::Char('q')), Action::Quit);
    assert_eq!(app.handle_key(Key::Char('s')), Action::ScanCurrentDir);
    assert_eq!(app.handle_key(Key::Char('a')), Action::ScanFullDisk);
    assert_eq!(app.handle_key(Key::Char('p')), Action::Save);
    assert_eq!(app.handle_key(Key::Char('o')), Action::Load);
    assert_eq!(app.handle_key(Key::Char('x')), Action::Continue);
    assert_eq!(app.handle_key(Key::Esc), Action::Continue);
    assert_eq!(app.handle_key(Key::Other), Action::Continue);
    assert_eq!(app.key_command(Key::Char('[')), KeyCommand::Back);
    assert_eq!(app.key_command(Key::Char('y')), KeyCommand::Ignore);
    assert_eq!(format!("{app:?}"), before);
}

#[test]
fn a_scan_is_followed_to_its_end() {
    let mut app = loaded();
    press(&mut app, "d");
    assert!(app.start_scan("/s"));
    assert_eq!(app.status(), "Scanning started: /s");
    assert!(app.pending_delete().is_none());
    assert!(!app.start_scan("/t"));
    assert_eq!(app.status(), "Scan is already running");
    assert_eq!(app.scan_progress().unwrap().root, "/s");
    assert_eq!(app.handle_key(Key::Char('s')), Action::Continue);
    assert_eq!(app.handle_key(Key::Char('q')), Action::Quit);

    let events = vec![
        ScanProgressEvent::Started { root: "/s2".to_string() },
        ScanProgressEvent::Scanned { path: "/s/f".to_string(), kind: NodeKind::File },
        ScanProgressEvent::Scanned { path: "/s/l".to_string(), kind: NodeKind::Symlink },
        ScanProgressEvent::Warning { message: "odd".to_string() },
        ScanProgressEvent::Scanned { path: "/s/g".to_string(), kind: NodeKind::File },
        ScanProgressEvent::Scanned { path: "/s/d".to_string(), kind: NodeKind::Directory },
    ];
    assert!(app.can_count(&events));
    app.poll_background(events, None);
    let progress = app.scan_progress().unwrap();
    assert_eq!((progress.root.as_str(), progress.current_path.as_str()), ("/s2", "/s/d"));
    assert_eq!((progress.scanned_nodes, progress.scanned_dirs), (4, 1));
    assert_eq!((progress.scanned_files, progress.scanned_symlinks, progress.warnings), (2, 1, 1));
    assert_eq!(app.status(), "Warning: odd");

    let result = ScanResult { root: dir("/s2", 0, vec![]), scan_duration_ms: 42, ..sample() };
    app.poll_background(vec![], Some(ScanOutcome::Finished(result)));
    assert!(!app.is_scanning());
    assert_eq!((here(&app).as_str(), app.status()), ("/s2", "Scan completed in 0.042s"));
}

#[test]
fn a_scan_that_fails_keeps_the_result() {
    let mut app = loaded();
    app.start_scan("/s");
    app.poll_background(vec![], Some(ScanOutcome::Failed("denied".to_string())));
    assert_eq!((here(&app).as_str(), app.status()), ("/r", "Scan failed: denied"));
    app.start_scan("/s");
    app.poll_background(vec![], Some(ScanOutcome::Lost));
    assert_eq!((here(&app).as_str(), app.status()), ("/r", "Scan task ended unexpectedly"));
    let before = format!("{app:?}");
    let late = vec![ScanProgressEvent::Warning { message: "late".to_string() }];
    app.poll_background(late, Some(ScanOutcome::Lost));
    assert_eq!(format!("{app:?}"), before);
    app.disk_root_failed("denied");
    assert_eq!(app.status(), "Failed to resolve disk root: denied");
}

#[test]
fn what_is_saved_is_loaded_again() {
    let mut app = loaded();
    let text = app.save_default().unwrap();
    assert_eq!(text, result_to_json(&sample()));
    app.save_finished("./out.json", None);
    assert_eq!(app.status(), "Saved: ./out.json");
    app.save_finished("./out.json", Some("full".to_string()));
    assert_eq!(app.status(), "Save failed: full");

    let mut other = App::new(None);
    assert!(other.save_default().is_none());
    assert_eq!(other.status(), "No scan result to save");
    other.load_default("./out.json", Ok(text));
    assert_eq!(other.status(), "Loaded: ./out.json");
    assert_eq!(format!("{:?}", other.result().unwrap()), format!("{:?}", sample()));

    other.load_default("./out.json", Err("no such file".to_string()));
    assert_eq!(other.status(), "Load failed: no such file");
    other.load_default("./out.json", Ok("{".to_string()));
    assert!(other.status().starts_with("Load failed: unexpected EOS"));
    assert_eq!(here(&other), "/r");
    other.load_finished("x", Ok(ScanResult { root: dir("/n", 0, vec![]), ..sample() }));
    assert_eq!((here(&other).as_str(), other.status()), ("/n", "Loaded: x"));
}
