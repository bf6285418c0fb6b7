use diskanalyzer::app::App;
use diskanalyzer::app_model::Key;
use diskanalyzer::model::{Node, NodeKind, ScanResult};
use diskanalyzer::scanner::ScanProgressEvent;
use diskanalyzer::screen::{delete_prompt, kind_label, screen, MarkColor, Screen};

fn entry(name: &str, kind: NodeKind, size: u64) -> Node {
    Node { name: name.to_string(), path: format!("/r/{name}"), kind, size, children: vec![] }
}

fn sample() -> App {
    let children = vec![
        entry("sub", NodeKind::Directory, 2048),
        entry("file.txt", NodeKind::File, 100),
        entry("a name that is longer than thirty-six characters", NodeKind::Symlink, 0),
    ];
    let root = Node {
        name: "r".to_string(),
        path: "/r".to_string(),
        kind: NodeKind::Directory,
        size: 2148,
        children,
    };
    App::new(Some(ScanResult { root, scanned_at_unix: 0, scan_duration_ms: 12, warnings: vec![] }))
}

#[test]
fn kinds_have_names() {
    assert_eq!(kind_label(NodeKind::Directory), "Directory");
    assert_eq!(kind_label(NodeKind::File), "File");
    assert_eq!(kind_label(NodeKind::Symlink), "Symlink");
}

#[test]
fn nothing_loaded_is_an_empty_screen() {
    match screen(&App::new(None), 0, 0) {
        Screen::Empty(empty) => {
            assert_eq!(
                empty.welcome,
                vec![
                    "No scan data loaded.",
                    "",
                    "s: scan current directory",
                    "a: scan current disk (full scan)",
                    "o: load ./diskanalyzer-result.json",
                    "q: quit",
                ]
            );
            assert_eq!(
                empty.footer,
                vec![
                    "Status: s: scan current dir / a: full disk scan / o: load / p: save",
                    "TUI-first mode: scanning and load/save from keyboard.",
                ]
            );
        }
        other => panic!("{other:?}"),
    }
}

#[test]
fn a_directory_is_listed_with_details() {
    let mut app = sample();
    app.handle_key(Key::Down);
    match screen(&app, 0, 0) {
        Screen::Browsing(shown) => {
            assert_eq!(
                shown.header,
                "Disk: /r | Current: /r | Entries: 3 | Size: 2.10 KiB | Scan time: 0.012s"
            );
            assert_eq!(shown.selected, Some(1));
            assert_eq!(shown.whole, 2148);
            assert_eq!(shown.rows[0].mark, "[D] ");
            assert_eq!(shown.rows[0].color, MarkColor::Cyan);
            assert_eq!(shown.rows[0].name, format!("{:<36}", "sub"));
            assert_eq!(shown.rows[0].size, "  2.00 KiB");
            assert_eq!(shown.rows[1].mark, "[F] ");
            assert_eq!(shown.rows[1].color, MarkColor::White);
            assert_eq!(shown.rows[1].size, "     100 B");
            assert_eq!(shown.rows[1].bytes, 100);
            assert_eq!(shown.rows[2].mark, "[L] ");
            assert_eq!(shown.rows[2].color, MarkColor::Magenta);
            assert_eq!(shown.rows[2].name, "a name that is longer than thirty-six characters");
            assert_eq!(
                shown.details,
                vec![
                    "Name: file.txt",
                    "Path: /r/file.txt",
                    "Type: File",
                    "Size: 100 B",
                    "Children: 0",
                    "History: 1/1",
                    "Enter: open dir | u: up | b/f: back/forward",
                    "d: delete file/dir/symlink (confirm y/n)",
                ]
            );
            assert_eq!(
                shown.footer,
                vec![
                    "Status: Scan loaded. Duration: 0.012s",
                    "s scan-dir | a full-scan | p save | o load | j/k move | Enter open | u up | d delete | q quit",
                ]
            );
        }
        other => panic!("{other:?}"),
    }
}

#[test]
fn an_empty_directory_has_no_selection() {
    let mut app = sample();
    app.handle_key(Key::Enter);
    match screen(&app, 0, 0) {
        Screen::Browsing(shown) => {
            assert_eq!(shown.selected, None);
            assert!(shown.rows.is_empty());
            assert_eq!(shown.whole, 2048);
            assert_eq!(
                shown.details,
                vec![
                    "No entries in this directory",
                    "",
                    "Use u to go parent, b/f for history",
                    "s: rescan current dir | a: full scan",
                    "p: save | o: load | q: quit",
                    "",
                    "",
                    "",
                ]
            );
        }
        other => panic!("{other:?}"),
    }
}

#[test]
fn an_empty_whole_counts_as_one() {
    let mut root = entry("z", NodeKind::Directory, 0);
    root.children = vec![entry("y", NodeKind::File, 0)];
    let app = App::new(Some(ScanResult { root, scanned_at_unix: 0, scan_duration_ms: 0, warnings: vec![] }));
    match screen(&app, 0, 0) {
        Screen::Browsing(shown) => assert_eq!(shown.whole, 1),
        other => panic!("{other:?}"),
    }
}

#[test]
fn a_running_scan_comes_first() {
    let mut app = sample();
    app.start_scan("/r");
    app.poll_background(
        vec![ScanProgressEvent::Scanned { path: "/r/x".to_string(), kind: NodeKind::File }],
        None,
    );
    match screen(&app, 3, 45) {
        Screen::Scanning(shown) => {
            assert_eq!(shown.header, "SCAN RUNNING | Root: /r | Elapsed: 3.045s");
            assert_eq!(
                shown.body,
                vec![
                    "Current path: /r/x",
                    "",
                    "Scanned nodes: 1",
                    "Directories: 0",
                    "Files: 1",
                    "Symlinks: 0",
                    "Warnings: 0",
                ]
            );
            assert_eq!(
                shown.footer,
                vec!["Status: Scanning started: /r", "Scanning in background... q: quit"]
            );
        }
        other => panic!("{other:?}"),
    }
}

#[test]
fn a_waiting_deletion_is_asked_about() {
    let mut app = sample();
    assert!(delete_prompt(&app).is_none());
    app.handle_key(Key::Char('d'));
    assert_eq!(
        delete_prompt(&app).unwrap(),
        vec![
            "Delete selected entry?",
            "",
            "Name: sub",
            "Path: /r/sub",
            "Type: Directory",
            "",
            "Press y to delete, n or Esc to cancel.",
        ]
    );
}
