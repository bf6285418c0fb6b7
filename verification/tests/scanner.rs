use diskanalyzer::model::{Node, NodeKind};
use diskanalyzer::scanner::{
    current_disk_root_from, default_parallelism, display_name, drive_root, name_or_path, read_directory_entries, scan_duration,
    scan_node, scan_started, ChildOutcome, DirectoryScan, EntryReading, EntryStat, PathPart, ScanProgressEvent,
    ScanStart,
};
use diskanalyzer::tree::recalculate_sizes_and_sort;

fn stat(is_symlink: bool, is_dir: bool, len: u64) -> EntryStat {
    EntryStat { is_symlink, is_dir, len }
}

fn found(name: &str, stat: EntryStat) -> EntryReading {
    EntryReading::Found { name: name.to_string(), path: format!("/d/{name}"), stat }
}

fn file(name: &str, size: u64) -> Node {
    Node {
        name: name.to_string(),
        path: format!("/d/{name}"),
        kind: NodeKind::File,
        size,
        children: vec![],
    }
}

fn scan_of(path: &str) -> DirectoryScan {
    match scan_node(path.to_string(), stat(false, true, 4096)) {
        ScanStart::ReadEntries { scan } => scan,
        ScanStart::Finished { .. } => panic!("a directory is not finished at once"),
    }
}

#[test]
fn a_link_is_a_link_even_to_a_directory() {
    assert_eq!(stat(true, true, 9).kind(), NodeKind::Symlink);
    assert_eq!(stat(true, false, 9).kind(), NodeKind::Symlink);
    assert_eq!(stat(false, true, 9).kind(), NodeKind::Directory);
    assert_eq!(stat(false, false, 9).kind(), NodeKind::File);
}

#[test]
fn an_entry_is_shown_by_the_last_part_of_its_path() {
    for (path, name) in [
        ("/a/b", "b"),
        ("/a", "a"),
        ("b", "b"),
        ("/a/b/", "b"),
        ("/a/b/.", "b"),
        ("/a//./b", "b"),
        ("./.b", ".b"),
        ("/a/b c:d", "b c:d"),
        ("/", "/"),
        ("/.", "/."),
        (".", "."),
        ("./", "./"),
        ("..", ".."),
        ("/a/..", "/a/.."),
        ("", ""),
    ] {
        assert_eq!(display_name(path), name, "{path}");
    }
    assert_eq!(name_or_path("/a", Some(String::new())), "/a");
    assert_eq!(name_or_path("/a", Some("x".to_string())), "x");
    assert_eq!(name_or_path("/a", None), "/a");
}

#[test]
fn a_file_is_finished_at_once() {
    match scan_node("/d/f".to_string(), stat(false, false, 12)) {
        ScanStart::Finished { node, event } => {
            assert_eq!((node.name.as_str(), node.path.as_str(), node.size), ("f", "/d/f", 12));
            assert_eq!(node.kind, NodeKind::File);
            assert!(matches!(event, ScanProgressEvent::Scanned { path, kind: NodeKind::File } if path == "/d/f"));
        }
        ScanStart::ReadEntries { .. } => panic!("a file has no entries"),
    }
}

#[test]
fn a_link_has_no_size() {
    match scan_node("/d/l".to_string(), stat(true, true, 12)) {
        ScanStart::Finished { node, event } => {
            assert_eq!((node.kind, node.size), (NodeKind::Symlink, 0));
            assert!(matches!(event, ScanProgressEvent::Scanned { kind: NodeKind::Symlink, .. }));
        }
        ScanStart::ReadEntries { .. } => panic!("a link has no entries"),
    }
}

#[test]
fn the_entries_of_a_directory_are_sorted_out() {
    let entries = vec![
        found("f", stat(false, false, 3)),
        EntryReading::Unreadable { error: "broken".to_string() },
        found("sub", stat(false, true, 4096)),
        EntryReading::NoMetadata { path: "/d/gone".to_string(), error: "no such file".to_string() },
        found("link", stat(true, false, 5)),
        found("sub2", stat(false, true, 4096)),
    ];
    let listing = read_directory_entries("/d", &entries);
    assert_eq!(format!("{:?}", listing.files[0]), format!("{:?}", file("f", 3)));
    assert_eq!(listing.files[1].kind, NodeKind::Symlink);
    assert_eq!(listing.files[1].size, 0);
    assert_eq!(listing.directories, vec![2, 5]);
    assert_eq!(
        listing.warnings,
        vec![
            "failed to read entry under /d: broken".to_string(),
            "failed to read metadata for /d/gone: no such file".to_string(),
        ]
    );
    assert_eq!(listing.files.len() + listing.directories.len() + listing.warnings.len(), entries.len());
}

#[test]
fn a_directory_gathers_its_children_and_their_warnings() {
    let mut scan = scan_of("/d");
    let events = scan.entries_read(vec![file("f", 3)], vec!["w1".to_string()]);
    assert_eq!(events.len(), 1);
    assert!(matches!(&events[0], ScanProgressEvent::Warning { message } if message == "w1"));

    let mut sub = scan_of("/d/sub");
    sub.entries_read(vec![file("sub/x", 4), file("sub/y", 6)], vec![]);
    let (sub_node, _, sub_event) = sub.finish();
    assert_eq!(sub_node.size, 10);
    assert!(matches!(sub_event, ScanProgressEvent::Scanned { path, kind: NodeKind::Directory } if path == "/d/sub"));

    assert!(scan
        .child_done(ChildOutcome::Scanned { node: sub_node, warnings: vec!["w2".to_string()] })
        .is_none());
    let failed = scan.child_done(ChildOutcome::Failed { error: "denied".to_string() });
    assert!(matches!(failed, Some(ScanProgressEvent::Warning { message }) if message == "denied"));
    let lost = scan.child_done(ChildOutcome::Lost { error: "panic".to_string() });
    assert!(matches!(lost, Some(ScanProgressEvent::Warning { message }) if message == "scan task join error: panic"));

    assert_eq!(scan.total_size(), Some(13));
    let (mut node, warnings, event) = scan.finish();
    assert_eq!((node.name.as_str(), node.size, node.kind), ("d", 13, NodeKind::Directory));
    assert_eq!(node.children[0].path, "/d/sub");
    assert_eq!(node.children[0].children[0].size, 6);
    assert_eq!(node.children[1].path, "/d/f");
    assert_eq!(
        warnings,
        vec!["w1".to_string(), "w2".to_string(), "denied".to_string(), "scan task join error: panic".to_string()]
    );
    assert!(matches!(event, ScanProgressEvent::Scanned { path, kind: NodeKind::Directory } if path == "/d"));

    let scanned = format!("{node:?}");
    assert_eq!(recalculate_sizes_and_sort(&mut node), 13);
    assert_eq!(format!("{node:?}"), scanned);
}

#[test]
fn a_size_that_cannot_be_held_is_none() {
    let mut scan = scan_of("/d");
    scan.entries_read(vec![file("a", u64::MAX), file("b", 1)], vec![]);
    assert_eq!(scan.total_size(), None);
}

#[test]
fn a_scan_tells_where_it_begins() {
    let event = scan_started("/here");
    assert!(matches!(event.clone(), ScanProgressEvent::Started { root } if root == "/here"));
}

#[test]
fn long_scans_are_cut_to_what_can_be_held() {
    assert_eq!(scan_duration(17), 17);
    assert_eq!(scan_duration(u64::MAX as u128), u64::MAX);
    assert_eq!(scan_duration(u64::MAX as u128 + 1), u64::MAX);
}

#[test]
fn eight_directories_are_read_for_each_processor() {
    assert_eq!(default_parallelism(None), 8);
    assert_eq!(default_parallelism(Some(0)), 8);
    assert_eq!(default_parallelism(Some(1)), 8);
    assert_eq!(default_parallelism(Some(16)), 128);
}

#[test]
fn the_root_of_a_disk_is_the_highest_directory_on_it() {
    assert_eq!(current_disk_root_from(7, &vec![Some(7), Some(7), Some(1)]), Ok(2));
    assert_eq!(current_disk_root_from(7, &vec![Some(7), Some(7)]), Ok(2));
    assert_eq!(current_disk_root_from(7, &vec![]), Ok(0));
    assert_eq!(current_disk_root_from(7, &vec![Some(1), None]), Ok(0));
    assert_eq!(current_disk_root_from(7, &vec![Some(7), None, Some(7)]), Err(1));
}

#[test]
fn the_root_of_a_drive_is_its_prefix_and_root() {
    assert_eq!(drive_root(&vec![PathPart::Prefix, PathPart::RootDir, PathPart::Other]), Some(2));
    assert_eq!(drive_root(&vec![PathPart::Prefix, PathPart::Other]), Some(1));
    assert_eq!(drive_root(&vec![PathPart::RootDir, PathPart::Other]), Some(1));
    assert_eq!(drive_root(&vec![PathPart::RootDir, PathPart::RootDir]), Some(1));
    assert_eq!(drive_root(&vec![PathPart::Other]), None);
    assert_eq!(drive_root(&vec![]), None);
}
