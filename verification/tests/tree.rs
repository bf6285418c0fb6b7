use diskanalyzer::model::{Node, NodeKind};
use diskanalyzer::order::sort_entries;
use diskanalyzer::tree::{
    find_node_by_path, find_node_by_path_mut, recalculate_sizes_and_sort, remove_child_by_dir_path, tree_total,
};

fn file(path: &str, size: u64) -> Node {
    Node {
        name: path.rsplit('/').next().unwrap().to_string(),
        path: path.to_string(),
        kind: NodeKind::File,
        size,
        children: vec![],
    }
}

fn dir(path: &str, children: Vec<Node>) -> Node {
    Node { kind: NodeKind::Directory, size: 0, children, ..file(path, 0) }
}

fn names(nodes: &[Node]) -> Vec<&str> {
    nodes.iter().map(|n| n.name.as_str()).collect()
}

fn sample() -> Node {
    dir(
        "/r",
        vec![
            dir("/r/a", vec![file("/r/a/1", 5), file("/r/a/2", 9)]),
            file("/r/b", 20),
            dir("/r/c", vec![]),
        ],
    )
}

#[test]
fn larger_entries_come_first_and_names_break_ties() {
    let sorted = sort_entries(vec![
        file("/b", 1),
        file("/a", 1),
        file("/Z", 1),
        file("/big", 100),
        file("/é", 1),
        file("/ab", 1),
        file("/mid", 50),
    ]);
    assert_eq!(names(&sorted), vec!["big", "mid", "Z", "a", "ab", "b", "é"]);
}

#[test]
fn entries_alike_keep_their_order() {
    let mut entries = Vec::new();
    for i in 0..50 {
        let mut entry = file("/same", i % 3);
        entry.path = format!("/{i}");
        entries.push(entry);
    }
    let mut expected: Vec<String> = Vec::new();
    for size in [2, 1, 0] {
        for i in 0..50 {
            if i % 3 == size {
                expected.push(format!("/{i}"));
            }
        }
    }
    let sorted = sort_entries(entries);
    assert_eq!(sorted.iter().map(|n| n.path.clone()).collect::<Vec<_>>(), expected);
}

#[test]
fn sorting_does_as_the_standard_library() {
    let mut seed: u64 = 12345;
    let mut entries = Vec::new();
    for _ in 0..300 {
        seed = seed.wrapping_mul(6364136223846793005).wrapping_add(1442695040888963407);
        entries.push(file(&format!("/{}", (seed >> 40) % 17), (seed >> 50) % 5));
    }
    let mut expected = entries.clone();
    expected.sort_by(|a, b| b.size.cmp(&a.size).then_with(|| a.name.cmp(&b.name)));
    assert_eq!(format!("{:?}", sort_entries(entries)), format!("{expected:?}"));
    assert!(sort_entries(vec![]).is_empty());
}

#[test]
fn entries_are_found_by_path() {
    let root = sample();
    assert_eq!(find_node_by_path(&root, "/r").unwrap().name, "r");
    assert_eq!(find_node_by_path(&root, "/r/a/2").unwrap().size, 9);
    assert!(find_node_by_path(&root, "/r/a/3").is_none());
    assert!(find_node_by_path(&root, "").is_none());
}

#[test]
fn of_equal_paths_the_first_is_found() {
    let root = dir("/r", vec![dir("/x", vec![file("/y", 1)]), file("/y", 2)]);
    assert_eq!(find_node_by_path(&root, "/y").unwrap().size, 1);
}

#[test]
fn a_found_entry_can_be_changed_in_place() {
    let mut root = sample();
    find_node_by_path_mut(&mut root, "/r/a/1").unwrap().size = 77;
    assert_eq!(root.children[0].children[0].size, 77);
    assert_eq!(root.children[0].children[1].size, 9);
    assert!(find_node_by_path_mut(&mut root, "/nowhere").is_none());
}

#[test]
fn a_child_is_removed_by_its_place() {
    let mut root = sample();
    let removed = remove_child_by_dir_path(&mut root, "/r/a", 0).unwrap();
    assert_eq!(removed.path, "/r/a/1");
    assert_eq!(names(&root.children[0].children), vec!["2"]);
    assert!(find_node_by_path(&root, "/r/a/1").is_none());
}

#[test]
fn what_is_not_there_is_not_removed() {
    let mut root = sample();
    let before = format!("{root:?}");
    assert!(remove_child_by_dir_path(&mut root, "/r/a", 2).is_none());
    assert!(remove_child_by_dir_path(&mut root, "/r/b", 0).is_none());
    assert!(remove_child_by_dir_path(&mut root, "/r/x", 0).is_none());
    assert_eq!(format!("{root:?}"), before);
}

#[test]
fn sizes_are_summed_and_entries_sorted() {
    let mut root = sample();
    root.children[1].size = 10;
    assert_eq!(tree_total(&root), Some(24));
    assert_eq!(recalculate_sizes_and_sort(&mut root), 24);
    assert_eq!(root.size, 24);
    assert_eq!(names(&root.children), vec!["a", "b", "c"]);
    assert_eq!(root.children[0].size, 14);
    assert_eq!(names(&root.children[0].children), vec!["2", "1"]);
    let once = format!("{root:?}");
    assert_eq!(recalculate_sizes_and_sort(&mut root), 24);
    assert_eq!(format!("{root:?}"), once);
}

#[test]
fn removing_a_child_lowers_the_total_by_its_size() {
    let mut root = sample();
    let before = recalculate_sizes_and_sort(&mut root);
    let removed = remove_child_by_dir_path(&mut root, "/r/a", 0).unwrap();
    assert_eq!(recalculate_sizes_and_sort(&mut root) + removed.size, before);
}

#[test]
fn a_file_keeps_its_size() {
    let mut one = file("/f", 8);
    one.children = vec![file("/f/x", 3)];
    assert_eq!(recalculate_sizes_and_sort(&mut one), 8);
    assert_eq!(one.children[0].size, 3);
}

#[test]
fn a_total_that_cannot_be_held_is_none() {
    let root = dir("/r", vec![file("/r/a", u64::MAX), dir("/r/d", vec![file("/r/d/b", 1)])]);
    assert_eq!(tree_total(&root), None);
    assert_eq!(tree_total(&dir("/r", vec![file("/r/a", u64::MAX)])), Some(u64::MAX));
}
