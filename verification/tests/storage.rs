use diskanalyzer::model::{Node, NodeKind, ScanResult};
use diskanalyzer::storage::{parse_result, result_to_json};

fn node(name: &str, path: &str, kind: NodeKind, size: u64, children: Vec<Node>) -> Node {
    Node { name: name.to_string(), path: path.to_string(), kind, size, children }
}

fn sample() -> ScanResult {
    ScanResult {
        root: node(
            "data",
            "/data",
            NodeKind::Directory,
            u64::MAX,
            vec![
                node("a \"b\"\\\n\r\t\u{8}\u{c}\u{1}\u{1f}\u{7f}é漢😀", "/data/a", NodeKind::File, 7, vec![]),
                node("link", "/data/link", NodeKind::Symlink, 0, vec![]),
            ],
        ),
        scanned_at_unix: 1_700_000_000,
        scan_duration_ms: 1234,
        warnings: vec!["no".to_string(), "\u{0}".to_string()],
    }
}

#[test]
fn a_result_is_written_compactly_in_order() {
    assert_eq!(
        result_to_json(&sample()),
        "{\"root\":{\"name\":\"data\",\"path\":\"/data\",\"kind\":\"directory\",\
         \"size\":18446744073709551615,\"children\":[{\"name\":\"a \\\"b\\\"\\\\\\n\\r\\t\\b\\f\\u0001\\u001f\u{7f}é漢😀\",\
         \"path\":\"/data/a\",\"kind\":\"file\",\"size\":7,\"children\":[]},\
         {\"name\":\"link\",\"path\":\"/data/link\",\"kind\":\"symlink\",\"size\":0,\"children\":[]}]},\
         \"scanned_at_unix\":1700000000,\"scan_duration_ms\":1234,\"warnings\":[\"no\",\"\\u0000\"]}"
    );
}

fn same_node(a: &Node, b: &Node) -> bool {
    a.name == b.name
        && a.path == b.path
        && a.kind == b.kind
        && a.size == b.size
        && a.children.len() == b.children.len()
        && a.children.iter().zip(b.children.iter()).all(|(x, y)| same_node(x, y))
}

fn same(a: &ScanResult, b: &ScanResult) -> bool {
    same_node(&a.root, &b.root)
        && a.scanned_at_unix == b.scanned_at_unix
        && a.scan_duration_ms == b.scan_duration_ms
        && a.warnings == b.warnings
}

#[test]
fn a_saved_result_is_loaded_as_it_was() {
    let loaded = parse_result(&result_to_json(&sample())).unwrap();
    assert!(same(&loaded, &sample()));
}

fn chain(levels: usize) -> ScanResult {
    let mut root = node("n", "/n", NodeKind::Directory, 1, vec![]);
    for _ in 1..levels {
        root = node("n", "/n", NodeKind::Directory, 1, vec![root]);
    }
    ScanResult { root, scanned_at_unix: 0, scan_duration_ms: 0, warnings: vec![] }
}

#[test]
fn the_highest_tree_that_loads_has_sixty_three_levels() {
    let high = chain(63);
    assert!(same(&parse_result(&result_to_json(&high)).unwrap(), &high));
    let message = parse_result(&result_to_json(&chain(64))).unwrap_err();
    assert!(message.ends_with("is invalid: nesting depth exceeded MAX_NESTING_DEPTH (128)"), "{}", message);
}

const NODE: &str = "{\"name\":\"n\",\"path\":\"/n\",\"kind\":\"file\",\"size\":3,\"children\":[]}";

#[test]
fn a_missing_duration_counts_as_zero() {
    let text = format!(" {{\"warnings\": [], \"scanned_at_unix\": 5, \"root\": {} }}", NODE);
    let result = parse_result(&text).unwrap();
    assert_eq!(result.scan_duration_ms, 0);
    assert_eq!(result.scanned_at_unix, 5);
    assert_eq!(result.root.size, 3);
    assert!(result.root.kind == NodeKind::File);
}

#[test]
fn of_equal_names_the_first_member_counts() {
    let text = format!(
        "{{\"root\":{},\"root\":7,\"scanned_at_unix\":1,\"scanned_at_unix\":2,\"warnings\":[]}}",
        NODE
    );
    assert_eq!(parse_result(&text).unwrap().scanned_at_unix, 1);
}

fn message(text: &str) -> String {
    parse_result(text).unwrap_err()
}

#[test]
fn messages_name_what_is_wrong_and_where() {
    assert_eq!(message(""), "unexpected EOS at byte position 0");
    assert_eq!(message("[]"), "JSON Array at byte position 0 is invalid: expected Object, but found Array");
    assert_eq!(message("{}"), "JSON Object at byte position 0 is invalid: required member 'root' is missing");
    assert_eq!(
        message("{\"root\": null}"),
        "JSON Null at byte position 9 is invalid: expected Object, but found Null"
    );
    assert_eq!(
        message("{\"root\": {\"name\": 1.5}}"),
        "JSON Float at byte position 18 is invalid: expected String, but found Float"
    );
    assert_eq!(
        message("{\"root\": {\"name\": true}}"),
        "JSON Boolean at byte position 18 is invalid: expected String, but found Boolean"
    );
    let start = "{\"root\":{\"name\":\"n\",\"path\":\"p\",\"kind\":";
    assert_eq!(
        message(&format!("{}\"pipe\"}}}}", start)),
        format!(
            "JSON String at byte position {} is invalid: unknown kind: pipe. expected directory|file|symlink",
            start.len()
        )
    );
    let start = "{\"root\":{\"name\":\"n\",\"path\":\"p\",\"kind\":\"file\",\"size\":";
    assert_eq!(
        message(&format!("{}-1}}}}", start)),
        format!("JSON Integer at byte position {} is invalid: invalid digit found in string", start.len())
    );
    assert_eq!(
        message(&format!("{}18446744073709551616}}}}", start)),
        format!("JSON Integer at byte position {} is invalid: number too large to fit in target type", start.len())
    );
    assert_eq!(
        message(&format!("{}0,\"children\":{{}}}}}}", start)),
        format!("JSON Object at byte position {} is invalid: expected Array, but found Object", start.len() + 13)
    );
    assert_eq!(
        message(&format!("{}0,\"children\":[{}, 5]}}}}", start, NODE)),
        format!("JSON Integer at byte position {} is invalid: expected Object, but found Integer", start.len() + 14 + NODE.len() + 2)
    );
    assert_eq!(
        message(&format!("{{\"root\":{},\"scanned_at_unix\":1,\"warnings\":[\"a\",1]}}", NODE)),
        format!("JSON Integer at byte position {} is invalid: expected String, but found Integer", 8 + NODE.len() + 37)
    );
}
