use diskanalyzer::model::{format_bytes, format_duration, format_duration_ms, Node, NodeKind, ScanResult};

fn as_doubles_say(size: u64) -> String {
    let units = ["B", "KiB", "MiB", "GiB", "TiB"];
    let mut value = size as f64;
    let mut unit = 0;
    while value >= 1024.0 && unit < 4 {
        value /= 1024.0;
        unit += 1;
    }
    if unit == 0 {
        format!("{size} {}", units[unit])
    } else {
        format!("{value:.2} {}", units[unit])
    }
}

#[test]
fn sizes_have_units() {
    assert_eq!(format_bytes(0), "0 B");
    assert_eq!(format_bytes(1023), "1023 B");
    assert_eq!(format_bytes(1024), "1.00 KiB");
    assert_eq!(format_bytes(1536), "1.50 KiB");
    assert_eq!(format_bytes(1024 * 1024 - 1), "1024.00 KiB");
    assert_eq!(format_bytes(1024 * 1024), "1.00 MiB");
    assert_eq!(format_bytes(5 * 1024 * 1024 * 1024), "5.00 GiB");
    assert_eq!(format_bytes(1 << 40), "1.00 TiB");
    assert_eq!(format_bytes(u64::MAX), "16777216.00 TiB");
}

#[test]
fn halves_are_rounded_to_even() {
    assert_eq!(format_bytes(1024 + 128), "1.12 KiB");
    assert_eq!(format_bytes(1024 + 384), "1.38 KiB");
}

#[test]
fn sizes_are_rounded_as_doubles_are() {
    let mut size: u64 = 88_172_645_463_325_252;
    for _ in 0..20_000 {
        size ^= size << 13;
        size ^= size >> 7;
        size ^= size << 17;
        for shift in [0, 11, 22, 33, 44, 54] {
            let n = size >> shift;
            assert_eq!(format_bytes(n), as_doubles_say(n), "{n}");
        }
    }
    for power in 0..64 {
        let n = 1u64 << power;
        for near in [n - 1, n, n + 1, n | (n >> 1), n | (n >> 3), n | (n >> 53), n | (n >> 54)] {
            assert_eq!(format_bytes(near), as_doubles_say(near), "{near}");
        }
    }
}

#[test]
fn durations_have_three_decimals() {
    assert_eq!(format_duration(0, 7), "0.007s");
    assert_eq!(format_duration(12, 34), "12.034s");
    assert_eq!(format_duration(1, 999), "1.999s");
    assert_eq!(format_duration_ms(0), "0.000s");
    assert_eq!(format_duration_ms(61_250), "61.250s");
    assert_eq!(format_duration_ms(u64::MAX), "18446744073709551.615s");
}

fn leaf(name: &str) -> Node {
    Node {
        name: name.to_string(),
        path: format!("/{name}"),
        kind: NodeKind::File,
        size: 3,
        children: vec![],
    }
}

#[test]
fn a_new_result_tells_when_it_was_made() {
    let before = std::time::SystemTime::now()
        .duration_since(std::time::UNIX_EPOCH)
        .unwrap()
        .as_secs();
    let result = ScanResult::new(leaf("a"), vec!["w".to_string()], 5);
    let after = std::time::SystemTime::now()
        .duration_since(std::time::UNIX_EPOCH)
        .unwrap()
        .as_secs();
    assert!(before <= result.scanned_at_unix && result.scanned_at_unix <= after);
    assert_eq!(result.root.name, "a");
    assert_eq!(result.scan_duration_ms, 5);
    assert_eq!(result.warnings, vec!["w".to_string()]);
}

#[test]
fn a_clock_before_the_epoch_counts_as_zero() {
    assert_eq!(ScanResult::at(leaf("a"), vec![], 1, None).scanned_at_unix, 0);
    assert_eq!(ScanResult::at(leaf("a"), vec![], 1, Some(77)).scanned_at_unix, 77);
}

#[test]
fn a_copy_of_an_entry_is_alike() {
    let mut dir = leaf("d");
    dir.kind = NodeKind::Directory;
    dir.children = vec![leaf("x"), leaf("y")];
    assert_eq!(dir.child_count(), 2);
    assert_eq!(format!("{:?}", dir.clone()), format!("{dir:?}"));
    assert_eq!(leaf("z").child_count(), 0);
}
