use diskanalyzer::json::{parse_json, JsonData, JsonKind};

fn nested(depth: usize) -> String {
    format!("{}{}", "[".repeat(depth), "]".repeat(depth))
}

#[test]
fn values_may_be_nested_a_hundred_and_twenty_eight_deep() {
    assert!(parse_json(&nested(128)).is_ok());
    assert!(parse_json(&nested(129)).is_err());
    let objects = format!("{}1{}", "{\"a\":".repeat(128), "}".repeat(128));
    assert!(parse_json(&objects).is_ok());
}

#[test]
fn values_are_read_with_their_kinds_and_places() {
    let value = parse_json(" [null, true, 12, 1.5, \"a\\u00e9\\n\", {\"k\": -3}]").unwrap();
    assert_eq!((value.kind(), value.position), (JsonKind::Array, 1));
    let JsonData::Array(items) = value.data else {
        panic!("not an array");
    };
    let kinds: Vec<JsonKind> = items.iter().map(|item| item.kind()).collect();
    assert_eq!(
        kinds,
        vec![
            JsonKind::Null,
            JsonKind::Boolean,
            JsonKind::Integer,
            JsonKind::Float,
            JsonKind::Text,
            JsonKind::Object,
        ]
    );
    assert_eq!(items[2].position, 14);
    assert!(matches!(&items[2].data, JsonData::Integer(digits) if digits == "12"));
    assert!(matches!(&items[4].data, JsonData::Text(content) if content == "aé\n"));
    match &items[5].data {
        JsonData::Object(members) => {
            assert_eq!((members.len(), members[0].name.as_str()), (1, "k"));
            assert!(matches!(&members[0].value.data, JsonData::Integer(digits) if digits == "-3"));
        }
        other => panic!("{other:?}"),
    }
}

#[test]
fn integers_may_have_any_number_of_digits() {
    let digits = "9".repeat(60);
    match parse_json(&digits).unwrap().data {
        JsonData::Integer(read) => assert_eq!(read, digits),
        other => panic!("{other:?}"),
    }
}

#[test]
fn what_is_no_json_is_an_error() {
    for text in ["", "{", "[1,]", "\"a", "1 2", "nul"] {
        assert!(parse_json(text).is_err(), "{text}");
    }
}
