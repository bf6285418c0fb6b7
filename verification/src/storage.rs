//! Saved results: how a result is written as JSON and read back.

use vstd::prelude::*;
use vstd::string::*;

use crate::json::{
    invalid_value_message,
    parse_json,
    write_array,
    write_object,
    write_string,
    JsonData,
    JsonKind,
    JsonValue,
};
use crate::model::{Node, NodeKind, ScanResult};
use crate::text::{decimal_text, same_text};

verus! {

use crate::json::{
    all_read_as,
    deepest,
    deepest_member,
    doc_text,
    doc_texts,
    invalid_value_text,
    json_kind_name,
    member_text,
    member_texts,
    members_read_as,
    nesting,
    pair_texts,
    parsed_json,
    reads_as,
    string_literal,
    JsonDoc,
    JsonTree,
    JsonTreeData,
};
use crate::model::{NodeModel, ScanResultModel};
use crate::order::models;
use crate::text::{decimal, texts};
use crate::text_laws::{all_digits, digits_value};

/// The name under which a kind is saved.
pub open spec fn kind_name(kind: NodeKind) -> Seq<char> {
    match kind {
        NodeKind::Directory => "directory"@,
        NodeKind::File => "file"@,
        NodeKind::Symlink => "symlink"@,
    }
}

/// An entry as it is saved.
pub open spec fn node_doc(node: NodeModel) -> JsonDoc
    decreases node,
{
    JsonDoc::Object(
        seq![
            ("name"@, JsonDoc::Text(node.name)),
            ("path"@, JsonDoc::Text(node.path)),
            ("kind"@, JsonDoc::Text(kind_name(node.kind))),
            ("size"@, JsonDoc::Number(node.size)),
            ("children"@, JsonDoc::Array(node_docs(node.children))),
        ],
    )
}

/// A list of entries as it is saved.
pub open spec fn node_docs(nodes: Seq<NodeModel>) -> Seq<JsonDoc>
    decreases nodes,
{
    if nodes.len() == 0 {
        Seq::empty()
    } else {
        node_docs(nodes.drop_last()).push(node_doc(nodes.last()))
    }
}

/// A list of texts as it is saved.
pub open spec fn text_docs(list: Seq<Seq<char>>) -> Seq<JsonDoc> {
    list.map_values(|text: Seq<char>| JsonDoc::Text(text))
}

/// A result as it is saved.
pub open spec fn result_doc(result: ScanResultModel) -> JsonDoc {
    JsonDoc::Object(
        seq![
            ("root"@, node_doc(result.root)),
            ("scanned_at_unix"@, JsonDoc::Number(result.scanned_at_unix)),
            ("scan_duration_ms"@, JsonDoc::Number(result.scan_duration_ms)),
            ("warnings"@, JsonDoc::Array(text_docs(result.warnings))),
        ],
    )
}

/// The text of a saved result.
pub open spec fn result_text(result: ScanResultModel) -> Seq<char> {
    doc_text(result_doc(result))
}

fn kind_text(kind: NodeKind) -> (name: &'static str)
    ensures
        name@ == kind_name(kind),
{
    match kind {
        NodeKind::Directory => "directory",
        NodeKind::File => "file",
        NodeKind::Symlink => "symlink",
    }
}

proof fn lemma_doc_texts(docs: Seq<JsonDoc>)
    ensures
        doc_texts(docs).len() == docs.len(),
        forall|i: int| 0 <= i < docs.len() ==> #[trigger] doc_texts(docs)[i] == doc_text(docs[i]),
    decreases docs.len(),
{
    if docs.len() > 0 {
        lemma_doc_texts(docs.drop_last());
    }
}

proof fn lemma_member_texts(members: Seq<(Seq<char>, JsonDoc)>)
    ensures
        member_texts(members).len() == members.len(),
        forall|i: int|
            0 <= i < members.len() ==> #[trigger] member_texts(members)[i] == member_text(
                members[i].0,
                doc_text(members[i].1),
            ),
    decreases members.len(),
{
    if members.len() > 0 {
        lemma_member_texts(members.drop_last());
    }
}

proof fn lemma_node_docs(nodes: Seq<NodeModel>)
    ensures
        node_docs(nodes).len() == nodes.len(),
        forall|i: int| 0 <= i < nodes.len() ==> #[trigger] node_docs(nodes)[i] == node_doc(nodes[i]),
    decreases nodes.len(),
{
    if nodes.len() > 0 {
        lemma_node_docs(nodes.drop_last());
    }
}

/// The text of a saved entry.
pub fn node_to_json(node: &Node) -> (json: String)
    ensures
        json@ == doc_text(node_doc(node@)),
    decreases node,
{
    let mut items: Vec<String> = Vec::new();
    let mut i: usize = 0;
    while i < node.children.len()
        invariant
            i <= node.children.len(),
            items@.len() == i,
            forall|j: int|
                0 <= j < i ==> (#[trigger] items@[j])@ == doc_text(
                    node_doc(node.children@[j]@),
                ),
        decreases node.children.len() - i,
    {
        let item = node_to_json(&node.children[i]);
        items.push(item);
        i += 1;
    }
    let mut members: Vec<(&'static str, String)> = Vec::new();
    members.push(("name", write_string(node.name.as_str())));
    members.push(("path", write_string(node.path.as_str())));
    members.push(("kind", write_string(kind_text(node.kind))));
    members.push(("size", decimal_text(node.size)));
    members.push(("children", write_array(&items)));
    proof {
        let kids = node@.children;
        lemma_node_docs(kids);
        lemma_doc_texts(node_docs(kids));
        assert(texts(items@) =~= doc_texts(node_docs(kids)));
        let m = node_doc(node@)->Object_0;
        lemma_member_texts(m);
        assert(pair_texts(members@) =~= member_texts(m));
    }
    write_object(&members)
}

/// The text of a saved result.
pub fn result_to_json(result: &ScanResult) -> (json: String)
    ensures
        json@ == result_text(result@),
{
    let mut items: Vec<String> = Vec::new();
    let mut i: usize = 0;
    while i < result.warnings.len()
        invariant
            i <= result.warnings.len(),
            items@.len() == i,
            forall|j: int|
                0 <= j < i ==> (#[trigger] items@[j])@ == string_literal(result.warnings@[j]@),
        decreases result.warnings.len() - i,
    {
        items.push(write_string(result.warnings[i].as_str()));
        i += 1;
    }
    let mut members: Vec<(&'static str, String)> = Vec::new();
    members.push(("root", node_to_json(&result.root)));
    members.push(("scanned_at_unix", decimal_text(result.scanned_at_unix)));
    members.push(("scan_duration_ms", decimal_text(result.scan_duration_ms)));
    members.push(("warnings", write_array(&items)));
    proof {
        let docs = text_docs(result@.warnings);
        lemma_doc_texts(docs);
        assert(texts(items@) =~= doc_texts(docs));
        let m = result_doc(result@)->Object_0;
        lemma_member_texts(m);
        assert(pair_texts(members@) =~= member_texts(m));
    }
    write_object(&members)
}

/// The message that a value is not what it should be.
pub open spec fn invalid_text(tree: JsonTree, reason: Seq<char>) -> Seq<char> {
    invalid_value_text(tree.kind(), tree.position, reason)
}

/// The message that a value is of another kind than it should be.
pub open spec fn expected_text(tree: JsonTree, kind: JsonKind) -> Seq<char> {
    invalid_text(
        tree,
        "expected "@ + json_kind_name(kind) + ", but found "@ + json_kind_name(tree.kind()),
    )
}

/// The message that an object lacks a member.
pub open spec fn missing_text(tree: JsonTree, name: Seq<char>) -> Seq<char> {
    invalid_text(tree, "required member '"@ + name + "' is missing"@)
}

/// The first member with a name.
pub open spec fn first_member(members: Seq<(Seq<char>, JsonTree)>, name: Seq<char>) -> Option<
    JsonTree,
>
    decreases members.len(),
{
    if members.len() == 0 {
        None
    } else if members[0].0 == name {
        Some(members[0].1)
    } else {
        first_member(members.drop_first(), name)
    }
}

/// The member of an object with a name, where there is one.
pub open spec fn member_of(tree: JsonTree, name: Seq<char>) -> Result<
    Option<JsonTree>,
    Seq<char>,
> {
    match tree.data {
        JsonTreeData::Object(members) => Ok(first_member(members, name)),
        _ => Err(expected_text(tree, JsonKind::Object)),
    }
}

/// The member of an object with a name, which must be there.
pub open spec fn required_member(tree: JsonTree, name: Seq<char>) -> Result<JsonTree, Seq<char>> {
    match member_of(tree, name) {
        Err(message) => Err(message),
        Ok(None) => Err(missing_text(tree, name)),
        Ok(Some(member)) => Ok(member),
    }
}

/// The content of a string.
pub open spec fn text_of(tree: JsonTree) -> Result<Seq<char>, Seq<char>> {
    match tree.data {
        JsonTreeData::Text(text) => Ok(text),
        _ => Err(expected_text(tree, JsonKind::Text)),
    }
}

/// Whether a character is a decimal digit.
pub open spec fn is_digit(c: char) -> bool {
    48 <= c as int <= 57
}

/// Whether a text consists of decimal digits.
pub open spec fn is_numeral(digits: Seq<char>) -> bool {
    digits.len() > 0 && forall|i: int| 0 <= i < digits.len() ==> is_digit(#[trigger] digits[i])
}

/// The number that decimal digits stand for.
pub open spec fn numeral_value(digits: Seq<char>) -> nat
    decreases digits.len(),
{
    if digits.len() == 0 {
        0
    } else {
        10 * numeral_value(digits.drop_last()) + (digits.last() as int - 48) as nat
    }
}

/// The number of an integer without a sign that fits in 64 bits.
pub open spec fn number_of(tree: JsonTree) -> Result<nat, Seq<char>> {
    match tree.data {
        JsonTreeData::Integer(digits) => if !is_numeral(digits) {
            Err(invalid_text(tree, "invalid digit found in string"@))
        } else if numeral_value(digits) > u64::MAX {
            Err(invalid_text(tree, "number too large to fit in target type"@))
        } else {
            Ok(numeral_value(digits))
        },
        _ => Err(expected_text(tree, JsonKind::Integer)),
    }
}

/// The elements of an array.
pub open spec fn items_of(tree: JsonTree) -> Result<Seq<JsonTree>, Seq<char>> {
    match tree.data {
        JsonTreeData::Array(items) => Ok(items),
        _ => Err(expected_text(tree, JsonKind::Array)),
    }
}

/// The kind that is saved under a name.
pub open spec fn kind_of(tree: JsonTree) -> Result<NodeKind, Seq<char>> {
    match text_of(tree) {
        Err(message) => Err(message),
        Ok(name) => if name == "directory"@ {
            Ok(NodeKind::Directory)
        } else if name == "file"@ {
            Ok(NodeKind::File)
        } else if name == "symlink"@ {
            Ok(NodeKind::Symlink)
        } else {
            Err(
                invalid_text(
                    tree,
                    "unknown kind: "@ + name + ". expected directory|file|symlink"@,
                ),
            )
        },
    }
}

/// A member that must be there and be a string.
pub open spec fn text_member(tree: JsonTree, name: Seq<char>) -> Result<Seq<char>, Seq<char>> {
    match required_member(tree, name) {
        Err(message) => Err(message),
        Ok(member) => text_of(member),
    }
}

/// A member that must be there and be a number.
pub open spec fn number_member(tree: JsonTree, name: Seq<char>) -> Result<nat, Seq<char>> {
    match required_member(tree, name) {
        Err(message) => Err(message),
        Ok(member) => number_of(member),
    }
}

/// A member that must be there and be the name of a kind.
pub open spec fn kind_member(tree: JsonTree, name: Seq<char>) -> Result<NodeKind, Seq<char>> {
    match required_member(tree, name) {
        Err(message) => Err(message),
        Ok(member) => kind_of(member),
    }
}

/// A member that must be there and be an array.
pub open spec fn items_member(tree: JsonTree, name: Seq<char>) -> Result<
    Seq<JsonTree>,
    Seq<char>,
> {
    match required_member(tree, name) {
        Err(message) => Err(message),
        Ok(member) => items_of(member),
    }
}

proof fn lemma_first_member(members: Seq<(Seq<char>, JsonTree)>, name: Seq<char>) -> (i: int)
    requires
        first_member(members, name) is Some,
    ensures
        0 <= i < members.len(),
        members[i] == (name, first_member(members, name)->0),
    decreases members.len(),
{
    if members[0].0 == name {
        0
    } else {
        lemma_first_member(members.drop_first(), name) + 1
    }
}

/// An array in a member is part of the object.
pub proof fn lemma_items_smaller(tree: JsonTree, name: Seq<char>)
    ensures
        items_member(tree, name) matches Ok(items) ==> decreases_to!(tree => items),
{
    if let Ok(items) = items_member(tree, name) {
        let members = tree.data->Object_0;
        let i = lemma_first_member(members, name);
        let member = members[i].1;
        assert(decreases_to!(tree => tree.data));
        assert(decreases_to!(tree.data => members));
        assert(decreases_to!(members => members[i]));
        assert(decreases_to!(members[i] => members[i].1));
        assert(decreases_to!(member => member.data));
        assert(decreases_to!(member.data => items));
    }
}

/// The entry that a saved value holds, or the message of the first thing wrong with it.
pub open spec fn decoded_node(tree: JsonTree) -> Result<NodeModel, Seq<char>>
    decreases tree,
{
    match (
        text_member(tree, "name"@),
        text_member(tree, "path"@),
        kind_member(tree, "kind"@),
        number_member(tree, "size"@),
        items_member(tree, "children"@),
    ) {
        (Err(message), _, _, _, _) => Err(message),
        (_, Err(message), _, _, _) => Err(message),
        (_, _, Err(message), _, _) => Err(message),
        (_, _, _, Err(message), _) => Err(message),
        (_, _, _, _, Err(message)) => Err(message),
        (Ok(name), Ok(path), Ok(kind), Ok(size), Ok(items)) => {
            proof {
                lemma_items_smaller(tree, "children"@);
            }
            match decoded_nodes(items) {
                Err(message) => Err(message),
                Ok(children) => Ok(NodeModel { name, path, kind, size, children }),
            }
        },
    }
}

/// The entries that saved values hold, or the message of the first thing wrong with them.
pub open spec fn decoded_nodes(trees: Seq<JsonTree>) -> Result<Seq<NodeModel>, Seq<char>>
    decreases trees,
{
    if trees.len() == 0 {
        Ok(Seq::empty())
    } else {
        match decoded_nodes(trees.drop_last()) {
            Err(message) => Err(message),
            Ok(nodes) => match decoded_node(trees.last()) {
                Err(message) => Err(message),
                Ok(node) => Ok(nodes.push(node)),
            },
        }
    }
}

/// The texts that saved values hold, or the message of the first thing wrong with them.
pub open spec fn decoded_texts(trees: Seq<JsonTree>) -> Result<Seq<Seq<char>>, Seq<char>>
    decreases trees.len(),
{
    if trees.len() == 0 {
        Ok(Seq::empty())
    } else {
        match decoded_texts(trees.drop_last()) {
            Err(message) => Err(message),
            Ok(list) => match text_of(trees.last()) {
                Err(message) => Err(message),
                Ok(text) => Ok(list.push(text)),
            },
        }
    }
}

/// The entry in a member that must be there.
pub open spec fn node_member(tree: JsonTree, name: Seq<char>) -> Result<NodeModel, Seq<char>> {
    match required_member(tree, name) {
        Err(message) => Err(message),
        Ok(member) => decoded_node(member),
    }
}

/// The number in a member that may be missing, and then counts as zero.
pub open spec fn number_or_zero(tree: JsonTree, name: Seq<char>) -> Result<nat, Seq<char>> {
    match member_of(tree, name) {
        Err(message) => Err(message),
        Ok(None) => Ok(0),
        Ok(Some(member)) => number_of(member),
    }
}

/// The texts in a member that must be there.
pub open spec fn texts_member(tree: JsonTree, name: Seq<char>) -> Result<
    Seq<Seq<char>>,
    Seq<char>,
> {
    match items_member(tree, name) {
        Err(message) => Err(message),
        Ok(items) => decoded_texts(items),
    }
}

/// The result that a saved value holds, or the message of the first thing wrong with it.
pub open spec fn decoded_result(tree: JsonTree) -> Result<ScanResultModel, Seq<char>> {
    match (
        node_member(tree, "root"@),
        number_member(tree, "scanned_at_unix"@),
        number_or_zero(tree, "scan_duration_ms"@),
        texts_member(tree, "warnings"@),
    ) {
        (Err(message), _, _, _) => Err(message),
        (_, Err(message), _, _) => Err(message),
        (_, _, Err(message), _) => Err(message),
        (_, _, _, Err(message)) => Err(message),
        (Ok(root), Ok(scanned_at_unix), Ok(scan_duration_ms), Ok(warnings)) => Ok(
            ScanResultModel { root, scanned_at_unix, scan_duration_ms, warnings },
        ),
    }
}

fn json_kind_text(kind: JsonKind) -> (name: &'static str)
    ensures
        name@ == json_kind_name(kind),
{
    match kind {
        JsonKind::Null => "Null",
        JsonKind::Boolean => "Boolean",
        JsonKind::Integer => "Integer",
        JsonKind::Float => "Float",
        JsonKind::Text => "String",
        JsonKind::Array => "Array",
        JsonKind::Object => "Object",
    }
}

fn invalid(value: &JsonValue, reason: &str) -> (message: String)
    ensures
        message@ == invalid_text(value@, reason@),
{
    invalid_value_message(value.kind(), value.position, reason)
}

fn expected(value: &JsonValue, kind: JsonKind) -> (message: String)
    ensures
        message@ == expected_text(value@, kind),
{
    let mut reason = String::from_str("expected ");
    reason.append(json_kind_text(kind));
    reason.append(", but found ");
    reason.append(json_kind_text(value.kind()));
    invalid(value, reason.as_str())
}

fn find_member<'a>(value: &'a JsonValue, name: &str) -> (member: Result<
    Option<&'a JsonValue>,
    String,
>)
    ensures
        match member {
            Ok(Some(m)) => member_of(value@, name@) == Ok::<Option<JsonTree>, Seq<char>>(Some(m@)),
            Ok(None) => member_of(value@, name@) == Ok::<Option<JsonTree>, Seq<char>>(None),
            Err(message) => member_of(value@, name@) == Err::<Option<JsonTree>, Seq<char>>(
                message@,
            ),
        },
{
    match &value.data {
        JsonData::Object(members) => {
            let ghost all = value@.data->Object_0;
            let mut i: usize = 0;
            assert(all.skip(0) =~= all);
            while i < members.len()
                invariant
                    i <= members.len(),
                    all.len() == members@.len(),
                    all == value@.data->Object_0,
                    value.data matches JsonData::Object(m) && m@ == members@,
                    forall|j: int|
                        0 <= j < members@.len() ==> #[trigger] all[j] == (
                            members@[j].name@,
                            members@[j].value@,
                        ),
                    first_member(all, name@) == first_member(all.skip(i as int), name@),
                decreases members.len() - i,
            {
                proof {
                    assert(all.skip(i as int)[0] == all[i as int]);
                    assert(all.skip(i as int).drop_first() =~= all.skip(i + 1));
                }
                if same_text(members[i].name.as_str(), name) {
                    return Ok(Some(&members[i].value));
                }
                i += 1;
            }
            Ok(None)
        },
        _ => Err(expected(value, JsonKind::Object)),
    }
}

fn require_member<'a>(value: &'a JsonValue, name: &str) -> (member: Result<&'a JsonValue, String>)
    ensures
        match member {
            Ok(m) => required_member(value@, name@) == Ok::<JsonTree, Seq<char>>(m@),
            Err(message) => required_member(value@, name@) == Err::<JsonTree, Seq<char>>(message@),
        },
{
    match find_member(value, name) {
        Err(message) => Err(message),
        Ok(Some(member)) => Ok(member),
        Ok(None) => {
            let mut reason = String::from_str("required member '");
            reason.append(name);
            reason.append("' is missing");
            Err(invalid(value, reason.as_str()))
        },
    }
}

fn read_text(value: &JsonValue) -> (text: Result<String, String>)
    ensures
        match text {
            Ok(t) => text_of(value@) == Ok::<Seq<char>, Seq<char>>(t@),
            Err(message) => text_of(value@) == Err::<Seq<char>, Seq<char>>(message@),
        },
{
    match &value.data {
        JsonData::Text(text) => Ok(text.clone()),
        _ => Err(expected(value, JsonKind::Text)),
    }
}

fn read_number(value: &JsonValue) -> (number: Result<u64, String>)
    ensures
        match number {
            Ok(n) => number_of(value@) == Ok::<nat, Seq<char>>(n as nat),
            Err(message) => number_of(value@) == Err::<nat, Seq<char>>(message@),
        },
{
    match &value.data {
        JsonData::Integer(digits) => match read_numeral(digits.as_str()) {
            Numeral::Value(n) => Ok(n),
            Numeral::TooLarge => Err(invalid(value, "number too large to fit in target type")),
            Numeral::BadDigit => Err(invalid(value, "invalid digit found in string")),
        },
        _ => Err(expected(value, JsonKind::Integer)),
    }
}

enum Numeral {
    Value(u64),
    TooLarge,
    BadDigit,
}

fn read_numeral(digits: &str) -> (numeral: Numeral)
    ensures
        match numeral {
            Numeral::Value(n) => is_numeral(digits@) && numeral_value(digits@) == n,
            Numeral::TooLarge => is_numeral(digits@) && numeral_value(digits@) > u64::MAX,
            Numeral::BadDigit => !is_numeral(digits@),
        },
{
    let mut rest = digits.chars();
    let mut value: Option<u64> = Some(0);
    let ghost mut read: Seq<char> = Seq::empty();
    assert(Seq::<char>::empty() + digits@ =~= digits@);
    loop
        invariant
            digits@ == read + vstd::std_specs::iter::IteratorSpec::remaining(&rest),
            forall|i: int| 0 <= i < read.len() ==> is_digit(#[trigger] read[i]),
            match value {
                Some(n) => numeral_value(read) == n,
                None => numeral_value(read) > u64::MAX,
            },
            vstd::std_specs::iter::IteratorSpec::decrease(&rest) is Some,
        decreases vstd::std_specs::iter::IteratorSpec::decrease(&rest)->0,
    {
        let ghost left = vstd::std_specs::iter::IteratorSpec::remaining(&rest);
        match rest.next() {
            None => {
                assert(digits@ =~= read);
                if digits.is_empty() {
                    return Numeral::BadDigit;
                }
                return match value {
                    Some(n) => Numeral::Value(n),
                    None => Numeral::TooLarge,
                };
            },
            Some(c) => {
                proof {
                    assert(digits@[read.len() as int] == c);
                    assert(read.push(c) + left.drop_first() =~= read + left);
                }
                if c < '0' || c > '9' {
                    return Numeral::BadDigit;
                }
                let digit: u64 = (c as u32 - 48) as u64;
                proof {
                    assert(read.push(c).drop_last() =~= read);
                    assert(numeral_value(read.push(c)) == 10 * numeral_value(read) + digit);
                    read = read.push(c);
                }
                value = match value {
                    None => None,
                    Some(n) => match n.checked_mul(10) {
                        None => None,
                        Some(shifted) => shifted.checked_add(digit),
                    },
                };
            },
        }
    }
}

fn read_kind(value: &JsonValue) -> (kind: Result<NodeKind, String>)
    ensures
        match kind {
            Ok(k) => kind_of(value@) == Ok::<NodeKind, Seq<char>>(k),
            Err(message) => kind_of(value@) == Err::<NodeKind, Seq<char>>(message@),
        },
{
    match read_text(value) {
        Err(message) => Err(message),
        Ok(name) => if same_text(name.as_str(), "directory") {
            Ok(NodeKind::Directory)
        } else if same_text(name.as_str(), "file") {
            Ok(NodeKind::File)
        } else if same_text(name.as_str(), "symlink") {
            Ok(NodeKind::Symlink)
        } else {
            let mut reason = String::from_str("unknown kind: ");
            reason.append(name.as_str());
            reason.append(". expected directory|file|symlink");
            Err(invalid(value, reason.as_str()))
        },
    }
}

fn read_items<'a>(value: &'a JsonValue) -> (items: Result<&'a Vec<JsonValue>, String>)
    ensures
        match items {
            Ok(list) => items_of(value@) matches Ok(trees) && trees.len() == list@.len() && forall|
                i: int,
            |
                0 <= i < trees.len() ==> #[trigger] trees[i] == list@[i]@,
            Err(message) => items_of(value@) == Err::<Seq<JsonTree>, Seq<char>>(message@),
        },
{
    match &value.data {
        JsonData::Array(items) => Ok(items),
        _ => Err(expected(value, JsonKind::Array)),
    }
}

fn read_texts(items: &Vec<JsonValue>, trees: Ghost<Seq<JsonTree>>) -> (list: Result<
    Vec<String>,
    String,
>)
    requires
        trees@.len() == items@.len(),
        forall|i: int| 0 <= i < items@.len() ==> #[trigger] trees@[i] == items@[i]@,
    ensures
        match list {
            Ok(l) => decoded_texts(trees@) == Ok::<Seq<Seq<char>>, Seq<char>>(texts(l@)),
            Err(message) => decoded_texts(trees@) == Err::<Seq<Seq<char>>, Seq<char>>(message@),
        },
{
    let mut list: Vec<String> = Vec::new();
    let mut i: usize = 0;
    assert(texts(list@) =~= Seq::empty());
    while i < items.len()
        invariant
            i <= items.len(),
            trees@.len() == items@.len(),
            forall|i: int| 0 <= i < items@.len() ==> #[trigger] trees@[i] == items@[i]@,
            decoded_texts(trees@.take(i as int)) == Ok::<Seq<Seq<char>>, Seq<char>>(texts(list@)),
        decreases items.len() - i,
    {
        let ghost before = list@;
        proof {
            assert(trees@.take(i + 1).drop_last() =~= trees@.take(i as int));
            assert(trees@[i as int] == items@[i as int]@);
        }
        match read_text(&items[i]) {
            Err(message) => {
                proof {
                    lemma_texts_error(trees@, i as int);
                }
                return Err(message);
            },
            Ok(text) => {
                list.push(text);
                assert(texts(list@) =~= texts(before).push(text@));
            },
        }
        i += 1;
    }
    assert(trees@.take(i as int) =~= trees@);
    Ok(list)
}

proof fn lemma_texts_error(trees: Seq<JsonTree>, k: int)
    requires
        0 <= k < trees.len(),
        decoded_texts(trees.take(k + 1)) is Err,
    ensures
        decoded_texts(trees) == decoded_texts(trees.take(k + 1)),
    decreases trees.len(),
{
    if k + 1 == trees.len() {
        assert(trees.take(k + 1) =~= trees);
    } else {
        let rest = trees.drop_last();
        assert(rest.take(k + 1) =~= trees.take(k + 1));
        lemma_texts_error(rest, k);
    }
}

proof fn lemma_nodes_error(trees: Seq<JsonTree>, k: int)
    requires
        0 <= k < trees.len(),
        decoded_nodes(trees.take(k + 1)) is Err,
    ensures
        decoded_nodes(trees) == decoded_nodes(trees.take(k + 1)),
    decreases trees.len(),
{
    if k + 1 == trees.len() {
        assert(trees.take(k + 1) =~= trees);
    } else {
        let rest = trees.drop_last();
        assert(rest.take(k + 1) =~= trees.take(k + 1));
        lemma_nodes_error(rest, k);
    }
}

/// Reads an entry from a JSON value.
pub fn decode_node(value: &JsonValue) -> (node: Result<Node, String>)
    ensures
        match node {
            Ok(n) => decoded_node(value@) == Ok::<NodeModel, Seq<char>>(n@),
            Err(message) => decoded_node(value@) == Err::<NodeModel, Seq<char>>(message@),
        },
    decreases value@,
{
    let name = match require_member(value, "name") {
        Err(message) => return Err(message),
        Ok(member) => match read_text(member) {
            Err(message) => return Err(message),
            Ok(name) => name,
        },
    };
    let path = match require_member(value, "path") {
        Err(message) => return Err(message),
        Ok(member) => match read_text(member) {
            Err(message) => return Err(message),
            Ok(path) => path,
        },
    };
    let kind = match require_member(value, "kind") {
        Err(message) => return Err(message),
        Ok(member) => match read_kind(member) {
            Err(message) => return Err(message),
            Ok(kind) => kind,
        },
    };
    let size: u64 = match require_member(value, "size") {
        Err(message) => return Err(message),
        Ok(member) => match read_number(member) {
            Err(message) => return Err(message),
            Ok(size) => size,
        },
    };
    let items = match require_member(value, "children") {
        Err(message) => return Err(message),
        Ok(member) => match read_items(member) {
            Err(message) => return Err(message),
            Ok(items) => items,
        },
    };
    let ghost trees = items_member(value@, "children"@)->Ok_0;
    proof {
        lemma_items_smaller(value@, "children"@);
    }
    let mut children: Vec<Node> = Vec::new();
    let mut i: usize = 0;
    assert(models(children@) =~= Seq::empty());
    while i < items.len()
        invariant
            i <= items.len(),
            trees.len() == items@.len(),
            forall|i: int| 0 <= i < items@.len() ==> #[trigger] trees[i] == items@[i]@,
            decreases_to!(value@ => trees),
            decoded_nodes(trees.take(i as int)) == Ok::<Seq<NodeModel>, Seq<char>>(
                models(children@),
            ),
            text_member(value@, "name"@) == Ok::<Seq<char>, Seq<char>>(name@),
            text_member(value@, "path"@) == Ok::<Seq<char>, Seq<char>>(path@),
            kind_member(value@, "kind"@) == Ok::<NodeKind, Seq<char>>(kind),
            number_member(value@, "size"@) == Ok::<nat, Seq<char>>(size as nat),
            items_member(value@, "children"@) == Ok::<Seq<JsonTree>, Seq<char>>(trees),
        decreases items.len() - i,
    {
        let ghost before = children@;
        proof {
            assert(trees.take(i + 1).drop_last() =~= trees.take(i as int));
            assert(trees[i as int] == items@[i as int]@);
            assert(decreases_to!(trees => trees[i as int]));
        }
        match decode_node(&items[i]) {
            Err(message) => {
                proof {
                    lemma_nodes_error(trees, i as int);
                }
                return Err(message);
            },
            Ok(child) => {
                children.push(child);
                assert(models(children@) =~= models(before).push(child@));
            },
        }
        i += 1;
    }
    assert(trees.take(i as int) =~= trees);
    let node = Node { name, path, kind, size, children };
    proof {
        crate::order::lemma_models_of_children(node);
    }
    Ok(node)
}

/// Reads a result from a JSON value.
pub fn decode_result(value: &JsonValue) -> (result: Result<ScanResult, String>)
    ensures
        match result {
            Ok(r) => decoded_result(value@) == Ok::<ScanResultModel, Seq<char>>(r@),
            Err(message) => decoded_result(value@) == Err::<ScanResultModel, Seq<char>>(message@),
        },
{
    let root = match require_member(value, "root") {
        Err(message) => return Err(message),
        Ok(member) => match decode_node(member) {
            Err(message) => return Err(message),
            Ok(root) => root,
        },
    };
    let scanned_at_unix: u64 = match require_member(value, "scanned_at_unix") {
        Err(message) => return Err(message),
        Ok(member) => match read_number(member) {
            Err(message) => return Err(message),
            Ok(number) => number,
        },
    };
    let scan_duration_ms: u64 = match find_member(value, "scan_duration_ms") {
        Err(message) => return Err(message),
        Ok(None) => 0,
        Ok(Some(member)) => match read_number(member) {
            Err(message) => return Err(message),
            Ok(number) => number,
        },
    };
    let warnings = match require_member(value, "warnings") {
        Err(message) => return Err(message),
        Ok(member) => match read_items(member) {
            Err(message) => return Err(message),
            Ok(items) => {
                let ghost trees = items_member(value@, "warnings"@)->Ok_0;
                match read_texts(items, Ghost(trees)) {
                    Err(message) => return Err(message),
                    Ok(list) => list,
                }
            },
        },
    };
    Ok(ScanResult { root, scanned_at_unix, scan_duration_ms, warnings })
}

/// Whether all sizes of a tree fit in 64 bits, as those of every [`Node`] do.
pub open spec fn sizes_fit(node: NodeModel) -> bool
    decreases node,
{
    node.size <= u64::MAX && all_sizes_fit(node.children)
}

/// Whether all sizes of a list of trees fit in 64 bits.
pub open spec fn all_sizes_fit(nodes: Seq<NodeModel>) -> bool
    decreases nodes,
{
    nodes.len() > 0 ==> all_sizes_fit(nodes.drop_last()) && sizes_fit(nodes.last())
}

/// Whether all numbers of a result fit in 64 bits, as those of every [`ScanResult`] do.
pub open spec fn numbers_fit(result: ScanResultModel) -> bool {
    &&& sizes_fit(result.root)
    &&& result.scanned_at_unix <= u64::MAX
    &&& result.scan_duration_ms <= u64::MAX
}

/// How many entries lie on the longest way down from an entry, itself included.
pub open spec fn height(node: NodeModel) -> nat
    decreases node,
{
    1 + highest(node.children)
}

/// The height of the highest of a list of trees.
pub open spec fn highest(nodes: Seq<NodeModel>) -> nat
    decreases nodes,
{
    if nodes.len() == 0 {
        0
    } else {
        let rest = highest(nodes.drop_last());
        let last = height(nodes.last());
        if last > rest {
            last
        } else {
            rest
        }
    }
}

/// The sizes of every entry fit.
proof fn lemma_node_fits(node: Node)
    ensures
        sizes_fit(node@),
    decreases node, node.children@.len() + 1,
{
    let kids = node@.children;
    lemma_children_fit(node, kids.len() as int);
    assert(kids.take(kids.len() as int) =~= kids);
}

proof fn lemma_children_fit(node: Node, k: int)
    requires
        0 <= k <= node.children@.len(),
    ensures
        all_sizes_fit(node@.children.take(k)),
    decreases node, k,
{
    if k > 0 {
        let kids = node@.children;
        lemma_children_fit(node, k - 1);
        lemma_node_fits(node.children@[k - 1]);
        assert(kids.take(k).drop_last() =~= kids.take(k - 1));
    }
}

/// The numbers of every result fit.
pub proof fn law_numbers_fit(result: ScanResult)
    ensures
        numbers_fit(result@),
{
    lemma_node_fits(result.root);
}

proof fn lemma_decimal_numeral(n: nat)
    ensures
        is_numeral(decimal(n)),
        numeral_value(decimal(n)) == n,
    decreases n,
{
    reveal_with_fuel(numeral_value, 2);
    if n < 10 {
        assert(decimal(n).drop_last() =~= Seq::empty());
    } else {
        lemma_decimal_numeral(n / 10);
        assert(decimal(n).drop_last() =~= decimal(n / 10));
    }
}

proof fn lemma_members_read(
    trees: Seq<(Seq<char>, JsonTree)>,
    members: Seq<(Seq<char>, JsonDoc)>,
)
    requires
        members_read_as(trees, members),
    ensures
        trees.len() == members.len(),
        forall|i: int|
            0 <= i < members.len() ==> (#[trigger] trees[i]).0 == members[i].0 && reads_as(
                trees[i].1,
                members[i].1,
            ),
    decreases members.len(),
{
    if members.len() > 0 {
        lemma_members_read(trees.drop_last(), members.drop_last());
        assert forall|i: int| 0 <= i < members.len() implies (#[trigger] trees[i]).0 == members[i].0
            && reads_as(trees[i].1, members[i].1) by {
            if i < members.len() - 1 {
                assert(trees.drop_last()[i] == trees[i]);
                assert(members.drop_last()[i] == members[i]);
            }
        }
    }
}

proof fn lemma_first_member_at(members: Seq<(Seq<char>, JsonTree)>, name: Seq<char>, k: int)
    requires
        0 <= k < members.len(),
        members[k].0 == name,
        forall|j: int| 0 <= j < k ==> (#[trigger] members[j]).0 != name,
    ensures
        first_member(members, name) == Some(members[k].1),
    decreases k,
{
    if k > 0 {
        assert(members[0].0 != name);
        let rest = members.drop_first();
        assert forall|j: int| 0 <= j < k - 1 implies (#[trigger] rest[j]).0 != name by {
            assert(rest[j] == members[j + 1]);
        }
        lemma_first_member_at(rest, name, k - 1);
    }
}

proof fn lemma_names()
    ensures
        "name"@ != "path"@,
        "name"@ != "kind"@,
        "name"@ != "size"@,
        "name"@ != "children"@,
        "path"@ != "kind"@,
        "path"@ != "size"@,
        "path"@ != "children"@,
        "kind"@ != "size"@,
        "kind"@ != "children"@,
        "size"@ != "children"@,
        "directory"@ != "file"@,
        "directory"@ != "symlink"@,
        "file"@ != "symlink"@,
        "root"@ != "scanned_at_unix"@,
        "root"@ != "scan_duration_ms"@,
        "root"@ != "warnings"@,
        "scanned_at_unix"@ != "scan_duration_ms"@,
        "scanned_at_unix"@ != "warnings"@,
        "scan_duration_ms"@ != "warnings"@,
{
    reveal_strlit("name");
    reveal_strlit("path");
    reveal_strlit("kind");
    reveal_strlit("size");
    reveal_strlit("children");
    reveal_strlit("directory");
    reveal_strlit("file");
    reveal_strlit("symlink");
    reveal_strlit("root");
    reveal_strlit("scanned_at_unix");
    reveal_strlit("scan_duration_ms");
    reveal_strlit("warnings");
    assert("name"@[0] == 'n');
    assert("path"@[0] == 'p');
    assert("kind"@[0] == 'k');
    assert("size"@[0] == 's');
    assert("children"@[0] == 'c');
    assert("directory"@[0] == 'd');
    assert("file"@[0] == 'f');
    assert("symlink"@[0] == 's');
    assert("root"@[0] == 'r');
    assert("scanned_at_unix"@[4] == 'n');
    assert("scan_duration_ms"@[4] == '_');
    assert("scanned_at_unix"@[0] == 's');
    assert("scan_duration_ms"@[0] == 's');
    assert("warnings"@[0] == 'w');
}

/// An entry is read back from what was saved of it.
pub proof fn law_node_reads_back(node: NodeModel, tree: JsonTree)
    requires
        reads_as(tree, node_doc(node)),
        sizes_fit(node),
    ensures
        decoded_node(tree) == Ok::<NodeModel, Seq<char>>(node),
    decreases node,
{
    let docs = node_doc(node)->Object_0;
    let members = tree.data->Object_0;
    lemma_members_read(members, docs);
    lemma_names();
    assert(members[0].0 == docs[0].0);
    assert(members[1].0 == docs[1].0);
    assert(members[2].0 == docs[2].0);
    assert(members[3].0 == docs[3].0);
    assert(members[4].0 == docs[4].0);
    lemma_first_member_at(members, "name"@, 0);
    lemma_first_member_at(members, "path"@, 1);
    lemma_first_member_at(members, "kind"@, 2);
    lemma_first_member_at(members, "size"@, 3);
    lemma_first_member_at(members, "children"@, 4);
    lemma_decimal_numeral(node.size);
    assert(text_member(tree, "name"@) == Ok::<Seq<char>, Seq<char>>(node.name));
    assert(text_member(tree, "path"@) == Ok::<Seq<char>, Seq<char>>(node.path));
    assert(kind_member(tree, "kind"@) == Ok::<NodeKind, Seq<char>>(node.kind));
    assert(number_member(tree, "size"@) == Ok::<nat, Seq<char>>(node.size));
    let items = members[4].1.data->Array_0;
    assert(items_member(tree, "children"@) == Ok::<Seq<JsonTree>, Seq<char>>(items));
    lemma_nodes_read_back(node.children, items);
}

proof fn lemma_nodes_read_back(nodes: Seq<NodeModel>, trees: Seq<JsonTree>)
    requires
        all_read_as(trees, node_docs(nodes)),
        all_sizes_fit(nodes),
    ensures
        decoded_nodes(trees) == Ok::<Seq<NodeModel>, Seq<char>>(nodes),
    decreases nodes,
{
    lemma_node_docs(nodes);
    if nodes.len() > 0 {
        assert(node_docs(nodes).drop_last() =~= node_docs(nodes.drop_last()));
        lemma_nodes_read_back(nodes.drop_last(), trees.drop_last());
        law_node_reads_back(nodes.last(), trees.last());
        assert(nodes.drop_last().push(nodes.last()) =~= nodes);
    } else {
        assert(nodes =~= Seq::empty());
    }
}

proof fn lemma_texts_read_back(list: Seq<Seq<char>>, trees: Seq<JsonTree>)
    requires
        all_read_as(trees, text_docs(list)),
    ensures
        decoded_texts(trees) == Ok::<Seq<Seq<char>>, Seq<char>>(list),
    decreases list.len(),
{
    if list.len() > 0 {
        assert(text_docs(list).drop_last() =~= text_docs(list.drop_last()));
        assert(reads_as(trees.last(), JsonDoc::Text(list.last())));
        lemma_texts_read_back(list.drop_last(), trees.drop_last());
        assert(list.drop_last().push(list.last()) =~= list);
    } else {
        assert(list =~= Seq::empty());
    }
}

/// A result is read back from what was saved of it.
pub proof fn law_result_reads_back(result: ScanResultModel, tree: JsonTree)
    requires
        reads_as(tree, result_doc(result)),
        numbers_fit(result),
    ensures
        decoded_result(tree) == Ok::<ScanResultModel, Seq<char>>(result),
{
    let docs = result_doc(result)->Object_0;
    let members = tree.data->Object_0;
    lemma_members_read(members, docs);
    lemma_names();
    assert(members[0].0 == docs[0].0);
    assert(members[1].0 == docs[1].0);
    assert(members[2].0 == docs[2].0);
    assert(members[3].0 == docs[3].0);
    lemma_first_member_at(members, "root"@, 0);
    lemma_first_member_at(members, "scanned_at_unix"@, 1);
    lemma_first_member_at(members, "scan_duration_ms"@, 2);
    lemma_first_member_at(members, "warnings"@, 3);
    lemma_decimal_numeral(result.scanned_at_unix);
    lemma_decimal_numeral(result.scan_duration_ms);
    law_node_reads_back(result.root, members[0].1);
    lemma_texts_read_back(result.warnings, members[3].1.data->Array_0);
}

proof fn lemma_deepest_nodes(nodes: Seq<NodeModel>)
    ensures
        deepest(node_docs(nodes)) == 2 * highest(nodes),
    decreases nodes,
{
    lemma_node_docs(nodes);
    if nodes.len() > 0 {
        assert(node_docs(nodes).drop_last() =~= node_docs(nodes.drop_last()));
        lemma_deepest_nodes(nodes.drop_last());
        law_saved_nesting(nodes.last());
    }
}

proof fn lemma_deepest_member(members: Seq<(Seq<char>, JsonDoc)>, k: int)
    requires
        0 <= k < members.len(),
        forall|i: int|
            0 <= i < members.len() ==> nesting((#[trigger] members[i]).1) <= nesting(members[k].1),
    ensures
        deepest_member(members) == nesting(members[k].1),
    decreases members.len(),
{
    lemma_deepest_member_within(members, nesting(members[k].1));
    let rest = members.drop_last();
    if k < rest.len() {
        assert forall|i: int| 0 <= i < rest.len() implies nesting((#[trigger] rest[i]).1)
            <= nesting(rest[k].1) by {
            assert(rest[i] == members[i]);
        }
        lemma_deepest_member(rest, k);
    }
}

proof fn lemma_deepest_member_within(members: Seq<(Seq<char>, JsonDoc)>, bound: nat)
    requires
        forall|i: int| 0 <= i < members.len() ==> nesting((#[trigger] members[i]).1) <= bound,
    ensures
        deepest_member(members) <= bound,
    decreases members.len(),
{
    if members.len() > 0 {
        let rest = members.drop_last();
        assert forall|i: int| 0 <= i < rest.len() implies nesting((#[trigger] rest[i]).1)
            <= bound by {
            assert(rest[i] == members[i]);
        }
        lemma_deepest_member_within(rest, bound);
    }
}

/// Each level of a tree takes two levels of nesting in what is saved of it.
pub proof fn law_saved_nesting(node: NodeModel)
    ensures
        nesting(node_doc(node)) == 2 * height(node),
    decreases node,
{
    lemma_deepest_nodes(node.children);
    let docs = node_doc(node)->Object_0;
    assert(nesting(docs[4].1) == 1 + 2 * highest(node.children));
    assert forall|i: int| 0 <= i < docs.len() implies nesting((#[trigger] docs[i]).1) <= nesting(
        docs[4].1,
    ) by {
        assert(i == 0 || i == 1 || i == 2 || i == 3 || i == 4);
    }
    lemma_deepest_member(docs, 4);
}

proof fn lemma_deepest_texts(list: Seq<Seq<char>>)
    ensures
        deepest(text_docs(list)) == 0,
    decreases list.len(),
{
    if list.len() > 0 {
        assert(text_docs(list).drop_last() =~= text_docs(list.drop_last()));
        assert(nesting(JsonDoc::Text(list.last())) == 0);
        lemma_deepest_texts(list.drop_last());
    }
}

/// A result is nested one level deeper than its tree.
pub proof fn law_saved_result_nesting(result: ScanResultModel)
    ensures
        nesting(result_doc(result)) == 1 + 2 * height(result.root),
{
    law_saved_nesting(result.root);
    lemma_deepest_texts(result.warnings);
    let docs = result_doc(result)->Object_0;
    assert(nesting(docs[3].1) == 1);
    assert forall|i: int| 0 <= i < docs.len() implies nesting((#[trigger] docs[i]).1) <= nesting(
        docs[0].1,
    ) by {
        assert(i == 0 || i == 1 || i == 2 || i == 3);
    }
    lemma_deepest_member(docs, 0);
}

/// What a text loads as: the result in it, or the message of what is wrong with it.
pub open spec fn loaded(text: Seq<char>) -> Result<ScanResultModel, Seq<char>> {
    match parsed_json(text) {
        Ok(tree) => decoded_result(tree),
        Err(message) => Err(message),
    }
}

/// How many levels of entries a saved tree may have to be loaded again.
pub const MAX_SAVED_HEIGHT: usize = 63;

/// Reads a result from a text. A saved result, unless its tree has too many levels, is loaded as
/// it was.
pub fn parse_result(text: &str) -> (result: Result<ScanResult, String>)
    ensures
        match result {
            Ok(r) => loaded(text@) == Ok::<ScanResultModel, Seq<char>>(r@),
            Err(message) => loaded(text@) == Err::<ScanResultModel, Seq<char>>(message@),
        },
        forall|saved: ScanResultModel| #[trigger]
            result_text(saved) == text@ && numbers_fit(saved) && height(saved.root)
                <= MAX_SAVED_HEIGHT ==> result is Ok && result->Ok_0@ == saved,
{
    match parse_json(text) {
        Err(message) => {
            proof {
                assert forall|saved: ScanResultModel| #[trigger]
                    result_text(saved) == text@ && numbers_fit(saved) && height(saved.root)
                        <= MAX_SAVED_HEIGHT implies false by {
                    law_saved_result_nesting(saved);
                    assert(doc_text(result_doc(saved)) == text@);
                }
            }
            Err(message)
        },
        Ok(value) => {
            proof {
                assert forall|saved: ScanResultModel| #[trigger]
                    result_text(saved) == text@ && numbers_fit(saved) && height(saved.root)
                        <= MAX_SAVED_HEIGHT implies decoded_result(value@) == Ok::<
                    ScanResultModel,
                    Seq<char>,
                >(saved) by {
                    law_saved_result_nesting(saved);
                    assert(doc_text(result_doc(saved)) == text@);
                    law_result_reads_back(saved, value@);
                }
            }
            decode_result(&value)
        },
    }
}

/// An integer made of digits is read as the number that they stand for, if 64 bits can hold it; all
/// other values are refused with a message that tells where they stand.
pub proof fn law_numbers_read(tree: JsonTree)
    ensures
        tree.data matches JsonTreeData::Integer(digits) ==> {
            &&& digits.len() > 0 && all_digits(digits) && digits_value(digits) <= u64::MAX
                ==> number_of(tree) == Ok::<nat, Seq<char>>(digits_value(digits) as nat)
            &&& digits.len() > 0 && all_digits(digits) && digits_value(digits) > u64::MAX
                ==> number_of(tree) is Err
            &&& digits.len() > 0 && !all_digits(digits) ==> number_of(tree) is Err
        },
        !(tree.data is Integer) ==> number_of(tree) is Err,
{
    if let JsonTreeData::Integer(digits) = tree.data {
        if all_digits(digits) {
            lemma_digits(digits);
            assert(forall|i: int| 0 <= i < digits.len() ==> is_digit(#[trigger] digits[i]));
        } else {
            let i = choose|i: int| 0 <= i < digits.len() && !('0' <= #[trigger] digits[i] <= '9');
            assert(!is_digit(digits[i]));
        }
    }
}

proof fn lemma_digits(digits: Seq<char>)
    requires
        all_digits(digits),
    ensures
        numeral_value(digits) == digits_value(digits),
    decreases digits.len(),
{
    if digits.len() > 0 {
        lemma_digits(digits.drop_last());
        assert('0' <= digits[digits.len() - 1] <= '9');
    }
}

/// A member that may be missing counts as zero only if it is.
pub proof fn law_missing_number(tree: JsonTree, name: Seq<char>)
    requires
        tree.data is Object,
    ensures
        first_member(tree.data->Object_0, name) is None ==> number_or_zero(tree, name) == Ok::<
            nat,
            Seq<char>,
        >(0),
        first_member(tree.data->Object_0, name) matches Some(member) ==> number_or_zero(tree, name)
            == number_of(member),
{
}

/// Of several members with one name the first counts.
pub proof fn law_first_member(
    before: Seq<(Seq<char>, JsonTree)>,
    name: Seq<char>,
    value: JsonTree,
    behind: Seq<(Seq<char>, JsonTree)>,
)
    requires
        forall|i: int| 0 <= i < before.len() ==> (#[trigger] before[i]).0 != name,
    ensures
        first_member(before + seq![(name, value)] + behind, name) == Some(value),
        first_member(before, name) is None,
    decreases before.len(),
{
    let all = before + seq![(name, value)] + behind;
    if before.len() > 0 {
        let rest = before.drop_first();
        assert(before[0].0 != name);
        assert forall|i: int| 0 <= i < rest.len() implies (#[trigger] rest[i]).0 != name by {
            assert(rest[i] == before[i + 1]);
        }
        law_first_member(rest, name, value, behind);
        assert(all.drop_first() =~= rest + seq![(name, value)] + behind);
    } else {
        assert(all[0] == (name, value));
    }
}

/// A string is read as its content, and nothing else is read as a string; a kind is read from its
/// name, and no other name is the name of a kind.
pub proof fn law_texts_and_kinds_read(tree: JsonTree)
    ensures
        tree.data matches JsonTreeData::Text(text) ==> {
            &&& text_of(tree) == Ok::<Seq<char>, Seq<char>>(text)
            &&& text == "directory"@ ==> kind_of(tree) == Ok::<NodeKind, Seq<char>>(
                NodeKind::Directory,
            )
            &&& text == "file"@ ==> kind_of(tree) == Ok::<NodeKind, Seq<char>>(NodeKind::File)
            &&& text == "symlink"@ ==> kind_of(tree) == Ok::<NodeKind, Seq<char>>(
                NodeKind::Symlink,
            )
            &&& text != "directory"@ && text != "file"@ && text != "symlink"@ ==> kind_of(
                tree,
            ) is Err
        },
        !(tree.data is Text) ==> text_of(tree) is Err && kind_of(tree) is Err,
{
    lemma_names();
}

/// A member that must be there is the first of its name in an object; where there is none, or no
/// object, it is an error.
pub proof fn law_required_member(tree: JsonTree, name: Seq<char>)
    ensures
        tree.data matches JsonTreeData::Object(members) ==> {
            &&& first_member(members, name) matches Some(member) ==> required_member(tree, name)
                == Ok::<JsonTree, Seq<char>>(member)
            &&& first_member(members, name) is None ==> required_member(tree, name) is Err
        },
        !(tree.data is Object) ==> required_member(tree, name) is Err,
{
}

/// A list of entries is read entry by entry: all of them, in order, or none of them if one cannot be
/// read; and likewise a list of texts.
pub proof fn law_lists_read(trees: Seq<JsonTree>)
    ensures
        decoded_nodes(trees) is Ok <==> forall|i: int|
            0 <= i < trees.len() ==> decoded_node(#[trigger] trees[i]) is Ok,
        decoded_nodes(trees) matches Ok(nodes) ==> {
            &&& nodes.len() == trees.len()
            &&& forall|i: int|
                0 <= i < trees.len() ==> decoded_node(#[trigger] trees[i]) == Ok::<
                    NodeModel,
                    Seq<char>,
                >(nodes[i])
        },
        decoded_texts(trees) is Ok <==> forall|i: int|
            0 <= i < trees.len() ==> text_of(#[trigger] trees[i]) is Ok,
        decoded_texts(trees) matches Ok(list) ==> {
            &&& list.len() == trees.len()
            &&& forall|i: int|
                0 <= i < trees.len() ==> text_of(#[trigger] trees[i]) == Ok::<
                    Seq<char>,
                    Seq<char>,
                >(list[i])
        },
    decreases trees.len(),
{
    if trees.len() > 0 {
        let rest = trees.drop_last();
        law_lists_read(rest);
        assert(forall|i: int| 0 <= i < rest.len() ==> rest[i] == #[trigger] trees[i]);
        assert(forall|i: int| 0 <= i < rest.len() ==> #[trigger] rest[i] == trees[i]);
        assert(trees[trees.len() - 1] == trees.last());
        if decoded_nodes(rest) is Err {
            let i = choose|i: int|
                0 <= i < rest.len() && !(decoded_node(#[trigger] rest[i]) is Ok);
            assert(!(decoded_node(trees[i]) is Ok));
        }
        if decoded_texts(rest) is Err {
            let i = choose|i: int| 0 <= i < rest.len() && !(text_of(#[trigger] rest[i]) is Ok);
            assert(!(text_of(trees[i]) is Ok));
        }
    }
}

/// An entry is read if and only if its name, path, kind, size and children can all be read, and then
/// it is made of them.
pub proof fn law_node_read(tree: JsonTree)
    ensures
        decoded_node(tree) is Ok <==> {
            &&& text_member(tree, "name"@) is Ok
            &&& text_member(tree, "path"@) is Ok
            &&& kind_member(tree, "kind"@) is Ok
            &&& number_member(tree, "size"@) is Ok
            &&& items_member(tree, "children"@) is Ok
            &&& decoded_nodes(items_member(tree, "children"@)->Ok_0) is Ok
        },
        decoded_node(tree) matches Ok(node) ==> {
            &&& text_member(tree, "name"@) == Ok::<Seq<char>, Seq<char>>(node.name)
            &&& text_member(tree, "path"@) == Ok::<Seq<char>, Seq<char>>(node.path)
            &&& kind_member(tree, "kind"@) == Ok::<NodeKind, Seq<char>>(node.kind)
            &&& number_member(tree, "size"@) == Ok::<nat, Seq<char>>(node.size)
            &&& decoded_nodes(items_member(tree, "children"@)->Ok_0) == Ok::<
                Seq<NodeModel>,
                Seq<char>,
            >(node.children)
        },
{
}

/// A result is read if and only if its tree, its time, its warnings and, where it is there, its
/// duration can all be read, and then it is made of them.
pub proof fn law_result_read(tree: JsonTree)
    ensures
        decoded_result(tree) is Ok <==> {
            &&& node_member(tree, "root"@) is Ok
            &&& number_member(tree, "scanned_at_unix"@) is Ok
            &&& number_or_zero(tree, "scan_duration_ms"@) is Ok
            &&& texts_member(tree, "warnings"@) is Ok
        },
        decoded_result(tree) matches Ok(result) ==> {
            &&& node_member(tree, "root"@) == Ok::<NodeModel, Seq<char>>(result.root)
            &&& number_member(tree, "scanned_at_unix"@) == Ok::<nat, Seq<char>>(
                result.scanned_at_unix,
            )
            &&& number_or_zero(tree, "scan_duration_ms"@) == Ok::<nat, Seq<char>>(
                result.scan_duration_ms,
            )
            &&& texts_member(tree, "warnings"@) == Ok::<Seq<Seq<char>>, Seq<char>>(
                result.warnings,
            )
        },
{
}

} // verus!
