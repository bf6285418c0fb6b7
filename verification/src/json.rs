//! JSON text: what is read from it and how it is written. Reading and writing are done by
//! [`nojson`]; this module holds what the rest of the library needs as plain values. What is
//! claimed of reading and writing strings holds on machines that store the lowest byte of a number
//! first.

use vstd::prelude::*;
use vstd::string::*;

use nojson::{JsonValueKind, RawJson, RawJsonValue};

verus! {

use crate::text::decimal;

/// The kind of a JSON value.
#[derive(Debug, Clone, Copy, PartialEq, Eq, Structural)]
pub enum JsonKind {
    Null,
    Boolean,
    Integer,
    Float,
    Text,
    Array,
    Object,
}

/// A JSON value and the byte position at which it begins in the text.
#[derive(Debug)]
pub struct JsonValue {
    pub position: usize,
    pub data: JsonData,
}

/// What a JSON value holds: the digits of an integer, the content of a string, the elements of an
/// array, the members of an object in the order of the text.
#[derive(Debug)]
pub enum JsonData {
    Null,
    Boolean,
    Integer(String),
    Float,
    Text(String),
    Array(Vec<JsonValue>),
    Object(Vec<JsonMember>),
}

/// A member of a JSON object.
#[derive(Debug)]
pub struct JsonMember {
    pub name: String,
    pub value: JsonValue,
}

/// The mathematical content of a [`JsonValue`].
pub struct JsonTree {
    pub position: nat,
    pub data: JsonTreeData,
}

/// The mathematical content of a [`JsonData`].
pub enum JsonTreeData {
    Null,
    Boolean,
    Integer(Seq<char>),
    Float,
    Text(Seq<char>),
    Array(Seq<JsonTree>),
    Object(Seq<(Seq<char>, JsonTree)>),
}

impl JsonTree {
    /// The kind of the value.
    pub open spec fn kind(self) -> JsonKind {
        match self.data {
            JsonTreeData::Null => JsonKind::Null,
            JsonTreeData::Boolean => JsonKind::Boolean,
            JsonTreeData::Integer(_) => JsonKind::Integer,
            JsonTreeData::Float => JsonKind::Float,
            JsonTreeData::Text(_) => JsonKind::Text,
            JsonTreeData::Array(_) => JsonKind::Array,
            JsonTreeData::Object(_) => JsonKind::Object,
        }
    }
}

impl JsonValue {
    /// The content of this value and of all values in it.
    pub open spec fn model(self) -> JsonTree
        decreases self,
    {
        JsonTree {
            position: self.position as nat,
            data: match self.data {
                JsonData::Null => JsonTreeData::Null,
                JsonData::Boolean => JsonTreeData::Boolean,
                JsonData::Integer(digits) => JsonTreeData::Integer(digits@),
                JsonData::Float => JsonTreeData::Float,
                JsonData::Text(content) => JsonTreeData::Text(content@),
                JsonData::Array(items) => JsonTreeData::Array(
                    Seq::new(
                        items@.len(),
                        |i: int|
                            if 0 <= i < items@.len() {
                                items@[i].model()
                            } else {
                                arbitrary()
                            },
                    ),
                ),
                JsonData::Object(members) => JsonTreeData::Object(
                    Seq::new(
                        members@.len(),
                        |i: int|
                            if 0 <= i < members@.len() {
                                (members@[i].name@, members@[i].value.model())
                            } else {
                                arbitrary()
                            },
                    ),
                ),
            },
        }
    }

    /// The kind of this value.
    pub fn kind(&self) -> (kind: JsonKind)
        ensures
            kind == self@.kind(),
    {
        match &self.data {
            JsonData::Null => JsonKind::Null,
            JsonData::Boolean => JsonKind::Boolean,
            JsonData::Integer(_) => JsonKind::Integer,
            JsonData::Float => JsonKind::Float,
            JsonData::Text(_) => JsonKind::Text,
            JsonData::Array(_) => JsonKind::Array,
            JsonData::Object(_) => JsonKind::Object,
        }
    }
}

impl View for JsonValue {
    type V = JsonTree;

    open spec fn view(&self) -> JsonTree {
        self.model()
    }
}

/// A document that can be written: what [`crate::storage`] makes of a result.
pub enum JsonDoc {
    Text(Seq<char>),
    Number(nat),
    Array(Seq<JsonDoc>),
    Object(Seq<(Seq<char>, JsonDoc)>),
}

/// A character as it stands in a JSON string: quotes, backslashes and control characters are
/// escaped, all others stand for themselves.
pub open spec fn escaped_char(c: char) -> Seq<char> {
    if c == '"' {
        "\\\""@
    } else if c == '\\' {
        "\\\\"@
    } else if c == '\n' {
        "\\n"@
    } else if c == '\r' {
        "\\r"@
    } else if c == '\t' {
        "\\t"@
    } else if c == '\u{8}' {
        "\\b"@
    } else if c == '\u{c}' {
        "\\f"@
    } else if (c as int) < 0x20 {
        "\\u00"@ + seq![hex_char(c as int / 16), hex_char(c as int % 16)]
    } else {
        seq![c]
    }
}

/// The lower case hexadecimal digit of `d`.
pub open spec fn hex_char(d: int) -> char {
    if d < 10 {
        (48 + d) as char
    } else {
        (87 + d) as char
    }
}

/// A text with every character escaped where it must be.
pub open spec fn escaped(text: Seq<char>) -> Seq<char>
    decreases text.len(),
{
    if text.len() == 0 {
        text
    } else {
        escaped(text.drop_last()) + escaped_char(text.last())
    }
}

/// A text as a JSON string.
pub open spec fn string_literal(text: Seq<char>) -> Seq<char> {
    "\""@ + escaped(text) + "\""@
}

/// The parts with a comma between each two.
pub open spec fn comma_separated(parts: Seq<Seq<char>>) -> Seq<char>
    decreases parts.len(),
{
    if parts.len() == 0 {
        Seq::empty()
    } else if parts.len() == 1 {
        parts[0]
    } else {
        comma_separated(parts.drop_last()) + ","@ + parts.last()
    }
}

/// The text of an array, from the texts of its elements.
pub open spec fn array_text(items: Seq<Seq<char>>) -> Seq<char> {
    "["@ + comma_separated(items) + "]"@
}

/// The text of an object's member, from its name and the text of its value.
pub open spec fn member_text(name: Seq<char>, value: Seq<char>) -> Seq<char> {
    string_literal(name) + ":"@ + value
}

/// The text of an object, from the texts of its members.
pub open spec fn object_text(members: Seq<Seq<char>>) -> Seq<char> {
    "{"@ + comma_separated(members) + "}"@
}

/// A document as it is written, without any space.
pub open spec fn doc_text(doc: JsonDoc) -> Seq<char>
    decreases doc,
{
    match doc {
        JsonDoc::Text(text) => string_literal(text),
        JsonDoc::Number(n) => decimal(n),
        JsonDoc::Array(items) => array_text(doc_texts(items)),
        JsonDoc::Object(members) => object_text(member_texts(members)),
    }
}

/// The texts of a list of documents.
pub open spec fn doc_texts(docs: Seq<JsonDoc>) -> Seq<Seq<char>>
    decreases docs,
{
    if docs.len() == 0 {
        Seq::empty()
    } else {
        doc_texts(docs.drop_last()).push(doc_text(docs.last()))
    }
}

/// The texts of a list of members.
pub open spec fn member_texts(members: Seq<(Seq<char>, JsonDoc)>) -> Seq<Seq<char>>
    decreases members,
{
    if members.len() == 0 {
        Seq::empty()
    } else {
        member_texts(members.drop_last()).push(
            member_text(members.last().0, doc_text(members.last().1)),
        )
    }
}

/// How deep arrays and objects are nested in a document.
pub open spec fn nesting(doc: JsonDoc) -> nat
    decreases doc,
{
    match doc {
        JsonDoc::Text(_) => 0,
        JsonDoc::Number(_) => 0,
        JsonDoc::Array(items) => 1 + deepest(items),
        JsonDoc::Object(members) => 1 + deepest_member(members),
    }
}

/// The deepest nesting in a list of documents.
pub open spec fn deepest(docs: Seq<JsonDoc>) -> nat
    decreases docs,
{
    if docs.len() == 0 {
        0
    } else {
        let rest = deepest(docs.drop_last());
        let last = nesting(docs.last());
        if last > rest {
            last
        } else {
            rest
        }
    }
}

/// The deepest nesting in a list of members.
pub open spec fn deepest_member(members: Seq<(Seq<char>, JsonDoc)>) -> nat
    decreases members,
{
    if members.len() == 0 {
        0
    } else {
        let rest = deepest_member(members.drop_last());
        let last = nesting(members.last().1);
        if last > rest {
            last
        } else {
            rest
        }
    }
}

/// Whether a value that was read is the document, wherever it stood in the text.
pub open spec fn reads_as(tree: JsonTree, doc: JsonDoc) -> bool
    decreases doc,
{
    match doc {
        JsonDoc::Text(text) => tree.data == JsonTreeData::Text(text),
        JsonDoc::Number(n) => tree.data == JsonTreeData::Integer(decimal(n)),
        JsonDoc::Array(items) => tree.data matches JsonTreeData::Array(trees) && all_read_as(
            trees,
            items,
        ),
        JsonDoc::Object(members) => tree.data matches JsonTreeData::Object(trees)
            && members_read_as(trees, members),
    }
}

/// Whether the values that were read are the documents, one by one.
pub open spec fn all_read_as(trees: Seq<JsonTree>, docs: Seq<JsonDoc>) -> bool
    decreases docs,
{
    &&& trees.len() == docs.len()
    &&& docs.len() > 0 ==> all_read_as(trees.drop_last(), docs.drop_last()) && reads_as(
        trees.last(),
        docs.last(),
    )
}

/// Whether the members that were read are the members of the document, one by one.
pub open spec fn members_read_as(
    trees: Seq<(Seq<char>, JsonTree)>,
    members: Seq<(Seq<char>, JsonDoc)>,
) -> bool
    decreases members,
{
    &&& trees.len() == members.len()
    &&& members.len() > 0 ==> {
        &&& members_read_as(trees.drop_last(), members.drop_last())
        &&& trees.last().0 == members.last().0
        &&& reads_as(trees.last().1, members.last().1)
    }
}

/// The name of a kind of JSON value in messages.
pub open spec fn json_kind_name(kind: JsonKind) -> Seq<char> {
    match kind {
        JsonKind::Null => "Null"@,
        JsonKind::Boolean => "Boolean"@,
        JsonKind::Integer => "Integer"@,
        JsonKind::Float => "Float"@,
        JsonKind::Text => "String"@,
        JsonKind::Array => "Array"@,
        JsonKind::Object => "Object"@,
    }
}

/// The message that a value of the kind `kind`, at the byte position `position`, is not what it
/// should be.
pub open spec fn invalid_value_text(kind: JsonKind, position: nat, reason: Seq<char>) -> Seq<char> {
    "JSON "@ + json_kind_name(kind) + " at byte position "@ + decimal(position)
        + " is invalid: "@ + reason
}

/// How deep the reader lets arrays and objects be nested.
pub const MAX_NESTING: usize = 128;

/// What `RawJson::parse` makes of a text: the value in it, or the message of its error.
pub uninterp spec fn parsed_json(text: Seq<char>) -> Result<JsonTree, Seq<char>>;

/// The value that a parsed text holds.
pub uninterp spec fn document_tree(raw: RawJson<'_>) -> JsonTree;

/// The value, with all values in it, that a `RawJsonValue` stands for.
pub uninterp spec fn value_tree(value: RawJsonValue<'_, '_>) -> JsonTree;

/// A text that was found to be JSON, with an index of the values in it.
#[verifier::external_type_specification]
#[verifier::external_body]
pub struct ExRawJson<'text>(nojson::RawJson<'text>);

/// One of the values of such a text.
#[verifier::external_type_specification]
#[verifier::external_body]
pub struct ExRawJsonValue<'text, 'raw>(nojson::RawJsonValue<'text, 'raw>);

/// `RawJson::parse`. Its result is named by [`parsed_json`]; an error is taken by its message. A
/// text that is written as [`doc_text`] says, nested no deeper than the reader allows, is read
/// again as the document that was written.
#[verifier::external_body]
fn parse_raw(text: &str) -> (parsed: Result<RawJson<'_>, String>)
    ensures
        match parsed {
            Ok(raw) => parsed_json(text@) == Ok::<JsonTree, Seq<char>>(document_tree(raw)),
            Err(message) => parsed_json(text@) == Err::<JsonTree, Seq<char>>(message@),
        },
        forall|doc: JsonDoc| #[trigger]
            doc_text(doc) == text@ && nesting(doc) <= MAX_NESTING ==> parsed is Ok && reads_as(
                document_tree(parsed->Ok_0),
                doc,
            ),
{
    RawJson::parse(text).map_err(|error| error.to_string())
}

/// `RawJson::value`: the value that the text holds.
#[verifier::external_body]
fn root_value<'text, 'raw>(raw: &'raw RawJson<'text>) -> (value: RawJsonValue<'text, 'raw>)
    ensures
        value_tree(value) == document_tree(*raw),
{
    raw.value()
}

/// `RawJsonValue::kind`.
#[verifier::external_body]
fn raw_kind(value: RawJsonValue<'_, '_>) -> (kind: JsonKind)
    ensures
        kind == value_tree(value).kind(),
{
    match value.kind() {
        JsonValueKind::Null => JsonKind::Null,
        JsonValueKind::Boolean => JsonKind::Boolean,
        JsonValueKind::Integer => JsonKind::Integer,
        JsonValueKind::Float => JsonKind::Float,
        JsonValueKind::String => JsonKind::Text,
        JsonValueKind::Array => JsonKind::Array,
        JsonValueKind::Object => JsonKind::Object,
    }
}

/// `RawJsonValue::position`: the byte position at which the value begins.
#[verifier::external_body]
fn raw_position(value: RawJsonValue<'_, '_>) -> (position: usize)
    ensures
        position == value_tree(value).position,
{
    value.position()
}

/// `RawJsonValue::as_integer_str`: the text of an integer, and nothing for another kind.
#[verifier::external_body]
fn raw_integer(value: RawJsonValue<'_, '_>) -> (digits: Option<String>)
    ensures
        match value_tree(value).data {
            JsonTreeData::Integer(text) => digits is Some && digits->0@ == text,
            _ => digits is None,
        },
{
    value.as_integer_str().ok().map(|digits| digits.to_string())
}

/// `RawJsonValue::to_unquoted_string_str`: the content of a string, and nothing for another kind.
#[verifier::external_body]
fn raw_string(value: RawJsonValue<'_, '_>) -> (content: Option<String>)
    ensures
        match value_tree(value).data {
            JsonTreeData::Text(text) => content is Some && content->0@ == text,
            _ => content is None,
        },
{
    value.to_unquoted_string_str().ok().map(|content| content.into_owned())
}

/// `RawJsonValue::to_array`: the elements of an array in order, and nothing for another kind.
#[verifier::external_body]
fn raw_items<'text, 'raw>(value: RawJsonValue<'text, 'raw>) -> (items: Option<
    Vec<RawJsonValue<'text, 'raw>>,
>)
    ensures
        match value_tree(value).data {
            JsonTreeData::Array(trees) => items is Some && items->0@.len() == trees.len() && forall|
                i: int,
            |
                0 <= i < trees.len() ==> value_tree(#[trigger] items->0@[i]) == trees[i],
            _ => items is None,
        },
{
    value.to_array().ok().map(|items| items.collect())
}

/// `RawJsonValue::to_object`: the names and values of an object's members in order, and nothing
/// for another kind. The names are strings.
#[verifier::external_body]
fn raw_members<'text, 'raw>(value: RawJsonValue<'text, 'raw>) -> (members: Option<
    Vec<(RawJsonValue<'text, 'raw>, RawJsonValue<'text, 'raw>)>,
>)
    ensures
        match value_tree(value).data {
            JsonTreeData::Object(trees) => members is Some && members->0@.len() == trees.len()
                && forall|i: int|
                0 <= i < trees.len() ==> {
                    &&& value_tree((#[trigger] members->0@[i]).0).data == JsonTreeData::Text(
                        trees[i].0,
                    )
                    &&& value_tree(members->0@[i].1) == trees[i].1
                },
            _ => members is None,
        },
{
    value.to_object().ok().map(|members| members.collect())
}

/// `nojson::Json` of a string, as it is displayed.
#[verifier::external_body]
pub(crate) fn write_string(text: &str) -> (json: String)
    ensures
        json@ == string_literal(text@),
{
    nojson::Json(text).to_string()
}

/// `nojson::array` with the given texts as the elements, as it is displayed: the texts are put
/// down as they are, with commas between them.
#[verifier::external_body]
pub(crate) fn write_array(items: &Vec<String>) -> (json: String)
    ensures
        json@ == array_text(crate::text::texts(items@)),
{
    nojson::array(
        |f| f.elements(items.iter().map(|item| nojson::json(move |f| f.inner_mut().write_str(item)))),
    ).to_string()
}

/// The texts of members given by their names and the texts of their values.
pub open spec fn pair_texts(members: Seq<(&'static str, String)>) -> Seq<Seq<char>> {
    members.map_values(|member: (&'static str, String)| member_text(member.0@, member.1@))
}

/// `nojson::object` with members of the given names, as it is displayed: the texts of the values
/// are put down as they are, behind the names as strings.
#[verifier::external_body]
pub(crate) fn write_object(members: &Vec<(&'static str, String)>) -> (json: String)
    ensures
        json@ == object_text(pair_texts(members@)),
{
    nojson::object(
        |f| f.members(
            members.iter().map(|m| (m.0, nojson::json(move |f| f.inner_mut().write_str(&m.1)))),
        ),
    ).to_string()
}

/// `JsonParseError::InvalidValue`, as it is displayed: the kind and the byte position of the value,
/// and the reason as it is.
#[verifier::external_body]
pub(crate) fn invalid_value_message(kind: JsonKind, position: usize, reason: &str) -> (message:
    String)
    ensures
        message@ == invalid_value_text(kind, position as nat, reason@),
{
    let kind = match kind {
        JsonKind::Null => JsonValueKind::Null,
        JsonKind::Boolean => JsonValueKind::Boolean,
        JsonKind::Integer => JsonValueKind::Integer,
        JsonKind::Float => JsonValueKind::Float,
        JsonKind::Text => JsonValueKind::String,
        JsonKind::Array => JsonValueKind::Array,
        JsonKind::Object => JsonValueKind::Object,
    };
    nojson::JsonParseError::InvalidValue { kind, position, error: reason.into() }.to_string()
}

fn read_items(items: &Vec<RawJsonValue<'_, '_>>, tree: Ghost<JsonTree>) -> (values: Vec<JsonValue>)
    requires
        tree@.data matches JsonTreeData::Array(trees) && trees.len() == items@.len() && forall|
            i: int,
        |
            0 <= i < trees.len() ==> value_tree(#[trigger] items@[i]) == trees[i],
    ensures
        values@.len() == items@.len(),
        forall|i: int|
            0 <= i < values@.len() ==> (#[trigger] values@[i])@ == value_tree(items@[i]),
    decreases tree@, 0nat,
{
    let mut values: Vec<JsonValue> = Vec::new();
    let mut i: usize = 0;
    while i < items.len()
        invariant
            i <= items.len(),
            values@.len() == i,
            tree@.data matches JsonTreeData::Array(trees) && trees.len() == items@.len() && forall|
                i: int,
            |
                0 <= i < trees.len() ==> value_tree(#[trigger] items@[i]) == trees[i],
            forall|j: int| 0 <= j < i ==> (#[trigger] values@[j])@ == value_tree(items@[j]),
        decreases items.len() - i,
    {
        let value = read_value(items[i]);
        values.push(value);
        i += 1;
    }
    values
}

fn read_members(
    members: &Vec<(RawJsonValue<'_, '_>, RawJsonValue<'_, '_>)>,
    tree: Ghost<JsonTree>,
) -> (values: Vec<JsonMember>)
    requires
        tree@.data matches JsonTreeData::Object(trees) && trees.len() == members@.len() && forall|
            i: int,
        |
            0 <= i < trees.len() ==> {
                &&& value_tree((#[trigger] members@[i]).0).data == JsonTreeData::Text(trees[i].0)
                &&& value_tree(members@[i].1) == trees[i].1
            },
    ensures
        values@.len() == members@.len(),
        forall|i: int|
            0 <= i < values@.len() ==> {
                &&& JsonTreeData::Text((#[trigger] values@[i]).name@) == value_tree(
                    members@[i].0,
                ).data
                &&& values@[i].value@ == value_tree(members@[i].1)
            },
    decreases tree@, 0nat,
{
    let mut values: Vec<JsonMember> = Vec::new();
    let mut i: usize = 0;
    while i < members.len()
        invariant
            i <= members.len(),
            values@.len() == i,
            tree@.data matches JsonTreeData::Object(trees) && trees.len() == members@.len()
                && forall|i: int|
                0 <= i < trees.len() ==> {
                    &&& value_tree((#[trigger] members@[i]).0).data == JsonTreeData::Text(
                        trees[i].0,
                    )
                    &&& value_tree(members@[i].1) == trees[i].1
                },
            forall|j: int|
                0 <= j < i ==> {
                    &&& JsonTreeData::Text((#[trigger] values@[j]).name@) == value_tree(
                        members@[j].0,
                    ).data
                    &&& values@[j].value@ == value_tree(members@[j].1)
                },
        decreases members.len() - i,
    {
        let name = match raw_string(members[i].0) {
            Some(name) => name,
            None => String::new(),
        };
        let value = read_value(members[i].1);
        values.push(JsonMember { name, value });
        i += 1;
    }
    values
}

fn read_value(value: RawJsonValue<'_, '_>) -> (read: JsonValue)
    ensures
        read@ == value_tree(value),
    decreases value_tree(value), 1nat,
{
    let ghost tree = value_tree(value);
    let position: usize = raw_position(value);
    let data = match raw_kind(value) {
        JsonKind::Null => JsonData::Null,
        JsonKind::Boolean => JsonData::Boolean,
        JsonKind::Float => JsonData::Float,
        JsonKind::Integer => match raw_integer(value) {
            Some(digits) => JsonData::Integer(digits),
            None => JsonData::Null,
        },
        JsonKind::Text => match raw_string(value) {
            Some(content) => JsonData::Text(content),
            None => JsonData::Null,
        },
        JsonKind::Array => match raw_items(value) {
            Some(items) => {
                let values = read_items(&items, Ghost(tree));
                proof {
                    let read = JsonValue { position, data: JsonData::Array(values) };
                    assert(read@.data->Array_0 =~= tree.data->Array_0);
                }
                JsonData::Array(values)
            },
            None => JsonData::Null,
        },
        JsonKind::Object => match raw_members(value) {
            Some(members) => {
                let values = read_members(&members, Ghost(tree));
                proof {
                    let read = JsonValue { position, data: JsonData::Object(values) };
                    assert(read@.data->Object_0 =~= tree.data->Object_0);
                }
                JsonData::Object(values)
            },
            None => JsonData::Null,
        },
    };
    JsonValue { position, data }
}

/// Reads a JSON text. What was written by [`crate::storage`] is read as what was written.
pub fn parse_json(text: &str) -> (parsed: Result<JsonValue, String>)
    ensures
        match parsed {
            Ok(value) => parsed_json(text@) == Ok::<JsonTree, Seq<char>>(value@),
            Err(message) => parsed_json(text@) == Err::<JsonTree, Seq<char>>(message@),
        },
        forall|doc: JsonDoc| #[trigger]
            doc_text(doc) == text@ && nesting(doc) <= MAX_NESTING ==> parsed is Ok && reads_as(
                parsed->Ok_0@,
                doc,
            ),
{
    match parse_raw(text) {
        Ok(raw) => Ok(read_value(root_value(&raw))),
        Err(message) => Err(message),
    }
}

} // verus!
