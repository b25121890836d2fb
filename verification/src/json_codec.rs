//! JSON text to and from document trees, through `serde_json`.
use vstd::prelude::*;

use crate::json::{
    integer_view, items_view, members_view, number_view, Json, JsonView, NumberView,
};
use crate::text::same_text;

verus! {

/// A JSON value of `serde_json`.
#[verifier::external_type_specification]
#[verifier::external_body]
pub struct ExValue(serde_json::Value);

/// What `serde_json` reports where it cannot read or write a document.
#[verifier::external_type_specification]
#[verifier::external_body]
pub struct ExError(serde_json::Error);

/// The document that a `serde_json::Value` holds.
pub uninterp spec fn document(value: serde_json::Value) -> JsonView;

/// The document that `serde_json::from_slice` reads out of bytes.
pub uninterp spec fn document_in_bytes(bytes: Seq<u8>) -> Option<JsonView>;

/// The document that `serde_json::from_str` reads out of a text.
pub uninterp spec fn document_in_text(text: Seq<char>) -> Option<JsonView>;

/// The text that `serde_json::to_string` writes for a document.
pub uninterp spec fn document_text(value: JsonView) -> Seq<char>;

/// The bytes that `serde_json::to_vec` writes for a document.
pub uninterp spec fn document_bytes(value: JsonView) -> Seq<u8>;

/// The top level of a `serde_json::Value` that is read.
enum Layer<'a> {
    Null,
    Bool(bool),
    Number(&'a serde_json::Number),
    Text(&'a String),
    Array(&'a Vec<serde_json::Value>),
    Object(Vec<(&'a String, &'a serde_json::Value)>),
}

/// The documents that a list of values holds.
spec fn documents(values: Seq<serde_json::Value>) -> Seq<JsonView> {
    values.map_values(|value: serde_json::Value| document(value))
}

/// The members that a list of named values makes.
spec fn named_documents(members: Seq<(Seq<char>, serde_json::Value)>) -> Map<
    Seq<char>,
    JsonView,
>
    decreases members.len(),
{
    if members.len() == 0 {
        Map::empty()
    } else {
        named_documents(members.drop_last()).insert(members.last().0, document(members.last().1))
    }
}

/// The members that are read, by the characters of their names.
spec fn read_members(members: Seq<(&String, &serde_json::Value)>) -> Seq<
    (Seq<char>, serde_json::Value),
> {
    members.map_values(|member: (&String, &serde_json::Value)| (member.0@, *member.1))
}

/// The members that are written, by the characters of their names.
spec fn written_members(members: Seq<(String, serde_json::Value)>) -> Seq<
    (Seq<char>, serde_json::Value),
> {
    members.map_values(|member: (String, serde_json::Value)| (member.0@, member.1))
}

/// Whether no two members have the same name.
spec fn names_differ(members: Seq<(Seq<char>, serde_json::Value)>) -> bool {
    forall|i: int, j: int|
        0 <= i < j < members.len() ==> (#[trigger] members[i]).0 != (#[trigger] members[j]).0
}

impl Layer<'_> {
    spec fn view(&self) -> JsonView {
        match self {
            Layer::Null => JsonView::Null,
            Layer::Bool(b) => JsonView::Bool(*b),
            Layer::Number(number) => JsonView::Number(number_view(**number)),
            Layer::Text(text) => JsonView::Text(text@),
            Layer::Array(items) => JsonView::Array(documents(items@)),
            Layer::Object(members) => JsonView::Object(named_documents(read_members(members@))),
        }
    }
}

/// Takes the top level of a `serde_json::Value` apart by its variant. An object
/// gives its members through `Map::iter`, each name once.
#[verifier::external_body]
fn top_layer(value: &serde_json::Value) -> (r: Layer<'_>)
    ensures
        r@ == document(*value),
        r matches Layer::Object(members) ==> names_differ(read_members(members@)),
{
    match value {
        serde_json::Value::Null => Layer::Null,
        serde_json::Value::Bool(b) => Layer::Bool(*b),
        serde_json::Value::Number(number) => Layer::Number(number),
        serde_json::Value::String(text) => Layer::Text(text),
        serde_json::Value::Array(items) => Layer::Array(items),
        serde_json::Value::Object(members) => Layer::Object(members.iter().collect()),
    }
}

/// Reads a document with `serde_json::from_slice`: the document that the bytes
/// hold, or an error where they hold none.
#[verifier::external_body]
fn from_slice(bytes: &[u8]) -> (r: Result<serde_json::Value, serde_json::Error>)
    ensures
        match r {
            Ok(value) => document_in_bytes(bytes@) == Some(document(value)),
            Err(_) => document_in_bytes(bytes@) is None,
        },
{
    serde_json::from_slice(bytes)
}

/// Reads a document with `serde_json::from_str`: the document that the text
/// holds, or an error where it holds none.
#[verifier::external_body]
fn from_str(text: &str) -> (r: Result<serde_json::Value, serde_json::Error>)
    ensures
        match r {
            Ok(value) => document_in_text(text@) == Some(document(value)),
            Err(_) => document_in_text(text@) is None,
        },
{
    serde_json::from_str(text)
}

proof fn lemma_named_documents(members: Seq<(Seq<char>, serde_json::Value)>, i: int)
    requires
        names_differ(members),
        0 <= i < members.len(),
    ensures
        named_documents(members).contains_key(members[i].0),
        named_documents(members)[members[i].0] == document(members[i].1),
    decreases members.len(),
{
    if i < members.len() - 1 {
        lemma_named_documents(members.drop_last(), i);
        assert(members.drop_last()[i] == members[i]);
        assert(members[i].0 != members[members.len() - 1].0);
    }
}

/// The document tree that a `serde_json::Value` holds.
pub fn json_of(value: &serde_json::Value) -> (r: Json)
    ensures
        r@ == document(*value),
    decreases document(*value),
{
    match top_layer(value) {
        Layer::Null => Json::Null,
        Layer::Bool(b) => Json::Bool(b),
        Layer::Number(number) => match (number.as_u64(), number.as_i64()) {
            (Some(n), _) => Json::Unsigned(n),
            (None, Some(n)) => Json::Signed(n),
            (None, None) => Json::Float(number.clone()),
        },
        Layer::Text(text) => Json::Text(text.clone()),
        Layer::Array(items) => {
            let mut out: Vec<Json> = Vec::new();
            let mut i: usize = 0;
            while i < items.len()
                invariant
                    i <= items@.len(),
                    document(*value) == JsonView::Array(documents(items@)),
                    items_view(out@) == documents(items@.take(i as int)),
                decreases items@.len() - i,
            {
                proof {
                    let all = document(*value)->Array_0;
                    assert(all[i as int] == document(items@[i as int]));
                    assert(decreases_to!(document(*value) => all));
                    assert(decreases_to!(all => all[i as int]));
                }
                let item = json_of(&items[i]);
                let ghost before = out@;
                out.push(item);
                assert(out@.drop_last() =~= before);
                assert(documents(items@.take(i + 1)) =~= documents(items@.take(i as int)).push(
                    document(items@[i as int]),
                ));
                i += 1;
            }
            assert(items@.take(i as int) =~= items@);
            Json::Array(out)
        },
        Layer::Object(members) => {
            let ghost named = read_members(members@);
            let mut out: Vec<(String, Json)> = Vec::new();
            let mut i: usize = 0;
            assert(named.take(0) =~= Seq::<(Seq<char>, serde_json::Value)>::empty());
            while i < members.len()
                invariant
                    i <= members@.len(),
                    named == read_members(members@),
                    names_differ(named),
                    document(*value) == JsonView::Object(named_documents(named)),
                    members_view(out@) == named_documents(named.take(i as int)),
                decreases members@.len() - i,
            {
                proof {
                    let all = document(*value)->Object_0;
                    lemma_named_documents(named, i as int);
                    assert(named[i as int] == (members@[i as int].0@, *members@[i as int].1));
                    assert(all[named[i as int].0] == document(*members@[i as int].1));
                    assert(decreases_to!(document(*value) => all[named[i as int].0]));
                }
                let member = members[i];
                let item = json_of(member.1);
                let ghost before = out@;
                out.push((member.0.clone(), item));
                assert(out@.drop_last() =~= before);
                assert(named.take(i + 1).drop_last() =~= named.take(i as int));
                i += 1;
            }
            assert(named.take(i as int) =~= named);
            Json::Object(out)
        },
    }
}

/// The top level of a `serde_json::Value` that is made.
enum Part {
    Null,
    Bool(bool),
    Unsigned(u64),
    Signed(i64),
    Float(serde_json::Number),
    Text(String),
    Array(Vec<serde_json::Value>),
    Object(Vec<(String, serde_json::Value)>),
}

impl Part {
    spec fn view(&self) -> JsonView {
        match self {
            Part::Null => JsonView::Null,
            Part::Bool(b) => JsonView::Bool(*b),
            Part::Unsigned(n) => JsonView::Number(NumberView::Unsigned(*n)),
            Part::Signed(n) => JsonView::Number(integer_view(*n)),
            Part::Float(number) => JsonView::Number(number_view(*number)),
            Part::Text(text) => JsonView::Text(text@),
            Part::Array(items) => JsonView::Array(documents(items@)),
            Part::Object(members) => JsonView::Object(named_documents(written_members(members@))),
        }
    }
}

/// Makes the `serde_json::Value` of a variant. An integer is the same number
/// whichever integer type it comes from. An object is collected into a
/// `serde_json::Map`, which holds each member, no two of which have the same
/// name.
#[verifier::external_body]
fn value_of_part(part: Part) -> (r: serde_json::Value)
    requires
        part matches Part::Object(members) ==> names_differ(written_members(members@)),
    ensures
        document(r) == part@,
{
    match part {
        Part::Null => serde_json::Value::Null,
        Part::Bool(b) => serde_json::Value::Bool(b),
        Part::Unsigned(n) => serde_json::Value::from(n),
        Part::Signed(n) => serde_json::Value::from(n),
        Part::Float(number) => serde_json::Value::Number(number),
        Part::Text(text) => serde_json::Value::String(text),
        Part::Array(items) => serde_json::Value::Array(items),
        Part::Object(members) => serde_json::Value::Object(members.into_iter().collect()),
    }
}

/// How many levels of arrays and objects in one another a document may have to
/// be read.
pub const MAX_LEVELS: usize = 127;

/// Whether a document has at most that many levels of arrays and objects in one
/// another, and integers only for its numbers.
pub open spec fn is_readable(value: JsonView, levels: nat) -> bool
    decreases levels,
{
    match value {
        JsonView::Number(number) => !(number is Other),
        JsonView::Array(items) => levels > 0 && forall|i: int|
            0 <= i < items.len() ==> is_readable(#[trigger] items[i], (levels - 1) as nat),
        JsonView::Object(members) => levels > 0 && forall|name: Seq<char>| #[trigger]
            members.contains_key(name) ==> is_readable(members[name], (levels - 1) as nat),
        _ => true,
    }
}

/// Writes a document with `serde_json::to_string`, which does not fail on a
/// `serde_json::Value`. `serde_json::from_str` reads the same document out of
/// what was written, unless it is nested too deep; nothing is said of documents
/// with numbers other than integers, which may be rounded when they are read.
#[verifier::external_body]
fn to_string(value: &serde_json::Value) -> (r: Result<String, serde_json::Error>)
    ensures
        match r {
            Ok(text) => text@ == document_text(document(*value)) && (is_readable(
                document(*value),
                MAX_LEVELS as nat,
            ) ==> document_in_text(text@) == Some(document(*value))),
            Err(_) => false,
        },
{
    serde_json::to_string(value)
}

/// Writes a document with `serde_json::to_vec`, which does not fail on a
/// `serde_json::Value`. `serde_json::from_slice` reads the same document out of
/// what was written, unless it is nested too deep; nothing is said of documents
/// with numbers other than integers, which may be rounded when they are read.
#[verifier::external_body]
fn to_vec(value: &serde_json::Value) -> (r: Result<Vec<u8>, serde_json::Error>)
    ensures
        match r {
            Ok(bytes) => bytes@ == document_bytes(document(*value)) && (is_readable(
                document(*value),
                MAX_LEVELS as nat,
            ) ==> document_in_bytes(bytes@) == Some(document(*value))),
            Err(_) => false,
        },
{
    serde_json::to_vec(value)
}

proof fn lemma_document_names(members: Seq<(Seq<char>, serde_json::Value)>, name: Seq<char>)
    ensures
        named_documents(members).contains_key(name) <==> exists|i: int|
            0 <= i < members.len() && (#[trigger] members[i]).0 == name,
    decreases members.len(),
{
    if members.len() > 0 {
        let head = members.drop_last();
        lemma_document_names(head, name);
        if named_documents(head).contains_key(name) {
            let i = choose|i: int| 0 <= i < head.len() && (#[trigger] head[i]).0 == name;
            assert(members[i].0 == name);
        }
        if members.last().0 == name {
            assert(members[members.len() - 1].0 == name);
        }
        assert forall|i: int| 0 <= i < members.len() && (#[trigger] members[i]).0
            == name implies named_documents(members).contains_key(name) by {
            if i < head.len() {
                assert(head[i].0 == name);
            }
        }
    }
}

/// Whether one of the members has that name.
fn has_name(members: &Vec<(String, serde_json::Value)>, name: &str) -> (r: bool)
    ensures
        r == named_documents(written_members(members@)).contains_key(name@),
{
    let ghost written = written_members(members@);
    let mut i: usize = 0;
    while i < members.len()
        invariant
            i <= members@.len(),
            written == written_members(members@),
            forall|j: int| 0 <= j < i ==> (#[trigger] written[j]).0 != name@,
        decreases members@.len() - i,
    {
        assert(written[i as int].0 == members@[i as int].0@);
        if same_text(members[i].0.as_str(), name) {
            proof {
                lemma_document_names(written, name@);
            }
            return true;
        }
        i += 1;
    }
    proof {
        lemma_document_names(written, name@);
    }
    false
}

/// One more member of a new name.
proof fn lemma_member_added(
    before: Seq<(String, serde_json::Value)>,
    member: (String, serde_json::Value),
)
    requires
        names_differ(written_members(before)),
        !named_documents(written_members(before)).contains_key(member.0@),
    ensures
        names_differ(written_members(before.push(member))),
        named_documents(written_members(before.push(member))) == named_documents(
            written_members(before),
        ).insert(member.0@, document(member.1)),
{
    let old_members = written_members(before);
    let new_members = written_members(before.push(member));
    lemma_document_names(old_members, member.0@);
    assert(new_members =~= old_members.push((member.0@, member.1)));
    assert(new_members.drop_last() =~= old_members);
    assert forall|i: int, j: int| 0 <= i < j < new_members.len() implies (
    #[trigger] new_members[i]).0 != (#[trigger] new_members[j]).0 by {
        assert(new_members[i] == old_members[i]);
        if j < old_members.len() {
            assert(new_members[j] == old_members[j]);
        }
    }
}

/// The `serde_json::Value` of a document tree.
pub fn value_of(json: &Json) -> (r: serde_json::Value)
    ensures
        document(r) == json@,
    decreases *json,
{
    match json {
        Json::Null => value_of_part(Part::Null),
        Json::Bool(b) => value_of_part(Part::Bool(*b)),
        Json::Unsigned(n) => value_of_part(Part::Unsigned(*n)),
        Json::Signed(n) => value_of_part(Part::Signed(*n)),
        Json::Float(number) => value_of_part(Part::Float(number.clone())),
        Json::Text(text) => value_of_part(Part::Text(text.clone())),
        Json::Array(items) => {
            let mut out: Vec<serde_json::Value> = Vec::new();
            let mut i: usize = 0;
            while i < items.len()
                invariant
                    i <= items@.len(),
                    json == Json::Array(*items),
                    documents(out@) == items_view(items@.take(i as int)),
                decreases items@.len() - i,
            {
                proof {
                    assert(decreases_to!(*json => json->Array_0));
                    assert(decreases_to!(json->Array_0 => json->Array_0@));
                    assert(decreases_to!(json->Array_0@ => json->Array_0@[i as int]));
                }
                let item = value_of(&items[i]);
                let ghost before = out@;
                out.push(item);
                assert(documents(out@) =~= documents(before).push(document(item)));
                assert(items@.take(i + 1).drop_last() =~= items@.take(i as int));
                i += 1;
            }
            assert(items@.take(i as int) =~= items@);
            value_of_part(Part::Array(out))
        },
        Json::Object(members) => {
            // From the last member on, so that one that a later one of the same
            // name replaces is left out.
            let mut out: Vec<(String, serde_json::Value)> = Vec::new();
            let mut i: usize = members.len();
            assert(members@.take(i as int) =~= members@);
            assert(members_view(members@).union_prefer_right(
                named_documents(written_members(out@)),
            ) =~= members_view(members@));
            while i > 0
                invariant
                    i <= members@.len(),
                    json == Json::Object(*members),
                    names_differ(written_members(out@)),
                    members_view(members@) == members_view(
                        members@.take(i as int),
                    ).union_prefer_right(named_documents(written_members(out@))),
                decreases i,
            {
                i -= 1;
                proof {
                    assert(decreases_to!(*json => json->Object_0));
                    assert(decreases_to!(json->Object_0 => json->Object_0@));
                    assert(decreases_to!(json->Object_0@ => json->Object_0@[i as int]));
                    assert(decreases_to!(
                        json->Object_0@[i as int] => json->Object_0@[i as int].1
                    ));
                    assert(members@.take(i + 1).drop_last() =~= members@.take(i as int));
                }
                let member = &members[i];
                let ghost before = named_documents(written_members(out@));
                if !has_name(&out, member.0.as_str()) {
                    let item = value_of(&member.1);
                    let made = (member.0.clone(), item);
                    proof {
                        lemma_member_added(out@, made);
                    }
                    out.push(made);
                }
                assert(members_view(members@.take(i + 1)).union_prefer_right(before)
                    =~= members_view(members@.take(i as int)).union_prefer_right(
                    named_documents(written_members(out@)),
                ));
            }
            assert(members_view(members@) =~= named_documents(written_members(out@)));
            value_of_part(Part::Object(out))
        },
    }
}

/// Reads a document out of bytes.
pub fn parse_bytes(bytes: &[u8]) -> (r: Option<Json>)
    ensures
        match r {
            Some(json) => document_in_bytes(bytes@) == Some(json@),
            None => document_in_bytes(bytes@) is None,
        },
{
    match from_slice(bytes) {
        Ok(value) => Some(json_of(&value)),
        Err(_) => None,
    }
}

/// Reads a document out of a text.
pub fn parse_text(text: &str) -> (r: Option<Json>)
    ensures
        match r {
            Some(json) => document_in_text(text@) == Some(json@),
            None => document_in_text(text@) is None,
        },
{
    match from_str(text) {
        Ok(value) => Some(json_of(&value)),
        Err(_) => None,
    }
}

/// Writes a document as a text, out of which it can be read again unless it is
/// nested too deep or has numbers other than integers.
pub fn render_text(json: &Json) -> (r: Option<String>)
    ensures
        r matches Some(text) && text@ == document_text(json@),
        is_readable(json@, MAX_LEVELS as nat) ==> document_in_text(document_text(json@)) == Some(
            json@,
        ),
{
    match to_string(&value_of(json)) {
        Ok(text) => Some(text),
        Err(_) => None,
    }
}

/// Writes a document as bytes, out of which it can be read again unless it is
/// nested too deep or has numbers other than integers.
pub fn render_bytes(json: &Json) -> (r: Option<Vec<u8>>)
    ensures
        r matches Some(bytes) && bytes@ == document_bytes(json@),
        is_readable(json@, MAX_LEVELS as nat) ==> document_in_bytes(document_bytes(json@)) == Some(
            json@,
        ),
{
    match to_vec(&value_of(json)) {
        Ok(bytes) => Some(bytes),
        Err(_) => None,
    }
}

} // verus!
