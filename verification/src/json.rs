//! JSON documents as trees that the channel logic reads and builds.
use vstd::prelude::*;

use serde_json::Number;

use crate::number::{
    decimal, decimal_reads_back, decimal_text, is_digit, signed_decimal, signed_text,
};
use crate::text::{is_blank, lemma_not_blank, same_text, trimmed};

verus! {

/// A JSON number of `serde_json`.
#[verifier::external_type_specification]
#[verifier::external_body]
pub struct ExNumber(serde_json::Number);

/// Which number a `serde_json::Number` is.
pub uninterp spec fn number_view(number: Number) -> NumberView;

/// `Number::clone` gives the same number.
pub assume_specification[ <serde_json::Number as Clone>::clone ](number: &serde_json::Number) -> (r:
    serde_json::Number)
    ensures
        number_view(r) == number_view(*number),
;

/// `Number::as_u64` gives an integer that is not negative.
pub assume_specification[ serde_json::Number::as_u64 ](number: &serde_json::Number) -> (r: Option<
    u64,
>)
    ensures
        match number_view(*number) {
            NumberView::Unsigned(n) => r == Some(n),
            _ => r is None,
        },
;

/// `Number::as_i64` gives an integer that is negative, or small enough.
pub assume_specification[ serde_json::Number::as_i64 ](number: &serde_json::Number) -> (r: Option<
    i64,
>)
    ensures
        match number_view(*number) {
            NumberView::Unsigned(n) => r == (if n <= i64::MAX {
                Some(n as i64)
            } else {
                None
            }),
            NumberView::Negative(n) => r == Some(n) && r->Some_0 < 0,
            NumberView::Other(_) => r is None,
        },
;

/// The `Display` text of a `serde_json::Number`: an integer in decimal, any
/// other number by the shortest text that tells it from all others. It is never
/// blank.
#[verifier::external_body]
fn number_text(number: &Number) -> (r: String)
    ensures
        r@ == number_view(*number).text(),
        trimmed(r@).len() > 0,
{
    number.to_string()
}

/// A JSON document.
///
/// Integers are held by value, other numbers as `serde_json` has them. An
/// object lists its members; where a name is listed twice, the later member is
/// the one that counts.
#[derive(Debug, PartialEq, Eq)]
pub enum Json {
    Null,
    Bool(bool),
    Unsigned(u64),
    Signed(i64),
    Float(Number),
    Text(String),
    Array(Vec<Json>),
    Object(Vec<(String, Json)>),
}

/// A number. One that is no integer of 64 bits is told by its canonical text.
pub enum NumberView {
    Unsigned(u64),
    Negative(i64),
    Other(Seq<char>),
}

impl NumberView {
    /// The canonical text of the number.
    pub open spec fn text(self) -> Seq<char> {
        match self {
            NumberView::Unsigned(n) => decimal(n as nat),
            NumberView::Negative(n) => signed_decimal(n as int),
            NumberView::Other(text) => text,
        }
    }
}

/// The mathematical content of a JSON document.
pub enum JsonView {
    Null,
    Bool(bool),
    Number(NumberView),
    Text(Seq<char>),
    Array(Seq<JsonView>),
    Object(Map<Seq<char>, JsonView>),
}

/// An integer as a number.
pub open spec fn integer_view(n: i64) -> NumberView {
    if n < 0 {
        NumberView::Negative(n)
    } else {
        NumberView::Unsigned(n as u64)
    }
}

/// The views of a list of documents, in order.
pub open spec fn items_view(items: Seq<Json>) -> Seq<JsonView>
    decreases items,
{
    if items.len() == 0 {
        Seq::empty()
    } else {
        items_view(items.drop_last()).push(items.last().view())
    }
}

/// The members of an object: later members replace earlier ones of the same name.
pub open spec fn members_view(members: Seq<(String, Json)>) -> Map<Seq<char>, JsonView>
    decreases members,
{
    if members.len() == 0 {
        Map::empty()
    } else {
        members_view(members.drop_last()).insert(members.last().0@, members.last().1.view())
    }
}

impl Json {
    pub open spec fn view(&self) -> JsonView
        decreases self,
    {
        match self {
            Json::Null => JsonView::Null,
            Json::Bool(b) => JsonView::Bool(*b),
            Json::Unsigned(n) => JsonView::Number(NumberView::Unsigned(*n)),
            Json::Signed(n) => JsonView::Number(integer_view(*n)),
            Json::Float(number) => JsonView::Number(number_view(*number)),
            Json::Text(text) => JsonView::Text(text@),
            Json::Array(items) => JsonView::Array(items_view(items@)),
            Json::Object(members) => JsonView::Object(members_view(members@)),
        }
    }
}

pub(crate) proof fn lemma_items_view(items: Seq<Json>)
    ensures
        items_view(items).len() == items.len(),
        forall|i: int| 0 <= i < items.len() ==> items_view(items)[i] == #[trigger] items[i]@,
    decreases items.len(),
{
    if items.len() > 0 {
        lemma_items_view(items.drop_last());
        assert forall|i: int| 0 <= i < items.len() implies items_view(items)[i]
            == #[trigger] items[i]@ by {
            if i < items.len() - 1 {
                assert(items.drop_last()[i] == items[i]);
            }
        }
    }
}

impl JsonView {
    /// The member of that name, where the document is an object that has one.
    pub open spec fn get(self, key: Seq<char>) -> Option<JsonView> {
        match self {
            JsonView::Object(members) if members.contains_key(key) => Some(members[key]),
            _ => None,
        }
    }

    /// The characters of a text.
    pub open spec fn as_text(self) -> Option<Seq<char>> {
        match self {
            JsonView::Text(text) => Some(text),
            _ => None,
        }
    }

    /// The items of an array.
    pub open spec fn as_items(self) -> Option<Seq<JsonView>> {
        match self {
            JsonView::Array(items) => Some(items),
            _ => None,
        }
    }

    /// The text of a value that names something: a text that is not blank, or
    /// a number in its canonical form.
    pub open spec fn scalar(self) -> Option<Seq<char>> {
        match self {
            JsonView::Text(text) if trimmed(text).len() > 0 => Some(text),
            JsonView::Number(number) => Some(number.text()),
            _ => None,
        }
    }
}

/// The view of a document that may be missing.
pub open spec fn opt_view(value: Option<&Json>) -> Option<JsonView> {
    match value {
        Some(value) => Some(value@),
        None => None,
    }
}

/// The member of that name of a document that may be missing.
pub open spec fn member_of(value: Option<JsonView>, key: Seq<char>) -> Option<JsonView> {
    match value {
        Some(value) => value.get(key),
        None => None,
    }
}

/// The text that a value names, where there is such a value.
pub open spec fn scalar_of(value: Option<JsonView>) -> Option<Seq<char>> {
    match value {
        Some(value) => value.scalar(),
        None => None,
    }
}

/// The characters of a text that may be missing.
pub open spec fn text_of(value: Option<JsonView>) -> Option<Seq<char>> {
    match value {
        Some(value) => value.as_text(),
        None => None,
    }
}

/// What the first of the values that names anything names.
pub open spec fn first_scalar(values: Seq<Option<JsonView>>) -> Option<Seq<char>>
    decreases values.len(),
{
    if values.len() == 0 {
        None
    } else {
        match scalar_of(values[0]) {
            Some(text) => Some(text),
            None => first_scalar(values.skip(1)),
        }
    }
}

/// The views of values that may be missing.
pub open spec fn opt_views(values: Seq<Option<&Json>>) -> Seq<Option<JsonView>> {
    values.map_values(|value: Option<&Json>| opt_view(value))
}

/// The view of a text that may be missing.
pub open spec fn opt_text(text: Option<String>) -> Option<Seq<char>> {
    match text {
        Some(text) => Some(text@),
        None => None,
    }
}

impl Json {
    /// The member of that name, where the document is an object that has one.
    pub fn get(&self, key: &str) -> (r: Option<&Json>)
        ensures
            opt_view(r) == self@.get(key@),
    {
        match self {
            Json::Object(members) => {
                let mut i: usize = members.len();
                assert(members@.take(i as int) =~= members@);
                while i > 0
                    invariant
                        i <= members@.len(),
                        self@ == JsonView::Object(members_view(members@)),
                        members_view(members@).contains_key(key@) == members_view(
                            members@.take(i as int),
                        ).contains_key(key@),
                        members_view(members@).contains_key(key@) ==> members_view(members@)[key@]
                            == members_view(members@.take(i as int))[key@],
                    decreases i,
                {
                    i -= 1;
                    assert(members@.take(i + 1).drop_last() =~= members@.take(i as int));
                    let member = &members[i];
                    if same_text(member.0.as_str(), key) {
                        return Some(&member.1);
                    }
                }
                None
            },
            _ => None,
        }
    }

    /// The characters of a text.
    pub fn as_text(&self) -> (r: Option<&String>)
        ensures
            match r {
                Some(text) => self@.as_text() == Some(text@),
                None => self@.as_text() is None,
            },
    {
        match self {
            Json::Text(text) => Some(text),
            _ => None,
        }
    }

    /// The items of an array.
    pub fn as_items(&self) -> (r: Option<&Vec<Json>>)
        ensures
            match r {
                Some(items) => self@.as_items() == Some(items_view(items@)),
                None => self@.as_items() is None,
            },
    {
        match self {
            Json::Array(items) => Some(items),
            _ => None,
        }
    }

    /// A text.
    pub fn text(text: &str) -> (r: Json)
        ensures
            r@ == JsonView::Text(text@),
    {
        Json::Text(text.to_owned())
    }

    /// A text, or null where there is none.
    pub fn optional_text(text: &Option<String>) -> (r: Json)
        ensures
            r@ == nullable(opt_text(*text)),
    {
        match text {
            Some(text) => Json::Text(text.clone()),
            None => Json::Null,
        }
    }
}

/// A text, or null where there is none.
pub open spec fn nullable(text: Option<Seq<char>>) -> JsonView {
    match text {
        Some(text) => JsonView::Text(text),
        None => JsonView::Null,
    }
}

/// The member of that name of a document that may be missing.
pub fn member<'a>(value: Option<&'a Json>, key: &str) -> (r: Option<&'a Json>)
    ensures
        opt_view(r) == member_of(opt_view(value), key@),
{
    match value {
        Some(value) => value.get(key),
        None => None,
    }
}

/// The characters of a text that may be missing.
pub fn member_text<'a>(value: &'a Json, key: &str) -> (r: Option<&'a String>)
    ensures
        match r {
            Some(text) => text_of(value@.get(key@)) == Some(text@),
            None => text_of(value@.get(key@)) is None,
        },
{
    match value.get(key) {
        Some(value) => value.as_text(),
        None => None,
    }
}

/// The text of a value that names something: a text that is not blank, or a
/// number in its canonical form. Such a text is never blank.
pub fn value_as_string(value: &Json) -> (r: Option<String>)
    ensures
        opt_text(r) == value@.scalar(),
        r matches Some(text) ==> trimmed(text@).len() > 0,
{
    proof {
        if !(value is Float) {
            scalars_are_not_blank(value@);
        }
    }
    match value {
        Json::Text(text) => {
            if is_blank(text.as_str()) {
                None
            } else {
                Some(text.clone())
            }
        },
        Json::Unsigned(n) => Some(decimal_text(*n)),
        Json::Signed(n) => Some(signed_text(*n)),
        Json::Float(number) => Some(number_text(number)),
        _ => None,
    }
}

/// The text that a member names.
pub fn member_as_string(value: &Json, key: &str) -> (r: Option<String>)
    ensures
        opt_text(r) == scalar_of(value@.get(key@)),
        r matches Some(text) ==> trimmed(text@).len() > 0,
{
    match value.get(key) {
        Some(value) => value_as_string(value),
        None => None,
    }
}

/// What the first of the values that names anything names.
pub fn first_string(values: &[Option<&Json>]) -> (r: Option<String>)
    ensures
        opt_text(r) == first_scalar(opt_views(values@)),
{
    let mut i: usize = 0;
    assert(opt_views(values@).skip(0) =~= opt_views(values@));
    while i < values.len()
        invariant
            i <= values@.len(),
            first_scalar(opt_views(values@)) == first_scalar(opt_views(values@).skip(i as int)),
        decreases values@.len() - i,
    {
        let ghost rest = opt_views(values@).skip(i as int);
        assert(rest[0] == opt_view(values@[i as int]));
        assert(rest.skip(1) =~= opt_views(values@).skip(i + 1));
        if let Some(value) = values[i] {
            if let Some(text) = value_as_string(value) {
                return Some(text);
            }
        }
        i += 1;
    }
    None
}

/// What a text or an integer names is never blank.
pub proof fn scalars_are_not_blank(value: JsonView)
    requires
        value matches JsonView::Number(number) ==> !(number is Other),
    ensures
        value.scalar() matches Some(text) ==> trimmed(text).len() > 0,
{
    match value {
        JsonView::Number(NumberView::Unsigned(n)) => {
            decimal_reads_back(n as nat);
            assert(is_digit(decimal(n as nat)[0]));
            lemma_not_blank(decimal(n as nat));
        },
        JsonView::Number(NumberView::Negative(n)) => {
            let text = signed_decimal(n as int);
            if n < 0 {
                assert(text[0] == '-');
            } else {
                decimal_reads_back(n as nat);
                assert(is_digit(text[0]));
            }
            lemma_not_blank(text);
        },
        _ => {},
    }
}

/// An object in the making.
pub struct JsonObject {
    members: Vec<(String, Json)>,
}

impl View for JsonObject {
    type V = Map<Seq<char>, JsonView>;

    closed spec fn view(&self) -> Map<Seq<char>, JsonView> {
        members_view(self.members@)
    }
}

impl JsonObject {
    /// An object without members.
    pub fn new() -> (r: JsonObject)
        ensures
            r@ == Map::<Seq<char>, JsonView>::empty(),
    {
        JsonObject { members: Vec::new() }
    }

    /// The object with one member more.
    pub fn with(self, key: &str, value: Json) -> (r: JsonObject)
        ensures
            r@ == self@.insert(key@, value@),
    {
        let mut members = self.members;
        let ghost before = members@;
        members.push((key.to_owned(), value));
        assert(members@.drop_last() =~= before);
        JsonObject { members }
    }

    /// The object as a document.
    pub fn build(self) -> (r: Json)
        ensures
            r@ == JsonView::Object(self@),
    {
        Json::Object(self.members)
    }
}

} // verus!
