use vstd::prelude::*;

verus! {

/// The text that a JSON document holds under `key`: `Some` when `body` is one
/// JSON document, that document is an object, and the member `key` is a string.
pub uninterp spec fn json_string_member(body: Seq<char>, key: Seq<char>) -> Option<Seq<char>>;

/// Reads the string member `key` of the JSON object in `body`.
///
/// Calls `serde_json::from_str` for a `serde_json::Value`, then `Value::get`
/// with the key and `Value::as_str` on what it finds. The contract claims only
/// that the answer is the one named by [`json_string_member`], a function of the
/// two texts; a body that does not parse gives `None`.
#[verifier::external_body]
pub(crate) fn string_member(body: &str, key: &str) -> (member: Option<String>)
    ensures
        crate::error::text_option(member) == json_string_member(body@, key@),
{
    match serde_json::from_str::<serde_json::Value>(body) {
        Ok(document) => match document.get(key) {
            Some(value) => match value.as_str() {
                Some(text) => Some(text.to_string()),
                None => None,
            },
            None => None,
        },
        Err(_) => None,
    }
}

/// The value of one member of a JSON object that the library sends.
#[derive(Debug, Clone, PartialEq, Eq)]
pub enum JsonMember {
    /// A string.
    Text(String),
    /// An array of strings.
    TextList(Vec<String>),
}

/// The mathematical value of a [`JsonMember`].
pub enum JsonMemberView {
    Text(Seq<char>),
    TextList(Seq<Seq<char>>),
}

impl View for JsonMember {
    type V = JsonMemberView;

    open spec fn view(&self) -> JsonMemberView {
        match *self {
            JsonMember::Text(text) => JsonMemberView::Text(text@),
            JsonMember::TextList(texts) => JsonMemberView::TextList(
                texts@.map_values(|t: String| t@),
            ),
        }
    }
}

/// One member of a JSON object that the library sends: its key and value.
#[derive(Debug, Clone, PartialEq, Eq)]
pub struct JsonField {
    pub key: String,
    pub value: JsonMember,
}

impl View for JsonField {
    type V = (Seq<char>, JsonMemberView);

    open spec fn view(&self) -> (Seq<char>, JsonMemberView) {
        (self.key@, self.value@)
    }
}

/// The text of the JSON object with the members `fields`.
pub uninterp spec fn json_object_text(fields: Seq<(Seq<char>, JsonMemberView)>) -> Seq<char>;

/// Writes the JSON object with the members `fields` as text.
///
/// Puts each member into a `serde_json::Map` with `Map::insert`, a text as
/// `Value::String` and a list as `Value::Array` of such, and renders
/// `Value::Object` of that map with its `to_string`. The contract claims only
/// that the text is the one named by [`json_object_text`], a function of the
/// members.
#[verifier::external_body]
pub(crate) fn render_object(fields: &Vec<JsonField>) -> (text: String)
    ensures
        text@ == json_object_text(fields@.map_values(|f: JsonField| f@)),
{
    let mut object = serde_json::Map::new();
    for field in fields.iter() {
        let value = match &field.value {
            JsonMember::Text(text) => serde_json::Value::String(text.clone()),
            JsonMember::TextList(texts) => serde_json::Value::Array(
                texts.iter().map(|t| serde_json::Value::String(t.clone())).collect(),
            ),
        };
        object.insert(field.key.clone(), value);
    }
    serde_json::Value::Object(object).to_string()
}

} // verus!
