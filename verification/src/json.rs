//! JSON documents, as far as settings and release notices need them.

use vstd::prelude::*;

use crate::text::same_text;

verus! {

/// A value inside a document.
#[derive(Debug, PartialEq, Eq)]
pub enum JsonValue {
    Bool(bool),
    /// A whole number from zero up.
    Unsigned(u64),
    Text(String),
    /// Anything else.
    Other,
}

/// A value as plain mathematical values.
#[verifier::ext_equal]
pub enum JsonValueView {
    Bool(bool),
    Unsigned(u64),
    Text(Seq<char>),
    Other,
}

impl View for JsonValue {
    type V = JsonValueView;

    open spec fn view(&self) -> JsonValueView {
        match self {
            JsonValue::Bool(b) => JsonValueView::Bool(*b),
            JsonValue::Unsigned(n) => JsonValueView::Unsigned(*n),
            JsonValue::Text(t) => JsonValueView::Text(t@),
            JsonValue::Other => JsonValueView::Other,
        }
    }
}

/// A member of an object.
#[derive(Debug, PartialEq, Eq)]
pub struct JsonField {
    pub key: String,
    pub value: JsonValue,
}

/// A member as plain mathematical values.
#[verifier::ext_equal]
pub struct JsonFieldView {
    pub key: Seq<char>,
    pub value: JsonValueView,
}

impl View for JsonField {
    type V = JsonFieldView;

    open spec fn view(&self) -> JsonFieldView {
        JsonFieldView { key: self.key@, value: self.value@ }
    }
}

/// The members of an object.
pub open spec fn field_views(list: Seq<JsonField>) -> Seq<JsonFieldView> {
    Seq::new(list.len(), |i: int| list[i]@)
}

/// A document.
#[derive(Debug, PartialEq, Eq)]
pub enum JsonDocument {
    /// An object with these members.
    Object(Vec<JsonField>),
    /// Anything else.
    Other,
}

/// A document as plain mathematical values.
#[verifier::ext_equal]
pub enum JsonDocumentView {
    Object(Seq<JsonFieldView>),
    Other,
}

impl View for JsonDocument {
    type V = JsonDocumentView;

    open spec fn view(&self) -> JsonDocumentView {
        match self {
            JsonDocument::Object(fields) => JsonDocumentView::Object(field_views(fields@)),
            JsonDocument::Other => JsonDocumentView::Other,
        }
    }
}

/// The document that a text holds, or why it holds none.
pub uninterp spec fn json_document(text: Seq<char>) -> Result<JsonDocumentView, Seq<char>>;

/// What came of parsing, as plain mathematical values.
pub open spec fn parsed_view(r: Result<JsonDocument, String>) -> Result<JsonDocumentView, Seq<char>> {
    match r {
        Ok(document) => Ok(document@),
        Err(e) => Err(e@),
    }
}

/// `serde_json::from_str` into a `serde_json::Value`. Claims that the outcome
/// depends on the text alone. The members of an object come in the order in which
/// `serde_json::Map` hands them out; nothing is said of the grammar, nor of the
/// wording of an error.
#[verifier::external_body]
pub(crate) fn parse_json(text: &str) -> (r: Result<JsonDocument, String>)
    ensures
        parsed_view(r) == json_document(text@),
{
    let object = match serde_json::from_str(text).map_err(|e: serde_json::Error| e.to_string())? {
        serde_json::Value::Object(object) => object,
        _ => return Ok(JsonDocument::Other),
    };
    let mut fields: Vec<JsonField> = Vec::new();
    for (key, value) in object {
        let value = match value {
            serde_json::Value::Bool(b) => JsonValue::Bool(b),
            serde_json::Value::Number(n) => n.as_u64().map_or(JsonValue::Other, JsonValue::Unsigned),
            serde_json::Value::String(s) => JsonValue::Text(s),
            _ => JsonValue::Other,
        };
        fields.push(JsonField { key, value });
    }
    Ok(JsonDocument::Object(fields))
}

/// The value of the first member with that key.
pub open spec fn value_of(fields: Seq<JsonFieldView>, key: Seq<char>) -> Option<JsonValueView>
    decreases fields.len(),
{
    if fields.len() == 0 {
        None
    } else if fields[0].key == key {
        Some(fields[0].value)
    } else {
        value_of(fields.drop_first(), key)
    }
}

/// The text under a key of a document, where the document is an object and
/// holds a text there.
pub open spec fn text_under(document: JsonDocumentView, key: Seq<char>) -> Option<Seq<char>> {
    match document {
        JsonDocumentView::Object(fields) => match value_of(fields, key) {
            Some(JsonValueView::Text(t)) => Some(t),
            _ => None,
        },
        JsonDocumentView::Other => None,
    }
}

/// Looks up the text under a key of a document.
pub fn text_field(document: &JsonDocument, key: &str) -> (r: Option<String>)
    ensures
        match text_under(document@, key@) {
            Some(t) => r is Some && r->0@ == t,
            None => r is None,
        },
{
    match document {
        JsonDocument::Object(fields) => {
            let ghost all = field_views(fields@);
            let mut i: usize = 0;
            assert(all.skip(0) =~= all);
            while i < fields.len()
                invariant
                    i <= fields@.len(),
                    all == field_views(fields@),
                    document@ == JsonDocumentView::Object(all),
                    value_of(all.skip(i as int), key@) == value_of(all, key@),
                decreases fields@.len() - i,
            {
                assert(all.skip(i as int)[0] == fields@[i as int]@);
                assert(all.skip(i as int).drop_first() =~= all.skip(i + 1));
                if same_text(fields[i].key.as_str(), key) {
                    assert(value_of(all, key@) == Some(fields@[i as int].value@));
                    return match &fields[i].value {
                        JsonValue::Text(t) => Some(t.clone()),
                        _ => None,
                    };
                }
                i = i + 1;
            }
            None
        },
        JsonDocument::Other => None,
    }
}

/// Of the members with a key the first one counts, and a text is found just where
/// that one holds a text.
pub proof fn the_first_member_counts(fields: Seq<JsonFieldView>, key: Seq<char>, i: int)
    requires
        0 <= i < fields.len(),
        fields[i].key == key,
        forall|j: int| 0 <= j < i ==> (#[trigger] fields[j]).key != key,
    ensures
        value_of(fields, key) == Some(fields[i].value),
        text_under(JsonDocumentView::Object(fields), key) == (match fields[i].value {
            JsonValueView::Text(t) => Some(t),
            _ => None,
        }),
    decreases fields.len(),
{
    if i > 0 {
        let rest = fields.drop_first();
        assert(fields[0].key != key);
        assert forall|j: int| 0 <= j < i - 1 implies (#[trigger] rest[j]).key != key by {
            assert(fields[j + 1].key != key);
        }
        the_first_member_counts(rest, key, i - 1);
    }
}

/// Nothing is found under a key that no member has, nor in what is no object.
pub proof fn a_missing_member_is_not_found(fields: Seq<JsonFieldView>, key: Seq<char>)
    requires
        forall|j: int| 0 <= j < fields.len() ==> (#[trigger] fields[j]).key != key,
    ensures
        value_of(fields, key) is None,
        text_under(JsonDocumentView::Object(fields), key) is None,
        text_under(JsonDocumentView::Other, key) is None,
    decreases fields.len(),
{
    if fields.len() > 0 {
        let rest = fields.drop_first();
        assert(fields[0].key != key);
        assert forall|j: int| 0 <= j < rest.len() implies (#[trigger] rest[j]).key != key by {
            assert(fields[j + 1].key != key);
        }
        a_missing_member_is_not_found(rest, key);
    }
}

} // verus!
