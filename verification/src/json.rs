use vstd::prelude::*;

verus! {

/// A JSON document, as far as the version lists read it. A number holds its value
/// when it is an integer that fits `i64`, and nothing otherwise; an object holds its
/// members in the order in which they are iterated.
#[derive(Debug)]
pub enum JsonValue {
    Null,
    Bool(bool),
    Number(Option<i64>),
    String(String),
    Array(Vec<JsonValue>),
    Object(Vec<JsonMember>),
}

/// A member of a JSON object.
#[derive(Debug)]
pub struct JsonMember {
    pub key: String,
    pub value: JsonValue,
}

/// A member of a JSON object, as plain values.
pub struct JsonMemberView {
    pub key: Seq<char>,
    pub value: JsonValueView,
}

/// A JSON value as plain values.
pub enum JsonValueView {
    Null,
    Bool(bool),
    Number(Option<i64>),
    String(Seq<char>),
    Array(Seq<JsonValueView>),
    Object(Seq<JsonMemberView>),
}

pub open spec fn json_view(v: JsonValue) -> JsonValueView
    decreases v,
{
    match v {
        JsonValue::Null => JsonValueView::Null,
        JsonValue::Bool(b) => JsonValueView::Bool(b),
        JsonValue::Number(n) => JsonValueView::Number(n),
        JsonValue::String(s) => JsonValueView::String(s@),
        JsonValue::Array(items) => JsonValueView::Array(items_view(items@)),
        JsonValue::Object(members) => JsonValueView::Object(members_view(members@)),
    }
}

pub open spec fn items_view(s: Seq<JsonValue>) -> Seq<JsonValueView>
    decreases s,
{
    if s.len() == 0 {
        Seq::empty()
    } else {
        items_view(s.drop_last()).push(json_view(s.last()))
    }
}

pub open spec fn members_view(s: Seq<JsonMember>) -> Seq<JsonMemberView>
    decreases s,
{
    if s.len() == 0 {
        Seq::empty()
    } else {
        members_view(s.drop_last()).push(
            JsonMemberView { key: s.last().key@, value: json_view(s.last().value) },
        )
    }
}

impl View for JsonValue {
    type V = JsonValueView;

    open spec fn view(&self) -> JsonValueView {
        json_view(*self)
    }
}

pub proof fn lemma_items_view(s: Seq<JsonValue>)
    ensures
        items_view(s).len() == s.len(),
        forall|i: int| 0 <= i < s.len() ==> #[trigger] items_view(s)[i] == s[i]@,
    decreases s.len(),
{
    if s.len() > 0 {
        lemma_items_view(s.drop_last());
        assert forall|i: int| 0 <= i < s.len() implies #[trigger] items_view(s)[i] == s[i]@ by {
            if i < s.len() - 1 {
                assert(s.drop_last()[i] == s[i]);
            }
        }
    }
}

pub proof fn lemma_members_view(s: Seq<JsonMember>)
    ensures
        members_view(s).len() == s.len(),
        forall|i: int|
            0 <= i < s.len() ==> #[trigger] members_view(s)[i] == (JsonMemberView {
                key: s[i].key@,
                value: s[i].value@,
            }),
    decreases s.len(),
{
    if s.len() > 0 {
        lemma_members_view(s.drop_last());
        assert forall|i: int| 0 <= i < s.len() implies #[trigger] members_view(s)[i] == (
        JsonMemberView { key: s[i].key@, value: s[i].value@ }) by {
            if i < s.len() - 1 {
                assert(s.drop_last()[i] == s[i]);
            }
        }
    }
}

pub open spec fn json_as_array(v: JsonValueView) -> Option<Seq<JsonValueView>> {
    match v {
        JsonValueView::Array(items) => Some(items),
        _ => None,
    }
}

pub open spec fn json_as_object(v: JsonValueView) -> Option<Seq<JsonMemberView>> {
    match v {
        JsonValueView::Object(members) => Some(members),
        _ => None,
    }
}

pub open spec fn json_as_str(v: JsonValueView) -> Option<Seq<char>> {
    match v {
        JsonValueView::String(s) => Some(s),
        _ => None,
    }
}

pub open spec fn json_as_i64(v: JsonValueView) -> Option<i64> {
    match v {
        JsonValueView::Number(n) => n,
        _ => None,
    }
}

/// The value of the first member named `key`.
pub open spec fn member_lookup(members: Seq<JsonMemberView>, key: Seq<char>) -> Option<
    JsonValueView,
>
    decreases members.len(),
{
    if members.len() == 0 {
        None
    } else if members[0].key == key {
        Some(members[0].value)
    } else {
        member_lookup(members.drop_first(), key)
    }
}

/// The member `key` of an object; nothing for any other value.
pub open spec fn json_get(v: JsonValueView, key: Seq<char>) -> Option<JsonValueView> {
    match v {
        JsonValueView::Object(members) => member_lookup(members, key),
        _ => None,
    }
}

/// `serde_json::Value`, only handed from the parser to the conversion below.
#[verifier::external_type_specification]
#[verifier::external_body]
pub struct ExSerdeJsonValue(serde_json::Value);

/// The document that `serde_json::from_str` makes of `text`, as plain values
/// (objects in the parser's member order), or nothing when it rejects the text.
pub uninterp spec fn json_document(text: Seq<char>) -> Option<JsonValueView>;

/// Turns a parsed `serde_json::Value` into a `JsonValue`, variant for variant;
/// numbers keep their `as_i64` value.
#[verifier::external_body]
fn json_value_from(v: &serde_json::Value) -> JsonValue {
    match v {
        serde_json::Value::Null => JsonValue::Null,
        serde_json::Value::Bool(b) => JsonValue::Bool(*b),
        serde_json::Value::Number(n) => JsonValue::Number(n.as_i64()),
        serde_json::Value::String(s) => JsonValue::String(s.clone()),
        serde_json::Value::Array(a) => JsonValue::Array(a.iter().map(json_value_from).collect()),
        serde_json::Value::Object(m) => JsonValue::Object(
            m.iter().map(|(k, x)| JsonMember { key: k.clone(), value: json_value_from(x) }).collect(),
        ),
    }
}

/// `serde_json::from_str` into a `serde_json::Value`, handed out as a
/// `JsonValue`. The result is a function of the text alone, left to the name
/// `json_document`.
#[verifier::external_body]
pub(crate) fn parse_json(text: &str) -> (r: std::result::Result<JsonValue, serde_json::Error>)
    ensures
        match r {
            Ok(v) => json_document(text@) == Some(v@),
            Err(_) => json_document(text@) is None,
        },
{
    let v: serde_json::Value = serde_json::from_str(text)?;
    Ok(json_value_from(&v))
}

impl JsonValue {
    pub fn as_array(&self) -> (r: Option<&Vec<JsonValue>>)
        ensures
            match r {
                Some(items) => json_as_array(self@) == Some(items_view(items@)),
                None => json_as_array(self@) is None,
            },
    {
        match self {
            JsonValue::Array(items) => Some(items),
            _ => None,
        }
    }

    pub fn as_object(&self) -> (r: Option<&Vec<JsonMember>>)
        ensures
            match r {
                Some(members) => json_as_object(self@) == Some(members_view(members@)),
                None => json_as_object(self@) is None,
            },
    {
        match self {
            JsonValue::Object(members) => Some(members),
            _ => None,
        }
    }

    pub fn as_str(&self) -> (r: Option<&str>)
        ensures
            match r {
                Some(s) => json_as_str(self@) == Some(s@),
                None => json_as_str(self@) is None,
            },
    {
        match self {
            JsonValue::String(s) => Some(s.as_str()),
            _ => None,
        }
    }

    pub fn as_i64(&self) -> (r: Option<i64>)
        ensures
            r == json_as_i64(self@),
    {
        match self {
            JsonValue::Number(n) => *n,
            _ => None,
        }
    }

    /// The member `key` of an object.
    pub fn get(&self, key: &str) -> (r: Option<&JsonValue>)
        ensures
            match r {
                Some(v) => json_get(self@, key@) == Some(v@),
                None => json_get(self@, key@) is None,
            },
    {
        match self {
            JsonValue::Object(members) => {
                let ghost ms = members_view(members@);
                proof {
                    lemma_members_view(members@);
                }
                let mut i: usize = 0;
                assert(ms.skip(0) =~= ms);
                while i < members.len()
                    invariant
                        i <= members@.len(),
                        ms == members_view(members@),
                        ms.len() == members@.len(),
                        forall|k: int|
                            0 <= k < members@.len() ==> #[trigger] ms[k] == (JsonMemberView {
                                key: members@[k].key@,
                                value: members@[k].value@,
                            }),
                        json_as_object(self@) == Some(ms),
                        member_lookup(ms, key@) == member_lookup(ms.skip(i as int), key@),
                    decreases members@.len() - i,
                {
                    assert(ms.skip(i as int).drop_first() =~= ms.skip(i + 1));
                    assert(ms.skip(i as int)[0] == ms[i as int]);
                    if crate::text::str_eq(members[i].key.as_str(), key) {
                        return Some(&members[i].value);
                    }
                    i = i + 1;
                }
                assert(ms.skip(i as int) =~= Seq::<JsonMemberView>::empty());
                None
            },
            _ => None,
        }
    }
}

} // verus!
