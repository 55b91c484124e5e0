//! JSON documents as plain values, and the outside reader and writer.

use vstd::prelude::*;

use crate::text::{owned, same};

verus! {

/// `serde_json::Number`, carried through unread.
#[verifier::external_type_specification]
#[verifier::external_body]
pub struct ExJsonNumber(serde_json::Number);

/// `serde_json::Value`, the outside document tree.
#[verifier::external_type_specification]
#[verifier::external_body]
pub struct ExJsonValue(serde_json::Value);

/// `serde_json::Error`, what a failed read reports.
#[verifier::external_type_specification]
#[verifier::external_body]
pub struct ExJsonError(serde_json::Error);

/// `serde_json::Number::clone`: the clone is the same number.
pub assume_specification[ <serde_json::Number as Clone>::clone ](
    n: &serde_json::Number,
) -> (r: serde_json::Number)
    ensures
        r == *n,
;

/// `serde_json::Number::as_u64`: the number as an unsigned integer, where it is
/// one. Which numbers are is left to the outside crate.
pub assume_specification[ serde_json::Number::as_u64 ](n: &serde_json::Number) -> (r: Option<u64>)
    ensures
        r == json_unsigned(*n),
;

/// A JSON document.
#[derive(Debug, PartialEq, Eq)]
pub enum Json {
    Null,
    Bool(bool),
    Number(serde_json::Number),
    Text(String),
    Array(Vec<Json>),
    Object(Vec<(String, Json)>),
}

/// What a [`Json`] says. The fields of an object have no order.
pub enum JsonView {
    Null,
    Bool(bool),
    Number(serde_json::Number),
    Text(Seq<char>),
    Array(Seq<JsonView>),
    Object(Map<Seq<char>, JsonView>),
}

/// The map a list of fields stands for: the last field of a name counts.
pub open spec fn field_map(fields: Seq<(Seq<char>, JsonView)>) -> Map<Seq<char>, JsonView>
    decreases fields.len(),
{
    if fields.len() == 0 {
        Map::empty()
    } else {
        field_map(fields.drop_last()).insert(fields.last().0, fields.last().1)
    }
}

/// What a document says.
pub open spec fn json_view(j: Json) -> JsonView
    decreases j,
{
    match j {
        Json::Null => JsonView::Null,
        Json::Bool(b) => JsonView::Bool(b),
        Json::Number(n) => JsonView::Number(n),
        Json::Text(s) => JsonView::Text(s@),
        Json::Array(items) => JsonView::Array(
            Seq::new(
                items@.len(),
                |i: int|
                    if 0 <= i < items@.len() {
                        json_view(items@[i])
                    } else {
                        JsonView::Null
                    },
            ),
        ),
        Json::Object(fields) => JsonView::Object(field_map(fields_view(fields@))),
    }
}

/// The values of a list of fields.
pub open spec fn fields_view(fields: Seq<(String, Json)>) -> Seq<(Seq<char>, JsonView)>
    decreases fields,
{
    Seq::new(
        fields.len(),
        |i: int|
            if 0 <= i < fields.len() {
                (fields[i].0@, json_view(fields[i].1))
            } else {
                (Seq::empty(), JsonView::Null)
            },
    )
}

impl View for Json {
    type V = JsonView;

    open spec fn view(&self) -> JsonView {
        json_view(*self)
    }
}

/// The values of a list of documents.
pub open spec fn jsons_view(v: Seq<Json>) -> Seq<JsonView> {
    v.map_values(|j: Json| j@)
}

/// The value of an optional document.
pub open spec fn json_opt(v: Option<Json>) -> Option<JsonView> {
    match v {
        Some(j) => Some(j@),
        None => None,
    }
}

/// The last field called `key`, if any, is what the map holds under `key`.
pub proof fn lemma_field_map(fields: Seq<(Seq<char>, JsonView)>, key: Seq<char>, at: int)
    requires
        0 <= at < fields.len(),
        fields[at].0 == key,
        forall|k: int| at < k < fields.len() ==> (#[trigger] fields[k]).0 != key,
    ensures
        field_map(fields).contains_key(key),
        field_map(fields)[key] == fields[at].1,
    decreases fields.len(),
{
    if at < fields.len() - 1 {
        assert(fields[fields.len() - 1].0 != key);
        lemma_field_map(fields.drop_last(), key, at);
    }
}

/// A name no field has is not in the map.
pub proof fn lemma_field_map_absent(fields: Seq<(Seq<char>, JsonView)>, key: Seq<char>)
    requires
        forall|k: int| 0 <= k < fields.len() ==> (#[trigger] fields[k]).0 != key,
    ensures
        !field_map(fields).contains_key(key),
    decreases fields.len(),
{
    if fields.len() > 0 {
        assert(fields[fields.len() - 1].0 != key);
        lemma_field_map_absent(fields.drop_last(), key);
    }
}

impl JsonView {
    /// The field called `key` of an object.
    pub open spec fn field(self, key: Seq<char>) -> Option<JsonView> {
        match self {
            JsonView::Object(fields) => if fields.contains_key(key) {
                Some(fields[key])
            } else {
                None
            },
            _ => None,
        }
    }

    /// The document as an unsigned integer.
    pub open spec fn unsigned(self) -> Option<u64> {
        match self {
            JsonView::Number(n) => json_unsigned(n),
            _ => None,
        }
    }
}

impl Json {
    /// The field called `key` of an object.
    pub fn get(&self, key: &str) -> (r: Option<&Json>)
        ensures
            match r {
                Some(j) => self@.field(key@) == Some(j@),
                None => self@.field(key@) is None,
            },
    {
        match self {
            Json::Object(fields) => {
                let ghost all = fields_view(fields@);
                let mut i: usize = fields.len();
                while i > 0
                    invariant
                        i <= fields@.len(),
                        all == fields_view(fields@),
                        self@ == JsonView::Object(field_map(all)),
                        forall|k: int| i <= k < fields@.len() ==> (#[trigger] all[k]).0 != key@,
                    decreases i,
                {
                    i = i - 1;
                    assert(all[i as int] == (fields@[i as int].0@, fields@[i as int].1@));
                    if same(fields[i].0.as_str(), key) {
                        proof {
                            lemma_field_map(all, key@, i as int);
                        }
                        return Some(&fields[i].1);
                    }
                }
                proof {
                    lemma_field_map_absent(all, key@);
                }
                None
            },
            _ => None,
        }
    }

    /// The document as an unsigned integer.
    pub fn as_u64(&self) -> (r: Option<u64>)
        ensures
            r == self@.unsigned(),
    {
        match self {
            Json::Number(n) => n.as_u64(),
            _ => None,
        }
    }

    /// The document as text.
    pub fn as_str(&self) -> (r: Option<&str>)
        ensures
            match r {
                Some(s) => self@ == JsonView::Text(s@),
                None => !(self@ is Text),
            },
    {
        match self {
            Json::Text(s) => Some(s.as_str()),
            _ => None,
        }
    }

    /// A text document.
    pub fn text(s: &str) -> (r: Json)
        ensures
            r@ == JsonView::Text(s@),
    {
        Json::Text(owned(s))
    }

    /// A copy of this document.
    pub fn copy(&self) -> (r: Json)
        ensures
            r@ == self@,
        decreases self,
    {
        match self {
            Json::Null => Json::Null,
            Json::Bool(b) => Json::Bool(*b),
            Json::Number(n) => Json::Number(n.clone()),
            Json::Text(s) => Json::Text(s.clone()),
            Json::Array(items) => {
                let mut out: Vec<Json> = Vec::new();
                for i in 0..items.len()
                    invariant
                        out@.len() == i,
                        decreases_to!(self => items),
                        forall|k: int| 0 <= k < i ==> (#[trigger] out@[k])@ == items@[k]@,
                {
                    out.push(items[i].copy());
                }
                let r = Json::Array(out);
                assert(r@->Array_0 =~= self@->Array_0);
                r
            },
            Json::Object(fields) => {
                let mut out: Vec<(String, Json)> = Vec::new();
                for i in 0..fields.len()
                    invariant
                        out@.len() == i,
                        decreases_to!(self => fields),
                        forall|k: int|
                            0 <= k < i ==> (#[trigger] out@[k]).0@ == fields@[k].0@ && out@[k].1@
                                == fields@[k].1@,
                {
                    assert(decreases_to!(self => fields@[i as int]));
                    out.push((fields[i].0.clone(), fields[i].1.copy()));
                }
                proof {
                    assert(fields_view(out@) =~= fields_view(fields@));
                }
                Json::Object(out)
            },
        }
    }
}

// ---------------------------------------------------------------------------
// The outside reader and writer
// ---------------------------------------------------------------------------

/// What an outside document holds.
pub uninterp spec fn json_contents(v: serde_json::Value) -> JsonView;

/// What an outside number is as an unsigned integer.
pub uninterp spec fn json_unsigned(n: serde_json::Number) -> Option<u64>;

/// What a text reads as, or why it does not read.
pub uninterp spec fn json_document(text: Seq<char>) -> Result<JsonView, Seq<char>>;

/// The compact rendering of a document.
pub uninterp spec fn json_text(v: JsonView) -> Seq<char>;

/// The indented rendering of a document, or `None` where the writer refuses it.
pub uninterp spec fn json_pretty_text(v: JsonView) -> Option<Seq<char>>;

/// The message of a failed read or write.
pub uninterp spec fn json_error_text(e: serde_json::Error) -> Seq<char>;

/// `serde_json::from_str` into `serde_json::Value`: what a text reads as, or
/// the error, is a function of the text. Which texts read, and as what, is left
/// to the outside crate.
#[verifier::external_body]
fn json_parse(text: &str) -> (r: Result<serde_json::Value, serde_json::Error>)
    ensures
        match r {
            Ok(v) => json_document(text@) == Ok::<JsonView, Seq<char>>(json_contents(v)),
            Err(e) => json_document(text@) == Err::<JsonView, Seq<char>>(json_error_text(e)),
        },
{
    serde_json::from_str(text)
}

/// The `Display` impl of `serde_json::Error`.
#[verifier::external_body]
fn json_error(e: serde_json::Error) -> (r: String)
    ensures
        r@ == json_error_text(e),
{
    e.to_string()
}

/// Moves a `serde_json::Value` into a [`Json`], variant by variant.
#[verifier::external_body]
fn json_in(v: serde_json::Value) -> (r: Json)
    ensures
        r@ == json_contents(v),
{
    match v {
        serde_json::Value::Null => Json::Null,
        serde_json::Value::Bool(b) => Json::Bool(b),
        serde_json::Value::Number(n) => Json::Number(n),
        serde_json::Value::String(s) => Json::Text(s),
        serde_json::Value::Array(a) => Json::Array(a.into_iter().map(json_in).collect()),
        serde_json::Value::Object(m) => {
            Json::Object(m.into_iter().map(|(k, v)| (k, json_in(v))).collect())
        }
    }
}

/// Moves a [`Json`] into a `serde_json::Value`, variant by variant. Of two
/// fields with one name the later counts, as `serde_json::Map::insert` has it.
#[verifier::external_body]
fn json_out(v: &Json) -> (r: serde_json::Value)
    ensures
        json_contents(r) == v@,
{
    match v {
        Json::Null => serde_json::Value::Null,
        Json::Bool(b) => serde_json::Value::Bool(*b),
        Json::Number(n) => serde_json::Value::Number(n.clone()),
        Json::Text(s) => serde_json::Value::String(s.clone()),
        Json::Array(a) => serde_json::Value::Array(a.iter().map(json_out).collect()),
        Json::Object(fields) => {
            serde_json::Value::Object(fields.iter().map(|(k, v)| (k.clone(), json_out(v))).collect())
        }
    }
}

/// The `Display` impl of `serde_json::Value`: the compact rendering, a function
/// of what the document holds.
#[verifier::external_body]
fn json_display(v: &serde_json::Value) -> (r: String)
    ensures
        r@ == json_text(json_contents(*v)),
{
    v.to_string()
}

/// Whether a document is a table: an object of objects of texts.
pub open spec fn tabular(v: JsonView) -> bool {
    &&& v is Object
    &&& forall|k: Seq<char>| #[trigger]
        v->Object_0.contains_key(k) ==> v->Object_0[k] is Object && forall|f: Seq<char>|
            v->Object_0[k]->Object_0.contains_key(f) ==> (
            #[trigger] v->Object_0[k]->Object_0[f]) is Text
}

/// Whether a text is an object that reads as `v`.
pub open spec fn reads_back(text: Seq<char>, v: JsonView) -> bool {
    &&& text.len() > 0
    &&& text[0] == '{'
    &&& json_document(text) == Ok::<JsonView, Seq<char>>(v)
}

/// `serde_json::to_string_pretty`: the indented rendering is a function of what
/// the document holds. A table is always written, as an object, and reads back
/// as it was.
#[verifier::external_body]
fn json_pretty(v: &serde_json::Value) -> (r: Result<String, serde_json::Error>)
    ensures
        match r {
            Ok(s) => json_pretty_text(json_contents(*v)) == Some(s@),
            Err(_) => json_pretty_text(json_contents(*v)) is None,
        },
        tabular(json_contents(*v)) ==> r is Ok && reads_back(r->Ok_0@, json_contents(*v)),
{
    serde_json::to_string_pretty(v)
}

impl Json {
    /// Read a document.
    pub fn parse(text: &str) -> (r: Result<Json, String>)
        ensures
            match r {
                Ok(j) => json_document(text@) == Ok::<JsonView, Seq<char>>(j@),
                Err(e) => json_document(text@) == Err::<JsonView, Seq<char>>(e@),
            },
    {
        match json_parse(text) {
            Ok(v) => Ok(json_in(v)),
            Err(e) => Err(json_error(e)),
        }
    }

    /// The compact rendering.
    pub fn render(&self) -> (r: String)
        ensures
            r@ == json_text(self@),
    {
        let v = json_out(self);
        json_display(&v)
    }

    /// The indented rendering. A table is always written, and reads back as it
    /// was.
    pub fn render_pretty(&self) -> (r: Result<String, String>)
        ensures
            match r {
                Ok(s) => json_pretty_text(self@) == Some(s@),
                Err(_) => json_pretty_text(self@) is None,
            },
            tabular(self@) ==> r is Ok && reads_back(r->Ok_0@, self@),
    {
        let v = json_out(self);
        match json_pretty(&v) {
            Ok(s) => Ok(s),
            Err(e) => Err(json_error(e)),
        }
    }
}

} // verus!
