//! The generic JSON value model.
//!
//! Values are parsed out of byte text by serde_json behind a small trusted
//! boundary; everything that is done with them afterwards is verified. A JSON
//! number is carried as its decimal text (the textual rendering serde_json
//! gives it): the logic never does arithmetic on numbers, it only moves them
//! towards the store, where they are coerced to 64-bit floating point. An
//! integer too large for exact double representation loses precision at that
//! coercion; that is an accepted limitation of the store's number model.

use vstd::prelude::*;

verus! {

broadcast use vstd::seq::axiom_seq_index_decreases;

/// A generic JSON value: the shape user input takes before it is converted
/// into the document-store value model.
#[derive(Debug, PartialEq)]
pub enum JsonValue {
    Null,
    Bool(bool),
    /// A number, as decimal text.
    Number(String),
    Str(String),
    Array(Vec<JsonValue>),
    /// An object: keys with values, in the order serde_json yields them.
    Object(Vec<(String, JsonValue)>),
}

/// The mathematical model of a JSON value.
#[verifier::ext_equal]
pub enum JsonModel {
    Null,
    Bool(bool),
    Number(Seq<char>),
    Str(Seq<char>),
    Array(Seq<JsonModel>),
    Object(Seq<(Seq<char>, JsonModel)>),
}

pub open spec fn jv_view(v: JsonValue) -> JsonModel
    decreases v,
{
    match v {
        JsonValue::Null => JsonModel::Null,
        JsonValue::Bool(b) => JsonModel::Bool(b),
        JsonValue::Number(n) => JsonModel::Number(n@),
        JsonValue::Str(s) => JsonModel::Str(s@),
        JsonValue::Array(elems) => JsonModel::Array(jv_seq_view(elems@)),
        JsonValue::Object(fields) => JsonModel::Object(jv_obj_view(fields@)),
    }
}

pub open spec fn jv_seq_view(s: Seq<JsonValue>) -> Seq<JsonModel>
    decreases s,
{
    if s.len() == 0 {
        Seq::empty()
    } else {
        seq![jv_view(s[0])] + jv_seq_view(s.drop_first())
    }
}

pub open spec fn jv_obj_view(s: Seq<(String, JsonValue)>) -> Seq<(Seq<char>, JsonModel)>
    decreases s,
{
    if s.len() == 0 {
        Seq::empty()
    } else {
        seq![(s[0].0@, jv_view(s[0].1))] + jv_obj_view(s.drop_first())
    }
}

impl View for JsonValue {
    type V = JsonModel;

    open spec fn view(&self) -> JsonModel {
        jv_view(*self)
    }
}

pub proof fn lemma_jv_seq_view(s: Seq<JsonValue>)
    ensures
        jv_seq_view(s).len() == s.len(),
        forall|i: int| 0 <= i < s.len() ==> jv_seq_view(s)[i] == jv_view(s[i]),
    decreases s.len(),
{
    if s.len() > 0 {
        lemma_jv_seq_view(s.drop_first());
    }
}

pub proof fn lemma_jv_obj_view(s: Seq<(String, JsonValue)>)
    ensures
        jv_obj_view(s).len() == s.len(),
        forall|i: int| 0 <= i < s.len() ==> jv_obj_view(s)[i] == (s[i].0@, jv_view(s[i].1)),
    decreases s.len(),
{
    if s.len() > 0 {
        lemma_jv_obj_view(s.drop_first());
    }
}

pub proof fn lemma_jv_seq_view_concat(a: Seq<JsonValue>, b: Seq<JsonValue>)
    ensures
        jv_seq_view(a + b) == jv_seq_view(a) + jv_seq_view(b),
    decreases a.len(),
{
    if a.len() == 0 {
        assert(a + b =~= b);
        assert(jv_seq_view(a) + jv_seq_view(b) =~= jv_seq_view(b));
    } else {
        lemma_jv_seq_view_concat(a.drop_first(), b);
        assert((a + b).drop_first() =~= a.drop_first() + b);
        assert(jv_seq_view(a + b) =~= jv_seq_view(a) + jv_seq_view(b));
    }
}

// ------------------------------------------------------------------
// The trusted boundary towards serde_json.
// ------------------------------------------------------------------

#[verifier::external_type_specification]
#[verifier::external_body]
pub struct ExValue(serde_json::Value);

/// The library's reading of a serde_json value tree.
pub uninterp spec fn serde_value_model(v: serde_json::Value) -> JsonModel;

/// What serde_json's stream deserializer yields on a whole byte text: the
/// sequence of its top-level JSON values, or nothing if the text is malformed.
pub uninterp spec fn json_stream_model(s: Seq<u8>) -> Option<Seq<JsonModel>>;

/// Relies on serde_json's `StreamDeserializer`: it reads the top-level JSON
/// values of the byte text one after the other until the text is exhausted,
/// and fails on the first malformed value. The error text is serde_json's own
/// and is surfaced verbatim.
#[verifier::external_body]
fn read_json_stream(bytes: &[u8]) -> (r: Result<Vec<serde_json::Value>, String>)
    ensures
        r is Ok <==> json_stream_model(bytes@) is Some,
        r matches Ok(vs) ==> Some(
            vs@.map_values(|v: serde_json::Value| serde_value_model(v)),
        ) == json_stream_model(bytes@),
{
    let mut out = Vec::new();
    for item in serde_json::Deserializer::from_slice(bytes).into_iter::<serde_json::Value>() {
        match item {
            Ok(v) => out.push(v),
            Err(e) => {
                return Err(e.to_string());
            },
        }
    }
    Ok(out)
}

/// Relies on serde_json's value enum being the finite tagged tree its
/// documentation describes: each variant is rendered into the corresponding
/// variant of the library's value type, numbers by serde_json's own decimal
/// rendering of them.
#[verifier::external_body]
fn render_value(v: &serde_json::Value) -> (r: JsonValue)
    ensures
        r@ == serde_value_model(*v),
{
    match v {
        serde_json::Value::Null => JsonValue::Null,
        serde_json::Value::Bool(b) => JsonValue::Bool(*b),
        serde_json::Value::Number(n) => JsonValue::Number(n.to_string()),
        serde_json::Value::String(s) => JsonValue::Str(s.clone()),
        serde_json::Value::Array(a) => JsonValue::Array(a.iter().map(render_value).collect()),
        serde_json::Value::Object(o) => JsonValue::Object(
            o.iter().map(|(k, x)| (k.clone(), render_value(x))).collect(),
        ),
    }
}

// ------------------------------------------------------------------
// The streaming document ingester.
// ------------------------------------------------------------------

/// One step of batch normalization: a top-level array contributes its
/// elements, any other value contributes itself.
pub open spec fn expand_element(v: JsonModel) -> Seq<JsonModel> {
    match v {
        JsonModel::Array(elems) => elems,
        other => seq![other],
    }
}

/// Batch normalization over a whole stream of top-level values: arrays are
/// flattened by one level, everything else is kept as a single element.
pub open spec fn flatten_stream(s: Seq<JsonModel>) -> Seq<JsonModel>
    decreases s.len(),
{
    if s.len() == 0 {
        Seq::empty()
    } else {
        flatten_stream(s.drop_last()) + expand_element(s.last())
    }
}

/// Ingests a byte text assumed to hold UTF-8 JSON and yields the batch: the
/// ordered sequence of its top-level values, with top-level arrays flattened
/// by one level. A single object, an array of objects and a newline-delimited
/// stream of either all normalize to one flat batch. A single malformed
/// top-level value fails the whole ingestion.
pub fn create_values_from_reader(bytes: &[u8]) -> (r: Result<Vec<JsonValue>, String>)
    ensures
        r is Ok <==> json_stream_model(bytes@) is Some,
        r matches Ok(batch) ==> json_stream_model(bytes@) matches Some(stream) && jv_seq_view(
            batch@,
        ) == flatten_stream(stream),
{
    let vals = match read_json_stream(bytes) {
        Ok(v) => v,
        Err(e) => {
            return Err(e);
        },
    };
    let ghost stream = json_stream_model(bytes@)->Some_0;
    let mut batch: Vec<JsonValue> = Vec::new();
    let mut i: usize = 0;
    while i < vals.len()
        invariant
            i <= vals.len(),
            Some(vals@.map_values(|v: serde_json::Value| serde_value_model(v))) == json_stream_model(
                bytes@,
            ),
            stream == json_stream_model(bytes@)->Some_0,
            jv_seq_view(batch@) == flatten_stream(stream.take(i as int)),
        decreases vals@.len() - i,
    {
        let jv = render_value(&vals[i]);
        proof {
            assert(stream[i as int] == serde_value_model(vals@[i as int]));
            assert(stream.take(i + 1).drop_last() =~= stream.take(i as int));
            assert(stream.take(i + 1).last() == stream[i as int]);
        }
        let ghost old_batch = batch@;
        match jv {
            JsonValue::Array(mut elems) => {
                let ghost elems_snap = elems@;
                batch.append(&mut elems);
                proof {
                    assert(batch@ =~= old_batch + elems_snap);
                    lemma_jv_seq_view_concat(old_batch, elems_snap);
                    assert(expand_element(stream[i as int]) == jv_seq_view(elems_snap));
                }
            },
            other => {
                let ghost ov = other;
                batch.push(other);
                proof {
                    assert(batch@ =~= old_batch + seq![ov]);
                    lemma_jv_seq_view_concat(old_batch, seq![ov]);
                    lemma_jv_seq_view(seq![ov]);
                    assert(jv_seq_view(seq![ov]) =~= seq![jv_view(ov)]);
                    assert(expand_element(stream[i as int]) == seq![jv_view(ov)]);
                }
            },
        }
        i = i + 1;
    }
    proof {
        assert(stream.take(vals@.len() as int) =~= stream);
    }
    Ok(batch)
}

/// Parses a byte text that must hold exactly one JSON value, as a filter,
/// projection or inline pipeline argument does.
pub fn parse_json_text(bytes: &[u8]) -> (r: Result<JsonValue, String>)
    ensures
        match json_stream_model(bytes@) {
            Some(stream) => if stream.len() == 1 {
                r matches Ok(v) && v@ == stream[0]
            } else {
                r is Err
            },
            None => r is Err,
        },
{
    let mut vals = match read_json_stream(bytes) {
        Ok(v) => v,
        Err(e) => {
            return Err(e);
        },
    };
    if vals.len() != 1 {
        return Err(String::from_str("expected exactly one JSON value"));
    }
    let v = vals.remove(0);
    let jv = render_value(&v);
    Ok(jv)
}

} // verus!
