//! The document-store value model and the bidirectional converter.
//!
//! A store value is the JSON value model enriched with the two variants the
//! store itself produces: an identifier (twelve opaque bytes, displayed as
//! lowercase hex) and an instant (milliseconds since the epoch, displayed in
//! RFC 3339 form). A store number is carried as decimal text, exactly as a
//! JSON number is; it is coerced to a 64-bit float at the wire boundary.

use vstd::prelude::*;
use vstd::string::StringExecFns;

use crate::json::{jv_obj_view, jv_seq_view, jv_view, lemma_jv_obj_view, lemma_jv_seq_view, JsonModel, JsonValue};

verus! {

broadcast use vstd::seq::axiom_seq_index_decreases;

/// A document-store value.
#[derive(Debug, PartialEq)]
pub enum BsonValue {
    Null,
    Boolean(bool),
    /// A double-precision number, as decimal text.
    Double(String),
    Str(String),
    Array(Vec<BsonValue>),
    Document(Document),
    /// A store-assigned identifier: its raw bytes.
    ObjectId(Vec<u8>),
    /// An instant: milliseconds since the Unix epoch, UTC.
    DateTime(i64),
}

/// A document: the unit of storage, insertion and query results.
#[derive(Debug, PartialEq)]
pub struct Document {
    pub fields: Vec<(String, BsonValue)>,
}

/// The mathematical model of a store value.
#[verifier::ext_equal]
pub enum BsonModel {
    Null,
    Boolean(bool),
    Double(Seq<char>),
    Str(Seq<char>),
    Array(Seq<BsonModel>),
    Document(Seq<(Seq<char>, BsonModel)>),
    ObjectId(Seq<u8>),
    DateTime(i64),
}

pub open spec fn bv_view(v: BsonValue) -> BsonModel
    decreases v,
{
    match v {
        BsonValue::Null => BsonModel::Null,
        BsonValue::Boolean(b) => BsonModel::Boolean(b),
        BsonValue::Double(t) => BsonModel::Double(t@),
        BsonValue::Str(s) => BsonModel::Str(s@),
        BsonValue::Array(elems) => BsonModel::Array(bv_seq_view(elems@)),
        BsonValue::Document(d) => BsonModel::Document(bv_obj_view(d.fields@)),
        BsonValue::ObjectId(id) => BsonModel::ObjectId(id@),
        BsonValue::DateTime(ms) => BsonModel::DateTime(ms),
    }
}

pub open spec fn bv_seq_view(s: Seq<BsonValue>) -> Seq<BsonModel>
    decreases s,
{
    if s.len() == 0 {
        Seq::empty()
    } else {
        seq![bv_view(s[0])] + bv_seq_view(s.drop_first())
    }
}

pub open spec fn bv_obj_view(s: Seq<(String, BsonValue)>) -> Seq<(Seq<char>, BsonModel)>
    decreases s,
{
    if s.len() == 0 {
        Seq::empty()
    } else {
        seq![(s[0].0@, bv_view(s[0].1))] + bv_obj_view(s.drop_first())
    }
}

impl View for BsonValue {
    type V = BsonModel;

    open spec fn view(&self) -> BsonModel {
        bv_view(*self)
    }
}

impl View for Document {
    type V = Seq<(Seq<char>, BsonModel)>;

    open spec fn view(&self) -> Seq<(Seq<char>, BsonModel)> {
        bv_obj_view(self.fields@)
    }
}

pub proof fn lemma_bv_seq_view(s: Seq<BsonValue>)
    ensures
        bv_seq_view(s).len() == s.len(),
        forall|i: int| 0 <= i < s.len() ==> bv_seq_view(s)[i] == bv_view(s[i]),
    decreases s.len(),
{
    if s.len() > 0 {
        lemma_bv_seq_view(s.drop_first());
    }
}

pub proof fn lemma_bv_obj_view(s: Seq<(String, BsonValue)>)
    ensures
        bv_obj_view(s).len() == s.len(),
        forall|i: int| 0 <= i < s.len() ==> bv_obj_view(s)[i] == (s[i].0@, bv_view(s[i].1)),
    decreases s.len(),
{
    if s.len() > 0 {
        lemma_bv_obj_view(s.drop_first());
    }
}

// ------------------------------------------------------------------
// The conversion rule: JSON value to store value.
// ------------------------------------------------------------------

/// The total conversion of a JSON value into a store value: null, booleans
/// and strings map to themselves, a number becomes a double, arrays and
/// objects are converted recursively.
pub open spec fn bson_of_json(j: JsonModel) -> BsonModel
    decreases j,
{
    match j {
        JsonModel::Null => BsonModel::Null,
        JsonModel::Bool(b) => BsonModel::Boolean(b),
        JsonModel::Number(t) => BsonModel::Double(t),
        JsonModel::Str(s) => BsonModel::Str(s),
        JsonModel::Array(elems) => BsonModel::Array(bson_of_json_seq(elems)),
        JsonModel::Object(fields) => BsonModel::Document(bson_of_json_obj(fields)),
    }
}

pub open spec fn bson_of_json_seq(s: Seq<JsonModel>) -> Seq<BsonModel>
    decreases s,
{
    if s.len() == 0 {
        Seq::empty()
    } else {
        seq![bson_of_json(s[0])] + bson_of_json_seq(s.drop_first())
    }
}

pub open spec fn bson_of_json_obj(s: Seq<(Seq<char>, JsonModel)>) -> Seq<(Seq<char>, BsonModel)>
    decreases s,
{
    if s.len() == 0 {
        Seq::empty()
    } else {
        seq![(s[0].0, bson_of_json(s[0].1))] + bson_of_json_obj(s.drop_first())
    }
}

pub proof fn lemma_bson_of_json_seq(s: Seq<JsonModel>)
    ensures
        bson_of_json_seq(s).len() == s.len(),
        forall|i: int| 0 <= i < s.len() ==> bson_of_json_seq(s)[i] == bson_of_json(s[i]),
    decreases s.len(),
{
    if s.len() > 0 {
        lemma_bson_of_json_seq(s.drop_first());
    }
}

pub proof fn lemma_bson_of_json_obj(s: Seq<(Seq<char>, JsonModel)>)
    ensures
        bson_of_json_obj(s).len() == s.len(),
        forall|i: int| 0 <= i < s.len() ==> bson_of_json_obj(s)[i] == (
            s[i].0,
            bson_of_json(s[i].1),
        ),
    decreases s.len(),
{
    if s.len() > 0 {
        lemma_bson_of_json_obj(s.drop_first());
    }
}

/// Converts a JSON value into a store value, by the total conversion rule.
pub fn convert_json_to_bson(json: &JsonValue) -> (r: BsonValue)
    ensures
        r@ == bson_of_json(json@),
    decreases *json,
{
    match json {
        JsonValue::Null => BsonValue::Null,
        JsonValue::Bool(b) => BsonValue::Boolean(*b),
        JsonValue::Number(t) => BsonValue::Double(t.clone()),
        JsonValue::Str(s) => BsonValue::Str(s.clone()),
        JsonValue::Array(elems) => {
            let mut out: Vec<BsonValue> = Vec::new();
            let mut i: usize = 0;
            while i < elems.len()
                invariant
                    *json == JsonValue::Array(*elems),
                    i <= elems.len(),
                    out@.len() == i as int,
                    forall|j: int| 0 <= j < i ==> bv_view(out@[j]) == bson_of_json(jv_view(
                        elems@[j],
                    )),
                decreases elems@.len() - i,
            {
                proof {
                    assert(decreases_to!(*json => (*json)->Array_0));
                    assert(decreases_to!(elems@ => elems@[i as int]));
                }
                let c = convert_json_to_bson(&elems[i]);
                out.push(c);
                i = i + 1;
            }
            proof {
                lemma_bv_seq_view(out@);
                lemma_jv_seq_view(elems@);
                lemma_bson_of_json_seq(jv_seq_view(elems@));
                assert(bv_seq_view(out@) =~= bson_of_json_seq(jv_seq_view(elems@)));
            }
            BsonValue::Array(out)
        },
        JsonValue::Object(fields) => {
            let mut out: Vec<(String, BsonValue)> = Vec::new();
            let mut i: usize = 0;
            while i < fields.len()
                invariant
                    *json == JsonValue::Object(*fields),
                    i <= fields.len(),
                    out@.len() == i as int,
                    forall|j: int| 0 <= j < i ==> out@[j].0@ == fields@[j].0@ && bv_view(
                        out@[j].1,
                    ) == bson_of_json(jv_view(fields@[j].1)),
                decreases fields@.len() - i,
            {
                proof {
                    assert(decreases_to!(*json => (*json)->Object_0));
                    assert(decreases_to!(fields@ => fields@[i as int]));
                    assert(decreases_to!(fields@[i as int] => fields@[i as int].1));
                }
                let c = convert_json_to_bson(&fields[i].1);
                let k = fields[i].0.clone();
                out.push((k, c));
                i = i + 1;
            }
            proof {
                lemma_bv_obj_view(out@);
                lemma_jv_obj_view(fields@);
                lemma_bson_of_json_obj(jv_obj_view(fields@));
                assert(bv_obj_view(out@) =~= bson_of_json_obj(jv_obj_view(fields@)));
            }
            BsonValue::Document(Document { fields: out })
        },
    }
}

/// Converts a JSON value into a document, when the value is an object; any
/// other value yields nothing, to be reported by the caller.
pub fn convert_json_value_to_bson_document(json: &JsonValue) -> (r: Option<Document>)
    ensures
        json@ matches JsonModel::Object(fields) ==> r matches Some(d) && d@ == bson_of_json_obj(
            fields,
        ),
        !(json@ is Object) ==> r is None,
{
    match json {
        JsonValue::Object(_) => {
            let b = convert_json_to_bson(json);
            match b {
                BsonValue::Document(d) => Some(d),
                _ => None,
            }
        },
        _ => None,
    }
}

/// A value that must be a document: an object converts, anything else is
/// refused.
pub open spec fn document_of_json(j: JsonModel) -> Option<Seq<(Seq<char>, BsonModel)>> {
    match j {
        JsonModel::Object(f) => Some(bson_of_json_obj(f)),
        _ => None,
    }
}

/// A whole sequence of values that must all be documents: the conversion of
/// each, or nothing as soon as one of them is not an object.
pub open spec fn documents_of_json(elems: Seq<JsonModel>) -> Option<
    Seq<Seq<(Seq<char>, BsonModel)>>,
>
    decreases elems.len(),
{
    if elems.len() == 0 {
        Some(Seq::empty())
    } else {
        match (documents_of_json(elems.drop_last()), document_of_json(elems.last())) {
            (Some(rest), Some(d)) => Some(rest.push(d)),
            _ => None,
        }
    }
}

pub proof fn lemma_documents_of_json_len(elems: Seq<JsonModel>)
    requires
        documents_of_json(elems) is Some,
    ensures
        documents_of_json(elems)->Some_0.len() == elems.len(),
    decreases elems.len(),
{
    if elems.len() > 0 {
        lemma_documents_of_json_len(elems.drop_last());
    }
}

pub proof fn lemma_documents_failure(elems: Seq<JsonModel>, k: int)
    requires
        0 <= k <= elems.len(),
        documents_of_json(elems.take(k)) is None,
    ensures
        documents_of_json(elems) is None,
    decreases elems.len() - k,
{
    if k < elems.len() {
        assert(elems.take(k + 1).drop_last() =~= elems.take(k));
        lemma_documents_failure(elems, k + 1);
    } else {
        assert(elems.take(k) =~= elems);
    }
}

/// Converts a sequence of JSON values that must all be objects into
/// documents; yields nothing as soon as one of them is not an object, for
/// the caller to report.
pub fn convert_documents(elems: &Vec<JsonValue>) -> (r: Option<Vec<Document>>)
    ensures
        r is Some <==> documents_of_json(jv_seq_view(elems@)) is Some,
        r matches Some(ds) ==> Some(
            Seq::new(ds@.len(), |i: int| ds@[i]@),
        ) == documents_of_json(jv_seq_view(elems@)),
{
    let ghost ev = jv_seq_view(elems@);
    proof {
        lemma_jv_seq_view(elems@);
    }
    let mut out: Vec<Document> = Vec::new();
    let mut i: usize = 0;
    while i < elems.len()
        invariant
            i <= elems.len(),
            ev == jv_seq_view(elems@),
            ev.len() == elems@.len(),
            forall|j: int| 0 <= j < elems@.len() ==> ev[j] == elems@[j]@,
            out@.len() == i as int,
            Some(Seq::new(out@.len(), |j: int| out@[j]@)) == documents_of_json(ev.take(i as int)),
        decreases elems@.len() - i,
    {
        proof {
            assert(ev.take(i + 1).drop_last() =~= ev.take(i as int));
            assert(ev.take(i + 1).last() == ev[i as int]);
        }
        match convert_json_value_to_bson_document(&elems[i]) {
            Some(d) => {
                out.push(d);
                proof {
                    assert(Seq::new(out@.len(), |j: int| out@[j]@) =~= Seq::new(
                        (out@.len() - 1) as nat,
                        |j: int| out@[j]@,
                    ).push(out@.last()@));
                }
            },
            None => {
                proof {
                    assert(document_of_json(ev[i as int]) is None);
                    assert(documents_of_json(ev.take(i + 1)) is None);
                    lemma_documents_failure(ev, i + 1);
                }
                return None;
            },
        }
        i = i + 1;
    }
    proof {
        assert(ev.take(elems@.len() as int) =~= ev);
    }
    Some(out)
}

// ------------------------------------------------------------------
// Display: identifiers as hex, instants as RFC 3339 text.
// ------------------------------------------------------------------

/// The canonical textual encoding of an identifier: two lowercase hex digits
/// for each byte, in order.
pub open spec fn hex_of(bytes: Seq<u8>) -> Seq<char>
    decreases bytes.len(),
{
    if bytes.len() == 0 {
        Seq::empty()
    } else {
        hex_of(bytes.drop_last()) + seq![
            crate::text::digit_char_spec(bytes.last() as int / 16),
            crate::text::digit_char_spec(bytes.last() as int % 16),
        ]
    }
}

/// Encodes bytes as lowercase hex text, as identifiers are displayed.
pub fn to_hex(bytes: &Vec<u8>) -> (r: String)
    ensures
        r@ == hex_of(bytes@),
{
    let mut s = String::new();
    let mut i: usize = 0;
    while i < bytes.len()
        invariant
            i <= bytes.len(),
            s@ == hex_of(bytes@.take(i as int)),
        decreases bytes@.len() - i,
    {
        let b = bytes[i];
        s.append(crate::text::digit_str(b / 16));
        s.append(crate::text::digit_str(b % 16));
        proof {
            assert(bytes@.take(i + 1).drop_last() =~= bytes@.take(i as int));
            assert(bytes@.take(i + 1).last() == bytes@[i as int]);
            assert(s@ =~= hex_of(bytes@.take(i + 1)));
        }
        i = i + 1;
    }
    proof {
        assert(bytes@.take(bytes@.len() as int) =~= bytes@);
    }
    s
}

/// The RFC 3339 rendering, in UTC, of an instant given as milliseconds since
/// the epoch.
pub uninterp spec fn rfc3339_of(ms: i64) -> Seq<char>;

/// Relies on the store crate's instant type and its chrono conversion: the
/// RFC 3339 text of an instant is a function of the millisecond value alone;
/// an instant outside chrono's range is clamped to chrono's extremes before
/// rendering, so the call returns for every input.
#[verifier::external_body]
fn rfc3339_utc(ms: i64) -> (r: String)
    ensures
        r@ == rfc3339_of(ms),
{
    bson::DateTime::from_millis(ms).to_chrono().to_rfc3339()
}

/// A structural copy of a store value.
pub fn clone_bson(v: &BsonValue) -> (r: BsonValue)
    ensures
        r@ == v@,
    decreases *v,
{
    match v {
        BsonValue::Null => BsonValue::Null,
        BsonValue::Boolean(b) => BsonValue::Boolean(*b),
        BsonValue::Double(t) => BsonValue::Double(t.clone()),
        BsonValue::Str(s) => BsonValue::Str(s.clone()),
        BsonValue::ObjectId(id) => {
            let c = id.clone();
            proof {
                assert(c@ =~= id@);
            }
            BsonValue::ObjectId(c)
        },
        BsonValue::DateTime(ms) => BsonValue::DateTime(*ms),
        BsonValue::Array(elems) => {
            let mut out: Vec<BsonValue> = Vec::new();
            let mut i: usize = 0;
            while i < elems.len()
                invariant
                    *v == BsonValue::Array(*elems),
                    i <= elems.len(),
                    out@.len() == i as int,
                    forall|j: int| 0 <= j < i ==> bv_view(out@[j]) == bv_view(elems@[j]),
                decreases elems@.len() - i,
            {
                proof {
                    assert(decreases_to!(*v => (*v)->Array_0));
                    assert(decreases_to!(elems@ => elems@[i as int]));
                }
                let c = clone_bson(&elems[i]);
                out.push(c);
                i = i + 1;
            }
            proof {
                lemma_bv_seq_view(out@);
                lemma_bv_seq_view(elems@);
                assert(bv_seq_view(out@) =~= bv_seq_view(elems@));
            }
            BsonValue::Array(out)
        },
        BsonValue::Document(d) => {
            let mut out: Vec<(String, BsonValue)> = Vec::new();
            let mut i: usize = 0;
            while i < d.fields.len()
                invariant
                    *v == BsonValue::Document(*d),
                    i <= d.fields.len(),
                    out@.len() == i as int,
                    forall|j: int| 0 <= j < i ==> out@[j].0@ == d.fields@[j].0@ && bv_view(
                        out@[j].1,
                    ) == bv_view(d.fields@[j].1),
                decreases d.fields@.len() - i,
            {
                proof {
                    assert(decreases_to!(*v => (*v)->Document_0));
                    assert(decreases_to!((*v)->Document_0 => d.fields));
                    assert(decreases_to!(d.fields@ => d.fields@[i as int]));
                    assert(decreases_to!(d.fields@[i as int] => d.fields@[i as int].1));
                }
                let c = clone_bson(&d.fields[i].1);
                let k = d.fields[i].0.clone();
                out.push((k, c));
                i = i + 1;
            }
            proof {
                lemma_bv_obj_view(out@);
                lemma_bv_obj_view(d.fields@);
                assert(bv_obj_view(out@) =~= bv_obj_view(d.fields@));
            }
            BsonValue::Document(Document { fields: out })
        },
    }
}

/// The display rewriting of one store value: an identifier becomes its hex
/// text, an instant becomes its RFC 3339 text, everything else is unchanged.
/// It does not recurse: identifiers and instants nested below the top of a
/// value keep their native form.
pub open spec fn stringify_spec(b: BsonModel) -> BsonModel {
    match b {
        BsonModel::ObjectId(id) => BsonModel::Str(hex_of(id)),
        BsonModel::DateTime(ms) => BsonModel::Str(rfc3339_of(ms)),
        other => other,
    }
}

/// The display rewriting of a document: each top-level value is rewritten by
/// `stringify_spec`; keys are kept.
pub open spec fn stringify_doc_spec(
    fields: Seq<(Seq<char>, BsonModel)>,
) -> Seq<(Seq<char>, BsonModel)> {
    Seq::new(fields.len(), |i: int| (fields[i].0, stringify_spec(fields[i].1)))
}

/// Rewrites one store value for display.
pub fn stringify_bson(document: &BsonValue) -> (r: BsonValue)
    ensures
        r@ == stringify_spec(document@),
{
    match document {
        BsonValue::ObjectId(id) => BsonValue::Str(to_hex(id)),
        BsonValue::DateTime(ms) => BsonValue::Str(rfc3339_utc(*ms)),
        o => clone_bson(o),
    }
}

/// Rewrites a document for display: every top-level identifier and instant
/// becomes readable text.
pub fn stringify_document(document: &Document) -> (r: Document)
    ensures
        r@ == stringify_doc_spec(document@),
{
    let mut out: Vec<(String, BsonValue)> = Vec::new();
    let mut i: usize = 0;
    while i < document.fields.len()
        invariant
            i <= document.fields.len(),
            out@.len() == i as int,
            forall|j: int| 0 <= j < i ==> out@[j].0@ == document.fields@[j].0@ && bv_view(
                out@[j].1,
            ) == stringify_spec(bv_view(document.fields@[j].1)),
        decreases document.fields@.len() - i,
    {
        let s = stringify_bson(&document.fields[i].1);
        let k = document.fields[i].0.clone();
        out.push((k, s));
        i = i + 1;
    }
    proof {
        lemma_bv_obj_view(out@);
        lemma_bv_obj_view(document.fields@);
        assert(bv_obj_view(out@) =~= stringify_doc_spec(bv_obj_view(document.fields@)));
    }
    Document { fields: out }
}

// ------------------------------------------------------------------
// The round-trip law for plain data.
// ------------------------------------------------------------------

/// The display reading of a store value back into the JSON model: a double
/// reads back as a number, an identifier as its hex text, an instant as its
/// RFC 3339 text; arrays and documents are read recursively.
pub open spec fn json_of_bson(b: BsonModel) -> JsonModel
    decreases b,
{
    match b {
        BsonModel::Null => JsonModel::Null,
        BsonModel::Boolean(x) => JsonModel::Bool(x),
        BsonModel::Double(t) => JsonModel::Number(t),
        BsonModel::Str(s) => JsonModel::Str(s),
        BsonModel::Array(elems) => JsonModel::Array(json_of_bson_seq(elems)),
        BsonModel::Document(fields) => JsonModel::Object(json_of_bson_obj(fields)),
        BsonModel::ObjectId(id) => JsonModel::Str(hex_of(id)),
        BsonModel::DateTime(ms) => JsonModel::Str(rfc3339_of(ms)),
    }
}

pub open spec fn json_of_bson_seq(s: Seq<BsonModel>) -> Seq<JsonModel>
    decreases s,
{
    if s.len() == 0 {
        Seq::empty()
    } else {
        seq![json_of_bson(s[0])] + json_of_bson_seq(s.drop_first())
    }
}

pub open spec fn json_of_bson_obj(s: Seq<(Seq<char>, BsonModel)>) -> Seq<(Seq<char>, JsonModel)>
    decreases s,
{
    if s.len() == 0 {
        Seq::empty()
    } else {
        seq![(s[0].0, json_of_bson(s[0].1))] + json_of_bson_obj(s.drop_first())
    }
}

pub proof fn lemma_json_of_bson_seq(s: Seq<BsonModel>)
    ensures
        json_of_bson_seq(s).len() == s.len(),
        forall|i: int| 0 <= i < s.len() ==> json_of_bson_seq(s)[i] == json_of_bson(s[i]),
    decreases s.len(),
{
    if s.len() > 0 {
        lemma_json_of_bson_seq(s.drop_first());
    }
}

pub proof fn lemma_json_of_bson_obj(s: Seq<(Seq<char>, BsonModel)>)
    ensures
        json_of_bson_obj(s).len() == s.len(),
        forall|i: int| 0 <= i < s.len() ==> json_of_bson_obj(s)[i] == (
            s[i].0,
            json_of_bson(s[i].1),
        ),
    decreases s.len(),
{
    if s.len() > 0 {
        lemma_json_of_bson_obj(s.drop_first());
    }
}

/// Law: converting a JSON value into a store value loses nothing — reading
/// the store value back for display yields the very value that was converted.
/// JSON input can never contain an identifier or an instant, so the display
/// reading inverts the conversion exactly, at every depth.
pub proof fn lemma_plain_round_trip(j: JsonModel)
    ensures
        json_of_bson(bson_of_json(j)) == j,
    decreases j,
{
    match j {
        JsonModel::Array(elems) => {
            lemma_bson_of_json_seq(elems);
            lemma_json_of_bson_seq(bson_of_json_seq(elems));
            assert forall|i: int| 0 <= i < elems.len() implies json_of_bson(
                bson_of_json(elems[i]),
            ) == elems[i] by {
                lemma_plain_round_trip(elems[i]);
            }
            assert(json_of_bson_seq(bson_of_json_seq(elems)) =~= elems);
        },
        JsonModel::Object(fields) => {
            lemma_bson_of_json_obj(fields);
            lemma_json_of_bson_obj(bson_of_json_obj(fields));
            assert forall|i: int| 0 <= i < fields.len() implies json_of_bson(
                bson_of_json(fields[i].1),
            ) == fields[i].1 by {
                lemma_plain_round_trip(fields[i].1);
            }
            assert(json_of_bson_obj(bson_of_json_obj(fields)) =~= fields);
        },
        _ => {},
    }
}

/// Law: the display rewriting never changes a document that came out of the
/// JSON conversion — its top-level values can be neither identifiers nor
/// instants, so `stringify` is the identity on it.
pub proof fn lemma_stringify_converted_identity(j: JsonModel)
    requires
        j is Object,
    ensures
        bson_of_json(j) matches BsonModel::Document(fields) && stringify_doc_spec(fields)
            == fields,
{
    let fields = j->Object_0;
    let conv = bson_of_json_obj(fields);
    lemma_bson_of_json_obj(fields);
    assert forall|i: int| 0 <= i < conv.len() implies stringify_spec(conv[i].1) == conv[i].1 by {
        assert(conv[i].1 == bson_of_json(fields[i].1));
    }
    assert(stringify_doc_spec(conv) =~= conv);
}

} // verus!
