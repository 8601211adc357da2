//! The command dispatcher's decisions: which store action an invocation
//! performs, built from the raw command-line fragments. Everything here is
//! pure; performing the chosen action against the store, and printing, is
//! the surrounding program's job.

use vstd::prelude::*;
use vstd::string::{StringExecFns, StringSliceAdditionalSpecFns};

use crate::json::{json_stream_model, jv_seq_view, parse_json_text, JsonModel, JsonValue};
use crate::registry::{list_pipelines, pipeline_line_spec, resolve_by_index, resolve_error_spec, Pipeline};
use crate::store::{
    bson_of_json_obj, convert_documents, convert_json_value_to_bson_document, documents_of_json,
    lemma_documents_of_json_len, BsonModel, Document,
};
use crate::text::{
    dec_of, fmt_u64, parse_i64, parse_usize, signed_text_valid, signed_text_value,
    unsigned_text_valid, unsigned_text_value,
};
use crate::MongoDbCommand;

verus! {

/// The single JSON value a command-line fragment denotes, if the fragment
/// holds exactly one well-formed value.
pub open spec fn single_json_value(s: &str) -> Option<JsonModel> {
    match json_stream_model(s.spec_bytes()) {
        Some(stream) => if stream.len() == 1 {
            Some(stream[0])
        } else {
            None
        },
        None => None,
    }
}

// ------------------------------------------------------------------
// Subcommand selection.
// ------------------------------------------------------------------

/// The operation a subcommand name selects, if any.
pub open spec fn command_for_name_spec(name: Seq<char>) -> Option<MongoDbCommand> {
    if name == "aggregate"@ {
        Some(MongoDbCommand::Aggregate)
    } else if name == "create"@ {
        Some(MongoDbCommand::Create)
    } else if name == "find-many"@ {
        Some(MongoDbCommand::FindMany)
    } else if name == "find-one"@ {
        Some(MongoDbCommand::FindOne)
    } else if name == "count"@ {
        Some(MongoDbCommand::Count)
    } else if name == "delete-one"@ {
        Some(MongoDbCommand::DeleteOne)
    } else if name == "delete-many"@ {
        Some(MongoDbCommand::DeleteMany)
    } else if name == "list-databases"@ {
        Some(MongoDbCommand::ListDatabases)
    } else {
        None
    }
}

/// Selects the operation a subcommand name stands for.
pub fn command_for_name(name: &str) -> (r: Option<MongoDbCommand>)
    ensures
        r == command_for_name_spec(name@),
{
    let n = String::from_str(name);
    if n == String::from_str("aggregate") {
        Some(MongoDbCommand::Aggregate)
    } else if n == String::from_str("create") {
        Some(MongoDbCommand::Create)
    } else if n == String::from_str("find-many") {
        Some(MongoDbCommand::FindMany)
    } else if n == String::from_str("find-one") {
        Some(MongoDbCommand::FindOne)
    } else if n == String::from_str("count") {
        Some(MongoDbCommand::Count)
    } else if n == String::from_str("delete-one") {
        Some(MongoDbCommand::DeleteOne)
    } else if n == String::from_str("delete-many") {
        Some(MongoDbCommand::DeleteMany)
    } else if n == String::from_str("list-databases") {
        Some(MongoDbCommand::ListDatabases)
    } else {
        None
    }
}

/// The message reported for a subcommand name that selects nothing.
pub fn unknown_subcommand_message(name: &str) -> (r: String)
    ensures
        r@ == "There are no subcommand '"@ + name@ + "'. Please see --help"@,
{
    let mut m = String::from_str("There are no subcommand '");
    m.append(name);
    m.append("'. Please see --help");
    proof {
        assert(m@ =~= "There are no subcommand '"@ + name@ + "'. Please see --help"@);
    }
    m
}

// ------------------------------------------------------------------
// The aggregate operation.
// ------------------------------------------------------------------

/// What an aggregate invocation does: print the registry, run stages
/// against the store, or nothing at all.
#[derive(Debug)]
pub enum AggregateAction {
    List(Vec<String>),
    Run(Vec<Document>),
    NoOp,
}

/// The stages an inline pipeline argument denotes: the text must hold
/// exactly one JSON value, an array, all of whose elements are objects.
pub open spec fn inline_pipeline_spec(s: &str) -> Option<Seq<Seq<(Seq<char>, BsonModel)>>> {
    match single_json_value(s) {
        Some(JsonModel::Array(elems)) => documents_of_json(elems),
        _ => None,
    }
}

/// Chooses the aggregate action. The three modes are mutually exclusive and
/// are tried in this order: listing the registry wins over an inline
/// pipeline, which wins over a stored pipeline index; with none of the
/// three, the invocation is a no-op. Listing never touches the store.
pub fn plan_aggregate(
    list: bool,
    pipeline: Option<&str>,
    pipeline_index: Option<&str>,
    pipelines: Vec<Pipeline>,
) -> (r: Result<AggregateAction, String>)
    ensures
        list ==> (r matches Ok(a) && a matches AggregateAction::List(lines) && lines@.len()
            == pipelines@.len() && (forall|i: int|
            0 <= i < pipelines@.len() ==> lines@[i]@ == pipeline_line_spec(
                i as nat,
                pipelines@[i]@,
            ))),
        !list ==> (pipeline matches Some(p) ==> match inline_pipeline_spec(p) {
            Some(stages) => r matches Ok(a) && a matches AggregateAction::Run(docs) && Seq::new(
                docs@.len(),
                |i: int| docs@[i]@,
            ) == stages,
            None => r is Err,
        }),
        !list ==> (pipeline matches Some(p) ==> (single_json_value(p) matches Some(j) ==> (!(j
            is Array) ==> (r matches Err(m) && m@ == "Aggregation pipeline must be an array"@)))),
        !list ==> (pipeline matches Some(p) ==> (single_json_value(p) matches Some(j) ==> (
        j matches JsonModel::Array(elems) ==> (documents_of_json(elems) is None ==> (r matches Err(
            m,
        ) && m@ == "Each stage must be a valid object"@))))),
        (!list && pipeline is None) ==> (pipeline_index matches Some(t) ==> (
        if unsigned_text_valid(t@) && unsigned_text_value(t@) <= usize::MAX {
            if unsigned_text_value(t@) < pipelines@.len() {
                r matches Ok(a) && a matches AggregateAction::Run(docs) && Seq::new(
                    docs@.len(),
                    |i: int| docs@[i]@,
                ) == pipelines@[unsigned_text_value(t@)]@.stages
            } else {
                r matches Err(m) && m@ == resolve_error_spec(pipelines@.len())
            }
        } else {
            r is Err
        })),
        (!list && pipeline is None && pipeline_index is None) ==> (r matches Ok(a) && a
            is NoOp),
{
    if list {
        let lines = list_pipelines(&pipelines);
        Ok(AggregateAction::List(lines))
    } else if let Some(ptext) = pipeline {
        let v = match parse_json_text(ptext.as_bytes()) {
            Ok(v) => v,
            Err(e) => {
                return Err(e);
            },
        };
        match v {
            JsonValue::Array(elems) => {
                match convert_documents(&elems) {
                    Some(ds) => Ok(AggregateAction::Run(ds)),
                    None => Err(String::from_str("Each stage must be a valid object")),
                }
            },
            _ => Err(String::from_str("Aggregation pipeline must be an array")),
        }
    } else if let Some(itext) = pipeline_index {
        let idx = match parse_usize(itext) {
            Ok(i) => i,
            Err(e) => {
                return Err(e);
            },
        };
        match resolve_by_index(pipelines, idx) {
            Ok(p) => {
                let stages = p.stages;
                proof {
                    assert(Seq::new(stages@.len(), |i: int| stages@[i]@)
                        =~= pipelines@[idx as int]@.stages);
                }
                Ok(AggregateAction::Run(stages))
            },
            Err(m) => Err(m),
        }
    } else {
        Ok(AggregateAction::NoOp)
    }
}

// ------------------------------------------------------------------
// The create operation.
// ------------------------------------------------------------------

/// The insert path a create invocation takes: a single-element batch is a
/// one-document insert, any other batch is a multi-document insert.
#[derive(Debug)]
pub enum InsertCommand {
    One(Document),
    Many(Vec<Document>),
}

/// Chooses the insert path for a batch. Every batch element must be an
/// object; one that is not fails the whole invocation.
pub fn plan_create(batch: &Vec<JsonValue>) -> (r: Result<InsertCommand, String>)
    ensures
        r is Ok <==> documents_of_json(jv_seq_view(batch@)) is Some,
        r matches Err(m) ==> m@ == "Only documents can be inserted"@,
        batch@.len() == 1 ==> (r matches Ok(cmd) ==> (cmd matches InsertCommand::One(d) && Some(
            seq![d@],
        ) == documents_of_json(jv_seq_view(batch@)))),
        batch@.len() != 1 ==> (r matches Ok(cmd) ==> (cmd matches InsertCommand::Many(ds) && Some(
            Seq::new(ds@.len(), |i: int| ds@[i]@),
        ) == documents_of_json(jv_seq_view(batch@)))),
{
    proof {
        crate::json::lemma_jv_seq_view(batch@);
    }
    match convert_documents(batch) {
        Some(mut ds) => {
            proof {
                lemma_documents_of_json_len(jv_seq_view(batch@));
                assert(ds@.len() == batch@.len());
            }
            if ds.len() == 1 {
                let d = ds.remove(0);
                proof {
                    assert(documents_of_json(jv_seq_view(batch@))->Some_0 =~= seq![d@]);
                }
                Ok(InsertCommand::One(d))
            } else {
                Ok(InsertCommand::Many(ds))
            }
        },
        None => Err(String::from_str("Only documents can be inserted")),
    }
}

/// The report for a multi-document insert: the count of inserted documents,
/// agreeing in number; the identifiers follow it.
pub open spec fn insert_report_spec(count: nat) -> Seq<char> {
    "Successfully inserted "@ + dec_of(count) + " document"@ + (if count == 1nat {
        Seq::<char>::empty()
    } else {
        "s"@
    }) + " with _id:"@
}

/// Builds the multi-document insert report line.
pub fn insert_many_report(count: u64) -> (r: String)
    ensures
        r@ == insert_report_spec(count as nat),
{
    let mut m = String::from_str("Successfully inserted ");
    let num = fmt_u64(count);
    m.append(num.as_str());
    m.append(" document");
    if count != 1 {
        m.append("s");
    }
    m.append(" with _id:");
    proof {
        assert(m@ =~= insert_report_spec(count as nat));
    }
    m
}

/// Builds the one-document insert report line; the identifier follows it.
pub fn insert_one_report() -> (r: String)
    ensures
        r@ == "Successfully inserted one document with _id:"@,
{
    String::from_str("Successfully inserted one document with _id:")
}

// ------------------------------------------------------------------
// Filters, projections, limits.
// ------------------------------------------------------------------

/// Builds the filter for a delete: no argument means the empty filter,
/// which the store treats as matching everything — deliberately permissive,
/// an unfiltered delete-many deletes the whole collection. A well-formed
/// argument that is not an object also collapses to the empty filter.
pub fn delete_filter(input: Option<&str>) -> (r: Result<Document, String>)
    ensures
        input is None ==> (r matches Ok(d) && d@ == Seq::<(Seq<char>, BsonModel)>::empty()),
        input matches Some(s) ==> match single_json_value(s) {
            Some(j) => r matches Ok(d) && d@ == (match j {
                JsonModel::Object(f) => bson_of_json_obj(f),
                _ => Seq::<(Seq<char>, BsonModel)>::empty(),
            }),
            None => r is Err,
        },
{
    match input {
        None => Ok(Document { fields: Vec::new() }),
        Some(s) => {
            let v = match parse_json_text(s.as_bytes()) {
                Ok(v) => v,
                Err(e) => {
                    return Err(e);
                },
            };
            match convert_json_value_to_bson_document(&v) {
                Some(d) => Ok(d),
                None => Ok(Document { fields: Vec::new() }),
            }
        },
    }
}

/// Builds an optional document argument, as find filters and projections
/// are built: no argument stays absent, a malformed one fails, a
/// well-formed one that is not an object stays absent.
pub fn build_optional_document(input: Option<&str>) -> (r: Result<Option<Document>, String>)
    ensures
        input is None ==> (r matches Ok(o) && o is None),
        input matches Some(s) ==> match single_json_value(s) {
            Some(j) => r matches Ok(o) && (match j {
                JsonModel::Object(f) => o matches Some(d) && d@ == bson_of_json_obj(f),
                _ => o is None,
            }),
            None => r is Err,
        },
{
    match input {
        None => Ok(None),
        Some(s) => {
            let v = match parse_json_text(s.as_bytes()) {
                Ok(v) => v,
                Err(e) => {
                    return Err(e);
                },
            };
            match convert_json_value_to_bson_document(&v) {
                Some(d) => Ok(Some(d)),
                None => Ok(None),
            }
        },
    }
}

/// Builds the optional result limit for a find: no argument stays absent, a
/// malformed or out-of-range one fails.
pub fn find_limit(input: Option<&str>) -> (r: Result<Option<i64>, String>)
    ensures
        input is None ==> (r matches Ok(o) && o is None),
        input matches Some(s) ==> (if signed_text_valid(s@) && i64::MIN <= signed_text_value(s@)
            <= i64::MAX {
            r matches Ok(o) && o matches Some(v) && v == signed_text_value(s@)
        } else {
            r is Err
        }),
{
    match input {
        None => Ok(None),
        Some(s) => {
            match parse_i64(s) {
                Ok(v) => Ok(Some(v)),
                Err(e) => Err(e),
            }
        },
    }
}

// ------------------------------------------------------------------
// Result reports.
// ------------------------------------------------------------------

/// The report for a delete: the count of deleted documents, agreeing in
/// number.
pub open spec fn delete_report_spec(count: nat) -> Seq<char> {
    "Deleted "@ + dec_of(count) + " document"@ + (if count == 1nat {
        Seq::<char>::empty()
    } else {
        "s"@
    })
}

/// Builds the delete report line.
pub fn delete_report(count: u64) -> (r: String)
    ensures
        r@ == delete_report_spec(count as nat),
{
    let mut m = String::from_str("Deleted ");
    let num = fmt_u64(count);
    m.append(num.as_str());
    m.append(" document");
    if count != 1 {
        m.append("s");
    }
    proof {
        assert(m@ =~= delete_report_spec(count as nat));
    }
    m
}

/// The distinguished report for a find-one that matched nothing, as opposed
/// to printing nothing at all.
pub fn no_documents_message() -> (r: String)
    ensures
        r@ == "No such documents"@,
{
    String::from_str("No such documents")
}

} // verus!
