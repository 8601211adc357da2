use mongodb_cli::dispatch::{
    build_optional_document, command_for_name, delete_filter, delete_report, find_limit,
    insert_many_report, insert_one_report, no_documents_message, plan_aggregate, plan_create,
    unknown_subcommand_message, AggregateAction, InsertCommand,
};
use mongodb_cli::json::{create_values_from_reader, JsonValue};
use mongodb_cli::registry::Pipeline;
use mongodb_cli::store::{BsonValue, Document};
use mongodb_cli::MongoDbCommand;

fn registry_of_one() -> Vec<Pipeline> {
    vec![Pipeline {
        name: "totals".to_string(),
        description: None,
        stages: vec![Document {
            fields: vec![(
                "$match".to_string(),
                BsonValue::Document(Document { fields: vec![] }),
            )],
        }],
    }]
}

#[test]
fn every_subcommand_name_selects_its_operation() {
    assert!(matches!(command_for_name("aggregate"), Some(MongoDbCommand::Aggregate)));
    assert!(matches!(command_for_name("create"), Some(MongoDbCommand::Create)));
    assert!(matches!(command_for_name("find-many"), Some(MongoDbCommand::FindMany)));
    assert!(matches!(command_for_name("find-one"), Some(MongoDbCommand::FindOne)));
    assert!(matches!(command_for_name("count"), Some(MongoDbCommand::Count)));
    assert!(matches!(command_for_name("delete-one"), Some(MongoDbCommand::DeleteOne)));
    assert!(matches!(command_for_name("delete-many"), Some(MongoDbCommand::DeleteMany)));
    assert!(matches!(command_for_name("list-databases"), Some(MongoDbCommand::ListDatabases)));
    assert!(command_for_name("drop").is_none());
    assert!(command_for_name("").is_none());
}

#[test]
fn command_names_round_trip_through_to_str() {
    assert_eq!(MongoDbCommand::Aggregate.to_str(), "aggregate");
    assert_eq!(MongoDbCommand::Create.to_str(), "create");
    assert_eq!(MongoDbCommand::FindMany.to_str(), "find-many");
    assert_eq!(MongoDbCommand::FindOne.to_str(), "find-one");
    assert_eq!(MongoDbCommand::Count.to_str(), "count");
    assert_eq!(MongoDbCommand::DeleteOne.to_str(), "delete-one");
    assert_eq!(MongoDbCommand::DeleteMany.to_str(), "delete-many");
    assert_eq!(MongoDbCommand::ListDatabases.to_str(), "list-databases");
}

#[test]
fn unknown_subcommand_is_named_in_the_error() {
    assert_eq!(
        unknown_subcommand_message("drop"),
        "There are no subcommand 'drop'. Please see --help"
    );
}

#[test]
fn list_wins_over_an_inline_pipeline() {
    // Both --list and --pipeline supplied: list is checked first, and no
    // store run is planned.
    let r = plan_aggregate(true, Some("[{\"$match\":{}}]"), None, registry_of_one()).unwrap();
    match r {
        AggregateAction::List(lines) => {
            assert_eq!(lines.len(), 1);
            assert_eq!(lines[0], "0. totals ");
        },
        AggregateAction::Run(_) => panic!("list must win over the inline pipeline"),
        AggregateAction::NoOp => panic!("list mode must list"),
    }
}

#[test]
fn inline_pipeline_runs_its_stages() {
    let r = plan_aggregate(false, Some("[{\"$match\":{\"a\":1}},{\"$limit\":2}]"), None, vec![])
        .unwrap();
    match r {
        AggregateAction::Run(docs) => {
            assert_eq!(docs.len(), 2);
            assert_eq!(docs[0].fields[0].0, "$match");
            assert_eq!(docs[1].fields[0].0, "$limit");
        },
        other => panic!("expected a run, got {:?}", discriminant_name(&other)),
    }
}

#[test]
fn inline_pipeline_must_be_an_array() {
    let err = plan_aggregate(false, Some("{\"$match\":{}}"), None, vec![]).unwrap_err();
    assert_eq!(err, "Aggregation pipeline must be an array");
}

#[test]
fn inline_pipeline_stages_must_be_objects() {
    let err = plan_aggregate(false, Some("[{\"$match\":{}},3]"), None, vec![]).unwrap_err();
    assert_eq!(err, "Each stage must be a valid object");
}

#[test]
fn inline_pipeline_must_be_well_formed_json() {
    assert!(plan_aggregate(false, Some("[{"), None, vec![]).is_err());
}

#[test]
fn indexed_pipeline_runs_stored_stages_without_reconversion() {
    let r = plan_aggregate(false, None, Some("0"), registry_of_one()).unwrap();
    match r {
        AggregateAction::Run(docs) => {
            assert_eq!(docs.len(), 1);
            assert_eq!(docs[0].fields[0].0, "$match");
        },
        _ => panic!("expected a run"),
    }
}

#[test]
fn indexed_pipeline_out_of_range_reports_the_count() {
    let err = plan_aggregate(false, None, Some("5"), registry_of_one()).unwrap_err();
    assert_eq!(err, "There are only 1 pipeline available. Note that it is 0-indexed");
}

#[test]
fn indexed_pipeline_index_must_parse() {
    assert!(plan_aggregate(false, None, Some("x"), registry_of_one()).is_err());
    assert!(plan_aggregate(false, None, Some("-1"), registry_of_one()).is_err());
}

#[test]
fn aggregate_with_no_mode_is_a_no_op() {
    let r = plan_aggregate(false, None, None, registry_of_one()).unwrap();
    assert!(matches!(r, AggregateAction::NoOp));
}

fn discriminant_name(a: &AggregateAction) -> &'static str {
    match a {
        AggregateAction::List(_) => "List",
        AggregateAction::Run(_) => "Run",
        AggregateAction::NoOp => "NoOp",
    }
}

#[test]
fn single_element_batch_takes_the_one_document_path() {
    let batch = create_values_from_reader(b"{\"a\":1}").unwrap();
    assert_eq!(batch.len(), 1);
    match plan_create(&batch).unwrap() {
        InsertCommand::One(d) => assert_eq!(d.fields[0].0, "a"),
        InsertCommand::Many(_) => panic!("one element must insert one document"),
    }
}

#[test]
fn larger_batches_take_the_many_document_path() {
    let batch = create_values_from_reader(b"[{\"a\":1},{\"b\":2}]").unwrap();
    match plan_create(&batch).unwrap() {
        InsertCommand::Many(ds) => assert_eq!(ds.len(), 2),
        InsertCommand::One(_) => panic!("two elements must insert many documents"),
    }
}

#[test]
fn empty_batch_takes_the_many_document_path() {
    match plan_create(&vec![]).unwrap() {
        InsertCommand::Many(ds) => assert_eq!(ds.len(), 0),
        InsertCommand::One(_) => panic!("an empty batch is a many-document insert"),
    }
}

#[test]
fn non_object_batch_elements_fail_the_create() {
    let batch = vec![
        JsonValue::Object(vec![("a".to_string(), JsonValue::Null)]),
        JsonValue::Number("3".to_string()),
    ];
    assert_eq!(plan_create(&batch).unwrap_err(), "Only documents can be inserted");
}

#[test]
fn insert_report_counts_and_pluralizes() {
    assert_eq!(insert_many_report(0), "Successfully inserted 0 documents with _id:");
    assert_eq!(insert_many_report(1), "Successfully inserted 1 document with _id:");
    assert_eq!(insert_many_report(2), "Successfully inserted 2 documents with _id:");
    assert_eq!(insert_one_report(), "Successfully inserted one document with _id:");
}

#[test]
fn delete_report_counts_and_pluralizes() {
    assert_eq!(delete_report(0), "Deleted 0 documents");
    assert_eq!(delete_report(1), "Deleted 1 document");
    assert_eq!(delete_report(2), "Deleted 2 documents");
}

#[test]
fn absent_delete_filter_is_the_empty_filter() {
    // No --input-filter: the empty filter, which the store treats as
    // matching every document.
    let d = delete_filter(None).unwrap();
    assert_eq!(d.fields.len(), 0);
}

#[test]
fn delete_filter_converts_an_object() {
    let d = delete_filter(Some("{\"a\":1}")).unwrap();
    assert_eq!(d.fields.len(), 1);
    assert_eq!(d.fields[0].0, "a");
    assert_eq!(d.fields[0].1, BsonValue::Double("1".to_string()));
}

#[test]
fn delete_filter_collapses_non_objects_to_empty() {
    let d = delete_filter(Some("5")).unwrap();
    assert_eq!(d.fields.len(), 0);
}

#[test]
fn delete_filter_rejects_malformed_text() {
    assert!(delete_filter(Some("{")).is_err());
}

#[test]
fn optional_document_stays_absent_without_an_argument() {
    assert!(build_optional_document(None).unwrap().is_none());
}

#[test]
fn optional_document_converts_an_object() {
    let d = build_optional_document(Some("{\"name\":1}")).unwrap().unwrap();
    assert_eq!(d.fields[0].0, "name");
}

#[test]
fn optional_document_drops_non_objects() {
    assert!(build_optional_document(Some("[1]")).unwrap().is_none());
}

#[test]
fn optional_document_rejects_malformed_text() {
    assert!(build_optional_document(Some("nope")).is_err());
}

#[test]
fn limit_parses_or_stays_absent() {
    assert!(find_limit(None).unwrap().is_none());
    assert_eq!(find_limit(Some("10")).unwrap(), Some(10));
    assert_eq!(find_limit(Some("-1")).unwrap(), Some(-1));
    assert!(find_limit(Some("ten")).is_err());
}

#[test]
fn find_one_absence_message() {
    assert_eq!(no_documents_message(), "No such documents");
}
