use mongodb_cli::config::Config;
use mongodb_cli::json::parse_json_text;

fn parse_config(text: &[u8]) -> Result<Config, String> {
    let v = parse_json_text(text)?;
    Config::from_json(&v)
}

#[test]
fn full_configuration_parses() {
    let c = parse_config(
        b"{\"connection_uri\":\"mongodb://localhost:27017\",\
           \"database_name\":\"db\",\
           \"collection_name\":\"coll\",\
           \"pipelines\":[\
             {\"name\":\"totals\",\"description\":\"sums\",\"stages\":[{\"$match\":{}}]},\
             {\"name\":\"plain\",\"stages\":[]}\
           ]}",
    )
    .unwrap();
    assert_eq!(c.connection_uri, "mongodb://localhost:27017");
    assert_eq!(c.database_name, "db");
    assert_eq!(c.collection_name, "coll");
    assert_eq!(c.pipelines.len(), 2);
    assert_eq!(c.pipelines[0].name, "totals");
    assert_eq!(c.pipelines[0].description.as_deref(), Some("sums"));
    assert_eq!(c.pipelines[0].stages.len(), 1);
    assert_eq!(c.pipelines[1].name, "plain");
    assert!(c.pipelines[1].description.is_none());
}

#[test]
fn null_description_means_none() {
    let c = parse_config(
        b"{\"connection_uri\":\"u\",\"database_name\":\"d\",\"collection_name\":\"c\",\
           \"pipelines\":[{\"name\":\"p\",\"description\":null,\"stages\":[]}]}",
    )
    .unwrap();
    assert!(c.pipelines[0].description.is_none());
}

#[test]
fn missing_connection_parameter_fails() {
    assert!(parse_config(
        b"{\"database_name\":\"d\",\"collection_name\":\"c\",\"pipelines\":[]}"
    )
    .is_err());
}

#[test]
fn missing_pipelines_field_fails() {
    assert!(parse_config(
        b"{\"connection_uri\":\"u\",\"database_name\":\"d\",\"collection_name\":\"c\"}"
    )
    .is_err());
}

#[test]
fn non_object_configuration_fails() {
    assert!(parse_config(b"[1,2,3]").is_err());
}

#[test]
fn wrongly_typed_parameter_fails() {
    assert!(parse_config(
        b"{\"connection_uri\":1,\"database_name\":\"d\",\"collection_name\":\"c\",\"pipelines\":[]}"
    )
    .is_err());
}

#[test]
fn pipeline_without_a_name_fails() {
    assert!(parse_config(
        b"{\"connection_uri\":\"u\",\"database_name\":\"d\",\"collection_name\":\"c\",\
           \"pipelines\":[{\"stages\":[]}]}"
    )
    .is_err());
}

#[test]
fn non_object_stage_fails() {
    let err = parse_config(
        b"{\"connection_uri\":\"u\",\"database_name\":\"d\",\"collection_name\":\"c\",\
           \"pipelines\":[{\"name\":\"p\",\"stages\":[1]}]}",
    )
    .unwrap_err();
    assert_eq!(err, "each pipeline stage must be an object");
}

#[test]
fn non_string_description_fails() {
    assert!(parse_config(
        b"{\"connection_uri\":\"u\",\"database_name\":\"d\",\"collection_name\":\"c\",\
           \"pipelines\":[{\"name\":\"p\",\"description\":3,\"stages\":[]}]}"
    )
    .is_err());
}

#[test]
fn parts_assemble_a_configuration_with_an_empty_registry() {
    let c = Config::from_parts(
        Some("u".to_string()),
        Some("d".to_string()),
        Some("c".to_string()),
    )
    .unwrap();
    assert_eq!(c.connection_uri, "u");
    assert_eq!(c.database_name, "d");
    assert_eq!(c.collection_name, "c");
    assert!(c.pipelines.is_empty());
}

#[test]
fn missing_parts_ask_for_arguments_or_a_config_file() {
    let err = Config::from_parts(Some("u".to_string()), None, Some("c".to_string())).unwrap_err();
    assert_eq!(
        err,
        "Please provide the connection-uri, database-name and collection-name by passing them as arguments or through config-file"
    );
}
