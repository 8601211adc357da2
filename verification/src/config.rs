//! The configuration: connection parameters and the pipeline registry,
//! either parsed out of one configuration document or assembled from
//! individually supplied values (in which case the registry is empty).

use vstd::prelude::*;
use vstd::string::StringExecFns;

use crate::json::{jv_obj_view, jv_seq_view, lemma_jv_obj_view, lemma_jv_seq_view, JsonModel, JsonValue};
use crate::registry::{Pipeline, PipelineModel};
use crate::store::{convert_documents, documents_of_json, Document};

verus! {

/// The configuration a single invocation runs under.
#[derive(Debug)]
pub struct Config {
    pub connection_uri: String,
    pub collection_name: String,
    pub database_name: String,
    pub pipelines: Vec<Pipeline>,
}

/// The mathematical model of a configuration.
#[verifier::ext_equal]
pub struct ConfigModel {
    pub connection_uri: Seq<char>,
    pub collection_name: Seq<char>,
    pub database_name: Seq<char>,
    pub pipelines: Seq<PipelineModel>,
}

impl View for Config {
    type V = ConfigModel;

    open spec fn view(&self) -> ConfigModel {
        ConfigModel {
            connection_uri: self.connection_uri@,
            collection_name: self.collection_name@,
            database_name: self.database_name@,
            pipelines: Seq::new(self.pipelines@.len(), |i: int| self.pipelines@[i]@),
        }
    }
}

// ------------------------------------------------------------------
// Field lookup in a JSON object.
// ------------------------------------------------------------------

/// The value under a key in an object, first occurrence winning.
pub open spec fn obj_lookup(fields: Seq<(Seq<char>, JsonModel)>, key: Seq<char>) -> Option<
    JsonModel,
>
    decreases fields.len(),
{
    if fields.len() == 0 {
        None
    } else if fields[0].0 == key {
        Some(fields[0].1)
    } else {
        obj_lookup(fields.drop_first(), key)
    }
}

proof fn lemma_obj_lookup_skip(fields: Seq<(Seq<char>, JsonModel)>, key: Seq<char>, i: int)
    requires
        0 <= i <= fields.len(),
        forall|j: int| 0 <= j < i ==> fields[j].0 != key,
    ensures
        obj_lookup(fields, key) == obj_lookup(fields.skip(i), key),
    decreases i,
{
    if i > 0 {
        assert(fields[0].0 != key);
        assert(forall|j: int| 0 <= j < i - 1 ==> fields.drop_first()[j] == fields[j + 1]);
        lemma_obj_lookup_skip(fields.drop_first(), key, i - 1);
        assert(fields.drop_first().skip(i - 1) =~= fields.skip(i));
        assert(obj_lookup(fields, key) == obj_lookup(fields.drop_first(), key));
    } else {
        assert(fields.skip(0) =~= fields);
    }
}

/// Looks a key up in an object's fields, first occurrence winning.
pub fn obj_get<'a>(fields: &'a Vec<(String, JsonValue)>, key: &str) -> (r: Option<&'a JsonValue>)
    ensures
        r is Some <==> obj_lookup(jv_obj_view(fields@), key@) is Some,
        r matches Some(v) ==> Some(v@) == obj_lookup(jv_obj_view(fields@), key@),
{
    let k = String::from_str(key);
    let ghost fv = jv_obj_view(fields@);
    proof {
        lemma_jv_obj_view(fields@);
    }
    let mut i: usize = 0;
    while i < fields.len()
        invariant
            i <= fields.len(),
            k@ == key@,
            fv == jv_obj_view(fields@),
            fv.len() == fields@.len(),
            forall|j: int| 0 <= j < fields@.len() ==> fv[j] == (
                fields@[j].0@,
                fields@[j].1@,
            ),
            forall|j: int| 0 <= j < i ==> fv[j].0 != key@,
        decreases fields@.len() - i,
    {
        if fields[i].0 == k {
            proof {
                lemma_obj_lookup_skip(fv, key@, i as int);
                assert(fv.skip(i as int).len() > 0);
                assert(fv.skip(i as int)[0] == fv[i as int]);
            }
            return Some(&fields[i].1);
        }
        i = i + 1;
    }
    proof {
        lemma_obj_lookup_skip(fv, key@, fields@.len() as int);
        assert(fv.skip(fields@.len() as int) =~= Seq::<(Seq<char>, JsonModel)>::empty());
    }
    None
}

// ------------------------------------------------------------------
// The shape of the configuration document.
// ------------------------------------------------------------------

/// A field that must hold a string.
pub open spec fn string_field(fields: Seq<(Seq<char>, JsonModel)>, key: Seq<char>) -> Option<
    Seq<char>,
> {
    match obj_lookup(fields, key) {
        Some(JsonModel::Str(s)) => Some(s),
        _ => None,
    }
}

/// A pipeline's description: absent or null means none, a string is kept,
/// anything else is a configuration error (the outer option).
pub open spec fn description_field(fields: Seq<(Seq<char>, JsonModel)>) -> Option<
    Option<Seq<char>>,
> {
    match obj_lookup(fields, "description"@) {
        None => Some(None),
        Some(JsonModel::Null) => Some(None),
        Some(JsonModel::Str(s)) => Some(Some(s)),
        Some(_) => None,
    }
}

/// One pipeline definition: an object with a string name, an optional
/// description, and an array of object stages.
pub open spec fn pipeline_of_json(j: JsonModel) -> Option<PipelineModel> {
    match j {
        JsonModel::Object(f) => match (
            string_field(f, "name"@),
            description_field(f),
            obj_lookup(f, "stages"@),
        ) {
            (Some(name), Some(description), Some(JsonModel::Array(elems))) => match documents_of_json(
                elems,
            ) {
                Some(stages) => Some(PipelineModel { name, description, stages }),
                None => None,
            },
            _ => None,
        },
        _ => None,
    }
}

/// All pipeline definitions: every element must be a well-formed pipeline.
pub open spec fn pipelines_of_json(elems: Seq<JsonModel>) -> Option<Seq<PipelineModel>>
    decreases elems.len(),
{
    if elems.len() == 0 {
        Some(Seq::empty())
    } else {
        match (pipelines_of_json(elems.drop_last()), pipeline_of_json(elems.last())) {
            (Some(rest), Some(p)) => Some(rest.push(p)),
            _ => None,
        }
    }
}

proof fn lemma_pipelines_failure(elems: Seq<JsonModel>, k: int)
    requires
        0 <= k <= elems.len(),
        pipelines_of_json(elems.take(k)) is None,
    ensures
        pipelines_of_json(elems) is None,
    decreases elems.len() - k,
{
    if k < elems.len() {
        assert(elems.take(k + 1).drop_last() =~= elems.take(k));
        lemma_pipelines_failure(elems, k + 1);
    } else {
        assert(elems.take(k) =~= elems);
    }
}

/// The whole configuration document: an object holding the three string
/// connection parameters and an array of pipelines.
pub open spec fn config_of_json(j: JsonModel) -> Option<ConfigModel> {
    match j {
        JsonModel::Object(f) => match (
            string_field(f, "connection_uri"@),
            string_field(f, "database_name"@),
            string_field(f, "collection_name"@),
            obj_lookup(f, "pipelines"@),
        ) {
            (Some(uri), Some(db), Some(coll), Some(JsonModel::Array(ps))) => match pipelines_of_json(
                ps,
            ) {
                Some(pipelines) => Some(
                    ConfigModel {
                        connection_uri: uri,
                        collection_name: coll,
                        database_name: db,
                        pipelines,
                    },
                ),
                None => None,
            },
            _ => None,
        },
        _ => None,
    }
}

// ------------------------------------------------------------------
// Parsing a configuration out of a JSON value.
// ------------------------------------------------------------------

fn parse_stages(elems: &Vec<JsonValue>) -> (r: Result<Vec<Document>, String>)
    ensures
        r is Ok <==> documents_of_json(jv_seq_view(elems@)) is Some,
        r matches Ok(ds) ==> Some(
            Seq::new(ds@.len(), |i: int| ds@[i]@),
        ) == documents_of_json(jv_seq_view(elems@)),
{
    match convert_documents(elems) {
        Some(ds) => Ok(ds),
        None => Err(String::from_str("each pipeline stage must be an object")),
    }
}

fn parse_pipeline(j: &JsonValue) -> (r: Result<Pipeline, String>)
    ensures
        r is Ok <==> pipeline_of_json(j@) is Some,
        r matches Ok(p) ==> Some(p@) == pipeline_of_json(j@),
{
    let fields = match j {
        JsonValue::Object(fields) => fields,
        _ => {
            return Err(String::from_str("each pipeline must be an object"));
        },
    };
    let name = match obj_get(fields, "name") {
        Some(JsonValue::Str(s)) => s.clone(),
        _ => {
            return Err(String::from_str("a pipeline needs a string name"));
        },
    };
    let description = match obj_get(fields, "description") {
        None => None,
        Some(JsonValue::Null) => None,
        Some(JsonValue::Str(s)) => Some(s.clone()),
        Some(_) => {
            return Err(String::from_str("a pipeline description must be a string"));
        },
    };
    let stages_json = match obj_get(fields, "stages") {
        Some(JsonValue::Array(elems)) => elems,
        _ => {
            return Err(String::from_str("a pipeline needs an array of stages"));
        },
    };
    let stages = match parse_stages(stages_json) {
        Ok(ds) => ds,
        Err(e) => {
            return Err(e);
        },
    };
    let p = Pipeline { name, description, stages };
    proof {
        assert(p@ =~= pipeline_of_json(j@)->Some_0);
    }
    Ok(p)
}

impl Config {
    /// Parses a configuration out of the JSON value a configuration file
    /// holds. Succeeds exactly on a well-shaped configuration document.
    #[verifier::rlimit(50)]
    pub fn from_json(v: &JsonValue) -> (r: Result<Config, String>)
        ensures
            r is Ok <==> config_of_json(v@) is Some,
            r matches Ok(c) ==> Some(c@) == config_of_json(v@),
    {
        let fields = match v {
            JsonValue::Object(fields) => fields,
            _ => {
                return Err(String::from_str("the configuration must be an object"));
            },
        };
        let connection_uri = match obj_get(fields, "connection_uri") {
            Some(JsonValue::Str(s)) => s.clone(),
            _ => {
                return Err(String::from_str("the configuration needs a string connection_uri"));
            },
        };
        let database_name = match obj_get(fields, "database_name") {
            Some(JsonValue::Str(s)) => s.clone(),
            _ => {
                return Err(String::from_str("the configuration needs a string database_name"));
            },
        };
        let collection_name = match obj_get(fields, "collection_name") {
            Some(JsonValue::Str(s)) => s.clone(),
            _ => {
                return Err(String::from_str("the configuration needs a string collection_name"));
            },
        };
        let ps_json = match obj_get(fields, "pipelines") {
            Some(JsonValue::Array(elems)) => elems,
            _ => {
                return Err(String::from_str("the configuration needs an array of pipelines"));
            },
        };
        let ghost pv = jv_seq_view(ps_json@);
        proof {
            lemma_jv_seq_view(ps_json@);
        }
        let mut pipelines: Vec<Pipeline> = Vec::new();
        let mut i: usize = 0;
        while i < ps_json.len()
            invariant
                i <= ps_json.len(),
                pv == jv_seq_view(ps_json@),
                pv.len() == ps_json@.len(),
                forall|j: int| 0 <= j < ps_json@.len() ==> pv[j] == ps_json@[j]@,
                pipelines@.len() == i as int,
                Some(Seq::new(pipelines@.len(), |j: int| pipelines@[j]@)) == pipelines_of_json(
                    pv.take(i as int),
                ),
                (config_of_json(v@) is Some) == (pipelines_of_json(pv) is Some),
                pipelines_of_json(pv) matches Some(ps) ==> config_of_json(v@) == Some(
                    ConfigModel {
                        connection_uri: connection_uri@,
                        collection_name: collection_name@,
                        database_name: database_name@,
                        pipelines: ps,
                    },
                ),
            decreases ps_json@.len() - i,
        {
            proof {
                assert(pv.take(i + 1).drop_last() =~= pv.take(i as int));
                assert(pv.take(i + 1).last() == pv[i as int]);
            }
            match parse_pipeline(&ps_json[i]) {
                Ok(p) => {
                    pipelines.push(p);
                    proof {
                        assert(Seq::new(pipelines@.len(), |j: int| pipelines@[j]@) =~= Seq::new(
                            (pipelines@.len() - 1) as nat,
                            |j: int| pipelines@[j]@,
                        ).push(pipelines@.last()@));
                    }
                },
                Err(e) => {
                    proof {
                        assert(pipelines_of_json(pv.take(i + 1)) is None);
                        lemma_pipelines_failure(pv, i + 1);
                    }
                    return Err(e);
                },
            }
            i = i + 1;
        }
        proof {
            assert(pv.take(ps_json@.len() as int) =~= pv);
        }
        let c = Config { connection_uri, collection_name, database_name, pipelines };
        proof {
            assert(c@ =~= config_of_json(v@)->Some_0);
        }
        Ok(c)
    }

    /// Assembles a configuration from individually supplied connection
    /// parameters; the registry is then empty. All three must be present,
    /// else the caller is told to supply them or a configuration file.
    pub fn from_parts(
        connection_uri: Option<String>,
        database_name: Option<String>,
        collection_name: Option<String>,
    ) -> (r: Result<Config, String>)
        ensures
            (connection_uri is Some && database_name is Some && collection_name is Some) ==> (
            r matches Ok(c) && c@ == (ConfigModel {
                connection_uri: connection_uri->0@,
                collection_name: collection_name->0@,
                database_name: database_name->0@,
                pipelines: Seq::empty(),
            })),
            !(connection_uri is Some && database_name is Some && collection_name is Some) ==> (
            r matches Err(m) && m@ ==
            "Please provide the connection-uri, database-name and collection-name by passing them as arguments or through config-file"@),
    {
        match (connection_uri, database_name, collection_name) {
            (Some(uri), Some(db), Some(coll)) => {
                let c = Config {
                    connection_uri: uri,
                    collection_name: coll,
                    database_name: db,
                    pipelines: Vec::new(),
                };
                proof {
                    assert(Seq::new(c.pipelines@.len(), |i: int| c.pipelines@[i]@) =~= Seq::<
                        PipelineModel,
                    >::empty());
                }
                Ok(c)
            },
            _ => Err(
                String::from_str(
                    "Please provide the connection-uri, database-name and collection-name by passing them as arguments or through config-file",
                ),
            ),
        }
    }
}

} // verus!
