//! The pipeline registry: named aggregation pipelines loaded once from
//! configuration, resolved by 0-based index, listed for display.

use vstd::prelude::*;
use vstd::string::StringExecFns;

use crate::store::{bv_obj_view, BsonModel, Document};
use crate::text::{dec_of, fmt_u64};

verus! {

/// A stored aggregation pipeline definition.
#[derive(Debug)]
pub struct Pipeline {
    pub name: String,
    pub description: Option<String>,
    pub stages: Vec<Document>,
}

/// The mathematical model of a pipeline definition.
#[verifier::ext_equal]
pub struct PipelineModel {
    pub name: Seq<char>,
    pub description: Option<Seq<char>>,
    pub stages: Seq<Seq<(Seq<char>, BsonModel)>>,
}

impl View for Pipeline {
    type V = PipelineModel;

    open spec fn view(&self) -> PipelineModel {
        PipelineModel {
            name: self.name@,
            description: match self.description {
                Some(d) => Some(d@),
                None => None,
            },
            stages: Seq::new(self.stages@.len(), |i: int| bv_obj_view(self.stages@[i].fields@)),
        }
    }
}

/// The message reported when an index does not resolve: it states how many
/// pipelines are available, with the count agreeing in number, and that
/// indexing is 0-based.
pub open spec fn resolve_error_spec(count: nat) -> Seq<char> {
    "There are only "@ + dec_of(count) + " pipeline"@ + (if count == 1nat {
        Seq::<char>::empty()
    } else {
        "s"@
    }) + " available. Note that it is 0-indexed"@
}

/// Resolves a stored pipeline by 0-based index, consuming the registry:
/// succeeds exactly on indices below the registry's length, and otherwise
/// reports the available count.
pub fn resolve_by_index(pipelines: Vec<Pipeline>, index: usize) -> (r: Result<Pipeline, String>)
    ensures
        index < pipelines@.len() ==> (r matches Ok(p) && p == pipelines@[index as int]),
        index >= pipelines@.len() ==> (r matches Err(m) && m@ == resolve_error_spec(
            pipelines@.len(),
        )),
{
    let count = pipelines.len();
    if index < count {
        let mut pipelines = pipelines;
        Ok(pipelines.remove(index))
    } else {
        let mut m = String::from_str("There are only ");
        let num = fmt_u64(count as u64);
        m.append(num.as_str());
        m.append(" pipeline");
        if count != 1 {
            m.append("s");
        }
        m.append(" available. Note that it is 0-indexed");
        proof {
            assert(m@ =~= resolve_error_spec(pipelines@.len()));
        }
        Err(m)
    }
}

/// The display line for one registry entry: the 0-based index, the name,
/// and the description after an arrow when there is one.
pub open spec fn pipeline_line_spec(index: nat, p: PipelineModel) -> Seq<char> {
    dec_of(index) + ". "@ + p.name + " "@ + (match p.description {
        Some(d) => "=> "@ + d,
        None => Seq::<char>::empty(),
    })
}

/// Lists the registry for display: one line per stored pipeline, in order.
/// Never fails; an empty registry yields no lines.
pub fn list_pipelines(pipelines: &Vec<Pipeline>) -> (r: Vec<String>)
    ensures
        r@.len() == pipelines@.len(),
        forall|i: int| 0 <= i < pipelines@.len() ==> r@[i]@ == pipeline_line_spec(
            i as nat,
            pipelines@[i]@,
        ),
{
    let mut out: Vec<String> = Vec::new();
    let mut i: usize = 0;
    while i < pipelines.len()
        invariant
            i <= pipelines@.len(),
            out@.len() == i as int,
            forall|j: int| 0 <= j < i ==> out@[j]@ == pipeline_line_spec(
                j as nat,
                pipelines@[j]@,
            ),
        decreases pipelines@.len() - i,
    {
        let p = &pipelines[i];
        let mut line = fmt_u64(i as u64);
        line.append(". ");
        line.append(p.name.as_str());
        line.append(" ");
        match &p.description {
            Some(d) => {
                line.append("=> ");
                line.append(d.as_str());
            },
            None => {},
        }
        proof {
            assert(line@ =~= pipeline_line_spec(i as nat, pipelines@[i as int]@));
        }
        out.push(line);
        i = i + 1;
    }
    out
}

} // verus!
