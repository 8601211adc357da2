pub mod config;
pub mod dispatch;
pub mod json;
pub mod registry;
pub mod store;
pub mod text;

use vstd::prelude::*;

verus! {

/// The operations the client can dispatch against the document store.
pub enum MongoDbCommand {
    Create,
    Aggregate,
    FindMany,
    FindOne,
    Count,
    DeleteMany,
    DeleteOne,
    ListDatabases,
}

impl MongoDbCommand {
    /// The subcommand name under which this operation appears on the command line.
    pub fn to_str(self) -> (r: &'static str)
        ensures
            r@ == self.name_spec(),
    {
        match self {
            MongoDbCommand::Create => "create",
            MongoDbCommand::Aggregate => "aggregate",
            MongoDbCommand::FindMany => "find-many",
            MongoDbCommand::FindOne => "find-one",
            MongoDbCommand::Count => "count",
            MongoDbCommand::DeleteOne => "delete-one",
            MongoDbCommand::DeleteMany => "delete-many",
            MongoDbCommand::ListDatabases => "list-databases",
        }
    }

    /// The canonical subcommand name, as a sequence of characters.
    pub open spec fn name_spec(self) -> Seq<char> {
        match self {
            MongoDbCommand::Create => "create"@,
            MongoDbCommand::Aggregate => "aggregate"@,
            MongoDbCommand::FindMany => "find-many"@,
            MongoDbCommand::FindOne => "find-one"@,
            MongoDbCommand::Count => "count"@,
            MongoDbCommand::DeleteOne => "delete-one"@,
            MongoDbCommand::DeleteMany => "delete-many"@,
            MongoDbCommand::ListDatabases => "list-databases"@,
        }
    }
}

} // verus!
