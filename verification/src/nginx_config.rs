//! The shape of an nginx configuration after it has been parsed to JSON
//! (crossplane's output): a list of files, each with its parsed directives,
//! nested three levels deep.
use vstd::prelude::*;

verus! {

/// A JSON value of any shape. The balancer only carries these along.
#[verifier::external_type_specification]
#[verifier::external_body]
pub struct ExJsonValue(serde_json::Value);

#[derive(Default, Debug, Clone, PartialEq)]
pub struct Root {
    pub status: String,
    pub errors: Vec<serde_json::Value>,
    pub config: Vec<Config>,
}

#[derive(Default, Debug, Clone, PartialEq)]
pub struct Config {
    pub file: String,
    pub status: String,
    pub errors: Vec<serde_json::Value>,
    pub parsed: Vec<Parsed>,
}

#[derive(Default, Debug, Clone, PartialEq)]
pub struct Parsed {
    pub directive: String,
    pub line: i64,
    pub args: Vec<serde_json::Value>,
    pub block: Vec<Block>,
}

#[derive(Default, Debug, Clone, PartialEq)]
pub struct Block {
    pub directive: String,
    pub line: i64,
    pub args: Vec<String>,
    pub block: Vec<Block2>,
}

#[derive(Default, Debug, Clone, PartialEq)]
pub struct Block2 {
    pub directive: String,
    pub line: i64,
    pub args: Vec<String>,
    pub block: Vec<Block3>,
}

#[derive(Default, Debug, Clone, PartialEq)]
pub struct Block3 {
    pub directive: String,
    pub line: i64,
    pub args: Vec<String>,
}

} // verus!
