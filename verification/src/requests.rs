//! The requests that are sent to a namespace service, and the parts of its replies that are used.

use lance_namespace::models;
use std::collections::HashMap;
use vstd::prelude::*;

verus! {

/// Asks for one page of the tables in a namespace; an empty `id` is the root namespace.
pub struct ListTablesRequest {
    pub id: Vec<String>,
    pub page_token: Option<String>,
    pub limit: i32,
}

/// One page of table names, and the token of the next page.
pub struct ListTablesResponse {
    pub tables: Vec<String>,
    pub page_token: Option<String>,
}

/// Asks for the description of a table. A flag that is `None` is not sent.
pub struct DescribeTableRequest {
    pub id: Vec<String>,
    pub with_table_uri: Option<bool>,
    pub load_detailed_metadata: Option<bool>,
}

/// The description of a table.
pub struct DescribeTableResponse {
    pub location: Option<String>,
    pub table_uri: Option<String>,
    pub schema: Option<models::JsonArrowSchema>,
    pub storage_options: Option<HashMap<String, String>>,
}

/// Declares a table.
pub struct DeclareTableRequest {
    pub id: Vec<String>,
}

/// Where a declared table is to be stored.
pub struct DeclareTableResponse {
    pub location: Option<String>,
    pub storage_options: Option<HashMap<String, String>>,
}

/// Drops a table.
pub struct DropTableRequest {
    pub id: Vec<String>,
}

/// How the service failed to drop a table. Both hold the text of the error.
pub enum DropTableFailure {
    NotFound(String),
    Other(String),
}

} // verus!
