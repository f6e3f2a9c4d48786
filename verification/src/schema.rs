//! The schema document: a named record, its properties and which of them
//! are required.

use std::collections::HashMap;
use vstd::prelude::*;

verus! {

/// One property of a record. Any of its parts may be absent.
#[derive(Debug, Clone, PartialEq, Eq)]
pub struct SchemaProperties {
    /// The name of another schema that the property refers to.
    pub schema_ref: Option<String>,
    /// The name of a primitive type.
    pub data_type: Option<String>,
    pub description: Option<String>,
    /// The default value, as text.
    pub default: Option<String>,
}

/// The root of a schema document.
#[derive(Debug, Clone, PartialEq, Eq)]
pub struct Schema {
    /// The URI of the schema dialect.
    pub schema: String,
    pub id: String,
    pub tag: String,
    pub title: String,
    pub description: String,
    /// The type name of the record.
    pub schema_type: String,
    /// The properties of the record, by name.
    pub properties: HashMap<String, SchemaProperties>,
    /// The names of the properties that a record must have, in the order of
    /// the document.
    pub required: Vec<String>,
    /// Whether a record may have properties that the schema does not name.
    pub additional_properties: bool,
}

} // verus!
