//! A schema together with the names that the generated code gives it.

use vstd::prelude::*;
use crate::naming::{
    identifier_of, is_first_empty_word, is_valid_stem, prefix_of, stem_to_identifier,
    stem_to_prefix, validate_stem, InvalidName,
};
use crate::schema::Schema;

verus! {

/// A schema and its two names. The names come from the stem of the schema's
/// file name, never from the document.
#[derive(Debug, Clone, PartialEq, Eq)]
pub struct DataDefinition {
    /// The name of the record's type.
    pub identifier: String,
    /// What the names of the record's functions begin with.
    pub prefix: String,
    pub schema: Schema,
}

impl DataDefinition {
    /// Whether both names are the ones that `stem` gives.
    pub open spec fn is_derived_from(&self, stem: Seq<char>) -> bool {
        &&& self.prefix@ == prefix_of(stem)
        &&& self.identifier@ == identifier_of(stem)
    }

    /// Names the schema after the stem of its file, or refuses a stem with
    /// an empty word.
    pub fn new(stem: &str, schema: Schema) -> (result: Result<DataDefinition, InvalidName>)
        ensures
            result is Ok <==> is_valid_stem(stem@),
            result matches Ok(definition) ==> definition.is_derived_from(stem@)
                && definition.schema == schema,
            result matches Err(e) ==> is_first_empty_word(stem@, e.word as int),
    {
        match validate_stem(stem) {
            Ok(()) => Ok(
                DataDefinition {
                    identifier: stem_to_identifier(stem),
                    prefix: stem_to_prefix(stem),
                    schema,
                },
            ),
            Err(e) => Err(e),
        }
    }
}

} // verus!
