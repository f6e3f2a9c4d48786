//! Skeleton C source generation from a named record schema.
//!
//! The names in the generated text come from the stem of the schema's file
//! name alone. [`naming`] derives them and [`naming_lemmas`] proves what
//! holds of them; [`definition`] pairs them with the parsed document of
//! [`schema`]; [`generator`] composes the text, with the notice of
//! [`license`] in its header. [`split`], [`lines`] and [`chars`] hold what
//! these need of texts and characters.

pub mod chars;
pub mod definition;
pub mod generator;
pub mod license;
pub mod lines;
pub mod naming;
pub mod naming_lemmas;
pub mod schema;
pub mod split;
