//! Search index synchronisation and query engine of a recipe catalogue.
//!
//! The catalogue keeps its recipes in a relational store and answers searches
//! by free text and by book, course, season and whether the user has tried a
//! recipe. This library is the part between the two: it keeps a full-text index
//! in step with the store, turns a filter into a query, and says which rows to
//! fetch.
//!
//! - [`search::analysis`] is the analysis chain that every indexed text and
//!   every free-text query goes through, with the stop words of
//!   [`search::stop_words`] and the synonyms of [`search::synonym_tokenizer`].
//! - [`text_search`] holds the schema, the documents and the two writes, a full
//!   rebuild and the upsert of one recipe, and states what the index holds after
//!   each.
//! - [`search::search_utils`] builds the index query of a filter as a list of
//!   clauses, [`queries`] the relational query of the legacy strategy, and
//!   [`search::search_toggle`] chooses between the two for each request.
//! - [`queries`] also joins the rows of the store into the records that the
//!   index is built from; [`importer`] reads recipe lists for the bulk import.
//!
//! The library never touches the store itself: it takes rows and returns query
//! texts. Tokenising, case folding, ASCII folding, stemming and the index itself
//! are tantivy's, patterns are the regex crate's; what this library believes of
//! them without proof stands in the contracts of the functions that call them.

pub mod args;
pub mod importer;
pub mod models;
pub mod parsetypes;
pub mod queries;
pub mod search;
pub mod strops;
pub mod text;
pub mod text_search;
