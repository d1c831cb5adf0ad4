//! The full-text index: its schema, its documents and the operations that keep
//! it in step with the relational store.
//!
//! The index is tantivy's. What it holds is spoken of through three names on the
//! writer: the documents that a reader sees, the documents that the next commit
//! would publish, and whether any operation waits for a commit.

use crate::args::SearchPrefill;
use crate::models::copy_text;
use crate::parsetypes::{season_at, season_name, ESeason};
use crate::queries::RecipeQueryResult;
use crate::search::analysis::{analysed, Analyzer};
use crate::search::search_utils::{
    clause_text, facet_path, make_facet_path, query_text, query_tree, season_paths,
    selected_season_paths, ClauseView,
};
use crate::text::{join, texts};
use std::collections::HashMap;
use tantivy::collector::TopDocs;
use tantivy::query::QueryParser;
use tantivy::schema::{
    FacetOptions, Field, IndexRecordOption, Schema, SchemaBuilder, TextFieldIndexing,
    TextOptions, Value, INDEXED, STORED,
};
use tantivy::tokenizer::{PreTokenizedString, Token};
use tantivy::{DocAddress, Index, IndexWriter, Searcher, TantivyDocument, TantivyError, Term};
use vstd::prelude::*;
use vstd::string::StringExecFns;

verus! {

/// A schema of tantivy.
#[verifier::external_type_specification]
#[verifier::external_body]
pub struct ExSchema(Schema);

/// A schema of tantivy that is still being built.
#[verifier::external_type_specification]
#[verifier::external_body]
pub struct ExSchemaBuilder(SchemaBuilder);

/// The handle of a field of a schema.
#[verifier::external_type_specification]
#[verifier::external_body]
pub struct ExField(Field);

/// An index of tantivy.
#[verifier::external_type_specification]
#[verifier::external_body]
pub struct ExIndex(Index);

/// A document as tantivy takes it.
#[verifier::external_type_specification]
#[verifier::external_body]
pub struct ExTantivyDocument(TantivyDocument);

/// An error of tantivy.
#[verifier::external_type_specification]
#[verifier::external_body]
pub struct ExTantivyError(TantivyError);

/// A snapshot of an index that queries run on.
#[verifier::external_type_specification]
#[verifier::external_body]
pub struct ExSearcher(Searcher);

/// The place of a document in a snapshot.
#[verifier::external_type_specification]
#[verifier::external_body]
pub struct ExDocAddress(DocAddress);

/// The one writer of an index: tantivy's `IndexWriter` for its own documents.
#[verifier::external_body]
pub struct Writer {
    inner: IndexWriter<TantivyDocument>,
}

/// The field of a recipe's name: analysed text, stored.
pub const SCHEMA_TITLE: &'static str = "title";

/// The field of a recipe's free text: analysed text, stored.
pub const SCHEMA_BODY: &'static str = "body";

/// The field of a recipe's source URL: analysed text, stored.
pub const SCHEMA_URL: &'static str = "url";

/// The facet of a recipe's book, and the first segment of its paths.
pub const SCHEMA_BOOK: &'static str = "book";

/// The facet of a recipe's season, and the first segment of its paths.
pub const SCHEMA_SEASON: &'static str = "season";

/// The facet of a recipe's course, and the first segment of its paths.
pub const SCHEMA_COURSE: &'static str = "course";

/// The field of a recipe's id in the relational store: an integer, stored and
/// indexed as it is.
pub const SCHEMA_RECIPE_ID: &'static str = "recipe_id";

/// The field of the names of a recipe's ingredients, one value for each:
/// analysed text, stored.
pub const SCHEMA_INGREDIENTS: &'static str = "ingredients";

/// The tokeniser that the schema names for its text fields. It passes a text on
/// as one token: the terms of a document reach the index already analysed.
pub const TEXT_TOKENIZER: &'static str = "raw";

/// The memory that the writer may use, in bytes.
pub const INDEX_MEMORY: usize = 50_000_000;

/// The most hits that a search returns.
pub const SEARCH_LIMIT: usize = 1024;

/// What a field of the schema holds.
pub enum FieldKind {
    /// Stored text, indexed with the positions of its terms.
    Text,
    /// A stored and indexed integer.
    Number,
    /// A facet path.
    Facet,
}

/// A field of the schema: its name and what it holds.
pub struct FieldSpec {
    pub name: Seq<char>,
    pub kind: FieldKind,
}

/// The text field with the name `name`.
pub open spec fn text_field(name: Seq<char>) -> FieldSpec {
    FieldSpec { name, kind: FieldKind::Text }
}

/// The integer field with the name `name`.
pub open spec fn number_field(name: Seq<char>) -> FieldSpec {
    FieldSpec { name, kind: FieldKind::Number }
}

/// The facet field with the name `name`.
pub open spec fn facet_field(name: Seq<char>) -> FieldSpec {
    FieldSpec { name, kind: FieldKind::Facet }
}

/// One value of a document, as the index takes it.
pub enum DocEntry {
    /// A text with the terms that the analysis chain made of it.
    Text { field: Field, text: Seq<char>, terms: Seq<Seq<char>> },
    /// An integer.
    Number { field: Field, value: i64 },
    /// A facet, as the index parses its path.
    Facet { field: Field, path: Seq<char> },
}

/// The values of a tantivy document, in the order in which they were added.
pub uninterp spec fn doc_values(d: TantivyDocument) -> Seq<DocEntry>;

/// The names of the fields that a schema builder holds.
pub uninterp spec fn builder_names(b: SchemaBuilder) -> Set<Seq<char>>;

/// No field at all.
pub open spec fn no_fields() -> Map<Field, FieldSpec> {
    Map::empty()
}

/// The fields that a schema builder holds, each with its name and its kind.
pub uninterp spec fn builder_fields(b: SchemaBuilder) -> Map<Field, FieldSpec>;

/// The fields of a schema, each with its name and its kind.
pub uninterp spec fn schema_fields(s: Schema) -> Map<Field, FieldSpec>;

/// The fields of a writer's schema, each with its name and its kind.
pub uninterp spec fn writer_fields(w: Writer) -> Map<Field, FieldSpec>;

/// The fields of an index's schema, each with its name and its kind.
pub uninterp spec fn index_fields(i: Index) -> Map<Field, FieldSpec>;

/// The fields of the schema of the index that a snapshot was taken of, each
/// with its name and its kind.
pub uninterp spec fn searcher_fields(s: Searcher) -> Map<Field, FieldSpec>;

/// Whether `place` is the place of a document in the snapshot.
pub uninterp spec fn holds_place(s: Searcher, place: DocAddress) -> bool;

/// What tantivy's query parser and search return on the snapshot `s` for the
/// query text `query`, with `first`, `second` and `third` as the fields of a
/// term without a field: the places of the `limit` best documents that meet the
/// query, best first. `None` where the query cannot be parsed or run.
pub uninterp spec fn found_places(
    s: Searcher,
    first: Field,
    second: Field,
    third: Field,
    query: Seq<char>,
    limit: usize,
) -> Option<Seq<DocAddress>>;

/// The first integer that the document at `place` of the snapshot `s` stores in
/// `field`; `None` where the document cannot be read or stores none.
pub uninterp spec fn stored_id(s: Searcher, place: DocAddress, field: Field) -> Option<i64>;

/// The facet that tantivy's `Facet::from_text` parses from a path that starts
/// with `/`: its segments, with each backslash dropped and the character behind
/// it kept.
pub uninterp spec fn parsed_facet(path: Seq<char>) -> Seq<char>;

/// The documents that a reader opened now sees, in the order in which they were
/// added.
pub uninterp spec fn published_docs(w: Writer) -> Seq<Seq<DocEntry>>;

/// The documents that a reader would see if the writer committed now.
pub uninterp spec fn staged_docs(w: Writer) -> Seq<Seq<DocEntry>>;

/// Whether no operation of the writer waits for a commit.
pub uninterp spec fn is_settled(w: Writer) -> bool;

/// A name that tantivy accepts for a field: not empty, and not starting with
/// `-`.
pub open spec fn valid_field_name(name: Seq<char>) -> bool {
    name.len() > 0 && name[0] != '-'
}

/// A text that tantivy accepts as a facet path: it starts with `/`.
pub open spec fn valid_facet_path(path: Seq<char>) -> bool {
    path.len() > 0 && path[0] == '/'
}

/// Whether a document holds the integer `value` in `field`.
pub open spec fn holds_number(doc: Seq<DocEntry>, field: Field, value: i64) -> bool {
    doc.contains(DocEntry::Number { field, value })
}

/// The test that a deletion by `field` and `value` leaves a document standing.
pub open spec fn lacks_number(field: Field, value: i64) -> spec_fn(Seq<DocEntry>) -> bool {
    |doc: Seq<DocEntry>| !holds_number(doc, field, value)
}

/// `Schema::builder`: a builder without fields.
#[verifier::external_body]
fn new_schema_builder() -> (b: SchemaBuilder)
    ensures
        builder_names(b) == Set::<Seq<char>>::empty(),
        builder_fields(b) == no_fields(),
{
    Schema::builder()
}

/// `SchemaBuilder::add_text_field`: adds a stored text field, indexed with
/// frequencies and positions under the tokeniser `tokenizer`. tantivy panics on
/// a name that it does not accept and on a name that the builder holds already.
#[verifier::external_body]
fn add_text_field(b: &mut SchemaBuilder, name: &str, tokenizer: &str) -> (field: Field)
    requires
        valid_field_name(name@),
        !builder_names(*old(b)).contains(name@),
    ensures
        builder_names(*final(b)) == builder_names(*old(b)).insert(name@),
        !builder_fields(*old(b)).contains_key(field),
        builder_fields(*final(b)) == builder_fields(*old(b)).insert(field, text_field(name@)),
{
    let indexing = TextFieldIndexing::default().set_tokenizer(tokenizer).set_index_option(
        IndexRecordOption::WithFreqsAndPositions,
    );
    b.add_text_field(name, TextOptions::default().set_indexing_options(indexing).set_stored())
}

/// `SchemaBuilder::add_i64_field`: adds a stored and indexed integer field.
/// tantivy panics on a name that it does not accept and on a name that the
/// builder holds already.
#[verifier::external_body]
fn add_number_field(b: &mut SchemaBuilder, name: &str) -> (field: Field)
    requires
        valid_field_name(name@),
        !builder_names(*old(b)).contains(name@),
    ensures
        builder_names(*final(b)) == builder_names(*old(b)).insert(name@),
        !builder_fields(*old(b)).contains_key(field),
        builder_fields(*final(b)) == builder_fields(*old(b)).insert(field, number_field(name@)),
{
    b.add_i64_field(name, STORED | INDEXED)
}

/// `SchemaBuilder::add_facet_field`: adds a facet field. tantivy panics on a
/// name that it does not accept and on a name that the builder holds already.
#[verifier::external_body]
fn add_facet_field(b: &mut SchemaBuilder, name: &str) -> (field: Field)
    requires
        valid_field_name(name@),
        !builder_names(*old(b)).contains(name@),
    ensures
        builder_names(*final(b)) == builder_names(*old(b)).insert(name@),
        !builder_fields(*old(b)).contains_key(field),
        builder_fields(*final(b)) == builder_fields(*old(b)).insert(field, facet_field(name@)),
{
    b.add_facet_field(name, FacetOptions::default())
}

/// `SchemaBuilder::build`: the schema with the builder's fields.
#[verifier::external_body]
fn finish_schema(b: SchemaBuilder) -> (schema: Schema)
    ensures
        schema_fields(schema) == builder_fields(b),
{
    b.build()
}

/// `Index::create_in_ram`, then `Index::writer`: a new index in memory for
/// `schema`, and its writer with `budget` bytes of memory. The new index holds
/// no document and nothing waits for a commit. tantivy refuses a budget that is
/// too small or too large.
#[verifier::external_body]
fn create_writer(schema: Schema, budget: usize) -> (r: Result<Writer, TantivyError>)
    ensures
        r matches Ok(w) ==> {
            &&& writer_fields(w) == schema_fields(schema)
            &&& published_docs(w) == Seq::<Seq<DocEntry>>::empty()
            &&& staged_docs(w) == Seq::<Seq<DocEntry>>::empty()
            &&& is_settled(w)
        },
{
    let index = Index::create_in_ram(schema);
    match index.writer(budget) {
        Ok(inner) => Ok(Writer { inner }),
        Err(e) => Err(e),
    }
}

/// `IndexWriter::index`: a handle of the index that the writer writes to.
#[verifier::external_body]
fn writer_index(w: &Writer) -> (index: Index)
    ensures
        index_fields(index) == writer_fields(*w),
{
    w.inner.index().clone()
}

/// `IndexWriter::delete_all_documents`: drops every document of the index. Where
/// nothing waits for a commit, the next commit publishes no document but those
/// added after this call. What readers see stays until that commit.
#[verifier::external_body]
fn delete_all(w: &mut Writer) -> (r: Result<(), TantivyError>)
    requires
        is_settled(*old(w)),
    ensures
        writer_fields(*final(w)) == writer_fields(*old(w)),
        published_docs(*final(w)) == published_docs(*old(w)),
        r is Ok ==> staged_docs(*final(w)) == Seq::<Seq<DocEntry>>::empty(),
{
    match w.inner.delete_all_documents() {
        Ok(_) => Ok(()),
        Err(e) => Err(e),
    }
}

/// `IndexWriter::delete_term` with the term of `Term::from_field_i64`: deletes
/// every document added before this call that holds `value` in `field`. The
/// deletion shows after the next commit. On a field that is not an indexed
/// integer tantivy deletes nothing, so such a field is left out.
#[verifier::external_body]
fn delete_number(w: &mut Writer, field: Field, value: i64)
    requires
        writer_fields(*old(w)).contains_key(field),
        writer_fields(*old(w))[field].kind == FieldKind::Number,
    ensures
        writer_fields(*final(w)) == writer_fields(*old(w)),
        published_docs(*final(w)) == published_docs(*old(w)),
        staged_docs(*final(w)) == staged_docs(*old(w)).filter(lacks_number(field, value)),
{
    w.inner.delete_term(Term::from_field_i64(field, value));
}

/// `IndexWriter::add_document`: adds `doc`. The document shows after the next
/// commit.
#[verifier::external_body]
fn add_document(w: &mut Writer, doc: TantivyDocument) -> (r: Result<(), TantivyError>)
    ensures
        writer_fields(*final(w)) == writer_fields(*old(w)),
        published_docs(*final(w)) == published_docs(*old(w)),
        r is Ok ==> staged_docs(*final(w)) == staged_docs(*old(w)).push(doc_values(doc)),
{
    match w.inner.add_document(doc) {
        Ok(_) => Ok(()),
        Err(e) => Err(e),
    }
}

/// `IndexWriter::commit`: publishes what was added and deleted since the last
/// commit. When it returns `Ok`, readers opened from then on see it, and nothing
/// waits for a commit. When it returns `Err`, the new list of segments was not
/// written, and readers see what they saw.
#[verifier::external_body]
fn commit(w: &mut Writer) -> (r: Result<(), TantivyError>)
    ensures
        writer_fields(*final(w)) == writer_fields(*old(w)),
        r is Err ==> published_docs(*final(w)) == published_docs(*old(w)),
        r is Ok ==> {
            &&& published_docs(*final(w)) == staged_docs(*old(w))
            &&& staged_docs(*final(w)) == staged_docs(*old(w))
            &&& is_settled(*final(w))
        },
{
    match w.inner.commit() {
        Ok(_) => Ok(()),
        Err(e) => Err(e),
    }
}

/// `IndexWriter::rollback`: cancels what was added and deleted since the last
/// commit. When it returns `Ok`, the writer is as it was after that commit. A
/// writer whose rollback failed cannot be used again, so the call takes the
/// writer and hands it back only on success.
#[verifier::external_body]
fn roll_back(w: Writer) -> (r: Result<Writer, TantivyError>)
    ensures
        r matches Ok(v) ==> {
            &&& writer_fields(v) == writer_fields(w)
            &&& published_docs(v) == published_docs(w)
            &&& staged_docs(v) == published_docs(w)
            &&& is_settled(v)
        },
{
    let mut w = w;
    match w.inner.rollback() {
        Ok(_) => Ok(w),
        Err(e) => Err(e),
    }
}

/// `TantivyDocument::new`: a document without values.
#[verifier::external_body]
fn new_document() -> (doc: TantivyDocument)
    ensures
        doc_values(doc) == Seq::<DocEntry>::empty(),
{
    TantivyDocument::new()
}

/// `TantivyDocument::add_pre_tokenized_text`: adds the text `text` to `field`
/// with `terms` as its tokens, the token at place `i` at position `i`.
#[verifier::external_body]
fn add_analysed_text(doc: &mut TantivyDocument, field: Field, text: &str, terms: &Vec<String>)
    ensures
        doc_values(*final(doc)) == doc_values(*old(doc)).push(
            DocEntry::Text { field, text: text@, terms: texts(terms@) },
        ),
{
    let tokens = terms.iter().enumerate().map(
        |(i, t)| Token { position: i, text: t.clone(), ..Token::default() },
    ).collect();
    doc.add_pre_tokenized_text(field, PreTokenizedString { text: text.to_string(), tokens });
}

/// `TantivyDocument::add_i64`: adds the integer `value` to `field`.
#[verifier::external_body]
fn add_number(doc: &mut TantivyDocument, field: Field, value: i64)
    ensures
        doc_values(*final(doc)) == doc_values(*old(doc)).push(DocEntry::Number { field, value }),
{
    doc.add_i64(field, value);
}

/// `TantivyDocument::add_facet`: adds to `field` the facet that
/// `Facet::from_text` parses from `path`. tantivy panics on a path that does not
/// start with `/`.
#[verifier::external_body]
fn add_facet(doc: &mut TantivyDocument, field: Field, path: &str)
    requires
        valid_facet_path(path@),
    ensures
        doc_values(*final(doc)) == doc_values(*old(doc)).push(
            DocEntry::Facet { field, path: parsed_facet(path@) },
        ),
{
    doc.add_facet(field, path);
}

/// `Index::reader`, then `IndexReader::searcher`: a snapshot of what the index
/// has published by now.
#[verifier::external_body]
fn open_searcher(index: &Index) -> (r: Result<Searcher, TantivyError>)
    ensures
        r matches Ok(s) ==> searcher_fields(s) == index_fields(*index),
{
    match index.reader() {
        Ok(reader) => Ok(reader.searcher()),
        Err(e) => Err(e),
    }
}

/// `QueryParser::parse_query`, then `Searcher::search` with
/// `TopDocs::with_limit`: the places of at most `limit` documents of the
/// snapshot that meet `query`, best first. A term without a field is looked for
/// in the three fields given, which are fields of the snapshot's index. `None`
/// where tantivy cannot parse or run the query. Which documents come back is for
/// tantivy to say; on one snapshot it depends on the fields, the query and the
/// limit alone. tantivy panics on a limit of 0, and makes room for twice the
/// limit at once.
#[verifier::external_body]
fn find(searcher: &Searcher, first: Field, second: Field, third: Field, query: &str, limit: usize) -> (hits:
    Option<Vec<DocAddress>>)
    requires
        0 < limit <= 0x10000,
        searcher_fields(*searcher).contains_key(first),
        searcher_fields(*searcher).contains_key(second),
        searcher_fields(*searcher).contains_key(third),
    ensures
        match hits {
            Some(h) => found_places(*searcher, first, second, third, query@, limit) == Some(h@),
            None => found_places(*searcher, first, second, third, query@, limit) is None,
        },
        hits matches Some(h) ==> h@.len() <= limit && forall|i: int|
            0 <= i < h@.len() ==> holds_place(*searcher, #[trigger] h@[i]),
{
    let parser = QueryParser::for_index(searcher.index(), vec![first, second, third]);
    let parsed = parser.parse_query(query).ok()?;
    let found = searcher.search(&parsed, &TopDocs::with_limit(limit)).ok()?;
    Some(found.into_iter().map(|hit| hit.1).collect())
}

/// `Searcher::doc`, then `TantivyDocument::get_first`: the first integer that
/// the document at `place` stores in `field`; `None` where the document cannot
/// be read or stores none. tantivy panics on a place that is none of the
/// snapshot.
#[verifier::external_body]
fn stored_number(searcher: &Searcher, place: DocAddress, field: Field) -> (value: Option<i64>)
    requires
        holds_place(*searcher, place),
    ensures
        value == stored_id(*searcher, place, field),
{
    let doc: TantivyDocument = searcher.doc(place).ok()?;
    doc.get_first(field)?.as_i64()
}

/// Why an operation on the index failed.
#[derive(Debug, Clone, Copy, PartialEq, Eq, Structural)]
pub enum IndexError {
    /// The index could not be opened, written or committed.
    Unavailable,
    /// The index could not parse or run a query.
    Query,
}

impl IndexError {
    /// The error in words.
    pub fn message(&self) -> (text: &'static str)
        ensures
            text@ == (match *self {
                IndexError::Unavailable => "search index unavailable"@,
                IndexError::Query => "search index cannot run the query"@,
            }),
    {
        match self {
            IndexError::Unavailable => "search index unavailable",
            IndexError::Query => "search index cannot run the query",
        }
    }
}

/// The handles of the eight fields of the schema.
#[derive(Clone, Copy)]
pub struct IndexFields {
    pub title: Field,
    pub body: Field,
    pub ingredients: Field,
    pub url: Field,
    pub recipe_id: Field,
    pub book: Field,
    pub season: Field,
    pub course: Field,
}

impl IndexFields {
    /// The handles are those of the schema with the fields `fields`, each the
    /// handle of the field with its name: four text fields, the id as an
    /// integer, and three facets.
    pub open spec fn fit(self, fields: Map<Field, FieldSpec>) -> bool {
        &&& fields.contains_pair(self.title, text_field(SCHEMA_TITLE@))
        &&& fields.contains_pair(self.body, text_field(SCHEMA_BODY@))
        &&& fields.contains_pair(self.ingredients, text_field(SCHEMA_INGREDIENTS@))
        &&& fields.contains_pair(self.url, text_field(SCHEMA_URL@))
        &&& fields.contains_pair(self.recipe_id, number_field(SCHEMA_RECIPE_ID@))
        &&& fields.contains_pair(self.book, facet_field(SCHEMA_BOOK@))
        &&& fields.contains_pair(self.season, facet_field(SCHEMA_SEASON@))
        &&& fields.contains_pair(self.course, facet_field(SCHEMA_COURSE@))
    }
}

/// The document of one recipe. `book`, `season` and `course` hold facet paths.
/// A value that the recipe lacks is `None`, never an empty text.
pub struct IndexedDocument {
    pub title: Option<String>,
    pub body: Option<String>,
    pub ingredients: Vec<String>,
    pub url: Option<String>,
    pub recipe_id: i64,
    pub book: Option<String>,
    pub season: String,
    pub course: String,
}

/// What a document holds, over plain sequences.
pub struct IndexedDocumentView {
    pub title: Option<Seq<char>>,
    pub body: Option<Seq<char>>,
    pub ingredients: Seq<Seq<char>>,
    pub url: Option<Seq<char>>,
    pub recipe_id: i64,
    pub book: Option<Seq<char>>,
    pub season: Seq<char>,
    pub course: Seq<char>,
}

/// The view of an optional string.
pub open spec fn opt_text(o: Option<String>) -> Option<Seq<char>> {
    match o {
        Some(s) => Some(s@),
        None => None,
    }
}

impl View for IndexedDocument {
    type V = IndexedDocumentView;

    open spec fn view(&self) -> IndexedDocumentView {
        IndexedDocumentView {
            title: opt_text(self.title),
            body: opt_text(self.body),
            ingredients: texts(self.ingredients@),
            url: opt_text(self.url),
            recipe_id: self.recipe_id,
            book: opt_text(self.book),
            season: self.season@,
            course: self.course@,
        }
    }
}

impl IndexedDocumentView {
    /// Every facet of the document is a path that starts with `/`.
    pub open spec fn well_formed(self) -> bool {
        &&& valid_facet_path(self.season)
        &&& valid_facet_path(self.course)
        &&& self.book matches Some(b) ==> valid_facet_path(b)
    }
}

/// Whether a record can be indexed: the store has given it an id, and its
/// season is one of the five.
pub open spec fn indexable(record: RecipeQueryResult) -> bool {
    &&& record.recipe.recipe_id is Some
    &&& 1 <= record.recipe.primary_season <= 5
}

/// The document of a record: its name as the title, its free text as the body,
/// its ingredients, its URL, its id, and the facet paths of its book, its season
/// and its course.
pub open spec fn doc_of(record: RecipeQueryResult) -> IndexedDocumentView {
    IndexedDocumentView {
        title: opt_text(record.recipe.recipe_name),
        body: opt_text(record.recipe_text),
        ingredients: texts(record.ingredients@),
        url: opt_text(record.recipe.recipe_url),
        recipe_id: record.recipe.recipe_id.unwrap() as i64,
        book: match record.book_name {
            Some(b) => Some(facet_path(SCHEMA_BOOK@, b@)),
            None => None,
        },
        season: facet_path(
            SCHEMA_SEASON@,
            season_name(season_at(record.recipe.primary_season as int)),
        ),
        course: facet_path(SCHEMA_COURSE@, record.course_name@),
    }
}

/// The value of a text in `field`: the text with the terms of the chain.
pub open spec fn text_entry(
    field: Field,
    text: Seq<char>,
    stops: Seq<Seq<char>>,
    synonyms: Seq<(Seq<char>, Seq<char>)>,
) -> DocEntry {
    DocEntry::Text { field, text, terms: analysed(stops, synonyms, text) }
}

/// The value of an optional text in `field`: none where the text is absent.
pub open spec fn optional_text(
    field: Field,
    text: Option<Seq<char>>,
    stops: Seq<Seq<char>>,
    synonyms: Seq<(Seq<char>, Seq<char>)>,
) -> Seq<DocEntry> {
    match text {
        Some(t) => seq![text_entry(field, t, stops, synonyms)],
        None => seq![],
    }
}

/// One text value in `field` for each of `names`, in their order.
pub open spec fn text_entries(
    field: Field,
    names: Seq<Seq<char>>,
    stops: Seq<Seq<char>>,
    synonyms: Seq<(Seq<char>, Seq<char>)>,
) -> Seq<DocEntry> {
    Seq::new(names.len(), |i: int| text_entry(field, names[i], stops, synonyms))
}

/// The value of an optional facet in `field`: none where the path is absent.
pub open spec fn optional_facet(field: Field, path: Option<Seq<char>>) -> Seq<DocEntry> {
    match path {
        Some(p) => seq![DocEntry::Facet { field, path: parsed_facet(p) }],
        None => seq![],
    }
}

/// The values that the index takes for a document: the title, the ingredients,
/// the id, the course, the book, the body, the URL, the season.
pub open spec fn entries_of(
    doc: IndexedDocumentView,
    f: IndexFields,
    stops: Seq<Seq<char>>,
    synonyms: Seq<(Seq<char>, Seq<char>)>,
) -> Seq<DocEntry> {
    optional_text(f.title, doc.title, stops, synonyms) + text_entries(
        f.ingredients,
        doc.ingredients,
        stops,
        synonyms,
    ) + seq![
        DocEntry::Number { field: f.recipe_id, value: doc.recipe_id },
        DocEntry::Facet { field: f.course, path: parsed_facet(doc.course) },
    ] + optional_facet(f.book, doc.book) + optional_text(f.body, doc.body, stops, synonyms)
        + optional_text(f.url, doc.url, stops, synonyms) + seq![
        DocEntry::Facet { field: f.season, path: parsed_facet(doc.season) },
    ]
}

/// The documents of `records` as the index takes them, in the order of the
/// records.
pub open spec fn docs_of(
    records: Seq<RecipeQueryResult>,
    f: IndexFields,
    stops: Seq<Seq<char>>,
    synonyms: Seq<(Seq<char>, Seq<char>)>,
) -> Seq<Seq<DocEntry>> {
    Seq::new(records.len(), |i: int| entries_of(doc_of(records[i]), f, stops, synonyms))
}

/// What the index holds after the document `doc` with the id `id` took the place
/// of every document with that id.
pub open spec fn upserted(
    before: Seq<Seq<DocEntry>>,
    field: Field,
    id: i64,
    doc: Seq<DocEntry>,
) -> Seq<Seq<DocEntry>> {
    before.filter(lacks_number(field, id)).push(doc)
}

/// The document of `record`.
pub fn recipe_to_doc(record: &RecipeQueryResult) -> (doc: IndexedDocument)
    requires
        indexable(*record),
    ensures
        doc@ == doc_of(*record),
        doc@.well_formed(),
{
    let mut ingredients: Vec<String> = Vec::new();
    let mut i: usize = 0;
    while i < record.ingredients.len()
        invariant
            i <= record.ingredients.len(),
            ingredients@.len() == i,
            forall|k: int| 0 <= k < i ==> (#[trigger] ingredients@[k])@ == record.ingredients@[k]@,
        decreases record.ingredients.len() - i,
    {
        ingredients.push(record.ingredients[i].clone());
        i += 1;
    }
    assert(texts(ingredients@) =~= texts(record.ingredients@));
    let id: i32 = match record.recipe.recipe_id {
        Some(v) => v,
        None => 0,
    };
    let book = match &record.book_name {
        Some(b) => Some(make_facet_path(SCHEMA_BOOK, b.as_str())),
        None => None,
    };
    let season = ESeason::get_by_db_id(record.recipe.primary_season);
    let doc = IndexedDocument {
        title: copy_text(&record.recipe.recipe_name),
        body: copy_text(&record.recipe_text),
        ingredients,
        url: copy_text(&record.recipe.recipe_url),
        recipe_id: id as i64,
        book,
        season: make_facet_path(SCHEMA_SEASON, season.name()),
        course: make_facet_path(SCHEMA_COURSE, record.course_name.as_str()),
    };
    proof {
        reveal_strlit("/");
        assert(doc@.well_formed());
    }
    doc
}

/// Adds `text` to `field` of `out`, with the terms that `analyzer` makes of it.
fn add_text(out: &mut TantivyDocument, field: Field, text: &str, analyzer: &Analyzer)
    ensures
        doc_values(*final(out)) == doc_values(*old(out)).push(
            text_entry(field, text@, analyzer.stop_filter.stops(), analyzer.synonym_filter.pairs()),
        ),
{
    let terms = analyzer.analyze(text);
    add_analysed_text(out, field, text, &terms);
}

/// Adds `text` to `field` of `out` where there is one.
fn add_optional_text(
    out: &mut TantivyDocument,
    field: Field,
    text: &Option<String>,
    analyzer: &Analyzer,
)
    ensures
        doc_values(*final(out)) == doc_values(*old(out)) + optional_text(
            field,
            opt_text(*text),
            analyzer.stop_filter.stops(),
            analyzer.synonym_filter.pairs(),
        ),
{
    match text {
        Some(t) => {
            add_text(out, field, t.as_str(), analyzer);
        },
        None => {},
    }
    assert(doc_values(*out) =~= doc_values(*old(out)) + optional_text(
        field,
        opt_text(*text),
        analyzer.stop_filter.stops(),
        analyzer.synonym_filter.pairs(),
    ));
}

/// The document `doc` as tantivy takes it: one value for each value of `doc`,
/// each text with the terms that `analyzer` makes of it.
pub fn to_index_document(doc: &IndexedDocument, fields: &IndexFields, analyzer: &Analyzer) -> (out:
    TantivyDocument)
    requires
        doc@.well_formed(),
    ensures
        doc_values(out) == entries_of(
            doc@,
            *fields,
            analyzer.stop_filter.stops(),
            analyzer.synonym_filter.pairs(),
        ),
{
    let ghost stops = analyzer.stop_filter.stops();
    let ghost synonyms = analyzer.synonym_filter.pairs();
    let mut out = new_document();
    add_optional_text(&mut out, fields.title, &doc.title, analyzer);
    let ghost head = doc_values(out);
    let mut i: usize = 0;
    assert(doc_values(out) =~= head + text_entries(
        fields.ingredients,
        doc@.ingredients.take(0),
        stops,
        synonyms,
    ));
    while i < doc.ingredients.len()
        invariant
            i <= doc.ingredients.len(),
            stops == analyzer.stop_filter.stops(),
            synonyms == analyzer.synonym_filter.pairs(),
            doc_values(out) == head + text_entries(
                fields.ingredients,
                doc@.ingredients.take(i as int),
                stops,
                synonyms,
            ),
        decreases doc.ingredients.len() - i,
    {
        add_text(&mut out, fields.ingredients, doc.ingredients[i].as_str(), analyzer);
        assert(doc_values(out) =~= head + text_entries(
            fields.ingredients,
            doc@.ingredients.take(i + 1),
            stops,
            synonyms,
        ));
        i += 1;
    }
    assert(doc@.ingredients.take(doc.ingredients.len() as int) == doc@.ingredients);
    add_number(&mut out, fields.recipe_id, doc.recipe_id);
    add_facet(&mut out, fields.course, doc.course.as_str());
    match &doc.book {
        Some(b) => {
            add_facet(&mut out, fields.book, b.as_str());
        },
        None => {},
    }
    add_optional_text(&mut out, fields.body, &doc.body, analyzer);
    add_optional_text(&mut out, fields.url, &doc.url, analyzer);
    add_facet(&mut out, fields.season, doc.season.as_str());
    assert(doc_values(out) =~= entries_of(doc@, *fields, stops, synonyms));
    out
}

/// The eight field names differ from one another, and tantivy accepts each.
pub proof fn lemma_field_names()
    ensures
        valid_field_name(SCHEMA_TITLE@),
        valid_field_name(SCHEMA_BODY@),
        valid_field_name(SCHEMA_INGREDIENTS@),
        valid_field_name(SCHEMA_URL@),
        valid_field_name(SCHEMA_RECIPE_ID@),
        valid_field_name(SCHEMA_BOOK@),
        valid_field_name(SCHEMA_SEASON@),
        valid_field_name(SCHEMA_COURSE@),
        SCHEMA_TITLE@.len() == 5,
        SCHEMA_BODY@.len() == 4,
        SCHEMA_INGREDIENTS@.len() == 11,
        SCHEMA_URL@.len() == 3,
        SCHEMA_RECIPE_ID@.len() == 9,
        SCHEMA_BOOK@.len() == 4,
        SCHEMA_SEASON@.len() == 6,
        SCHEMA_COURSE@.len() == 6,
        SCHEMA_BODY@[2] == 'd',
        SCHEMA_BOOK@[2] == 'o',
        SCHEMA_SEASON@[0] == 's',
        SCHEMA_COURSE@[0] == 'c',
{
    reveal_strlit("title");
    reveal_strlit("body");
    reveal_strlit("ingredients");
    reveal_strlit("url");
    reveal_strlit("recipe_id");
    reveal_strlit("book");
    reveal_strlit("season");
    reveal_strlit("course");
}

/// The schema of the index and the handles of its fields: four stored text
/// fields, the stored and indexed id, and three facets.
pub fn build_schema() -> (built: (Schema, IndexFields))
    ensures
        built.1.fit(schema_fields(built.0)),
{
    proof {
        lemma_field_names();
    }
    let mut b = new_schema_builder();
    let title = add_text_field(&mut b, SCHEMA_TITLE, TEXT_TOKENIZER);
    let body = add_text_field(&mut b, SCHEMA_BODY, TEXT_TOKENIZER);
    assert(builder_names(b) =~= set![SCHEMA_TITLE@, SCHEMA_BODY@]);
    let ingredients = add_text_field(&mut b, SCHEMA_INGREDIENTS, TEXT_TOKENIZER);
    let url = add_text_field(&mut b, SCHEMA_URL, TEXT_TOKENIZER);
    assert(builder_names(b) =~= set![
        SCHEMA_TITLE@,
        SCHEMA_BODY@,
        SCHEMA_INGREDIENTS@,
        SCHEMA_URL@,
    ]);
    let recipe_id = add_number_field(&mut b, SCHEMA_RECIPE_ID);
    assert(SCHEMA_BOOK@ != SCHEMA_BODY@);
    let book = add_facet_field(&mut b, SCHEMA_BOOK);
    assert(builder_names(b) =~= set![
        SCHEMA_TITLE@,
        SCHEMA_BODY@,
        SCHEMA_INGREDIENTS@,
        SCHEMA_URL@,
        SCHEMA_RECIPE_ID@,
        SCHEMA_BOOK@,
    ]);
    let season = add_facet_field(&mut b, SCHEMA_SEASON);
    assert(SCHEMA_COURSE@ != SCHEMA_SEASON@);
    let course = add_facet_field(&mut b, SCHEMA_COURSE);
    let schema = finish_schema(b);
    (schema, IndexFields { title, body, ingredients, url, recipe_id, book, season, course })
}

/// The index with its one writer. Who holds the state exclusively may write;
/// `index` is a handle for readers, who take no part in that exclusion.
pub struct SearchState {
    pub index: Index,
    pub fields: IndexFields,
    pub analyzer: Analyzer,
    /// The writer; `None` once a write failed and could not be cancelled.
    pub writer: Option<Writer>,
    /// Whether every write so far was committed or cancelled.
    pub settled: bool,
}

impl SearchState {
    /// The state is consistent: `fields` holds the handles of the index's
    /// fields, the chain holds the tables of the catalogue, the writer writes to
    /// the index, and where the state counts as settled, nothing waits for a
    /// commit.
    pub open spec fn wf(self) -> bool {
        &&& self.fields.fit(index_fields(self.index))
        &&& self.analyzer.holds_catalogue_tables()
        &&& self.writer matches Some(w) ==> {
            &&& writer_fields(w) == index_fields(self.index)
            &&& self.settled ==> is_settled(w) && staged_docs(w) == published_docs(w)
        }
    }

    /// The state still has its writer. It loses the writer when a write failed
    /// and could not be cancelled either.
    pub open spec fn usable(self) -> bool {
        self.writer is Some
    }

    /// Every write so far was committed or cancelled.
    pub open spec fn in_step(self) -> bool {
        self.writer is Some && self.settled
    }

    /// The documents that a reader opened now sees.
    pub open spec fn published(self) -> Seq<Seq<DocEntry>> {
        published_docs(self.writer.unwrap())
    }

    /// The stop words of the analysis chain.
    pub open spec fn stops(self) -> Seq<Seq<char>> {
        self.analyzer.stop_filter.stops()
    }

    /// The synonym table of the analysis chain.
    pub open spec fn synonyms(self) -> Seq<(Seq<char>, Seq<char>)> {
        self.analyzer.synonym_filter.pairs()
    }

    /// The values that the index takes for `record`.
    pub open spec fn entries(self, record: RecipeQueryResult) -> Seq<DocEntry> {
        entries_of(doc_of(record), self.fields, self.stops(), self.synonyms())
    }

    /// Whether the state still has its writer.
    pub fn is_usable(&self) -> (usable: bool)
        ensures
            usable == self.usable(),
    {
        self.writer.is_some()
    }

    /// Takes the writer out of the state, cancelling first what an earlier write
    /// left behind.
    fn take_writer(&mut self) -> (taken: Option<Writer>)
        requires
            old(self).wf(),
        ensures
            final(self).writer is None,
            final(self).index == old(self).index,
            final(self).fields == old(self).fields,
            final(self).analyzer == old(self).analyzer,
            taken is Some ==> old(self).usable(),
            taken matches Some(w) ==> {
                &&& writer_fields(w) == index_fields(old(self).index)
                &&& is_settled(w)
                &&& staged_docs(w) == published_docs(w)
                &&& published_docs(w) == old(self).published()
            },
    {
        let mut taken: Option<Writer> = None;
        std::mem::swap(&mut self.writer, &mut taken);
        match taken {
            None => None,
            Some(w) => {
                if self.settled {
                    Some(w)
                } else {
                    match roll_back(w) {
                        Ok(v) => Some(v),
                        Err(_) => None,
                    }
                }
            },
        }
    }

    /// Gives up a write: cancels what it did so far. The state keeps the writer
    /// only if that succeeds, and is then ready for the next write.
    fn abandon(&mut self, w: Writer)
        requires
            old(self).fields.fit(index_fields(old(self).index)),
            old(self).analyzer.holds_catalogue_tables(),
            writer_fields(w) == index_fields(old(self).index),
        ensures
            final(self).wf(),
            final(self).usable() ==> final(self).in_step(),
            final(self).usable() ==> final(self).published() == published_docs(w),
            final(self).index == old(self).index,
            final(self).fields == old(self).fields,
            final(self).analyzer == old(self).analyzer,
    {
        match roll_back(w) {
            Ok(v) => {
                self.writer = Some(v);
                self.settled = true;
            },
            Err(_) => {
                self.writer = None;
                self.settled = false;
            },
        }
    }
}

/// A new, empty index in memory with its writer and the analysis chain of the
/// catalogue.
pub fn setup_search_state() -> (r: Result<SearchState, IndexError>)
    ensures
        r matches Ok(state) ==> {
            &&& state.wf()
            &&& state.in_step()
            &&& state.published() == Seq::<Seq<DocEntry>>::empty()
        },
        r matches Err(e) ==> e == IndexError::Unavailable,
{
    let (schema, fields) = build_schema();
    match create_writer(schema, INDEX_MEMORY) {
        Ok(w) => {
            let index = writer_index(&w);
            Ok(
                SearchState {
                    index,
                    fields,
                    analyzer: Analyzer::new(),
                    writer: Some(w),
                    settled: true,
                },
            )
        },
        Err(_) => Err(IndexError::Unavailable),
    }
}

/// Puts the document of `recipe` in the place of every document with its id,
/// and commits. On success a reader opened from then on sees exactly one
/// document with that id, the new one. A failure of the index ends the write:
/// what it did so far is cancelled and the caller learns that the index is
/// unavailable.
pub fn update_index(state: &mut SearchState, recipe: &RecipeQueryResult) -> (r: Result<
    (),
    IndexError,
>)
    requires
        old(state).wf(),
        indexable(*recipe),
    ensures
        final(state).wf(),
        final(state).index == old(state).index,
        final(state).fields == old(state).fields,
        final(state).analyzer == old(state).analyzer,
        !old(state).usable() ==> r is Err,
        r is Err && final(state).usable() ==> final(state).in_step(),
        r is Err && final(state).usable() ==> final(state).published() == old(state).published(),
        r is Ok ==> {
            &&& final(state).in_step()
            &&& final(state).published() == upserted(
                old(state).published(),
                old(state).fields.recipe_id,
                doc_of(*recipe).recipe_id,
                old(state).entries(*recipe),
            )
        },
        r matches Err(e) ==> e == IndexError::Unavailable,
{
    let mut w = match state.take_writer() {
        Some(w) => w,
        None => {
            return Err(IndexError::Unavailable);
        },
    };
    let doc = recipe_to_doc(recipe);
    delete_number(&mut w, state.fields.recipe_id, doc.recipe_id);
    let entries = to_index_document(&doc, &state.fields, &state.analyzer);
    match add_document(&mut w, entries) {
        Ok(_) => {},
        Err(_) => {
            state.abandon(w);
            return Err(IndexError::Unavailable);
        },
    }
    match commit(&mut w) {
        Ok(_) => {
            state.writer = Some(w);
            state.settled = true;
            Ok(())
        },
        Err(_) => {
            state.abandon(w);
            Err(IndexError::Unavailable)
        },
    }
}

/// Deletes every document, adds the documents of `recipes` and commits. On
/// success a reader opened from then on sees the documents of `recipes` and no
/// others, whatever the index held before. A failure of the index ends the
/// write: what it did so far is cancelled and the caller learns that the index
/// is unavailable.
pub fn nuke_and_rebuild_with_recipes(state: &mut SearchState, recipes: &Vec<RecipeQueryResult>) -> (r:
    Result<(), IndexError>)
    requires
        old(state).wf(),
        forall|i: int| 0 <= i < recipes@.len() ==> indexable(#[trigger] recipes@[i]),
    ensures
        final(state).wf(),
        final(state).index == old(state).index,
        final(state).fields == old(state).fields,
        final(state).analyzer == old(state).analyzer,
        !old(state).usable() ==> r is Err,
        r is Err && final(state).usable() ==> final(state).in_step(),
        r is Err && final(state).usable() ==> final(state).published() == old(state).published(),
        r is Ok ==> {
            &&& final(state).in_step()
            &&& final(state).published() == docs_of(
                recipes@,
                old(state).fields,
                old(state).stops(),
                old(state).synonyms(),
            )
        },
        r matches Err(e) ==> e == IndexError::Unavailable,
{
    let mut w = match state.take_writer() {
        Some(w) => w,
        None => {
            return Err(IndexError::Unavailable);
        },
    };
    match delete_all(&mut w) {
        Ok(_) => {},
        Err(_) => {
            state.abandon(w);
            return Err(IndexError::Unavailable);
        },
    }
    let ghost f = state.fields;
    let ghost stops = state.stops();
    let ghost synonyms = state.synonyms();
    let ghost base = published_docs(w);
    let mut failed = false;
    let mut i: usize = 0;
    assert(staged_docs(w) =~= docs_of(recipes@.take(0), f, stops, synonyms));
    while i < recipes.len() && !failed
        invariant
            i <= recipes.len(),
            state.fields == f,
            state.stops() == stops,
            state.synonyms() == synonyms,
            f.fit(index_fields(state.index)),
            state.analyzer.holds_catalogue_tables(),
            writer_fields(w) == index_fields(state.index),
            published_docs(w) == base,
            forall|k: int| 0 <= k < recipes@.len() ==> indexable(#[trigger] recipes@[k]),
            !failed ==> staged_docs(w) == docs_of(recipes@.take(i as int), f, stops, synonyms),
        decreases recipes.len() - i + (if failed { 0int } else { 1int }),
    {
        let doc = recipe_to_doc(&recipes[i]);
        let entries = to_index_document(&doc, &state.fields, &state.analyzer);
        match add_document(&mut w, entries) {
            Ok(_) => {
                assert(staged_docs(w) =~= docs_of(recipes@.take(i + 1), f, stops, synonyms));
                i += 1;
            },
            Err(_) => {
                failed = true;
            },
        }
    }
    if failed {
        state.abandon(w);
        return Err(IndexError::Unavailable);
    }
    assert(recipes@.take(recipes.len() as int) == recipes@);
    match commit(&mut w) {
        Ok(_) => {
            state.writer = Some(w);
            state.settled = true;
            Ok(())
        },
        Err(_) => {
            state.abandon(w);
            Err(IndexError::Unavailable)
        },
    }
}

/// Runs the query text `query` on what the index has published by now and
/// returns the ids of the hits, best first, `SEARCH_LIMIT` at most. A term
/// without a field is looked for in the title, the ingredients and the body.
/// Which recipes meet the query is for the index to say.
pub fn search(index: &Index, fields: &IndexFields, query: &str) -> (r: Result<Vec<i64>, IndexError>)
    requires
        fields.fit(index_fields(*index)),
    ensures
        r matches Ok(ids) ==> ids@.len() <= SEARCH_LIMIT && answers(*index, *fields, query@, ids@),
        r matches Err(e) ==> e == IndexError::Unavailable || (e == IndexError::Query && refuses(
            *index,
            *fields,
            query@,
        )),
{
    let searcher = match open_searcher(index) {
        Ok(s) => s,
        Err(_) => {
            return Err(IndexError::Unavailable);
        },
    };
    let hits = match find(
        &searcher,
        fields.title,
        fields.ingredients,
        fields.body,
        query,
        SEARCH_LIMIT,
    ) {
        Some(h) => h,
        None => {
            assert(asked(searcher, *fields, query@) is None);
            return Err(IndexError::Query);
        },
    };
    let mut numbers: Vec<Option<i64>> = Vec::new();
    let mut i: usize = 0;
    while i < hits.len()
        invariant
            i <= hits.len(),
            numbers@.len() == i,
            forall|k: int| 0 <= k < hits@.len() ==> holds_place(searcher, #[trigger] hits@[k]),
            forall|k: int|
                0 <= k < i ==> #[trigger] numbers@[k] == stored_id(
                    searcher,
                    hits@[k],
                    fields.recipe_id,
                ),
        decreases hits.len() - i,
    {
        numbers.push(stored_number(&searcher, hits[i], fields.recipe_id));
        i += 1;
    }
    proof {
        lemma_present_len(numbers@);
        assert(numbers@ =~= ids_of(searcher, hits@, fields.recipe_id));
        assert(snapshot_answers(searcher, *fields, query@, present(numbers@)));
    }
    Ok(present_ids(numbers))
}

/// What the snapshot `s` is asked by a search for `query`: the places of the
/// `SEARCH_LIMIT` best documents, a term without a field looked for in the
/// title, the ingredients and the body.
pub open spec fn asked(s: Searcher, fields: IndexFields, query: Seq<char>) -> Option<
    Seq<DocAddress>,
> {
    found_places(s, fields.title, fields.ingredients, fields.body, query, SEARCH_LIMIT)
}

/// What the documents at `places` of the snapshot `s` store in `field`, place by
/// place.
pub open spec fn ids_of(s: Searcher, places: Seq<DocAddress>, field: Field) -> Seq<Option<i64>> {
    Seq::new(places.len(), |i: int| stored_id(s, places[i], field))
}

/// Whether `ids` is the answer of the snapshot `s` to `query`: the ids that its
/// hits store in the id field, in the order of the hits, a hit without a
/// readable id left out.
pub open spec fn snapshot_answers(
    s: Searcher,
    fields: IndexFields,
    query: Seq<char>,
    ids: Seq<i64>,
) -> bool {
    asked(s, fields, query) matches Some(places) && ids == present(
        ids_of(s, places, fields.recipe_id),
    )
}

/// Whether `ids` is the answer of some snapshot of `index` to `query`.
pub open spec fn answers(index: Index, fields: IndexFields, query: Seq<char>, ids: Seq<i64>) -> bool {
    exists|s: Searcher|
        searcher_fields(s) == index_fields(index) && #[trigger] snapshot_answers(
            s,
            fields,
            query,
            ids,
        )
}

/// Whether some snapshot of `index` could not parse or run `query`.
pub open spec fn refuses(index: Index, fields: IndexFields, query: Seq<char>) -> bool {
    exists|s: Searcher|
        searcher_fields(s) == index_fields(index) && (#[trigger] asked(s, fields, query)) is None
}

/// The numbers that are there, in their order: `numbers` without its missing
/// ones.
pub open spec fn present(numbers: Seq<Option<i64>>) -> Seq<i64>
    decreases numbers.len(),
{
    if numbers.len() == 0 {
        seq![]
    } else {
        match numbers.last() {
            Some(n) => present(numbers.drop_last()).push(n),
            None => present(numbers.drop_last()),
        }
    }
}

/// There are no more numbers present than there are places for them.
pub proof fn lemma_present_len(numbers: Seq<Option<i64>>)
    ensures
        present(numbers).len() <= numbers.len(),
    decreases numbers.len(),
{
    if numbers.len() > 0 {
        lemma_present_len(numbers.drop_last());
    }
}

/// The ids that a search returns for what its hits store, hit by hit: the id of
/// each hit that stores one, in the order of the hits. A hit whose document
/// could not be read, or stores no id, is left out.
pub fn present_ids(numbers: Vec<Option<i64>>) -> (ids: Vec<i64>)
    ensures
        ids@ == present(numbers@),
{
    let mut ids: Vec<i64> = Vec::new();
    let mut i: usize = 0;
    assert(numbers@.take(0) =~= Seq::<Option<i64>>::empty());
    while i < numbers.len()
        invariant
            i <= numbers.len(),
            ids@ == present(numbers@.take(i as int)),
        decreases numbers.len() - i,
    {
        assert(numbers@.take(i + 1).drop_last() == numbers@.take(i as int));
        match numbers[i] {
            Some(id) => {
                ids.push(id);
            },
            None => {},
        }
        i += 1;
    }
    assert(numbers@.take(numbers.len() as int) == numbers@);
    ids
}

/// The season clause of a filter as text: none where no season is selected.
pub open spec fn season_term(p: SearchPrefill, names: Map<usize, ESeason>) -> Option<Seq<char>> {
    let paths = season_paths(p.selected_slots(), names);
    if paths.len() == 0 {
        None
    } else {
        Some(clause_text(ClauseView::FacetAny { field: SCHEMA_SEASON@, paths }))
    }
}

/// The season clause of the filter `options` in the query language:
/// `+season: IN [..]` with the facet paths of the selected seasons in the order
/// of their slots, or nothing where no slot is selected.
pub fn build_season_term(options: SearchPrefill, season_names: HashMap<usize, ESeason>) -> (term:
    Option<String>)
    ensures
        match term {
            Some(t) => season_term(options, season_names@) == Some(t@),
            None => season_term(options, season_names@) is None,
        },
{
    let paths = selected_season_paths(&options, &season_names);
    if paths.len() == 0 {
        return None;
    }
    let mut term = String::from_str("+");
    term.append(SCHEMA_SEASON);
    term.append(": IN [");
    let list = join(&paths, " ");
    term.append(list.as_str());
    term.append("]");
    Some(term)
}

/// The index query of the filter `options` in the query language, with the
/// words of its free text as the terms.
pub fn build_query(
    options: SearchPrefill,
    book_names: HashMap<i32, String>,
    season_names: HashMap<usize, ESeason>,
    course_names: HashMap<i32, String>,
) -> (query: String)
    ensures
        query@ == query_text(query_tree(options, book_names@, season_names@, course_names@)),
{
    let tree = crate::search::search_utils::build_query(
        &options,
        &book_names,
        &season_names,
        &course_names,
    );
    tree.render()
}

/// The documents that a rebuild with `records` publishes: the documents of the
/// records, whatever the index held `before`.
pub open spec fn rebuilt(
    before: Seq<Seq<DocEntry>>,
    records: Seq<RecipeQueryResult>,
    f: IndexFields,
    stops: Seq<Seq<char>>,
    synonyms: Seq<(Seq<char>, Seq<char>)>,
) -> Seq<Seq<DocEntry>> {
    docs_of(records, f, stops, synonyms)
}

/// The values of a document hold its id and no other integer in the id field.
pub proof fn lemma_document_holds_its_id(
    doc: IndexedDocumentView,
    f: IndexFields,
    stops: Seq<Seq<char>>,
    synonyms: Seq<(Seq<char>, Seq<char>)>,
    value: i64,
)
    ensures
        holds_number(entries_of(doc, f, stops, synonyms), f.recipe_id, value) <==> value
            == doc.recipe_id,
{
    let all = entries_of(doc, f, stops, synonyms);
    let head = optional_text(f.title, doc.title, stops, synonyms) + text_entries(
        f.ingredients,
        doc.ingredients,
        stops,
        synonyms,
    );
    let target = DocEntry::Number { field: f.recipe_id, value };
    assert(all[head.len() as int] == DocEntry::Number { field: f.recipe_id, value: doc.recipe_id });
    assert forall|i: int| 0 <= i < all.len() && all[i] is Number implies i == head.len() by {}
    if holds_number(all, f.recipe_id, value) {
        let i = choose|i: int| 0 <= i < all.len() && all[i] == target;
        assert(all[i] is Number);
    }
}

/// After a rebuild with records whose ids differ from one another, every record
/// has exactly one document with its id: the document at its own place, and no
/// other document holds that id.
pub proof fn lemma_rebuild_one_document_per_recipe(
    before: Seq<Seq<DocEntry>>,
    records: Seq<RecipeQueryResult>,
    f: IndexFields,
    stops: Seq<Seq<char>>,
    synonyms: Seq<(Seq<char>, Seq<char>)>,
    k: int,
)
    requires
        0 <= k < records.len(),
        forall|i: int| 0 <= i < records.len() ==> indexable(#[trigger] records[i]),
        forall|i: int, j: int|
            0 <= i < j < records.len() ==> (#[trigger] records[i]).recipe.recipe_id != (
            #[trigger] records[j]).recipe.recipe_id,
    ensures
        rebuilt(before, records, f, stops, synonyms).len() == records.len(),
        rebuilt(before, records, f, stops, synonyms)[k] == entries_of(
            doc_of(records[k]),
            f,
            stops,
            synonyms,
        ),
        forall|j: int|
            0 <= j < records.len() ==> (holds_number(
                #[trigger] rebuilt(before, records, f, stops, synonyms)[j],
                f.recipe_id,
                doc_of(records[k]).recipe_id,
            ) <==> j == k),
{
    let docs = rebuilt(before, records, f, stops, synonyms);
    let id = doc_of(records[k]).recipe_id;
    assert forall|j: int| 0 <= j < records.len() implies (holds_number(
        #[trigger] docs[j],
        f.recipe_id,
        id,
    ) <==> j == k) by {
        lemma_document_holds_its_id(doc_of(records[j]), f, stops, synonyms, id);
        assert(indexable(records[j]) && indexable(records[k]));
        if j < k {
            assert(records[j].recipe.recipe_id != records[k].recipe.recipe_id);
        }
        if k < j {
            assert(records[k].recipe.recipe_id != records[j].recipe.recipe_id);
        }
    }
}

/// After an upsert of `record`, exactly one document holds its id: the last
/// one, which is the document of the record as it is now. Every document that
/// held the id before is gone, and every other document stays.
pub proof fn lemma_upsert_round_trip(
    before: Seq<Seq<DocEntry>>,
    record: RecipeQueryResult,
    f: IndexFields,
    stops: Seq<Seq<char>>,
    synonyms: Seq<(Seq<char>, Seq<char>)>,
)
    requires
        indexable(record),
    ensures
        ({
            let id = doc_of(record).recipe_id;
            let doc = entries_of(doc_of(record), f, stops, synonyms);
            let after = upserted(before, f.recipe_id, id, doc);
            &&& after.len() >= 1
            &&& after.last() == doc
            &&& forall|j: int|
                0 <= j < after.len() ==> (holds_number(#[trigger] after[j], f.recipe_id, id) <==> j
                    == after.len() - 1)
            &&& after.drop_last() == before.filter(lacks_number(f.recipe_id, id))
        }),
{
    let id = doc_of(record).recipe_id;
    let doc = entries_of(doc_of(record), f, stops, synonyms);
    let kept = before.filter(lacks_number(f.recipe_id, id));
    let after = upserted(before, f.recipe_id, id, doc);
    lemma_document_holds_its_id(doc_of(record), f, stops, synonyms, id);
    broadcast use vstd::seq_lib::group_filter_ensures;
    assert(after.drop_last() =~= kept);
    assert forall|j: int| 0 <= j < after.len() implies (holds_number(
        #[trigger] after[j],
        f.recipe_id,
        id,
    ) <==> j == after.len() - 1) by {
        if j < after.len() - 1 {
            assert(after[j] == kept[j]);
            assert(lacks_number(f.recipe_id, id)(kept[j]));
        }
    }
}

/// A rebuild with the same records publishes the same documents, whatever the
/// index held before: a second rebuild in a row changes nothing, so every query
/// is answered from the same documents.
pub proof fn lemma_rebuild_idempotent(
    before: Seq<Seq<DocEntry>>,
    records: Seq<RecipeQueryResult>,
    f: IndexFields,
    stops: Seq<Seq<char>>,
    synonyms: Seq<(Seq<char>, Seq<char>)>,
)
    ensures
        rebuilt(rebuilt(before, records, f, stops, synonyms), records, f, stops, synonyms)
            == rebuilt(before, records, f, stops, synonyms),
{
}

/// The facet path of the season with the number `n`.
pub open spec fn canonical_season_path(n: int) -> Seq<char> {
    facet_path(SCHEMA_SEASON@, season_name(season_at(n)))
}

/// With the canonical season table, the season clause covers exactly the
/// canonical paths of the selected slots, in the order of the slots; there is no
/// clause exactly if no slot is selected.
pub proof fn lemma_season_clause_canonical(p: SearchPrefill)
    ensures
        season_paths(p.selected_slots(), crate::parsetypes::season_table())
            == p.selected_slots().map_values(|n: int| canonical_season_path(n)),
        season_term(p, crate::parsetypes::season_table()) is None <==> p.selected_slots().len()
            == 0,
{
    let table = crate::parsetypes::season_table();
    let slots = p.selected_slots();
    assert forall|i: int| 0 <= i < slots.len() implies 1 <= #[trigger] slots[i] <= 5 by {}
    lemma_season_paths_of(slots, table);
}

/// Where the table resolves every slot, there is one path for each slot.
pub proof fn lemma_season_paths_of(slots: Seq<int>, table: Map<usize, ESeason>)
    requires
        forall|i: int| 0 <= i < slots.len() ==> 1 <= #[trigger] slots[i] <= 5,
        table == crate::parsetypes::season_table(),
    ensures
        season_paths(slots, table) == slots.map_values(|n: int| canonical_season_path(n)),
    decreases slots.len(),
{
    if slots.len() > 0 {
        let front = slots.drop_last();
        lemma_season_paths_of(front, table);
        let n = slots.last() as usize;
        assert(table.contains_key(n));
        assert(table[n] == season_at(slots.last()));
        assert(season_paths(slots, table) =~= slots.map_values(
            |n: int| canonical_season_path(n),
        ));
    } else {
        assert(season_paths(slots, table) =~= slots.map_values(
            |n: int| canonical_season_path(n),
        ));
    }
}

} // verus!
