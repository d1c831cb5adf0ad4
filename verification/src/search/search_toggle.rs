//! The choice between the two strategies. Either way the search ends in one
//! relational query, which the caller runs: the legacy strategy states the
//! filter in that query, the index strategy asks the index for ids and fetches
//! their rows.

use crate::args::SearchPrefill;
use crate::parsetypes::{season_table, ESeason};
use crate::queries::{build_index_search_query, build_search_query, index_fetch_query, legacy_query};
use crate::search::analysis::{analysed, Analyzer};
use crate::search::search_utils::{query_from_terms, query_text, query_tree_of};
use crate::text_search::{answers, index_fields, refuses, IndexError, IndexFields, SEARCH_LIMIT};
use std::collections::HashMap;
use tantivy::Index;
use vstd::prelude::*;

verus! {

/// The query text that the index strategy hands to the index: the terms that the
/// analysis chain makes of the free text, then the book, the seasons and the
/// course of the filter.
pub open spec fn index_query_text(
    p: SearchPrefill,
    books: Map<i32, String>,
    courses: Map<i32, String>,
    stops: Seq<Seq<char>>,
    synonyms: Seq<(Seq<char>, Seq<char>)>,
) -> Seq<char> {
    query_text(
        query_tree_of(analysed(stops, synonyms, p.name_text()), p, books, season_table(), courses),
    )
}

/// Whether `sql` is the bulk fetch of `ids`, and `ids` the answer of some
/// snapshot of `index` to `query`, `SEARCH_LIMIT` ids at most.
pub open spec fn fetches(
    index: Index,
    fields: IndexFields,
    query: Seq<char>,
    ids: Seq<i64>,
    sql: Seq<char>,
) -> bool {
    &&& ids.len() <= SEARCH_LIMIT
    &&& answers(index, fields, query, ids)
    &&& sql == index_fetch_query(ids)
}

/// Whether `sql` is what the index strategy returns for the filter `p`: the bulk
/// fetch of the ids that some snapshot of `index` answers to the query text of
/// the filter.
pub open spec fn index_answer(
    p: SearchPrefill,
    books: Map<i32, String>,
    courses: Map<i32, String>,
    index: Index,
    fields: IndexFields,
    analyzer: Analyzer,
    sql: Seq<char>,
) -> bool {
    exists|ids: Seq<i64>| #[trigger]
        fetches(
            index,
            fields,
            index_query_text(
                p,
                books,
                courses,
                analyzer.stop_filter.stops(),
                analyzer.synonym_filter.pairs(),
            ),
            ids,
            sql,
        )
}

/// The query text that the index strategy hands to the index for `search_args`.
/// The free text goes through the chain that the documents went through.
pub fn index_query(
    search_args: &SearchPrefill,
    book_names: &HashMap<i32, String>,
    course_names: &HashMap<i32, String>,
    analyzer: &Analyzer,
) -> (query: String)
    requires
        analyzer.holds_catalogue_tables(),
    ensures
        query@ == index_query_text(
            *search_args,
            book_names@,
            course_names@,
            analyzer.stop_filter.stops(),
            analyzer.synonym_filter.pairs(),
        ),
{
    let name = search_args.template_name();
    let terms = analyzer.analyze(name.as_str());
    let seasons = ESeason::to_map();
    let tree = query_from_terms(&terms, search_args, book_names, &seasons, course_names);
    tree.render()
}

/// The index strategy: asks the index for the ids of the recipes that meet the
/// filter, and returns the bulk fetch of their rows. The index ranks the hits;
/// the fetch names the ids in that order, and the store returns the rows in an
/// order of its own.
pub fn build_tantivy_search_for_sql(
    search_args: &SearchPrefill,
    book_names: &HashMap<i32, String>,
    course_names: &HashMap<i32, String>,
    index: &Index,
    fields: &IndexFields,
    analyzer: &Analyzer,
) -> (r: Result<String, IndexError>)
    requires
        fields.fit(index_fields(*index)),
        analyzer.holds_catalogue_tables(),
    ensures
        r matches Ok(sql) ==> index_answer(
            *search_args,
            book_names@,
            course_names@,
            *index,
            *fields,
            *analyzer,
            sql@,
        ),
        r matches Err(e) ==> e == IndexError::Unavailable || (e == IndexError::Query && refuses(
            *index,
            *fields,
            index_query_text(
                *search_args,
                book_names@,
                course_names@,
                analyzer.stop_filter.stops(),
                analyzer.synonym_filter.pairs(),
            ),
        )),
{
    let query = index_query(search_args, book_names, course_names, analyzer);
    match crate::text_search::search(index, fields, query.as_str()) {
        Ok(ids) => {
            let ghost found = ids@;
            let sql = build_index_search_query(ids);
            assert(fetches(*index, *fields, query@, found, sql@));
            Ok(sql)
        },
        Err(e) => Err(e),
    }
}

/// The relational query that answers `search_args` for the user `user_id`. A
/// filter that asks for the legacy strategy gets the query of that strategy,
/// which cannot fail. Any other filter gets the bulk fetch of the ids that the
/// index returns.
pub fn search(
    search_args: &SearchPrefill,
    book_names: &HashMap<i32, String>,
    course_names: &HashMap<i32, String>,
    index: &Index,
    fields: &IndexFields,
    analyzer: &Analyzer,
    user_id: i32,
) -> (r: Result<String, IndexError>)
    requires
        !search_args.wants_legacy() ==> fields.fit(index_fields(*index)),
        !search_args.wants_legacy() ==> analyzer.holds_catalogue_tables(),
    ensures
        search_args.wants_legacy() ==> r is Ok && r.unwrap()@ == legacy_query(
            *search_args,
            user_id as int,
        ),
        !search_args.wants_legacy() ==> (r matches Ok(sql) ==> index_answer(
            *search_args,
            book_names@,
            course_names@,
            *index,
            *fields,
            *analyzer,
            sql@,
        )),
        !search_args.wants_legacy() ==> (r matches Err(e) ==> e == IndexError::Unavailable || (e
            == IndexError::Query && refuses(
            *index,
            *fields,
            index_query_text(
                *search_args,
                book_names@,
                course_names@,
                analyzer.stop_filter.stops(),
                analyzer.synonym_filter.pairs(),
            ),
        ))),
{
    if search_args.is_legacy() {
        Ok(build_search_query(search_args, user_id))
    } else {
        build_tantivy_search_for_sql(
            search_args,
            book_names,
            course_names,
            index,
            fields,
            analyzer,
        )
    }
}

} // verus!
