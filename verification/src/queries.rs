//! The relational side of the search: the query text of the legacy strategy
//! and the bulk fetch that turns ranked ids into rows.

use crate::args::SearchPrefill;
use crate::models::{FullRecipe, RecipeIngredient};
use std::collections::HashMap;
use crate::text::{
    chars_of, decimal, join, joined, lemma_texts_push, push_decimal, texts, trim, trimmed,
};
use vstd::prelude::*;
use vstd::string::StringExecFns;

verus! {

broadcast use vstd::std_specs::hash::group_hash_axioms;

/// The unit that the index is kept in step with: a recipe joined with the
/// names of its ingredients, its free text, its comments and the names of its
/// course and its book.
pub struct RecipeQueryResult {
    pub recipe: FullRecipe,
    pub ingredients: Vec<String>,
    pub recipe_text: Option<String>,
    pub comments: Vec<String>,
    pub course_name: String,
    pub book_name: Option<String>,
}

/// The start of the query for a name term, up to the first place of the term.
pub const UNION_HEAD: &'static str =
    "SELECT * FROM\n(SELECT r.*\nFROM ingredient\n         INNER JOIN recipe_ingredient ri on ingredient.id = ri.ingredient_id\n         INNER JOIN recipe r on r.recipe_id = ri.recipe_id\nWHERE name LIKE '%";

/// From the ingredient clause to the recipe's own name.
pub const UNION_NAME: &'static str =
    "%'\nUNION SELECT r.* FROM recipe as r\n               LEFT OUTER JOIN recipe_text rt on r.recipe_id = rt.recipe_id\n\n               WHERE recipe_name LIKE '%";

/// From the recipe's name to its free text.
pub const UNION_CONTENT: &'static str = "%'\nOR content LIKE '%";

/// From the recipe's free text to its source URL.
pub const UNION_URL: &'static str = "%'\nOR recipe_url LIKE '%";

/// From the recipe's own clauses to its comments.
pub const UNION_COMMENT: &'static str =
    "%'\nUNION SELECT r2.* FROM recipe_comment INNER JOIN recipe r2 on r2.recipe_id = recipe_comment.recipe_id\nWHERE recipe_comment.content LIKE '%";

/// The end of the query for a name term.
pub const UNION_TAIL: &'static str = "%')";

/// What stands for one character of a name term inside a `LIKE` pattern: a
/// single quote is doubled, `_` and `%` are put in square brackets.
pub open spec fn escaped_char(c: char) -> Seq<char> {
    if c == '\'' {
        seq!['\'', '\'']
    } else if c == '_' {
        seq!['[', '_', ']']
    } else if c == '%' {
        seq!['[', '%', ']']
    } else {
        seq![c]
    }
}

/// A name term with each character escaped for a `LIKE` pattern.
pub open spec fn escaped(s: Seq<char>) -> Seq<char>
    decreases s.len(),
{
    if s.len() == 0 {
        seq![]
    } else {
        escaped(s.drop_last()) + escaped_char(s.last())
    }
}

/// The name term of a filter as it stands in the query: trimmed, then escaped.
pub open spec fn name_term(p: SearchPrefill) -> Seq<char> {
    escaped(trimmed(p.name_text()))
}

/// The union of the three shapes in which a recipe can hold the term: through
/// an ingredient, in its own name, text or URL, or through a comment.
pub open spec fn union_query(term: Seq<char>) -> Seq<char> {
    UNION_HEAD@ + term + UNION_NAME@ + term + UNION_CONTENT@ + term + UNION_URL@ + term
        + UNION_COMMENT@ + term + UNION_TAIL@
}

/// The predicate on the book, if the filter names one.
pub open spec fn book_criterion(p: SearchPrefill) -> Seq<Seq<char>> {
    match p.book {
        Some(b) if b >= 0 => seq!["book_id="@ + decimal(b as int)],
        _ => seq![],
    }
}

/// The predicate on the course, if the filter names one.
pub open spec fn course_criterion(p: SearchPrefill) -> Seq<Seq<char>> {
    match p.course {
        Some(c) if c >= 0 => seq!["course_id="@ + decimal(c as int)],
        _ => seq![],
    }
}

/// The predicate that holds of the selected seasons, if any slot is selected.
pub open spec fn season_criterion(p: SearchPrefill) -> Option<Seq<char>> {
    if p.selected_slots().len() == 0 {
        None
    } else {
        Some(
            "primary_season IN ("@ + joined(p.selected_slots().map_values(|n: int| decimal(n)), ","@)
                + ")"@,
        )
    }
}

/// The predicate on whether the user has tried a recipe: none for 0, that a
/// row of `tried` exists for 1, that none exists for 2.
pub open spec fn tried_criterion(p: SearchPrefill, user_id: int) -> Seq<Seq<char>> {
    if p.tried == 1 {
        seq![
            "EXISTS(SELECT * FROM tried WHERE user_id="@ + decimal(user_id)
                + " and recipe.recipe_id=tried.recipe_id)"@,
        ]
    } else if p.tried == 2 {
        seq![
            "NOT EXISTS(SELECT * FROM tried WHERE user_id="@ + decimal(user_id)
                + " and recipe.recipe_id=tried.recipe_id)"@,
        ]
    } else {
        seq![]
    }
}

/// The simple predicates of a filter, in the order book, seasons, course,
/// tried.
pub open spec fn simple_criteria(p: SearchPrefill, user_id: int) -> Seq<Seq<char>> {
    book_criterion(p) + (match season_criterion(p) {
        Some(s) => seq![s],
        None => seq![],
    }) + course_criterion(p) + tried_criterion(p, user_id)
}

/// What stands between the relation and the predicates where the relation is
/// the union: the union gets the name `recipe` where the tried predicate, which
/// speaks of `recipe.recipe_id`, is among the predicates.
pub open spec fn union_where(p: SearchPrefill) -> Seq<char> {
    if p.tried == 1 || p.tried == 2 {
        " AS recipe WHERE "@
    } else {
        " WHERE "@
    }
}

/// The query text of the legacy strategy. The relation is every recipe where the
/// filter has no name term, and the union of the three shapes where it has one.
/// The simple predicates restrict the relation; a filter without any restricts
/// nothing, and its query has no `WHERE`.
pub open spec fn legacy_query(p: SearchPrefill, user_id: int) -> Seq<char> {
    let criteria = joined(simple_criteria(p, user_id), "\nAND\n"@);
    if name_term(p).len() == 0 {
        if simple_criteria(p, user_id).len() == 0 {
            "SELECT * FROM RECIPE"@
        } else {
            "SELECT * FROM RECIPE WHERE "@ + criteria
        }
    } else if simple_criteria(p, user_id).len() == 0 {
        union_query(name_term(p))
    } else {
        union_query(name_term(p)) + union_where(p) + criteria
    }
}

/// The bulk fetch of the rows with the given ids.
pub open spec fn index_fetch_query(ids: Seq<i64>) -> Seq<char> {
    "SELECT * FROM recipe WHERE recipe_id IN ("@ + joined(
        ids.map_values(|n: i64| decimal(n as int)),
        ","@,
    ) + ")"@
}

/// Escapes a name term for a `LIKE` pattern: doubles each single quote and puts
/// each `_` and `%` in square brackets, so that none of them acts as a quote or
/// a wildcard.
pub fn escape_like(s: &str) -> (out: String)
    ensures
        out@ == escaped(s@),
{
    let cs = chars_of(s);
    let mut out = String::new();
    let mut i: usize = 0;
    assert(cs@.take(0) =~= Seq::<char>::empty());
    while i < cs.len()
        invariant
            i <= cs.len(),
            cs@ == s@,
            out@ == escaped(cs@.take(i as int)),
        decreases cs.len() - i,
    {
        let c = cs[i];
        assert(cs@.take(i + 1).drop_last() == cs@.take(i as int));
        if c == '\'' {
            out.append("''");
            proof {
                reveal_strlit("''");
                assert("''"@ =~= escaped_char(c));
            }
        } else if c == '_' {
            out.append("[_]");
            proof {
                reveal_strlit("[_]");
                assert("[_]"@ =~= escaped_char(c));
            }
        } else if c == '%' {
            out.append("[%]");
            proof {
                reveal_strlit("[%]");
                assert("[%]"@ =~= escaped_char(c));
            }
        } else {
            out.push(c);
            assert(out@ =~= escaped(cs@.take(i as int)) + escaped_char(c));
        }
        i += 1;
    }
    assert(cs@.take(cs.len() as int) == cs@);
    out
}

/// The decimal forms of `ns`, separated by commas.
pub fn decimal_list(ns: &Vec<i64>) -> (out: String)
    ensures
        out@ == joined(ns@.map_values(|n: i64| decimal(n as int)), ","@),
{
    let mut parts: Vec<String> = Vec::new();
    let mut i: usize = 0;
    while i < ns.len()
        invariant
            i <= ns.len(),
            texts(parts@) == ns@.take(i as int).map_values(|n: i64| decimal(n as int)),
        decreases ns.len() - i,
    {
        let mut part = String::new();
        push_decimal(&mut part, ns[i]);
        proof {
            lemma_texts_push(parts@, part);
            assert(part@ =~= decimal(ns@[i as int] as int));
            assert(ns@.take(i + 1).map_values(|n: i64| decimal(n as int)) =~= ns@.take(
                i as int,
            ).map_values(|n: i64| decimal(n as int)).push(decimal(ns@[i as int] as int)));
        }
        parts.push(part);
        i += 1;
    }
    assert(ns@.take(ns.len() as int) == ns@);
    join(&parts, ",")
}

/// The predicate that holds of the selected seasons: `primary_season IN (..)`
/// with the numbers of the selected slots in ascending order, or nothing where
/// no slot is selected.
pub fn handle_seasons(params: &SearchPrefill) -> (criterion: Option<String>)
    ensures
        match criterion {
            Some(c) => season_criterion(*params) == Some(c@),
            None => season_criterion(*params) is None,
        },
{
    let slots = params.season_slots();
    let ghost wanted = params.selected_slots();
    assert(slots@.len() == wanted.len());
    assert forall|k: int| 0 <= k < slots@.len() implies slots@[k] as int == wanted[k] by {
        assert(slots@.map_values(|n: usize| n as int)[k] == wanted[k]);
    }
    if slots.len() == 0 {
        return None;
    }
    let mut numbers: Vec<i64> = Vec::new();
    let mut i: usize = 0;
    while i < slots.len()
        invariant
            i <= slots.len(),
            numbers@.len() == i,
            slots@.len() == wanted.len(),
            forall|k: int| 0 <= k < slots@.len() ==> 1 <= #[trigger] slots@[k] <= 5,
            forall|k: int| 0 <= k < i ==> numbers@[k] as int == slots@[k] as int,
        decreases slots.len() - i,
    {
        numbers.push(slots[i] as i64);
        i += 1;
    }
    assert forall|k: int| 0 <= k < numbers@.len() implies numbers@[k] as int == wanted[k] by {
        assert(slots@[k] as int == wanted[k]);
    }
    assert(numbers@.map_values(|n: i64| decimal(n as int)) =~= wanted.map_values(
        |n: int| decimal(n),
    ));
    let mut out = String::from_str("primary_season IN (");
    let list = decimal_list(&numbers);
    out.append(list.as_str());
    out.append(")");
    Some(out)
}

/// The query text of the legacy strategy for the filter `params` and the
/// requesting user.
pub fn build_search_query(params: &SearchPrefill, user_id: i32) -> (query: String)
    ensures
        query@ == legacy_query(*params, user_id as int),
{
    let mut criteria: Vec<String> = Vec::new();
    assert(texts(criteria@) =~= Seq::<Seq<char>>::empty());
    match params.book {
        Some(b) => {
            if b >= 0 {
                let mut c = String::from_str("book_id=");
                push_decimal(&mut c, b as i64);
                proof {
                    lemma_texts_push(criteria@, c);
                }
                criteria.push(c);
            }
        },
        None => {},
    }
    assert(texts(criteria@) =~= book_criterion(*params));
    match handle_seasons(params) {
        Some(c) => {
            proof {
                lemma_texts_push(criteria@, c);
            }
            criteria.push(c);
        },
        None => {},
    }
    let ghost with_seasons = book_criterion(*params) + (match season_criterion(*params) {
        Some(s) => seq![s],
        None => seq![],
    });
    assert(texts(criteria@) =~= with_seasons);
    match params.course {
        Some(c) => {
            if c >= 0 {
                let mut t = String::from_str("course_id=");
                push_decimal(&mut t, c as i64);
                proof {
                    lemma_texts_push(criteria@, t);
                }
                criteria.push(t);
            }
        },
        None => {},
    }
    assert(texts(criteria@) =~= with_seasons + course_criterion(*params));
    if params.tried == 1 {
        let mut t = String::from_str("EXISTS(SELECT * FROM tried WHERE user_id=");
        push_decimal(&mut t, user_id as i64);
        t.append(" and recipe.recipe_id=tried.recipe_id)");
        proof {
            lemma_texts_push(criteria@, t);
        }
        criteria.push(t);
    } else if params.tried == 2 {
        let mut t = String::from_str("NOT EXISTS(SELECT * FROM tried WHERE user_id=");
        push_decimal(&mut t, user_id as i64);
        t.append(" and recipe.recipe_id=tried.recipe_id)");
        proof {
            lemma_texts_push(criteria@, t);
        }
        criteria.push(t);
    }
    assert(texts(criteria@) =~= simple_criteria(*params, user_id as int));
    let raw = params.template_name();
    let trimmed_name = trim(raw.as_str());
    let term = escape_like(trimmed_name.as_str());
    let joined_criteria = join(&criteria, "\nAND\n");
    if term.as_str().is_empty() {
        if criteria.len() == 0 {
            return String::from_str("SELECT * FROM RECIPE");
        }
        let mut query = String::from_str("SELECT * FROM RECIPE WHERE ");
        query.append(joined_criteria.as_str());
        return query;
    }
    let mut query = String::from_str(UNION_HEAD);
    query.append(term.as_str());
    query.append(UNION_NAME);
    query.append(term.as_str());
    query.append(UNION_CONTENT);
    query.append(term.as_str());
    query.append(UNION_URL);
    query.append(term.as_str());
    query.append(UNION_COMMENT);
    query.append(term.as_str());
    query.append(UNION_TAIL);
    assert(query@ =~= union_query(term@));
    if criteria.len() == 0 {
        return query;
    }
    if params.tried == 1 || params.tried == 2 {
        query.append(" AS recipe WHERE ");
    } else {
        query.append(" WHERE ");
    }
    query.append(joined_criteria.as_str());
    query
}

/// The bulk fetch of the rows whose id is one of `ids`.
pub fn build_index_search_query(ids: Vec<i64>) -> (query: String)
    ensures
        query@ == index_fetch_query(ids@),
{
    let mut query = String::from_str("SELECT * FROM recipe WHERE recipe_id IN (");
    let list = decimal_list(&ids);
    query.append(list.as_str());
    query.append(")");
    query
}

/// The query for the ids of the recipes that have a comment.
pub fn get_recipe_ids_with_comments() -> (query: String)
    ensures
        query@ == "SELECT DISTINCT recipe_id FROM recipe_comment; "@,
{
    String::from_str("SELECT DISTINCT recipe_id FROM recipe_comment; ")
}

/// The query for the ids of the recipes that have a free text.
pub fn get_recipe_ids_with_texts() -> (query: String)
    ensures
        query@ == "SELECT DISTINCT recipe_id FROM recipe_text;"@,
{
    String::from_str("SELECT DISTINCT recipe_id FROM recipe_text;")
}

/// The table that a list of rows with an id and a text stands for: where an id
/// occurs twice, the later row counts.
pub open spec fn table_of(rows: Seq<(i32, String)>) -> Map<i32, String>
    decreases rows.len(),
{
    if rows.len() == 0 {
        Map::empty()
    } else {
        table_of(rows.drop_last()).insert(rows.last().0, rows.last().1)
    }
}

/// The text that `names` holds for `id`, if any.
pub open spec fn lookup(names: Map<i32, String>, id: i32) -> Option<String> {
    if names.contains_key(id) {
        Some(names[id])
    } else {
        None
    }
}

/// The names of the ingredients that `links` gives the recipe `recipe`, in the
/// order of the links; a link whose ingredient `names` does not know adds none.
pub open spec fn linked_names(
    links: Seq<RecipeIngredient>,
    names: Map<i32, String>,
    recipe: i32,
) -> Seq<String>
    decreases links.len(),
{
    if links.len() == 0 {
        seq![]
    } else {
        let link = links.last();
        let front = linked_names(links.drop_last(), names, recipe);
        if link.recipe_id == recipe && names.contains_key(link.ingredient_id) {
            front.push(names[link.ingredient_id])
        } else {
            front
        }
    }
}

/// Whether a recipe can be joined: the store has given it an id, and its course
/// has a name.
pub open spec fn joinable(x: FullRecipe, course_names: Map<i32, String>) -> bool {
    x.recipe_id is Some && course_names.contains_key(x.course_id)
}

/// Whether `r` is the recipe `x` joined with its ingredients, its free text and
/// the names of its course and its book. The book's name is the one that the
/// recipe's book id resolves to.
pub open spec fn is_joined(
    r: RecipeQueryResult,
    x: FullRecipe,
    links: Seq<RecipeIngredient>,
    ingredient_names: Map<i32, String>,
    recipe_texts: Map<i32, String>,
    course_names: Map<i32, String>,
    book_names: Map<i32, String>,
) -> bool {
    &&& r.recipe == x
    &&& r.ingredients@ == linked_names(links, ingredient_names, x.recipe_id.unwrap())
    &&& r.recipe_text == lookup(recipe_texts, x.recipe_id.unwrap())
    &&& r.comments@ == Seq::<String>::empty()
    &&& r.course_name == course_names[x.course_id]
    &&& r.book_name == (match x.book_id {
        Some(b) => lookup(book_names, b),
        None => None,
    })
}

/// The table that the rows `rows` stand for.
pub fn name_table(rows: &Vec<(i32, String)>) -> (table: HashMap<i32, String>)
    ensures
        table@ == table_of(rows@),
{
    let mut table: HashMap<i32, String> = HashMap::new();
    let mut i: usize = 0;
    assert(rows@.take(0) =~= Seq::<(i32, String)>::empty());
    while i < rows.len()
        invariant
            i <= rows.len(),
            table@ == table_of(rows@.take(i as int)),
        decreases rows.len() - i,
    {
        assert(rows@.take(i + 1).drop_last() == rows@.take(i as int));
        table.insert(rows[i].0, rows[i].1.clone());
        i += 1;
    }
    assert(rows@.take(rows.len() as int) == rows@);
    table
}

/// The text that `names` holds for `id`, if any.
pub fn find_name(names: &HashMap<i32, String>, id: i32) -> (name: Option<String>)
    ensures
        name == lookup(names@, id),
{
    match names.get(&id) {
        Some(n) => Some(n.clone()),
        None => None,
    }
}

/// The names of the ingredients that `links` gives the recipe `recipe`.
pub fn ingredients_of(
    links: &Vec<RecipeIngredient>,
    ingredient_names: &HashMap<i32, String>,
    recipe: i32,
) -> (names: Vec<String>)
    ensures
        names@ == linked_names(links@, ingredient_names@, recipe),
{
    let mut names: Vec<String> = Vec::new();
    let mut i: usize = 0;
    assert(links@.take(0) =~= Seq::<RecipeIngredient>::empty());
    while i < links.len()
        invariant
            i <= links.len(),
            names@ == linked_names(links@.take(i as int), ingredient_names@, recipe),
        decreases links.len() - i,
    {
        assert(links@.take(i + 1).drop_last() == links@.take(i as int));
        if links[i].recipe_id == recipe {
            match ingredient_names.get(&links[i].ingredient_id) {
                Some(n) => {
                    names.push(n.clone());
                },
                None => {},
            }
        }
        i += 1;
    }
    assert(links@.take(links.len() as int) == links@);
    names
}

/// The recipe `x` joined with its ingredients, its free text and the names of
/// its course and its book.
pub fn map_recipe_and_ingredient(
    x: &FullRecipe,
    links: &Vec<RecipeIngredient>,
    ingredient_names: &HashMap<i32, String>,
    ids_to_texts: &HashMap<i32, String>,
    course_id_to_name: &HashMap<i32, String>,
    book_id_to_name: &HashMap<i32, String>,
) -> (r: RecipeQueryResult)
    requires
        joinable(*x, course_id_to_name@),
    ensures
        is_joined(
            r,
            *x,
            links@,
            ingredient_names@,
            ids_to_texts@,
            course_id_to_name@,
            book_id_to_name@,
        ),
{
    let id: i32 = match x.recipe_id {
        Some(v) => v,
        None => 0,
    };
    let course_name = match course_id_to_name.get(&x.course_id) {
        Some(n) => n.clone(),
        None => String::new(),
    };
    let book_name = match x.book_id {
        Some(b) => find_name(book_id_to_name, b),
        None => None,
    };
    RecipeQueryResult {
        recipe: x.duplicate(),
        ingredients: ingredients_of(links, ingredient_names, id),
        recipe_text: find_name(ids_to_texts, id),
        comments: Vec::new(),
        course_name,
        book_name,
    }
}

/// Whether every recipe of `recipes` can be joined.
pub fn all_joinable(recipes: &Vec<FullRecipe>, course_id_to_name: &HashMap<i32, String>) -> (ok:
    bool)
    ensures
        ok == forall|i: int|
            0 <= i < recipes@.len() ==> joinable(#[trigger] recipes@[i], course_id_to_name@),
{
    let mut i: usize = 0;
    while i < recipes.len()
        invariant
            i <= recipes.len(),
            forall|k: int| 0 <= k < i ==> joinable(#[trigger] recipes@[k], course_id_to_name@),
        decreases recipes.len() - i,
    {
        if recipes[i].recipe_id.is_none() || course_id_to_name.get(&recipes[i].course_id).is_none() {
            return false;
        }
        i += 1;
    }
    true
}

/// Every recipe of `recipes` joined with its ingredients, its free text and the
/// names of its course and its book, in the order of `recipes`: the units that
/// a rebuild of the index takes.
pub fn join_recipes(
    recipes: &Vec<FullRecipe>,
    links: &Vec<RecipeIngredient>,
    ingredient_names: &HashMap<i32, String>,
    ids_to_texts: &HashMap<i32, String>,
    course_id_to_name: &HashMap<i32, String>,
    book_id_to_name: &HashMap<i32, String>,
) -> (out: Vec<RecipeQueryResult>)
    requires
        forall|i: int|
            0 <= i < recipes@.len() ==> joinable(#[trigger] recipes@[i], course_id_to_name@),
    ensures
        out@.len() == recipes@.len(),
        forall|i: int|
            0 <= i < recipes@.len() ==> is_joined(
                #[trigger] out@[i],
                recipes@[i],
                links@,
                ingredient_names@,
                ids_to_texts@,
                course_id_to_name@,
                book_id_to_name@,
            ),
{
    let mut out: Vec<RecipeQueryResult> = Vec::new();
    let mut i: usize = 0;
    while i < recipes.len()
        invariant
            i <= recipes.len(),
            out@.len() == i,
            forall|k: int|
                0 <= k < recipes@.len() ==> joinable(#[trigger] recipes@[k], course_id_to_name@),
            forall|k: int|
                0 <= k < i ==> is_joined(
                    #[trigger] out@[k],
                    recipes@[k],
                    links@,
                    ingredient_names@,
                    ids_to_texts@,
                    course_id_to_name@,
                    book_id_to_name@,
                ),
        decreases recipes.len() - i,
    {
        let r = map_recipe_and_ingredient(
            &recipes[i],
            links,
            ingredient_names,
            ids_to_texts,
            course_id_to_name,
            book_id_to_name,
        );
        out.push(r);
        i += 1;
    }
    out
}

} // verus!
