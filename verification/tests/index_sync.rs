use std::collections::HashMap;

use recipemanagement::args::SearchPrefill;
use recipemanagement::models::FullRecipe;
use recipemanagement::queries::RecipeQueryResult;
use recipemanagement::search::search_toggle::{build_tantivy_search_for_sql, index_query, search};
use recipemanagement::text_search::{
    nuke_and_rebuild_with_recipes, setup_search_state, update_index, IndexError, SearchState,
};

fn record(
    id: i32,
    season: i32,
    name: &str,
    ingredients: &[&str],
    text: Option<&str>,
    course: &str,
    book: Option<&str>,
) -> RecipeQueryResult {
    RecipeQueryResult {
        recipe: FullRecipe {
            recipe_id: Some(id),
            primary_season: season,
            course_id: 1,
            book_id: None,
            recipe_name: Some(name.to_string()),
            recipe_url: None,
            created_at: None,
            page: None,
        },
        ingredients: ingredients.iter().map(|x| x.to_string()).collect(),
        recipe_text: text.map(|x| x.to_string()),
        comments: vec![],
        course_name: course.to_string(),
        book_name: book.map(|x| x.to_string()),
    }
}

fn filter(name: Option<&str>) -> SearchPrefill {
    SearchPrefill {
        name: name.map(|x| x.to_string()),
        season: None,
        course: None,
        book: None,
        tried: 0,
        season1: None,
        season2: None,
        season3: None,
        season4: None,
        season5: None,
        legacy: None,
    }
}

fn ids(state: &SearchState, query: &str) -> Vec<i64> {
    let mut found =
        recipemanagement::text_search::search(&state.index, &state.fields, query).unwrap();
    found.sort();
    found
}

fn two_recipes() -> Vec<RecipeQueryResult> {
    vec![
        record(1, 3, "Potato Soup", &["potato", "leek"], None, "Mains", Some("River Cottage Veg")),
        record(2, 1, "Bread", &[], Some("Knead the dough."), "Baking", None),
    ]
}

#[test]
fn rebuild_then_plural_finds_the_singular() {
    let mut state = setup_search_state().unwrap();
    assert_eq!(Ok(()), nuke_and_rebuild_with_recipes(&mut state, &two_recipes()));
    let books: HashMap<i32, String> = HashMap::new();
    let courses: HashMap<i32, String> = HashMap::new();
    let sql = search(
        &filter(Some("potatoes")),
        &books,
        &courses,
        &state.index,
        &state.fields,
        &state.analyzer,
        7,
    );
    assert_eq!(Ok("SELECT * FROM recipe WHERE recipe_id IN (1)".to_string()), sql);
}

#[test]
fn rebuild_then_every_recipe_has_one_document() {
    let mut state = setup_search_state().unwrap();
    assert_eq!(Ok(()), nuke_and_rebuild_with_recipes(&mut state, &two_recipes()));
    assert_eq!(vec![1], ids(&state, "+potato"));
    assert_eq!(vec![2], ids(&state, "+bread"));
    assert_eq!(vec![1], ids(&state, "+leek"));
    assert_eq!(vec![2], ids(&state, "+dough"));
    assert_eq!(Vec::<i64>::new(), ids(&state, "+bread +potato"));
    assert_eq!(vec![1, 2], ids(&state, "season: IN [/season/summer /season/winter]"));
}

#[test]
fn rebuild_twice_answers_the_same() {
    let mut state = setup_search_state().unwrap();
    assert_eq!(Ok(()), nuke_and_rebuild_with_recipes(&mut state, &two_recipes()));
    let first = (ids(&state, "+potato"), ids(&state, "+bread"), ids(&state, "+course:\"/course/Mains\""));
    assert_eq!(Ok(()), nuke_and_rebuild_with_recipes(&mut state, &two_recipes()));
    let second = (ids(&state, "+potato"), ids(&state, "+bread"), ids(&state, "+course:\"/course/Mains\""));
    assert_eq!(first, second);
    assert_eq!((vec![1], vec![2], vec![1]), second);
}

#[test]
fn rebuild_drops_what_was_there() {
    let mut state = setup_search_state().unwrap();
    assert_eq!(Ok(()), nuke_and_rebuild_with_recipes(&mut state, &two_recipes()));
    let only = vec![record(5, 2, "Plum Cake", &["plum"], None, "Baking", None)];
    assert_eq!(Ok(()), nuke_and_rebuild_with_recipes(&mut state, &only));
    assert_eq!(Vec::<i64>::new(), ids(&state, "+potato"));
    assert_eq!(Vec::<i64>::new(), ids(&state, "+bread"));
    assert_eq!(vec![5], ids(&state, "+plum"));
}

#[test]
fn upsert_replaces_the_document_of_its_id() {
    let mut state = setup_search_state().unwrap();
    assert_eq!(Ok(()), nuke_and_rebuild_with_recipes(&mut state, &two_recipes()));
    let changed = record(1, 4, "Leek Tart", &["leek", "cream"], None, "Mains", None);
    assert_eq!(Ok(()), update_index(&mut state, &changed));
    assert_eq!(Vec::<i64>::new(), ids(&state, "+potato"));
    assert_eq!(vec![1], ids(&state, "+tart"));
    assert_eq!(vec![1], ids(&state, "+leek"));
    assert_eq!(vec![1], ids(&state, "+season: IN [/season/spring]"));
    assert_eq!(Vec::<i64>::new(), ids(&state, "+season: IN [/season/winter]"));
    assert_eq!(vec![2], ids(&state, "+bread"));
}

#[test]
fn upsert_adds_a_document_for_a_new_id() {
    let mut state = setup_search_state().unwrap();
    assert_eq!(Ok(()), update_index(&mut state, &record(9, 5, "Jam", &["plum"], None, "Jars", None)));
    assert_eq!(Ok(()), update_index(&mut state, &record(9, 5, "Jam", &["plum"], None, "Jars", None)));
    assert_eq!(vec![9], ids(&state, "+jam"));
    assert!(state.is_usable());
}

#[test]
fn book_and_course_facets_hold_names_with_spaces() {
    let mut state = setup_search_state().unwrap();
    assert_eq!(Ok(()), nuke_and_rebuild_with_recipes(&mut state, &two_recipes()));
    let mut books: HashMap<i32, String> = HashMap::new();
    books.insert(4, "River Cottage Veg".to_string());
    let mut courses: HashMap<i32, String> = HashMap::new();
    courses.insert(2, "Baking".to_string());
    let mut by_book = filter(None);
    by_book.book = Some(4);
    let sql = build_tantivy_search_for_sql(
        &by_book,
        &books,
        &courses,
        &state.index,
        &state.fields,
        &state.analyzer,
    );
    assert_eq!(Ok("SELECT * FROM recipe WHERE recipe_id IN (1)".to_string()), sql);
    let mut by_course = filter(None);
    by_course.course = Some(2);
    let sql = build_tantivy_search_for_sql(
        &by_course,
        &books,
        &courses,
        &state.index,
        &state.fields,
        &state.analyzer,
    );
    assert_eq!(Ok("SELECT * FROM recipe WHERE recipe_id IN (2)".to_string()), sql);
}

#[test]
fn unresolved_ids_add_no_clause() {
    let state = setup_search_state().unwrap();
    let books: HashMap<i32, String> = HashMap::new();
    let courses: HashMap<i32, String> = HashMap::new();
    let mut f = filter(Some("Potatoes and the Leeks"));
    f.book = Some(3);
    f.course = Some(8);
    f.season2 = Some(1);
    let query = index_query(&f, &books, &courses, &state.analyzer);
    assert_eq!("+potato +leek +season: IN [/season/autumn]", query);
}

#[test]
fn legacy_filter_bypasses_the_index() {
    let state = setup_search_state().unwrap();
    let books: HashMap<i32, String> = HashMap::new();
    let courses: HashMap<i32, String> = HashMap::new();
    let mut f = filter(None);
    f.legacy = Some(1);
    f.book = Some(3);
    let sql = search(&f, &books, &courses, &state.index, &state.fields, &state.analyzer, 7);
    assert_eq!(Ok("SELECT * FROM RECIPE WHERE book_id=3".to_string()), sql);
}

#[test]
fn a_query_the_index_cannot_parse_is_an_error() {
    let state = setup_search_state().unwrap();
    let r = recipemanagement::text_search::search(&state.index, &state.fields, "+nofield:x");
    assert_eq!(Err(IndexError::Query), r);
    assert_eq!("search index unavailable", IndexError::Unavailable.message());
}

#[test]
fn end_to_end_index_potatoes_finds_the_potato_soup() {
    let mut state = setup_search_state().unwrap();
    let recipes = vec![
        record(1, 3, "Potato Soup", &["potato", "leek"], None, "Mains", None),
        record(2, 1, "Bread", &[], None, "Baking", None),
    ];
    assert_eq!(Ok(()), nuke_and_rebuild_with_recipes(&mut state, &recipes));
    let none: HashMap<i32, String> = HashMap::new();
    let sql = search(
        &filter(Some("potatoes")),
        &none,
        &none,
        &state.index,
        &state.fields,
        &state.analyzer,
        7,
    );
    assert_eq!(Ok("SELECT * FROM recipe WHERE recipe_id IN (1)".to_string()), sql);
    let sql = search(&filter(Some("POTATO leeks")), &none, &none, &state.index, &state.fields, &state.analyzer, 7);
    assert_eq!(Ok("SELECT * FROM recipe WHERE recipe_id IN (1)".to_string()), sql);
    let sql = search(&filter(Some("potato bread")), &none, &none, &state.index, &state.fields, &state.analyzer, 7);
    assert_eq!(Ok("SELECT * FROM recipe WHERE recipe_id IN ()".to_string()), sql);
}

#[test]
fn synonyms_meet_at_index_and_query_time() {
    let mut state = setup_search_state().unwrap();
    let recipes = vec![
        record(1, 1, "Stuffed Zucchini", &["courgette"], None, "Mains", None),
        record(2, 1, "Aubergine Bake", &["eggplant"], None, "Mains", None),
    ];
    assert_eq!(Ok(()), nuke_and_rebuild_with_recipes(&mut state, &recipes));
    let none: HashMap<i32, String> = HashMap::new();
    let sql = search(&filter(Some("courgette")), &none, &none, &state.index, &state.fields, &state.analyzer, 7);
    assert_eq!(Ok("SELECT * FROM recipe WHERE recipe_id IN (1)".to_string()), sql);
    let sql = search(&filter(Some("zucchini")), &none, &none, &state.index, &state.fields, &state.analyzer, 7);
    assert_eq!(Ok("SELECT * FROM recipe WHERE recipe_id IN (1)".to_string()), sql);
    let sql = search(&filter(Some("the")), &none, &none, &state.index, &state.fields, &state.analyzer, 7);
    assert_eq!(Ok("SELECT * FROM recipe WHERE recipe_id IN ()".to_string()), sql);
}

#[test]
fn writes_in_any_order_keep_one_document_for_each_id() {
    let mut state = setup_search_state().unwrap();
    assert_eq!(Ok(()), update_index(&mut state, &record(1, 1, "Jam", &["plum"], None, "Jars", None)));
    assert_eq!(Ok(()), update_index(&mut state, &record(1, 1, "Plum Jam", &["plum"], None, "Jars", None)));
    assert_eq!(Ok(()), nuke_and_rebuild_with_recipes(&mut state, &two_recipes()));
    assert_eq!(Vec::<i64>::new(), ids(&state, "+jam"));
    assert_eq!(Ok(()), update_index(&mut state, &record(2, 1, "Rye Bread", &["rye"], None, "Baking", None)));
    assert_eq!(Ok(()), update_index(&mut state, &record(3, 2, "Jam", &["plum"], None, "Jars", None)));
    assert_eq!(Ok(()), update_index(&mut state, &record(1, 3, "Potato Soup", &["potato"], None, "Mains", None)));
    assert_eq!(vec![1], ids(&state, "+potato"));
    assert_eq!(vec![2], ids(&state, "+bread"));
    assert_eq!(vec![2], ids(&state, "+rye"));
    assert_eq!(vec![3], ids(&state, "+jam"));
    assert_eq!(Vec::<i64>::new(), ids(&state, "+leek"));
    assert_eq!(Vec::<i64>::new(), ids(&state, "+dough"));
    assert_eq!(Ok(()), nuke_and_rebuild_with_recipes(&mut state, &vec![]));
    assert_eq!(Vec::<i64>::new(), ids(&state, "+potato"));
    assert_eq!(Vec::<i64>::new(), ids(&state, "course:\"/course/Jars\""));
    assert!(state.is_usable());
}

#[test]
fn many_recipes_are_found_up_to_the_limit() {
    let mut state = setup_search_state().unwrap();
    let recipes: Vec<RecipeQueryResult> = (0..1100)
        .map(|i| record(i, 1 + i % 5, "Leek Soup", &["leek"], None, "Mains", None))
        .collect();
    assert_eq!(Ok(()), nuke_and_rebuild_with_recipes(&mut state, &recipes));
    assert_eq!(1024, ids(&state, "+leek").len());
    assert_eq!(220, ids(&state, "+leek +season: IN [/season/independent]").len());
}

#[test]
fn a_state_without_its_writer_is_unavailable_for_writes_and_still_answers() {
    let mut state = setup_search_state().unwrap();
    assert_eq!(Ok(()), nuke_and_rebuild_with_recipes(&mut state, &two_recipes()));
    state.writer = None;
    assert!(!state.is_usable());
    assert_eq!(
        Err(IndexError::Unavailable),
        update_index(&mut state, &record(9, 5, "Jam", &["plum"], None, "Jars", None))
    );
    assert_eq!(Err(IndexError::Unavailable), nuke_and_rebuild_with_recipes(&mut state, &vec![]));
    assert_eq!(vec![1], ids(&state, "+potato"));
    assert_eq!(Vec::<i64>::new(), ids(&state, "+jam"));
}

#[test]
fn a_write_that_was_left_unsettled_is_cancelled_before_the_next() {
    let mut state = setup_search_state().unwrap();
    assert_eq!(Ok(()), nuke_and_rebuild_with_recipes(&mut state, &two_recipes()));
    state.settled = false;
    assert_eq!(Ok(()), update_index(&mut state, &record(9, 5, "Jam", &["plum"], None, "Jars", None)));
    assert_eq!(vec![1], ids(&state, "+potato"));
    assert_eq!(vec![9], ids(&state, "+jam"));
    state.settled = false;
    assert_eq!(Ok(()), nuke_and_rebuild_with_recipes(&mut state, &two_recipes()));
    assert_eq!(vec![1], ids(&state, "+potato"));
    assert_eq!(Vec::<i64>::new(), ids(&state, "+jam"));
    assert!(state.is_usable());
}
