use std::collections::HashMap;

use recipemanagement::args::SearchPrefill;
use recipemanagement::models::{FullRecipe, RecipeIngredient};
use recipemanagement::parsetypes::ESeason;
use recipemanagement::queries::{all_joinable, find_name, ingredients_of, join_recipes, name_table};
use recipemanagement::search::search_utils::{make_facet_path, quote, render_value, Clause};
use recipemanagement::text_search::{build_query, build_schema, present_ids, recipe_to_doc};

#[test]
fn query_text_has_terms_book_seasons_course() {
    let mut f = SearchPrefill::default();
    f.name = Some("  Potato   leek ".to_string());
    f.book = Some(4);
    f.course = Some(2);
    f.season1 = Some(1);
    f.season4 = Some(1);
    let mut books = HashMap::new();
    books.insert(4, "River \"Cottage\" Veg".to_string());
    let mut courses = HashMap::new();
    courses.insert(2, "Mains\\Sides".to_string());
    assert_eq!(
        "+Potato +leek +book:\"/book/River \\\"Cottage\\\" Veg\" +season: IN [/season/summer /season/spring] +course:\"/course/Mains\\\\Sides\"",
        build_query(f, books, ESeason::to_map(), courses)
    );
}

#[test]
fn plain_facet_paths_stand_bare() {
    let mut f = SearchPrefill::default();
    f.name = Some("potato leek".to_string());
    f.book = Some(1);
    f.season1 = Some(1);
    f.course = Some(2);
    let mut books = HashMap::new();
    books.insert(1, "Plenty".to_string());
    let mut courses = HashMap::new();
    courses.insert(2, "Mains".to_string());
    assert_eq!(
        "+potato +leek +book:/book/Plenty +season: IN [/season/summer] +course:/course/Mains",
        build_query(f, books, ESeason::to_map(), courses)
    );
}

#[test]
fn empty_filter_gives_an_empty_query() {
    let f = SearchPrefill::default();
    assert_eq!("", build_query(f, HashMap::new(), ESeason::to_map(), HashMap::new()));
    let mut f = SearchPrefill::default();
    f.name = Some(" \t".to_string());
    f.book = Some(1);
    f.season3 = Some(1);
    assert_eq!("", build_query(f, HashMap::new(), HashMap::new(), HashMap::new()));
}

#[test]
fn a_season_table_with_gaps_resolves_what_it_holds() {
    let mut f = SearchPrefill::default();
    f.season1 = Some(1);
    f.season2 = Some(1);
    f.season3 = Some(1);
    let mut seasons = HashMap::new();
    seasons.insert(3usize, ESeason::Summer);
    seasons.insert(1usize, ESeason::Winter);
    assert_eq!(
        Some("+season: IN [/season/winter /season/summer]".to_string()),
        recipemanagement::text_search::build_season_term(f, seasons)
    );
}

#[test]
fn clauses_render_in_the_query_language() {
    assert_eq!("+leek", Clause::Term("leek".to_string()).render());
    assert_eq!(
        "+book:\"/book/a b\"",
        Clause::FacetEq { field: "book".to_string(), path: "/book/a b".to_string() }.render()
    );
    assert_eq!(
        "+season: IN []",
        Clause::FacetAny { field: "season".to_string(), paths: vec![] }.render()
    );
    assert_eq!(
        "+book:/book/Plenty",
        Clause::FacetEq { field: "book".to_string(), path: "/book/Plenty".to_string() }.render()
    );
    assert_eq!("/book/Veg-2", render_value("/book/Veg-2"));
    assert_eq!("\"/book/Veg*\"", render_value("/book/Veg*"));
    assert_eq!("\"/book/Veg\u{a0}2\"", render_value("/book/Veg\u{a0}2"));
    assert_eq!("\"/book/it's\"", render_value("/book/it's"));
    assert_eq!("\"\"", render_value(""));
    assert_eq!("\"a\\\\b\\\"c\"", quote("a\\b\"c"));
    assert_eq!("\"\"", quote(""));
    assert_eq!("/book/Veg", make_facet_path("book", "Veg"));
}

fn recipe(id: i32, course: i32, book: Option<i32>) -> FullRecipe {
    FullRecipe {
        recipe_id: Some(id),
        primary_season: 2,
        course_id: course,
        book_id: book,
        recipe_name: Some(format!("recipe {}", id)),
        recipe_url: Some("https://example.org/r".to_string()),
        created_at: None,
        page: None,
    }
}

#[test]
fn recipes_are_joined_with_their_rows() {
    let ingredients = name_table(&vec![(1, "plum".to_string()), (2, "leek".to_string()), (1, "damson".to_string())]);
    assert_eq!(Some("damson".to_string()), find_name(&ingredients, 1));
    assert_eq!(None, find_name(&ingredients, 3));
    let links = vec![
        RecipeIngredient { recipe_id: 7, ingredient_id: 2, created_at: None },
        RecipeIngredient { recipe_id: 8, ingredient_id: 1, created_at: None },
        RecipeIngredient { recipe_id: 7, ingredient_id: 9, created_at: None },
        RecipeIngredient { recipe_id: 7, ingredient_id: 1, created_at: None },
    ];
    assert_eq!(vec!["leek".to_string(), "damson".to_string()], ingredients_of(&links, &ingredients, 7));
    let texts = name_table(&vec![(8, "Stir.".to_string())]);
    let courses = name_table(&vec![(1, "Mains".to_string()), (2, "Jars".to_string())]);
    let books = name_table(&vec![(7, "Veg".to_string())]);
    let recipes = vec![recipe(7, 1, None), recipe(8, 2, Some(7)), recipe(9, 2, Some(8))];
    assert!(all_joinable(&recipes, &courses));
    let joined = join_recipes(&recipes, &links, &ingredients, &texts, &courses, &books);
    assert_eq!(3, joined.len());
    assert_eq!(vec!["leek".to_string(), "damson".to_string()], joined[0].ingredients);
    assert_eq!((None, "Mains", None), (joined[0].recipe_text.clone(), joined[0].course_name.as_str(), joined[0].book_name.clone()));
    assert_eq!(vec!["damson".to_string()], joined[1].ingredients);
    assert_eq!(
        (Some("Stir.".to_string()), "Jars", Some("Veg".to_string())),
        (joined[1].recipe_text.clone(), joined[1].course_name.as_str(), joined[1].book_name.clone())
    );
    assert_eq!((Vec::<String>::new(), None), (joined[2].ingredients.clone(), joined[2].book_name.clone()));
    assert_eq!(Some(8), joined[1].recipe.recipe_id);
    assert!(joined[1].comments.is_empty());
    let mut missing = recipe(1, 5, None);
    assert!(!all_joinable(&vec![recipe(7, 1, None), missing.duplicate()], &courses));
    missing.course_id = 1;
    missing.recipe_id = None;
    assert!(!all_joinable(&vec![missing], &courses));
}

#[test]
fn document_of_a_record_holds_what_the_record_has() {
    let courses = name_table(&vec![(2, "Jars".to_string())]);
    let books = name_table(&vec![(7, "Veg".to_string())]);
    let joined = join_recipes(&vec![recipe(8, 2, Some(7))], &vec![], &HashMap::new(), &HashMap::new(), &courses, &books);
    let doc = recipe_to_doc(&joined[0]);
    assert_eq!(Some("recipe 8".to_string()), doc.title);
    assert_eq!(None, doc.body);
    assert_eq!(Vec::<String>::new(), doc.ingredients);
    assert_eq!(Some("https://example.org/r".to_string()), doc.url);
    assert_eq!(8, doc.recipe_id);
    assert_eq!(Some("/book/Veg".to_string()), doc.book);
    assert_eq!("/season/autumn", doc.season);
    assert_eq!("/course/Jars", doc.course);
    let (_schema, fields) = build_schema();
    assert!(fields.title != fields.body);
    assert!(fields.recipe_id != fields.course);
}

#[test]
fn ids_of_hits_keep_their_order_and_skip_what_is_missing() {
    assert_eq!(vec![7, -2, 7, 0], present_ids(vec![Some(7), None, Some(-2), Some(7), None, None, Some(0)]));
    assert_eq!(Vec::<i64>::new(), present_ids(vec![None, None]));
    assert_eq!(Vec::<i64>::new(), present_ids(vec![]));
}
