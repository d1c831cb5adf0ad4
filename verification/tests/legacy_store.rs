use diesel::connection::SimpleConnection;
use diesel::deserialize::{self, QueryableByName};
use diesel::row::NamedRow;
use diesel::sql_types::{Integer, Nullable};
use diesel::sqlite::Sqlite;
use diesel::{sql_query, Connection, RunQueryDsl, SqliteConnection};

use recipemanagement::args::SearchPrefill;
use recipemanagement::queries::{build_index_search_query, build_search_query};

struct Found {
    id: i32,
}

impl QueryableByName<Sqlite> for Found {
    fn build<'a>(row: &impl NamedRow<'a, Sqlite>) -> deserialize::Result<Self> {
        let id = NamedRow::get::<Nullable<Integer>, Option<i32>>(row, "recipe_id")?;
        Ok(Found { id: id.unwrap_or(-1) })
    }
}

fn store() -> SqliteConnection {
    let mut con = SqliteConnection::establish(":memory:").unwrap();
    con.batch_execute(
        "CREATE TABLE recipe (recipe_id INTEGER PRIMARY KEY, primary_season INTEGER NOT NULL, course_id INTEGER NOT NULL, book_id INTEGER, recipe_name TEXT, recipe_url TEXT, created_at FLOAT, page INTEGER);
         CREATE TABLE ingredient (id INTEGER PRIMARY KEY, name TEXT, created_at FLOAT);
         CREATE TABLE recipe_ingredient (recipe_id INTEGER NOT NULL, ingredient_id INTEGER NOT NULL, created_at FLOAT);
         CREATE TABLE recipe_text (recipe_id INTEGER PRIMARY KEY, content TEXT NOT NULL, created_at FLOAT, modified_at FLOAT);
         CREATE TABLE recipe_comment (comment_id INTEGER PRIMARY KEY, user_id INTEGER NOT NULL, recipe_id INTEGER NOT NULL, content TEXT NOT NULL, created_at FLOAT);
         CREATE TABLE tried (user_id INTEGER NOT NULL, recipe_id INTEGER NOT NULL, created_at FLOAT);
         INSERT INTO recipe (recipe_id, primary_season, course_id, book_id, recipe_name) VALUES (1, 3, 1, 4, 'Potato Soup'), (2, 1, 2, NULL, 'Bread'), (3, 3, 1, 4, 'Leek Tart');
         INSERT INTO ingredient (id, name) VALUES (1, 'potato'), (2, 'leek'), (3, 'new potato');
         INSERT INTO recipe_ingredient (recipe_id, ingredient_id) VALUES (1, 1), (1, 2), (3, 2), (3, 3);
         INSERT INTO recipe_text (recipe_id, content) VALUES (2, 'Knead. It''s 100% rye_flour.');
         INSERT INTO recipe_comment (user_id, recipe_id, content) VALUES (7, 2, 'Goes with potato salad');
         INSERT INTO tried (user_id, recipe_id) VALUES (7, 1);",
    )
    .unwrap();
    con
}

fn filter(name: Option<&str>) -> SearchPrefill {
    SearchPrefill {
        name: name.map(|x| x.to_string()),
        season: None,
        course: None,
        book: None,
        tried: 0,
        season1: None,
        season2: None,
        season3: None,
        season4: None,
        season5: None,
        legacy: Some(1),
    }
}

fn ids(con: &mut SqliteConnection, sql: String) -> Vec<i32> {
    let mut found: Vec<i32> =
        sql_query(sql).load::<Found>(con).ok().unwrap_or_default().into_iter().map(|x| x.id).collect();
    found.sort();
    found
}

#[test]
fn legacy_name_finds_through_the_ingredients() {
    let mut con = store();
    let mut two = filter(Some("leek"));
    assert_eq!(vec![1, 3], ids(&mut con, build_search_query(&two, 7)));
    two.name = Some("soup".to_string());
    assert_eq!(vec![1], ids(&mut con, build_search_query(&two, 7)));
}

#[test]
fn legacy_name_finds_through_text_and_comments() {
    let mut con = store();
    assert_eq!(vec![2], ids(&mut con, build_search_query(&filter(Some("knead")), 7)));
    assert_eq!(vec![1, 2, 3], ids(&mut con, build_search_query(&filter(Some("potato")), 7)));
    assert_eq!(vec![2], ids(&mut con, build_search_query(&filter(Some("salad")), 7)));
    assert_eq!(Vec::<i32>::new(), ids(&mut con, build_search_query(&filter(Some("plum")), 7)));
}

#[test]
fn legacy_predicates_restrict_what_the_name_finds() {
    let mut con = store();
    let mut f = filter(Some("potato"));
    f.book = Some(4);
    assert_eq!(vec![1, 3], ids(&mut con, build_search_query(&f, 7)));
    f.tried = 1;
    assert_eq!(vec![1], ids(&mut con, build_search_query(&f, 7)));
    f.tried = 2;
    assert_eq!(vec![3], ids(&mut con, build_search_query(&f, 7)));
    assert_eq!(vec![1, 3], ids(&mut con, build_search_query(&f, 8)));
    f.season3 = Some(1);
    f.course = Some(1);
    assert_eq!(vec![3], ids(&mut con, build_search_query(&f, 7)));
    f.season3 = None;
    f.season1 = Some(1);
    assert_eq!(Vec::<i32>::new(), ids(&mut con, build_search_query(&f, 7)));
}

#[test]
fn legacy_predicates_alone_form_the_query() {
    let mut con = store();
    let mut f = filter(None);
    f.season1 = Some(1);
    f.season3 = Some(1);
    assert_eq!(vec![1, 2, 3], ids(&mut con, build_search_query(&f, 7)));
    f.course = Some(1);
    assert_eq!(vec![1, 3], ids(&mut con, build_search_query(&f, 7)));
    f.tried = 2;
    assert_eq!(vec![3], ids(&mut con, build_search_query(&f, 7)));
    f.tried = 1;
    assert_eq!(vec![1], ids(&mut con, build_search_query(&f, 7)));
}

#[test]
fn legacy_filter_without_anything_restricts_nothing() {
    let mut con = store();
    assert_eq!(vec![1, 2, 3], ids(&mut con, build_search_query(&filter(None), 7)));
    assert_eq!(vec![1, 2, 3], ids(&mut con, build_search_query(&filter(Some("  ")), 7)));
}

#[test]
fn legacy_name_with_book_and_course_restricts_the_union() {
    let mut con = store();
    let mut f = filter(Some("potato"));
    f.book = Some(4);
    f.course = Some(1);
    assert_eq!(vec![1, 3], ids(&mut con, build_search_query(&f, 7)));
    f.course = Some(2);
    assert_eq!(Vec::<i32>::new(), ids(&mut con, build_search_query(&f, 7)));
}

#[test]
fn legacy_name_with_a_quote_stays_inside_its_pattern() {
    let mut con = store();
    assert_eq!(vec![2], ids(&mut con, build_search_query(&filter(Some("it's")), 7)));
    assert_eq!(Vec::<i32>::new(), ids(&mut con, build_search_query(&filter(Some("x' OR '1'='1")), 7)));
}

#[test]
fn bulk_fetch_returns_the_rows_of_the_ids() {
    let mut con = store();
    assert_eq!(vec![1, 3], ids(&mut con, build_index_search_query(vec![3, 1, 9])));
    assert_eq!(Vec::<i32>::new(), ids(&mut con, build_index_search_query(vec![])));
}

#[test]
fn end_to_end_legacy_potato_finds_the_soup_by_its_ingredient() {
    let mut con = SqliteConnection::establish(":memory:").unwrap();
    con.batch_execute(
        "CREATE TABLE recipe (recipe_id INTEGER PRIMARY KEY, primary_season INTEGER NOT NULL, course_id INTEGER NOT NULL, book_id INTEGER, recipe_name TEXT, recipe_url TEXT, created_at FLOAT, page INTEGER);
         CREATE TABLE ingredient (id INTEGER PRIMARY KEY, name TEXT, created_at FLOAT);
         CREATE TABLE recipe_ingredient (recipe_id INTEGER NOT NULL, ingredient_id INTEGER NOT NULL, created_at FLOAT);
         CREATE TABLE recipe_text (recipe_id INTEGER PRIMARY KEY, content TEXT NOT NULL, created_at FLOAT, modified_at FLOAT);
         CREATE TABLE recipe_comment (comment_id INTEGER PRIMARY KEY, user_id INTEGER NOT NULL, recipe_id INTEGER NOT NULL, content TEXT NOT NULL, created_at FLOAT);
         CREATE TABLE tried (user_id INTEGER NOT NULL, recipe_id INTEGER NOT NULL, created_at FLOAT);
         INSERT INTO recipe (recipe_id, primary_season, course_id, recipe_name) VALUES (1, 3, 1, 'Soup of the day'), (2, 1, 2, 'Bread');
         INSERT INTO ingredient (id, name) VALUES (1, 'potato'), (2, 'leek');
         INSERT INTO recipe_ingredient (recipe_id, ingredient_id) VALUES (1, 1), (1, 2);",
    )
    .unwrap();
    assert_eq!(vec![1], ids(&mut con, build_search_query(&filter(Some("potato")), 7)));
}
