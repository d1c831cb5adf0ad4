//! The rows of the relational store, as plain values.

use crate::text::{decimal, push_decimal};
use vstd::prelude::*;
use vstd::string::StringExecFns;

verus! {

/// A row of `recipe`. `created_at` holds the bits of the store's 32-bit float.
pub struct FullRecipe {
    pub recipe_id: Option<i32>,
    pub primary_season: i32,
    pub course_id: i32,
    pub book_id: Option<i32>,
    pub recipe_name: Option<String>,
    pub recipe_url: Option<String>,
    pub created_at: Option<u32>,
    pub page: Option<i32>,
}

/// A new row of `recipe`.
pub struct InsertRecipe {
    pub primary_season: i32,
    pub course_id: i32,
    pub book_id: Option<i32>,
    pub recipe_name: String,
    pub page: Option<i32>,
    pub recipe_id: Option<i32>,
}

/// A new row of `course`.
pub struct InsertCourse {
    pub course_id: Option<i32>,
    pub course_name: String,
}

/// A new row of `book`.
pub struct InsertBook {
    pub book_id: Option<i32>,
    pub book_name: String,
}

/// A row of `season`.
pub struct QSeason {
    pub season_id: Option<i32>,
    pub name: String,
}

/// A new row of `season`.
pub struct InsertSeason {
    pub season_id: Option<i32>,
    pub tag_name: String,
}

/// A new row of `ingredient`.
pub struct InsertIngredient {
    pub id: Option<i32>,
    pub name: String,
}

/// A row of `recipe_ingredient`. `created_at` holds the bits of the store's
/// 32-bit float.
pub struct RecipeIngredient {
    pub recipe_id: i32,
    pub ingredient_id: i32,
    pub created_at: Option<u32>,
}

/// A new row of `recipe_ingredient`.
#[derive(Hash, Eq, PartialEq)]
pub struct InsertRecipeIngredient {
    pub recipe_id: i32,
    pub ingredient_id: i32,
}

/// A copy of an optional string.
pub fn copy_text(s: &Option<String>) -> (out: Option<String>)
    ensures
        out == *s,
{
    match s {
        Some(t) => Some(t.clone()),
        None => None,
    }
}

impl FullRecipe {
    /// A copy of this row.
    pub fn duplicate(&self) -> (out: FullRecipe)
        ensures
            out == *self,
    {
        FullRecipe {
            recipe_id: self.recipe_id,
            primary_season: self.primary_season,
            course_id: self.course_id,
            book_id: self.book_id,
            recipe_name: copy_text(&self.recipe_name),
            recipe_url: copy_text(&self.recipe_url),
            created_at: self.created_at,
            page: self.page,
        }
    }
}

impl InsertCourse {
    /// The new row with the given id and name.
    pub fn new(course_id: Option<i32>, course_name: String) -> (row: InsertCourse)
        ensures
            row.course_id == course_id,
            row.course_name == course_name,
    {
        InsertCourse { course_id, course_name }
    }
}

impl InsertBook {
    /// The new row with the given id and name.
    pub fn new(book_id: Option<i32>, name: String) -> (row: InsertBook)
        ensures
            row.book_id == book_id,
            row.book_name == name,
    {
        InsertBook { book_id, book_name: name }
    }
}

impl QSeason {
    /// The row with the given id and name.
    pub fn new(season_id: Option<i32>, name: String) -> (row: QSeason)
        ensures
            row.season_id == season_id,
            row.name == name,
    {
        QSeason { season_id, name }
    }
}

impl InsertSeason {
    /// The new row with the given id and name.
    pub fn new(season_id: Option<i32>, name: String) -> (row: InsertSeason)
        ensures
            row.season_id == season_id,
            row.tag_name == name,
    {
        InsertSeason { season_id, tag_name: name }
    }
}

impl InsertRecipeIngredient {
    /// How `to_string` shows this row.
    pub open spec fn shown(self) -> Seq<char> {
        "recipe: "@ + decimal(self.recipe_id as int) + ", tag "@ + decimal(
            self.ingredient_id as int,
        )
    }

    /// The row in words: `recipe: 3, tag 7`.
    pub fn to_string(&self) -> (line: String)
        ensures
            line@ == self.shown(),
    {
        let mut line = String::from_str("recipe: ");
        push_decimal(&mut line, self.recipe_id as i64);
        line.append(", tag ");
        push_decimal(&mut line, self.ingredient_id as i64);
        line
    }
}

} // verus!
