//! The seasons of the catalogue and the records that the recipe lists are
//! read into.

use crate::text::{decimal, lowercased, push_decimal, same_text, to_lowercase};
use std::collections::HashMap;
use vstd::prelude::*;
use vstd::string::StringExecFns;

verus! {

broadcast use vstd::std_specs::hash::group_hash_axioms;

/// A recipe as a recipe list states it.
#[derive(Debug, Clone, Hash, Eq, PartialEq)]
pub struct ParseRecipe {
    pub course: String,
    pub season: ESeason,
    pub book: String,
    pub name: String,
    pub page: Option<u16>,
    pub ingredients: Vec<String>,
}

/// The five seasons. Their canonical order is summer, autumn, winter, spring,
/// independent, numbered from 1.
#[derive(Debug, Copy, Clone, Hash, PartialEq, Eq, Structural)]
pub enum ESeason {
    Summer,
    Winter,
    Autumn,
    Spring,
    Independent,
}

/// A recipe list with the course it belongs to.
#[derive(Eq, Hash, PartialEq)]
pub struct FileWithCourse {
    pub filename: String,
    pub contents: String,
}

/// The number of a season in the canonical order.
pub open spec fn season_number(a: ESeason) -> int {
    match a {
        ESeason::Summer => 1,
        ESeason::Autumn => 2,
        ESeason::Winter => 3,
        ESeason::Spring => 4,
        ESeason::Independent => 5,
    }
}

/// The seasons in the canonical order.
pub open spec fn canonical_seasons() -> Seq<ESeason> {
    seq![
        ESeason::Summer,
        ESeason::Autumn,
        ESeason::Winter,
        ESeason::Spring,
        ESeason::Independent,
    ]
}

/// The season with the number `n`, for `n` from 1 to 5.
pub open spec fn season_at(n: int) -> ESeason {
    canonical_seasons()[n - 1]
}

/// The table from a season's number to the season.
pub open spec fn season_table() -> Map<usize, ESeason> {
    Map::new(|n: usize| 1 <= n <= 5, |n: usize| season_at(n as int))
}

/// The capitalised name of a season.
pub open spec fn season_title(a: ESeason) -> Seq<char> {
    match a {
        ESeason::Summer => "Summer"@,
        ESeason::Autumn => "Autumn"@,
        ESeason::Winter => "Winter"@,
        ESeason::Spring => "Spring"@,
        ESeason::Independent => "Independent"@,
    }
}

/// The lowercase name of a season, as it stands in a facet path.
pub open spec fn season_name(a: ESeason) -> Seq<char> {
    match a {
        ESeason::Summer => "summer"@,
        ESeason::Autumn => "autumn"@,
        ESeason::Winter => "winter"@,
        ESeason::Spring => "spring"@,
        ESeason::Independent => "independent"@,
    }
}

/// The season that a lowercase word names when a season is looked up: only
/// summer, spring and independent are known here.
pub open spec fn season_of_lowercase(lower: Seq<char>) -> Option<ESeason> {
    if lower == "summer"@ {
        Some(ESeason::Summer)
    } else if lower == "spring"@ {
        Some(ESeason::Spring)
    } else if lower == "independent"@ {
        Some(ESeason::Independent)
    } else {
        None
    }
}

/// The season that a lowercase heading of a recipe list stands for: one of the
/// four named seasons, and independent for any other heading.
pub open spec fn heading_season(lower: Seq<char>) -> ESeason {
    if lower == "summer"@ {
        ESeason::Summer
    } else if lower == "autumn"@ {
        ESeason::Autumn
    } else if lower == "winter"@ {
        ESeason::Winter
    } else if lower == "spring"@ {
        ESeason::Spring
    } else {
        ESeason::Independent
    }
}

/// How an optional page number is shown.
pub open spec fn page_text(page: Option<u16>) -> Seq<char> {
    match page {
        Some(p) => "Some("@ + decimal(p as int) + ")"@,
        None => "None"@,
    }
}

impl ESeason {
    /// The number of a season in the canonical order, from 1 to 5.
    pub fn value(a: ESeason) -> (n: usize)
        ensures
            n == season_number(a),
    {
        match a {
            ESeason::Summer => 1,
            ESeason::Autumn => 2,
            ESeason::Winter => 3,
            ESeason::Spring => 4,
            ESeason::Independent => 5,
        }
    }

    /// The number of this season in the canonical order.
    pub fn value_rofl(&self) -> (n: usize)
        ensures
            n == season_number(*self),
    {
        ESeason::value(*self)
    }

    /// The seasons in the canonical order.
    pub fn get_seasons() -> (all: Vec<ESeason>)
        ensures
            all@ == canonical_seasons(),
    {
        let all = vec![
            ESeason::Summer,
            ESeason::Autumn,
            ESeason::Winter,
            ESeason::Spring,
            ESeason::Independent,
        ];
        assert(all@ =~= canonical_seasons());
        all
    }

    /// The capitalised name of a season.
    pub fn to_string(seas: &ESeason) -> (name: &'static str)
        ensures
            name@ == season_title(*seas),
    {
        match seas {
            ESeason::Summer => "Summer",
            ESeason::Autumn => "Autumn",
            ESeason::Winter => "Winter",
            ESeason::Spring => "Spring",
            ESeason::Independent => "Independent",
        }
    }

    /// The lowercase name of this season: the form in which it is displayed
    /// and in which it stands in a facet path.
    pub fn name(&self) -> (name: &'static str)
        ensures
            name@ == season_name(*self),
    {
        match self {
            ESeason::Summer => "summer",
            ESeason::Autumn => "autumn",
            ESeason::Winter => "winter",
            ESeason::Spring => "spring",
            ESeason::Independent => "independent",
        }
    }

    /// The season that the lowercase word `lower` names, if it is one of
    /// summer, spring and independent.
    pub fn from_lowercase(lower: &str) -> (season: Option<ESeason>)
        ensures
            season == season_of_lowercase(lower@),
    {
        if same_text(lower, "summer") {
            Some(ESeason::Summer)
        } else if same_text(lower, "spring") {
            Some(ESeason::Spring)
        } else if same_text(lower, "independent") {
            Some(ESeason::Independent)
        } else {
            None
        }
    }

    /// The season that `a` names, whatever its case.
    pub fn from_string(a: &str) -> (season: Option<ESeason>)
        ensures
            season == season_of_lowercase(lowercased(a@)),
    {
        let lower = to_lowercase(a);
        ESeason::from_lowercase(lower.as_str())
    }

    /// The table from a season's number to the season.
    pub fn to_map() -> (table: HashMap<usize, ESeason>)
        ensures
            table@ == season_table(),
    {
        let mut table: HashMap<usize, ESeason> = HashMap::new();
        table.insert(1, ESeason::Summer);
        table.insert(2, ESeason::Autumn);
        table.insert(3, ESeason::Winter);
        table.insert(4, ESeason::Spring);
        table.insert(5, ESeason::Independent);
        assert(table@ =~= season_table());
        table
    }

    /// The season that the relational store numbers `id`.
    pub fn get_by_db_id(id: i32) -> (season: ESeason)
        requires
            1 <= id <= 5,
        ensures
            season == season_at(id as int),
    {
        if id == 1 {
            ESeason::Summer
        } else if id == 2 {
            ESeason::Autumn
        } else if id == 3 {
            ESeason::Winter
        } else if id == 4 {
            ESeason::Spring
        } else {
            ESeason::Independent
        }
    }
}

impl ParseRecipe {
    /// What `display` returns: course, season, book, name and page, with one
    /// space between them.
    pub open spec fn shown(self) -> Seq<char> {
        self.course@ + " "@ + season_name(self.season) + " "@ + self.book@ + " "@ + self.name@
            + " "@ + page_text(self.page)
    }

    /// The one-line form of this recipe.
    pub fn display(&self) -> (line: String)
        ensures
            line@ == self.shown(),
    {
        let mut line = self.course.clone();
        line.append(" ");
        line.append(self.season.name());
        line.append(" ");
        line.append(self.book.as_str());
        line.append(" ");
        line.append(self.name.as_str());
        line.append(" ");
        match self.page {
            Some(p) => {
                line.append("Some(");
                push_decimal(&mut line, p as i64);
                line.append(")");
            },
            None => {
                line.append("None");
            },
        }
        assert(line@ =~= self.shown());
        line
    }
}

/// The season that the lowercase heading `lower` stands for.
pub fn season_from_lowercase(lower: &str) -> (season: ESeason)
    ensures
        season == heading_season(lower@),
{
    if same_text(lower, "summer") {
        ESeason::Summer
    } else if same_text(lower, "autumn") {
        ESeason::Autumn
    } else if same_text(lower, "winter") {
        ESeason::Winter
    } else if same_text(lower, "spring") {
        ESeason::Spring
    } else {
        ESeason::Independent
    }
}

/// The season that a heading of a recipe list stands for, whatever its case.
pub fn match_season(a: &str) -> (season: ESeason)
    ensures
        season == heading_season(lowercased(a@)),
{
    let lower = to_lowercase(a);
    season_from_lowercase(lower.as_str())
}

} // verus!
