//! The structured filters that callers hand to the search.

use vstd::prelude::*;

verus! {

/// What a new recipe's form is filled with in advance.
pub struct RecipePrefill {
    pub course: Option<i32>,
    pub book: Option<i32>,
    pub season: Option<usize>,
}

/// A search filter. `season1` to `season5` are the five season slots: a slot
/// that holds a value selects the season with its number. `tried` is 0 for no
/// restriction, 1 for tried recipes only and 2 for recipes not tried yet.
/// `legacy` holding 1 asks for the relational strategy.
#[derive(Default, Clone)]
pub struct SearchPrefill {
    pub name: Option<String>,
    pub season: Option<i32>,
    pub course: Option<i32>,
    pub book: Option<i32>,
    pub tried: i32,
    pub season1: Option<i32>,
    pub season2: Option<i32>,
    pub season3: Option<i32>,
    pub season4: Option<i32>,
    pub season5: Option<i32>,
    pub legacy: Option<i32>,
}

/// The slot number `n` if the slot holds a value, nothing otherwise.
pub open spec fn slot(s: Option<i32>, n: int) -> Seq<int> {
    if s is Some {
        seq![n]
    } else {
        seq![]
    }
}

impl SearchPrefill {
    /// The free text of the filter, empty where there is none.
    pub open spec fn name_text(self) -> Seq<char> {
        match self.name {
            Some(n) => n@,
            None => Seq::empty(),
        }
    }

    /// The numbers of the selected season slots, in ascending order.
    pub open spec fn selected_slots(self) -> Seq<int> {
        slot(self.season1, 1) + slot(self.season2, 2) + slot(self.season3, 3) + slot(
            self.season4,
            4,
        ) + slot(self.season5, 5)
    }

    /// Whether the filter asks for the relational strategy.
    pub open spec fn wants_legacy(self) -> bool {
        self.legacy == Some(1i32)
    }

    /// The free text of the filter, empty where there is none.
    pub fn template_name(&self) -> (name: String)
        ensures
            name@ == self.name_text(),
    {
        match &self.name {
            Some(n) => n.clone(),
            None => String::new(),
        }
    }

    /// The numbers of the selected season slots, in ascending order.
    pub fn season_slots(&self) -> (slots: Vec<usize>)
        ensures
            slots@.map_values(|n: usize| n as int) == self.selected_slots(),
            forall|i: int| 0 <= i < slots@.len() ==> 1 <= #[trigger] slots@[i] <= 5,
    {
        let mut slots: Vec<usize> = Vec::new();
        if self.season1.is_some() {
            slots.push(1);
        }
        if self.season2.is_some() {
            slots.push(2);
        }
        if self.season3.is_some() {
            slots.push(3);
        }
        if self.season4.is_some() {
            slots.push(4);
        }
        if self.season5.is_some() {
            slots.push(5);
        }
        assert(slots@.map_values(|n: usize| n as int) =~= self.selected_slots());
        slots
    }

    /// Whether the filter asks for the relational strategy.
    pub fn is_legacy(&self) -> (legacy: bool)
        ensures
            legacy == self.wants_legacy(),
    {
        match self.legacy {
            Some(v) => v == 1,
            None => false,
        }
    }
}

} // verus!
