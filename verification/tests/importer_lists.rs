use recipemanagement::importer::{
    build_rows, build_season_record, build_seasons_records, build_tag_records, can_parse, parse,
    parse_ingredients, parse_number, parse_page_number, parse_recipe_name, split_items,
    split_lines, split_on, unique,
};
use recipemanagement::parsetypes::{ESeason, ParseRecipe};

fn chars(s: &str) -> Vec<char> {
    s.chars().collect()
}

fn strings(words: &[&str]) -> Vec<String> {
    words.iter().map(|w| w.to_string()).collect()
}

fn lines_of(s: &str) -> Vec<String> {
    split_lines(s).into_iter().map(|l| l.into_iter().collect()).collect()
}

#[test]
fn lines_are_those_of_the_standard_library() {
    for text in ["", "a", "a\n", "a\nb", "a\r\nb\r\n", "\n\na\n\n", "a\rb\n", "a\n\r", "x\r", "\r\n"] {
        let expected: Vec<String> = text.lines().map(|l| l.to_string()).collect();
        assert_eq!(expected, lines_of(text), "for {:?}", text);
    }
}

#[test]
fn pieces_are_those_of_the_standard_library() {
    for text in ["", "a", "a b", " a  b ", "[x] [y", "]]"] {
        for sep in [' ', '[', ']'] {
            let expected: Vec<String> = text.split(sep).map(|l| l.to_string()).collect();
            let got: Vec<String> =
                split_on(&chars(text), sep).into_iter().map(|l| l.into_iter().collect()).collect();
            assert_eq!(expected, got, "for {:?} at {:?}", text, sep);
        }
    }
    for text in ["", "a", "a, b", "a,b, c", ", ", ", , ", "a,", ",, b"] {
        let expected: Vec<String> = text.split(", ").map(|l| l.to_string()).collect();
        assert_eq!(expected, split_items(&chars(text)), "for {:?}", text);
    }
}

#[test]
fn numbers_are_those_of_the_standard_library() {
    for text in ["", "+", "0", "007", "12", "+12", "-1", "65535", "65536", "99999999999", "1a", " 1", "++1", "１２"] {
        assert_eq!(text.parse::<u16>().ok(), parse_number(&chars(text)), "for {:?}", text);
    }
}

#[test]
fn page_is_the_number_at_the_end() {
    assert_eq!(Some(112), parse_page_number(&chars("Plum Cake [plum, sugar] 112")));
    assert_eq!(None, parse_page_number(&chars("Plum Cake [plum, sugar]")));
    assert_eq!(None, parse_page_number(&chars("Plum Cake 112 ")));
    assert_eq!(Some(7), parse_page_number(&chars("7")));
}

#[test]
fn ingredients_stand_between_the_brackets() {
    assert_eq!(strings(&["plum", "sugar"]), parse_ingredients(&chars("Plum Cake [plum, sugar] 112")));
    assert_eq!(strings(&[""]), parse_ingredients(&chars("Plum Cake [] 112")));
    assert_eq!(Vec::<String>::new(), parse_ingredients(&chars("Plum Cake 112")));
    assert_eq!(Vec::<String>::new(), parse_ingredients(&chars("Plum Cake [plum")));
    assert_eq!(strings(&["a,b"]), parse_ingredients(&chars("x [a,b[c] y")));
}

#[test]
fn name_stands_before_the_bracket() {
    assert_eq!("Plum Cake", parse_recipe_name(&chars("Plum Cake [plum, sugar] 112")));
    assert_eq!("Plum Cake 112", parse_recipe_name(&chars("Plum Cake 112")));
    assert_eq!("", parse_recipe_name(&chars("[plum]")));
}

#[test]
fn unique_keeps_the_first_of_each() {
    assert_eq!(strings(&["a", "b", "c"]), unique(strings(&["a", "b", "a", "c", "b"])));
    assert_eq!(Vec::<String>::new(), unique(vec![]));
}

const LIST: &str = "Summer\n\tRiver Cottage\n\t\tPlum Cake [plum, sugar, plum] 112\n\n\t\t\t\ttoo deep\n\t\t\n\t\tBread\nwinter\n\t\tPotato Soup [potato, leek]\nSomething else\n\tSecond Book\r\n\t\tJam [plum] 3\r\n";

fn listed() -> Vec<ParseRecipe> {
    parse(LIST.to_string(), "Mains".to_string())
}

#[test]
fn list_is_read_line_by_line() {
    assert!(can_parse(LIST));
    let recipes = listed();
    let expected = vec![
        ParseRecipe {
            course: "Mains".to_string(),
            season: ESeason::Summer,
            book: "River Cottage".to_string(),
            name: "Plum Cake".to_string(),
            page: Some(112),
            ingredients: strings(&["plum", "sugar"]),
        },
        ParseRecipe {
            course: "Mains".to_string(),
            season: ESeason::Summer,
            book: "River Cottage".to_string(),
            name: "Bread".to_string(),
            page: None,
            ingredients: vec![],
        },
        ParseRecipe {
            course: "Mains".to_string(),
            season: ESeason::Winter,
            book: "River Cottage".to_string(),
            name: "Potato Soup".to_string(),
            page: None,
            ingredients: strings(&["potato", "leek"]),
        },
        ParseRecipe {
            course: "Mains".to_string(),
            season: ESeason::Independent,
            book: "Second Book".to_string(),
            name: "Jam".to_string(),
            page: Some(3),
            ingredients: strings(&["plum"]),
        },
    ];
    assert_eq!(expected, recipes);
    assert_eq!("Mains summer River Cottage Plum Cake Some(112)", recipes[0].display());
    assert_eq!("Mains summer River Cottage Bread None", recipes[1].display());
}

#[test]
fn list_with_brackets_out_of_order_cannot_be_read() {
    assert!(!can_parse("\t\tJam ] [plum]\n"));
    assert!(can_parse("\tJam ] [plum]\n"));
    assert!(can_parse("\t\tJam [plum\n"));
    assert!(can_parse(""));
}

#[test]
fn rows_number_books_courses_and_recipes() {
    let mut recipes = listed();
    recipes.push(ParseRecipe {
        course: "Baking".to_string(),
        season: ESeason::Spring,
        book: "River Cottage".to_string(),
        name: "Bread".to_string(),
        page: Some(9),
        ingredients: strings(&["flour", "plum"]),
    });
    let (books, courses, rows) = build_rows(&recipes);
    let book_rows: Vec<(Option<i32>, &str)> =
        books.iter().map(|b| (b.book_id, b.book_name.as_str())).collect();
    assert_eq!(vec![(Some(0), "River Cottage"), (Some(1), "Second Book")], book_rows);
    let course_rows: Vec<(Option<i32>, &str)> =
        courses.iter().map(|c| (c.course_id, c.course_name.as_str())).collect();
    assert_eq!(vec![(Some(0), "Mains"), (Some(1), "Baking")], course_rows);
    let recipe_rows: Vec<(Option<i32>, &str, i32, i32, Option<i32>, Option<i32>)> = rows
        .iter()
        .map(|r| (r.recipe_id, r.recipe_name.as_str(), r.primary_season, r.course_id, r.book_id, r.page))
        .collect();
    assert_eq!(
        vec![
            (Some(0), "Plum Cake", 1, 0, Some(0), Some(112)),
            (Some(1), "Bread", 1, 0, Some(0), None),
            (Some(2), "Potato Soup", 3, 0, Some(0), None),
            (Some(3), "Jam", 5, 0, Some(1), Some(3)),
            (Some(4), "Bread", 4, 1, Some(0), Some(9)),
        ],
        recipe_rows
    );
    let (ingredients, links) = build_tag_records(&recipes);
    let names: Vec<(Option<i32>, &str)> =
        ingredients.iter().map(|i| (i.id, i.name.as_str())).collect();
    assert_eq!(
        vec![(Some(0), "plum"), (Some(1), "sugar"), (Some(2), "potato"), (Some(3), "leek"), (Some(4), "flour")],
        names
    );
    let pairs: Vec<(i32, i32)> = links.iter().map(|l| (l.recipe_id, l.ingredient_id)).collect();
    assert_eq!(vec![(0, 0), (0, 1), (2, 2), (2, 3), (3, 0), (4, 4), (4, 0)], pairs);
    assert_eq!("recipe: 4, tag 0", links[6].to_string());
}

#[test]
fn season_rows_follow_the_canonical_order() {
    let rows: Vec<(Option<i32>, String)> =
        build_seasons_records().into_iter().map(|r| (r.season_id, r.tag_name)).collect();
    assert_eq!(
        vec![
            (Some(1), "Summer".to_string()),
            (Some(2), "Autumn".to_string()),
            (Some(3), "Winter".to_string()),
            (Some(4), "Spring".to_string()),
            (Some(5), "Independent".to_string()),
        ],
        rows
    );
    assert_eq!(Some(3), build_season_record(ESeason::Winter).season_id);
}
