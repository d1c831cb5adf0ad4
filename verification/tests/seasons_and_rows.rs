use recipemanagement::args::{RecipePrefill, SearchPrefill};
use recipemanagement::models::{FullRecipe, InsertBook, InsertCourse, InsertRecipeIngredient, InsertSeason, QSeason};
use recipemanagement::parsetypes::{match_season, season_from_lowercase, ESeason, FileWithCourse};

#[test]
fn seasons_are_numbered_in_the_canonical_order() {
    let all = ESeason::get_seasons();
    assert_eq!(
        vec![ESeason::Summer, ESeason::Autumn, ESeason::Winter, ESeason::Spring, ESeason::Independent],
        all
    );
    for (i, season) in all.iter().enumerate() {
        assert_eq!(i + 1, ESeason::value(*season));
        assert_eq!(i + 1, season.value_rofl());
        assert_eq!(*season, ESeason::get_by_db_id((i + 1) as i32));
        assert_eq!(Some(season), ESeason::to_map().get(&(i + 1)));
    }
    assert_eq!(5, ESeason::to_map().len());
}

#[test]
fn seasons_have_two_names() {
    assert_eq!("Summer", ESeason::to_string(&ESeason::Summer));
    assert_eq!("Independent", ESeason::to_string(&ESeason::Independent));
    assert_eq!("autumn", ESeason::Autumn.name());
    assert_eq!("winter", ESeason::Winter.name());
    assert_eq!("spring", ESeason::Spring.name());
}

#[test]
fn seasons_are_found_by_name_whatever_the_case() {
    assert_eq!(Some(ESeason::Summer), ESeason::from_string("SUMMER"));
    assert_eq!(Some(ESeason::Spring), ESeason::from_string("Spring"));
    assert_eq!(Some(ESeason::Independent), ESeason::from_string("independent"));
    assert_eq!(None, ESeason::from_string("autumn"));
    assert_eq!(None, ESeason::from_string("winter"));
    assert_eq!(None, ESeason::from_string(""));
    assert_eq!(None, ESeason::from_lowercase("Summer"));
}

#[test]
fn headings_stand_for_seasons() {
    assert_eq!(ESeason::Summer, match_season("Summer"));
    assert_eq!(ESeason::Autumn, match_season("AUTUMN"));
    assert_eq!(ESeason::Winter, match_season("winter"));
    assert_eq!(ESeason::Spring, match_season("sPrInG"));
    assert_eq!(ESeason::Independent, match_season("All year"));
    assert_eq!(ESeason::Independent, season_from_lowercase("Winter"));
}

#[test]
fn filters_know_their_free_text_and_slots() {
    let mut f = SearchPrefill::default();
    assert_eq!("", f.template_name());
    assert!(!f.is_legacy());
    assert_eq!(Vec::<usize>::new(), f.season_slots());
    f.name = Some(" leek ".to_string());
    f.legacy = Some(1);
    f.season5 = Some(0);
    f.season2 = Some(7);
    assert_eq!(" leek ", f.template_name());
    assert!(f.is_legacy());
    assert_eq!(vec![2, 5], f.season_slots());
    f.legacy = Some(2);
    assert!(!f.is_legacy());
    let p = RecipePrefill { course: Some(1), book: None, season: Some(3) };
    assert_eq!(Some(3), p.season);
}

#[test]
fn rows_are_built_from_their_parts() {
    let course = InsertCourse::new(Some(2), "Mains".to_string());
    assert_eq!((Some(2), "Mains"), (course.course_id, course.course_name.as_str()));
    let book = InsertBook::new(None, "Veg".to_string());
    assert_eq!((None, "Veg"), (book.book_id, book.book_name.as_str()));
    let season = QSeason::new(Some(1), "Summer".to_string());
    assert_eq!((Some(1), "Summer"), (season.season_id, season.name.as_str()));
    let season = InsertSeason::new(Some(5), "Independent".to_string());
    assert_eq!((Some(5), "Independent"), (season.season_id, season.tag_name.as_str()));
    let link = InsertRecipeIngredient { recipe_id: -3, ingredient_id: 14 };
    assert_eq!("recipe: -3, tag 14", link.to_string());
    let file = FileWithCourse { filename: "Mains".to_string(), contents: "".to_string() };
    assert_eq!("Mains", file.filename);
    let recipe = FullRecipe {
        recipe_id: Some(1),
        primary_season: 2,
        course_id: 3,
        book_id: Some(4),
        recipe_name: Some("Jam".to_string()),
        recipe_url: None,
        created_at: Some(1.5f32.to_bits()),
        page: Some(9),
    };
    let copy = recipe.duplicate();
    assert_eq!(Some("Jam".to_string()), copy.recipe_name);
    assert_eq!(Some(1.5f32), copy.created_at.map(f32::from_bits));
    assert_eq!((Some(1), 2, 3, Some(4), None, Some(9)), (copy.recipe_id, copy.primary_season, copy.course_id, copy.book_id, copy.recipe_url, copy.page));
}
