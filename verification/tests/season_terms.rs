use recipemanagement::args::SearchPrefill;
use recipemanagement::parsetypes::ESeason;
use recipemanagement::text_search::build_season_term;

#[test]
fn test_season_empty() {
    let options: SearchPrefill = SearchPrefill {
        name: None,
        season: None,
        course: None,
        book: None,
        tried: 0,
        season1: None,
        season2: None,
        season3: None,
        season4: None,
        season5: None,
        legacy: None,
    };
    let season_names = ESeason::to_map();
    let res = build_season_term(options, season_names);
    assert_eq!(None, res);
}

#[test]
fn test_all_seasons() {
    let _seasons = ESeason::get_seasons();
    let options: SearchPrefill = SearchPrefill {
        name: None,
        season: None,
        course: None,
        book: None,
        tried: 0,
        season1: Some(1),
        season2: Some(1),
        season3: Some(1),
        season4: Some(1),
        season5: Some(1),
        legacy: None,
    };
    let season_names = ESeason::to_map();
    let res = build_season_term(options, season_names);
    assert!(res.is_some());
    assert_eq!(
        "+season: IN [/season/summer /season/autumn /season/winter /season/spring /season/independent]"
            .to_string()
            .into_bytes(),
        res.unwrap().into_bytes()
    );
}

#[test]
fn test_some_seasons() {
    let _seasons = ESeason::get_seasons();
    let options: SearchPrefill = SearchPrefill {
        name: None,
        season: None,
        course: None,
        book: None,
        tried: 0,
        season1: Some(1),
        season2: None,
        season3: Some(1),
        season4: Some(1),
        season5: None,
        legacy: None,
    };
    let season_names = ESeason::to_map();
    let res = build_season_term(options, season_names);
    assert!(res.is_some());
    assert_eq!(
        "+season: IN [/season/summer /season/winter /season/spring]".to_string().into_bytes(),
        res.unwrap().into_bytes()
    );
}
