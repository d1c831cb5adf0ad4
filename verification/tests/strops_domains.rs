use recipemanagement::strops::{extract_domain, strip_match, strip_matches};

#[test]
fn guardian() {
    let asdf = "https://www.theguardian.com/international".to_string();
    assert_eq!("theguardian.com", extract_domain(asdf));
    let fdsa = "https://www.theguardian.com/food/2022/aug/24/nigel-slater-midweek-dinner-recipe-baked-peaches-cinnamon-cream-sauce";
    assert_eq!("theguardian.com", extract_domain(fdsa.to_string()));
}

#[test]
fn nyt() {
    let url = "https://cooking.nytimes.com/recipes/1017018-shoofly-pie".to_string();
    assert_eq!("cooking.nytimes.com", extract_domain(url))
}

#[test]
fn a_text_without_scheme_or_path_stays() {
    assert_eq!("example.org", extract_domain("example.org".to_string()));
    assert_eq!("example.org", extract_domain("http://example.org".to_string()));
}

#[test]
fn matches_are_taken_out() {
    assert_eq!("bnana", strip_match("a", "banana".to_string()));
    assert_eq!("bnn", strip_matches("a", "banana".to_string()));
    assert_eq!("banana", strip_matches("x+", "banana".to_string()));
    assert_eq!("banana", strip_match("(", "banana".to_string()));
    assert_eq!("banana", strip_matches("(", "banana".to_string()));
    assert_eq!("Jam", strip_matches("/\\d+$/", "Jam".to_string()));
}
