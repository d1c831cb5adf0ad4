use recipemanagement::search::analysis::Analyzer;
use recipemanagement::search::stop_words::{combined_list, StopFilter};
use recipemanagement::search::synonym_tokenizer::SynonymFilter;

fn strings(words: &[&str]) -> Vec<String> {
    words.iter().map(|w| w.to_string()).collect()
}

#[test]
fn chain_tokenises_folds_stems() {
    let analyzer = Analyzer::new();
    assert_eq!(strings(&["potato", "soup"]), analyzer.analyze("Potatoes, Soups!"));
    assert_eq!(strings(&["creme", "brule"]), analyzer.analyze("Crème Brûlée"));
}

#[test]
fn chain_drops_stop_words_of_both_lists_whatever_their_case() {
    let analyzer = Analyzer::new();
    assert_eq!(strings(&["leek"]), analyzer.analyze("The leek AND und Der"));
    assert_eq!(Vec::<String>::new(), analyzer.analyze("the and für"));
}

#[test]
fn chain_substitutes_synonyms_after_stemming() {
    let analyzer = Analyzer::new();
    assert_eq!(strings(&["courgette"]), analyzer.analyze("Zucchini"));
    assert_eq!(strings(&["yoghurt"]), analyzer.analyze("yogurt"));
    assert_eq!(strings(&["squash"]), analyzer.analyze("pumpkin"));
}

#[test]
fn stop_filter_drops_entries_and_keeps_the_rest() {
    let filter = StopFilter::new();
    assert!(filter.is_stop_word(&"the".to_string()));
    assert!(filter.is_stop_word(&"zwischen".to_string()));
    assert!(filter.is_stop_word(&"The".to_string()));
    assert!(filter.is_stop_word(&"UND".to_string()));
    assert!(filter.is_stop_word(&"Über".to_string()));
    assert!(!filter.is_stop_word(&"leek".to_string()));
    assert!(!filter.is_stop_word(&"Leek".to_string()));
    assert_eq!(
        strings(&["leek", "Soup"]),
        filter.transform(strings(&["the", "leek", "The", "UND", "Soup", "of"]))
    );
    assert_eq!(strings(&["leek"]), filter.transform(strings(&["The", "leek"])));
}

#[test]
fn stop_list_is_the_words_of_both_lists() {
    assert_eq!(strings(&["a", "b", "c", "d"]), combined_list("a\nb\n", "c\n\nd"));
    let list = recipemanagement::search::stop_words::get_default_args();
    assert_eq!("i", list[0]);
    assert_eq!("zwischen", list[list.len() - 1]);
}

#[test]
fn synonym_filter_replaces_keys_and_keeps_the_rest() {
    let filter = SynonymFilter::new();
    assert_eq!("aubergine", filter.synonym(&"eggplant".to_string()));
    assert_eq!("zaatar", filter.synonym(&"za'atar".to_string()));
    assert_eq!("rutabagaba", filter.synonym(&"swede".to_string()));
    assert_eq!("leek", filter.synonym(&"leek".to_string()));
    assert_eq!(
        strings(&["porcini", "leek", "porcini"]),
        filter.transform(strings(&["cep", "leek", "steinpilz"]))
    );
    assert_eq!(19, recipemanagement::search::synonym_tokenizer::get_default_args().len());
}
