//! Stop words: the English and the German list, and the stage of the analysis
//! chain that drops them.

use crate::search::analysis::{lower_cased, lowercase};
use crate::text::{lemma_texts_push, split_words, texts, words};
use vstd::prelude::*;

verus! {

/// The English stop words, one to a line.
pub const ENGLISH_STOP_WORDS: &'static str =
    "i\nme\nmy\nmyself\nwe\nour\nours\nourselves\nyou\nyour\nyours\nyourself\nyourselves\nhe\nhim\nhis\nhimself\nshe\nher\nhers\nherself\nit\nits\nitself\nthey\nthem\ntheir\ntheirs\nthemselves\nwhat\nwhich\nwho\nwhom\nthis\nthat\nthese\nthose\nam\nis\nare\nwas\nwere\nbe\nbeen\nbeing\nhave\nhas\nhad\nhaving\ndo\ndoes\ndid\ndoing\na\nan\nthe\nand\nbut\nif\nor\nbecause\nas\nuntil\nwhile\nof\nat\nby\nfor\nwith\nabout\nagainst\nbetween\ninto\nthrough\nduring\nbefore\nafter\nabove\nbelow\nto\nfrom\nup\ndown\nin\nout\non\noff\nover\nunder\nagain\nfurther\nthen\nonce\nhere\nthere\nwhen\nwhere\nwhy\nhow\nall\nany\nboth\neach\nfew\nmore\nmost\nother\nsome\nsuch\nno\nnor\nnot\nonly\nown\nsame\nso\nthan\ntoo\nvery\ns\nt\ncan\nwill\njust\ndon\nshould\nnow\n";

/// The German stop words, one to a line.
pub const GERMAN_STOP_WORDS: &'static str =
    "aber\nalle\nallem\nallen\naller\nalles\nals\nalso\nam\nan\nander\nandere\nanderem\nanderen\nanderer\nanderes\nanderm\nandern\nanderr\nanders\nauch\nauf\naus\nbei\nbin\nbis\nbist\nda\ndamit\ndann\nder\nden\ndes\ndem\ndie\ndas\ndaß\ndass\nderselbe\nderselben\ndenselben\ndesselben\ndemselben\ndieselbe\ndieselben\ndasselbe\ndazu\ndein\ndeine\ndeinem\ndeinen\ndeiner\ndeines\ndenn\nderer\ndessen\ndich\ndir\ndu\ndies\ndiese\ndiesem\ndiesen\ndieser\ndieses\ndoch\ndort\ndurch\nein\neine\neinem\neinen\neiner\neines\neinig\neinige\neinigem\neinigen\neiniger\neiniges\neinmal\ner\nihn\nihm\nes\netwas\neuer\neure\neurem\neuren\neurer\neures\nfür\ngegen\ngewesen\nhab\nhabe\nhaben\nhat\nhatte\nhatten\nhier\nhin\nhinter\nich\nmich\nmir\nihr\nihre\nihrem\nihren\nihrer\nihres\neuch\nim\nin\nindem\nins\nist\njede\njedem\njeden\njeder\njedes\njene\njenem\njenen\njener\njenes\njetzt\nkann\nkein\nkeine\nkeinem\nkeinen\nkeiner\nkeines\nkönnen\nkönnte\nmachen\nman\nmanche\nmanchem\nmanchen\nmancher\nmanches\nmein\nmeine\nmeinem\nmeinen\nmeiner\nmeines\nmit\nmuss\nmusste\nnach\nnicht\nnichts\nnoch\nnun\nnur\nob\noder\nohne\nsehr\nsein\nseine\nseinem\nseinen\nseiner\nseines\nselbst\nsich\nsie\nihnen\nsind\nso\nsolche\nsolchem\nsolchen\nsolcher\nsolches\nsoll\nsollte\nsondern\nsonst\nüber\num\nund\nuns\nunse\nunsem\nunsen\nunser\nunses\nunter\nviel\nvom\nvon\nvor\nwährend\nwar\nwaren\nwarst\nwas\nweg\nweil\nweiter\nwelche\nwelchem\nwelchen\nwelcher\nwelches\nwenn\nwerde\nwerden\nwie\nwieder\nwill\nwir\nwird\nwirst\nwo\nwollen\nwollte\nwürde\nwürden\nzu\nzum\nzur\nzwar\nzwischen\n";

/// The entries of the English list followed by those of the German list.
pub open spec fn default_stop_words() -> Seq<Seq<char>> {
    words(ENGLISH_STOP_WORDS@) + words(GERMAN_STOP_WORDS@)
}

/// Whether a token is a stop word: its text in lowercase is an entry of
/// `stops`. So `The` is a stop word where `the` is an entry.
pub open spec fn is_stop(stops: Seq<Seq<char>>, token: Seq<char>) -> bool {
    stops.contains(lower_cased(token))
}

/// The test that the stop-word stage applies to a token: it keeps a token
/// exactly if the token is no stop word.
pub open spec fn kept(stops: Seq<Seq<char>>) -> spec_fn(Seq<char>) -> bool {
    |t: Seq<char>| !is_stop(stops, t)
}

/// What the stop-word stage does to a stream of tokens: every token that is a
/// stop word, whatever its case, is gone from the stream, and every other token
/// is still in it as it was.
pub proof fn lemma_stop_stage(tokens: Seq<Seq<char>>, stops: Seq<Seq<char>>, token: Seq<char>)
    ensures
        is_stop(stops, token) ==> !tokens.filter(kept(stops)).contains(token),
        !is_stop(stops, token) ==> (tokens.filter(kept(stops)).contains(token)
            <==> tokens.contains(token)),
        tokens.filter(kept(stops)).len() <= tokens.len(),
{
    broadcast use vstd::seq_lib::group_filter_ensures;

    let out = tokens.filter(kept(stops));
    if out.contains(token) {
        let i = choose|i: int| 0 <= i < out.len() && out[i] == token;
        assert(kept(stops)(out[i]));
        tokens.lemma_filter_contains_rev(kept(stops), token);
    }
    if tokens.contains(token) && !is_stop(stops, token) {
        let i = choose|i: int| 0 <= i < tokens.len() && tokens[i] == token;
        assert(kept(stops)(tokens[i]));
        assert(out.contains(tokens[i]));
    }
}

/// The entries of the two lists `english` and `german`, one after the other.
/// An entry is a word of the list's text.
pub fn combined_list(english: &str, german: &str) -> (list: Vec<String>)
    ensures
        texts(list@) == words(english@) + words(german@),
{
    let mut list = split_words(english);
    let mut second = split_words(german);
    let ghost first_texts = texts(list@);
    let ghost second_texts = texts(second@);
    let mut i: usize = 0;
    while i < second.len()
        invariant
            i <= second.len(),
            texts(second@) == second_texts,
            texts(list@) == first_texts + second_texts.take(i as int),
        decreases second.len() - i,
    {
        let word = second[i].clone();
        proof {
            lemma_texts_push(list@, word);
            assert(second_texts[i as int] == second@[i as int]@);
            assert(second_texts.take(i + 1) == second_texts.take(i as int).push(word@));
            assert((first_texts + second_texts.take(i as int)).push(word@) == first_texts
                + second_texts.take(i + 1));
        }
        list.push(word);
        i += 1;
    }
    assert(second_texts.take(second.len() as int) == second_texts);
    list
}

/// The combined stop list: the English entries, then the German ones.
pub fn get_default_args() -> (list: Vec<String>)
    ensures
        texts(list@) == default_stop_words(),
{
    combined_list(ENGLISH_STOP_WORDS, GERMAN_STOP_WORDS)
}

/// The stage of the analysis chain that drops stop words. It tests the text of
/// a token in lowercase, and passes a token that it keeps on as it came.
pub struct StopFilter {
    pub words: Vec<String>,
}

impl StopFilter {
    /// The stop words of this stage.
    pub open spec fn stops(self) -> Seq<Seq<char>> {
        texts(self.words@)
    }

    /// The stage with the combined English and German list.
    pub fn new() -> (filter: StopFilter)
        ensures
            filter.stops() == default_stop_words(),
    {
        StopFilter { words: get_default_args() }
    }

    /// Whether `token` is a stop word: whether its text in lowercase is an entry
    /// of the list.
    pub fn is_stop_word(&self, token: &String) -> (found: bool)
        ensures
            found == is_stop(self.stops(), token@),
    {
        let lower = lowercase(token.as_str());
        let mut i: usize = 0;
        while i < self.words.len()
            invariant
                i <= self.words.len(),
                lower@ == lower_cased(token@),
                forall|k: int| 0 <= k < i ==> self.stops()[k] != lower@,
            decreases self.words.len() - i,
        {
            if self.words[i] == lower {
                assert(self.stops()[i as int] == lower@);
                return true;
            }
            i += 1;
        }
        false
    }

    /// Drops every token that is a stop word, whatever its case, and passes the
    /// others on unchanged, in their order.
    pub fn transform(&self, tokens: Vec<String>) -> (out: Vec<String>)
        ensures
            texts(out@) == texts(tokens@).filter(kept(self.stops())),
    {
        let mut out: Vec<String> = Vec::new();
        let mut i: usize = 0;
        let ghost all = texts(tokens@);
        proof {
            reveal(Seq::filter);
            assert(all.take(0) =~= Seq::<Seq<char>>::empty());
            assert(texts(out@) =~= all.take(0).filter(kept(self.stops())));
        }
        while i < tokens.len()
            invariant
                i <= tokens.len(),
                all == texts(tokens@),
                texts(out@) == all.take(i as int).filter(kept(self.stops())),
            decreases tokens.len() - i,
        {
            let stop = self.is_stop_word(&tokens[i]);
            proof {
                reveal(Seq::filter);
                assert(all.take(i + 1).drop_last() == all.take(i as int));
                assert(all.take(i + 1).last() == tokens@[i as int]@);
            }
            if !stop {
                let token = tokens[i].clone();
                proof {
                    lemma_texts_push(out@, token);
                }
                out.push(token);
            }
            i += 1;
        }
        assert(all.take(tokens.len() as int) == all);
        out
    }
}

} // verus!
