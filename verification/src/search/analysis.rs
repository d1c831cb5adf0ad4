//! The text analysis chain. Index documents and free-text query terms go
//! through the same chain, stage by stage:
//! tokenise, fold the case, drop stop words, fold to ASCII, stem, substitute
//! synonyms.

use crate::search::stop_words::{kept, StopFilter};
use crate::search::synonym_tokenizer::{substitution, SynonymFilter};
use crate::text::texts;
use tantivy::tokenizer::{
    AsciiFoldingFilter, Language, LowerCaser, RawTokenizer, SimpleTokenizer, Stemmer,
    TextAnalyzer, TokenStream,
};
use vstd::prelude::*;

verus! {

/// The tokens that tantivy's `SimpleTokenizer` cuts a text into: its maximal
/// runs of alphanumeric characters, in their order.
pub uninterp spec fn simple_tokens(text: Seq<char>) -> Seq<Seq<char>>;

/// What tantivy's `LowerCaser` makes of a token: its lowercase form.
pub uninterp spec fn lower_cased(token: Seq<char>) -> Seq<char>;

/// What tantivy's `AsciiFoldingFilter` makes of a token: each accented letter
/// replaced by its ASCII base.
pub uninterp spec fn ascii_folded(token: Seq<char>) -> Seq<char>;

/// What tantivy's `Stemmer` for English makes of a lowercase token: its stem.
pub uninterp spec fn english_stem(token: Seq<char>) -> Seq<char>;

/// Runs tantivy's `SimpleTokenizer` on `text` and hands out the texts of the
/// tokens in their order. The tokens depend on the text alone.
#[verifier::external_body]
pub(crate) fn tokenize(text: &str) -> (tokens: Vec<String>)
    ensures
        texts(tokens@) == simple_tokens(text@),
{
    let mut analyzer = TextAnalyzer::from(SimpleTokenizer::default());
    let mut stream = analyzer.token_stream(text);
    let mut tokens = Vec::new();
    while stream.advance() {
        tokens.push(stream.token().text.clone());
    }
    tokens
}

/// Runs tantivy's `LowerCaser` on the single token `token`. The filter turns one
/// token into one token, which depends on the token's text alone.
#[verifier::external_body]
pub(crate) fn lowercase(token: &str) -> (out: String)
    ensures
        out@ == lower_cased(token@),
{
    let mut analyzer = TextAnalyzer::builder(RawTokenizer::default()).filter(LowerCaser).build();
    let mut stream = analyzer.token_stream(token);
    match stream.next() {
        Some(t) => t.text.clone(),
        None => String::new(),
    }
}

/// Runs tantivy's `AsciiFoldingFilter` on the single token `token`. The filter
/// turns one token into one token, which depends on the token's text alone.
#[verifier::external_body]
pub(crate) fn fold(token: &str) -> (out: String)
    ensures
        out@ == ascii_folded(token@),
{
    let mut analyzer = TextAnalyzer::builder(RawTokenizer::default()).filter(
        AsciiFoldingFilter,
    ).build();
    let mut stream = analyzer.token_stream(token);
    match stream.next() {
        Some(t) => t.text.clone(),
        None => String::new(),
    }
}

/// Runs tantivy's `Stemmer` for English on the single token `token`. The filter
/// turns one token into one token, which depends on the token's text alone.
#[verifier::external_body]
pub(crate) fn stem(token: &str) -> (out: String)
    ensures
        out@ == english_stem(token@),
{
    let mut analyzer = TextAnalyzer::builder(RawTokenizer::default()).filter(
        Stemmer::new(Language::English),
    ).build();
    let mut stream = analyzer.token_stream(token);
    match stream.next() {
        Some(t) => t.text.clone(),
        None => String::new(),
    }
}

/// The case-folding stage as a function on tokens.
pub open spec fn lowering() -> spec_fn(Seq<char>) -> Seq<char> {
    |t: Seq<char>| lower_cased(t)
}

/// The two stages between stop words and synonyms as one function on tokens:
/// fold to ASCII, then stem.
pub open spec fn normalising() -> spec_fn(Seq<char>) -> Seq<char> {
    |t: Seq<char>| english_stem(ascii_folded(t))
}

/// The terms that the chain makes of `text`, given its stop words and its
/// synonym table: each stage works on what the stage before it hands on.
pub open spec fn analysed(
    stops: Seq<Seq<char>>,
    synonyms: Seq<(Seq<char>, Seq<char>)>,
    text: Seq<char>,
) -> Seq<Seq<char>> {
    simple_tokens(text).map_values(lowering()).filter(kept(stops)).map_values(
        normalising(),
    ).map_values(substitution(synonyms))
}

/// The case-folding stage: every token in lowercase, number and order kept.
pub fn lowercase_all(tokens: Vec<String>) -> (out: Vec<String>)
    ensures
        texts(out@) == texts(tokens@).map_values(lowering()),
{
    let mut out: Vec<String> = Vec::new();
    let mut i: usize = 0;
    while i < tokens.len()
        invariant
            i <= tokens.len(),
            out@.len() == i,
            forall|k: int| 0 <= k < i ==> (#[trigger] out@[k])@ == lower_cased(tokens@[k]@),
        decreases tokens.len() - i,
    {
        let lowered = lowercase(tokens[i].as_str());
        out.push(lowered);
        i += 1;
    }
    assert(texts(out@) =~= texts(tokens@).map_values(lowering()));
    out
}

/// The stages that fold to ASCII and stem: every token folded, then stemmed,
/// number and order kept.
pub fn normalise_all(tokens: Vec<String>) -> (out: Vec<String>)
    ensures
        texts(out@) == texts(tokens@).map_values(normalising()),
{
    let mut out: Vec<String> = Vec::new();
    let mut i: usize = 0;
    while i < tokens.len()
        invariant
            i <= tokens.len(),
            out@.len() == i,
            forall|k: int|
                0 <= k < i ==> (#[trigger] out@[k])@ == english_stem(ascii_folded(tokens@[k]@)),
        decreases tokens.len() - i,
    {
        let folded = fold(tokens[i].as_str());
        let stemmed = stem(folded.as_str());
        out.push(stemmed);
        i += 1;
    }
    assert(texts(out@) =~= texts(tokens@).map_values(normalising()));
    out
}

/// The analysis chain with its two tables.
pub struct Analyzer {
    pub stop_filter: StopFilter,
    pub synonym_filter: SynonymFilter,
}

impl Analyzer {
    /// The terms that this chain makes of `text`.
    pub open spec fn terms(self, text: Seq<char>) -> Seq<Seq<char>> {
        analysed(self.stop_filter.stops(), self.synonym_filter.pairs(), text)
    }

    /// This chain holds the tables of the catalogue: its stop lists and its
    /// synonym table. Every text of the index goes through the chain with these
    /// tables, so a free-text query has to go through it too.
    pub open spec fn holds_catalogue_tables(self) -> bool {
        &&& self.stop_filter.stops() == crate::search::stop_words::default_stop_words()
        &&& self.synonym_filter.pairs() == crate::search::synonym_tokenizer::default_synonyms()
    }

    /// The chain with the stop lists and the synonym table of the catalogue.
    pub fn new() -> (analyzer: Analyzer)
        ensures
            analyzer.holds_catalogue_tables(),
    {
        Analyzer { stop_filter: StopFilter::new(), synonym_filter: SynonymFilter::new() }
    }

    /// Takes the tokens that the tokeniser cut through the stages behind it.
    pub fn run_stages(&self, tokens: Vec<String>) -> (out: Vec<String>)
        ensures
            texts(out@) == texts(tokens@).map_values(lowering()).filter(
                kept(self.stop_filter.stops()),
            ).map_values(normalising()).map_values(substitution(self.synonym_filter.pairs())),
    {
        let lowered = lowercase_all(tokens);
        let content = self.stop_filter.transform(lowered);
        let normal = normalise_all(content);
        self.synonym_filter.transform(normal)
    }

    /// The terms of `text`: what the index stores for a text field and what a
    /// free-text query is made of.
    pub fn analyze(&self, text: &str) -> (out: Vec<String>)
        ensures
            texts(out@) == self.terms(text@),
    {
        let tokens = tokenize(text);
        self.run_stages(tokens)
    }
}

} // verus!
