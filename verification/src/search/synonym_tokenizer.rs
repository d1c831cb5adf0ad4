//! Synonyms: the table from an alternate term to its canonical term, and the
//! stage of the analysis chain that substitutes them.

use crate::text::texts;
use vstd::prelude::*;
use vstd::string::StringExecFns;

verus! {

/// The views of a sequence of pairs of strings.
pub open spec fn pair_texts(v: Seq<(String, String)>) -> Seq<(Seq<char>, Seq<char>)> {
    Seq::new(v.len(), |i: int| (v[i].0@, v[i].1@))
}

/// The synonym table: each pair holds an alternate term, then the canonical
/// term that stands for it.
pub open spec fn default_synonyms() -> Seq<(Seq<char>, Seq<char>)> {
    seq![
        ("joghurt"@, "yoghurt"@),
        ("yogurt"@, "yoghurt"@),
        ("zucchini"@, "courgette"@),
        ("filo"@, "phyllo"@),
        ("swede"@, "rutabagaba"@),
        ("chilli"@, "chili"@),
        ("steinpilz"@, "porcini"@),
        ("cep"@, "porcini"@),
        ("houmus"@, "hummus"@),
        ("eggplant"@, "aubergine"@),
        ("za'atar"@, "zaatar"@),
        ("zatar"@, "zaatar"@),
        ("soya"@, "soy"@),
        ("cornflour"@, "cornstarch"@),
        ("ladyfingers"@, "savoiardi"@),
        ("verjus"@, "verjuice"@),
        ("pumpkin"@, "squash"@),
        ("kaffir"@, "makrut"@),
        ("gherkin"@, "cornichon"@),
    ]
}

/// The term that stands for `token`: the canonical term of the first pair of
/// `table` whose alternate term is `token`, and `token` itself where there is
/// no such pair.
pub open spec fn substituted(table: Seq<(Seq<char>, Seq<char>)>, token: Seq<char>) -> Seq<char>
    decreases table.len(),
{
    if table.len() == 0 {
        token
    } else if table[0].0 == token {
        table[0].1
    } else {
        substituted(table.drop_first(), token)
    }
}

/// The substitution of `table` as a function on tokens.
pub open spec fn substitution(table: Seq<(Seq<char>, Seq<char>)>) -> spec_fn(Seq<char>) -> Seq<
    char,
> {
    |t: Seq<char>| substituted(table, t)
}

/// A token that is no alternate term of the table stays as it is.
pub proof fn lemma_substituted_miss(table: Seq<(Seq<char>, Seq<char>)>, token: Seq<char>)
    requires
        forall|i: int| 0 <= i < table.len() ==> (#[trigger] table[i]).0 != token,
    ensures
        substituted(table, token) == token,
    decreases table.len(),
{
    if table.len() > 0 {
        let rest = table.drop_first();
        assert forall|i: int| 0 <= i < rest.len() implies (#[trigger] rest[i]).0 != token by {
            assert(rest[i] == table[i + 1]);
        }
        lemma_substituted_miss(rest, token);
    }
}

/// A token that is the alternate term of the pair at `k`, and of no pair before
/// it, is replaced by the canonical term of that pair.
pub proof fn lemma_substituted_hit(table: Seq<(Seq<char>, Seq<char>)>, token: Seq<char>, k: int)
    requires
        0 <= k < table.len(),
        table[k].0 == token,
        forall|i: int| 0 <= i < k ==> (#[trigger] table[i]).0 != token,
    ensures
        substituted(table, token) == table[k].1,
    decreases k,
{
    if k > 0 {
        let rest = table.drop_first();
        assert(rest[k - 1] == table[k]);
        assert forall|i: int| 0 <= i < k - 1 implies (#[trigger] rest[i]).0 != token by {
            assert(rest[i] == table[i + 1]);
        }
        assert(table[0].0 != token);
        lemma_substituted_hit(rest, token, k - 1);
    }
}

/// One pair of the table.
fn pair(alternate: &str, canonical: &str) -> (p: (String, String))
    ensures
        p.0@ == alternate@,
        p.1@ == canonical@,
{
    (String::from_str(alternate), String::from_str(canonical))
}

/// The synonym table.
pub fn get_default_args() -> (table: Vec<(String, String)>)
    ensures
        pair_texts(table@) == default_synonyms(),
{
    let mut table: Vec<(String, String)> = Vec::new();
    table.push(pair("joghurt", "yoghurt"));
    table.push(pair("yogurt", "yoghurt"));
    table.push(pair("zucchini", "courgette"));
    table.push(pair("filo", "phyllo"));
    table.push(pair("swede", "rutabagaba"));
    table.push(pair("chilli", "chili"));
    table.push(pair("steinpilz", "porcini"));
    table.push(pair("cep", "porcini"));
    table.push(pair("houmus", "hummus"));
    table.push(pair("eggplant", "aubergine"));
    table.push(pair("za'atar", "zaatar"));
    table.push(pair("zatar", "zaatar"));
    table.push(pair("soya", "soy"));
    table.push(pair("cornflour", "cornstarch"));
    table.push(pair("ladyfingers", "savoiardi"));
    table.push(pair("verjus", "verjuice"));
    table.push(pair("pumpkin", "squash"));
    table.push(pair("kaffir", "makrut"));
    table.push(pair("gherkin", "cornichon"));
    assert(pair_texts(table@) =~= default_synonyms());
    table
}

/// The stage of the analysis chain that replaces an alternate term by its
/// canonical term. It compares the text of a token as it reaches the stage.
pub struct SynonymFilter {
    pub table: Vec<(String, String)>,
}

impl SynonymFilter {
    /// The table of this stage.
    pub open spec fn pairs(self) -> Seq<(Seq<char>, Seq<char>)> {
        pair_texts(self.table@)
    }

    /// The stage with the synonym table of the catalogue.
    pub fn new() -> (filter: SynonymFilter)
        ensures
            filter.pairs() == default_synonyms(),
    {
        SynonymFilter { table: get_default_args() }
    }

    /// The term that stands for `token`.
    pub fn synonym(&self, token: &String) -> (term: String)
        ensures
            term@ == substituted(self.pairs(), token@),
    {
        let mut i: usize = 0;
        assert(self.pairs().skip(0) == self.pairs());
        while i < self.table.len()
            invariant
                i <= self.table.len(),
                substituted(self.pairs(), token@) == substituted(
                    self.pairs().skip(i as int),
                    token@,
                ),
            decreases self.table.len() - i,
        {
            assert(self.pairs().skip(i as int).drop_first() == self.pairs().skip(i + 1));
            assert(self.pairs().skip(i as int)[0] == self.pairs()[i as int]);
            if self.table[i].0 == *token {
                return self.table[i].1.clone();
            }
            i += 1;
        }
        token.clone()
    }

    /// Replaces every token by the term that stands for it; the number and the
    /// order of the tokens stay.
    pub fn transform(&self, tokens: Vec<String>) -> (out: Vec<String>)
        ensures
            texts(out@) == texts(tokens@).map_values(substitution(self.pairs())),
    {
        let mut out: Vec<String> = Vec::new();
        let mut i: usize = 0;
        while i < tokens.len()
            invariant
                i <= tokens.len(),
                out@.len() == i,
                forall|k: int|
                    0 <= k < i ==> (#[trigger] out@[k])@ == substituted(
                        self.pairs(),
                        tokens@[k]@,
                    ),
            decreases tokens.len() - i,
        {
            let term = self.synonym(&tokens[i]);
            out.push(term);
            i += 1;
        }
        assert(texts(out@) =~= texts(tokens@).map_values(substitution(self.pairs())));
        out
    }
}

} // verus!
