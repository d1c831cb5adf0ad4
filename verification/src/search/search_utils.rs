//! The index query as a list of tagged clauses, all of which a recipe must
//! meet, and its text in the query language of the index.

use crate::args::SearchPrefill;
use crate::parsetypes::{season_name, ESeason};
use crate::text::{chars_of, join, joined, lemma_texts_push, split_words, texts, words};
use crate::text_search::{SCHEMA_BOOK, SCHEMA_COURSE, SCHEMA_SEASON};
use std::collections::HashMap;
use vstd::prelude::*;
use vstd::string::StringExecFns;

verus! {

broadcast use vstd::std_specs::hash::group_hash_axioms;

/// One mandatory clause of an index query.
pub enum Clause {
    /// A term that must occur in one of the analysed text fields.
    Term(String),
    /// A facet field that must hold the path.
    FacetEq { field: String, path: String },
    /// A facet field that must hold one of the paths.
    FacetAny { field: String, paths: Vec<String> },
}

/// What a clause says, over plain sequences.
pub enum ClauseView {
    Term(Seq<char>),
    FacetEq { field: Seq<char>, path: Seq<char> },
    FacetAny { field: Seq<char>, paths: Seq<Seq<char>> },
}

impl View for Clause {
    type V = ClauseView;

    open spec fn view(&self) -> ClauseView {
        match *self {
            Clause::Term(t) => ClauseView::Term(t@),
            Clause::FacetEq { field, path } => ClauseView::FacetEq { field: field@, path: path@ },
            Clause::FacetAny { field, paths } => ClauseView::FacetAny {
                field: field@,
                paths: texts(paths@),
            },
        }
    }
}

/// The views of a sequence of clauses.
pub open spec fn clause_views(v: Seq<Clause>) -> Seq<ClauseView> {
    Seq::new(v.len(), |i: int| v[i]@)
}

/// `clause_views` follows `push`.
pub proof fn lemma_clause_views_push(v: Seq<Clause>, c: Clause)
    ensures
        clause_views(v.push(c)) == clause_views(v).push(c@),
{
    assert(clause_views(v.push(c)) =~= clause_views(v).push(c@));
}

/// An index query: the conjunction of its clauses.
pub struct IndexQuery {
    pub clauses: Vec<Clause>,
}

impl View for IndexQuery {
    type V = Seq<ClauseView>;

    open spec fn view(&self) -> Seq<ClauseView> {
        clause_views(self.clauses@)
    }
}

/// The facet path of `name` under `kind`: `/kind/name`.
pub open spec fn facet_path(kind: Seq<char>, name: Seq<char>) -> Seq<char> {
    "/"@ + kind + "/"@ + name
}

/// One clause for each term, in the order of the terms.
pub open spec fn term_clauses(terms: Seq<Seq<char>>) -> Seq<ClauseView> {
    terms.map_values(|w: Seq<char>| ClauseView::Term(w))
}

/// The clause on the facet `kind` for the id `id`: the path of the name that
/// the id resolves to; no clause where the filter has no id or the id does not
/// resolve.
pub open spec fn named_clause(
    kind: Seq<char>,
    id: Option<i32>,
    names: Map<i32, String>,
) -> Seq<ClauseView> {
    match id {
        Some(i) if names.contains_key(i) => seq![
            ClauseView::FacetEq { field: kind, path: facet_path(kind, names[i]@) },
        ],
        _ => seq![],
    }
}

/// The facet paths of the seasons that the slots `slots` select, in the order
/// of the slots; a slot that `names` does not resolve adds no path.
pub open spec fn season_paths(slots: Seq<int>, names: Map<usize, ESeason>) -> Seq<Seq<char>>
    decreases slots.len(),
{
    if slots.len() == 0 {
        seq![]
    } else {
        let n = slots.last() as usize;
        season_paths(slots.drop_last(), names) + (if names.contains_key(n) {
            seq![facet_path(SCHEMA_SEASON@, season_name(names[n]))]
        } else {
            seq![]
        })
    }
}

/// The clause on the season: one of the paths of the selected seasons; no
/// clause where none is selected.
pub open spec fn season_clause(p: SearchPrefill, names: Map<usize, ESeason>) -> Seq<ClauseView> {
    let paths = season_paths(p.selected_slots(), names);
    if paths.len() == 0 {
        seq![]
    } else {
        seq![ClauseView::FacetAny { field: SCHEMA_SEASON@, paths }]
    }
}

/// The index query for the terms `terms` and the structured part of a filter:
/// the terms, then the book, the seasons and the course.
pub open spec fn query_tree_of(
    terms: Seq<Seq<char>>,
    p: SearchPrefill,
    books: Map<i32, String>,
    seasons: Map<usize, ESeason>,
    courses: Map<i32, String>,
) -> Seq<ClauseView> {
    term_clauses(terms) + named_clause(SCHEMA_BOOK@, p.book, books) + season_clause(p, seasons)
        + named_clause(SCHEMA_COURSE@, p.course, courses)
}

/// The index query of a filter whose free text is taken as it stands: its
/// words are the terms.
pub open spec fn query_tree(
    p: SearchPrefill,
    books: Map<i32, String>,
    seasons: Map<usize, ESeason>,
    courses: Map<i32, String>,
) -> Seq<ClauseView> {
    query_tree_of(words(p.name_text()), p, books, seasons, courses)
}

/// What stands for one character inside a quoted value: a backslash before a
/// quote and before a backslash.
pub open spec fn quoted_char(c: char) -> Seq<char> {
    if c == '"' || c == '\\' {
        seq!['\\', c]
    } else {
        seq![c]
    }
}

/// `s` with each character as it stands inside a quoted value.
pub open spec fn quoted_body(s: Seq<char>) -> Seq<char>
    decreases s.len(),
{
    if s.len() == 0 {
        seq![]
    } else {
        quoted_body(s.drop_last()) + quoted_char(s.last())
    }
}

/// `s` as a quoted value of the query language.
pub open spec fn quoted(s: Seq<char>) -> Seq<char> {
    seq!['"'] + quoted_body(s) + seq!['"']
}

/// A character that the query language may take for more than itself: white
/// space, and the signs of its operators, quotes, brackets and escapes.
pub open spec fn is_special(c: char) -> bool {
    ||| crate::text::is_space(c)
    ||| c == '+'
    ||| c == '^'
    ||| c == '`'
    ||| c == ':'
    ||| c == '{'
    ||| c == '}'
    ||| c == '"'
    ||| c == '\''
    ||| c == '['
    ||| c == ']'
    ||| c == '('
    ||| c == ')'
    ||| c == '!'
    ||| c == '\\'
    ||| c == '*'
    ||| c == '~'
}

/// A value that can stand in a query as it is: it is not empty and holds no
/// special character.
pub open spec fn is_plain(s: Seq<char>) -> bool {
    s.len() > 0 && forall|i: int| 0 <= i < s.len() ==> !is_special(#[trigger] s[i])
}

/// A value as it stands in a query: bare where it is plain, quoted otherwise.
pub open spec fn value_text(s: Seq<char>) -> Seq<char> {
    if is_plain(s) {
        s
    } else {
        quoted(s)
    }
}

/// The text of a clause: `+term`, `+field:path` (the path quoted where it is not
/// plain), `+field: IN [path path]`.
pub open spec fn clause_text(c: ClauseView) -> Seq<char> {
    match c {
        ClauseView::Term(t) => "+"@ + t,
        ClauseView::FacetEq { field, path } => "+"@ + field + ":"@ + value_text(path),
        ClauseView::FacetAny { field, paths } => "+"@ + field + ": IN ["@ + joined(paths, " "@)
            + "]"@,
    }
}

/// The text of a query: the texts of its clauses with one space between them.
pub open spec fn query_text(q: Seq<ClauseView>) -> Seq<char> {
    joined(q.map_values(|c: ClauseView| clause_text(c)), " "@)
}

/// Whether `c` is a special character of the query language.
pub fn special(c: char) -> (b: bool)
    ensures
        b == is_special(c),
{
    crate::text::is_white_space(c) || c == '+' || c == '^' || c == '`' || c == ':' || c == '{' || c
        == '}' || c == '"' || c == '\'' || c == '[' || c == ']' || c == '(' || c == ')' || c == '!'
        || c == '\\' || c == '*' || c == '~'
}

/// `s` as it stands in a query: bare where it is plain, quoted otherwise.
pub fn render_value(s: &str) -> (out: String)
    ensures
        out@ == value_text(s@),
{
    let cs = chars_of(s);
    let mut i: usize = 0;
    while i < cs.len()
        invariant
            i <= cs.len(),
            cs@ == s@,
            forall|k: int| 0 <= k < i ==> !is_special(#[trigger] cs@[k]),
        decreases cs.len() - i,
    {
        if special(cs[i]) {
            assert(!is_plain(s@));
            return quote(s);
        }
        i += 1;
    }
    if cs.len() == 0 {
        return quote(s);
    }
    assert(is_plain(s@));
    s.to_owned()
}

/// `s` as a quoted value of the query language.
pub fn quote(s: &str) -> (out: String)
    ensures
        out@ == quoted(s@),
{
    let cs = chars_of(s);
    let mut out = String::new();
    out.push('"');
    let mut i: usize = 0;
    assert(cs@.take(0) =~= Seq::<char>::empty());
    while i < cs.len()
        invariant
            i <= cs.len(),
            cs@ == s@,
            out@ == seq!['"'] + quoted_body(cs@.take(i as int)),
        decreases cs.len() - i,
    {
        let c = cs[i];
        assert(cs@.take(i + 1).drop_last() == cs@.take(i as int));
        if c == '"' || c == '\\' {
            out.push('\\');
        }
        out.push(c);
        assert(out@ =~= seq!['"'] + quoted_body(cs@.take(i + 1)));
        i += 1;
    }
    assert(cs@.take(cs.len() as int) == cs@);
    out.push('"');
    assert(out@ =~= quoted(s@));
    out
}

/// The facet path of `name` under `kind`.
pub fn make_facet_path(kind: &str, name: &str) -> (path: String)
    ensures
        path@ == facet_path(kind@, name@),
{
    let mut path = String::from_str("/");
    path.append(kind);
    path.append("/");
    path.append(name);
    path
}

/// The facet paths of the seasons that the filter selects.
pub fn selected_season_paths(options: &SearchPrefill, season_names: &HashMap<usize, ESeason>) -> (paths:
    Vec<String>)
    ensures
        texts(paths@) == season_paths(options.selected_slots(), season_names@),
{
    let slots = options.season_slots();
    let ghost wanted = options.selected_slots();
    assert(slots@.len() == wanted.len());
    assert forall|k: int| 0 <= k < slots@.len() implies slots@[k] as int == wanted[k] by {
        assert(slots@.map_values(|n: usize| n as int)[k] == wanted[k]);
    }
    let mut paths: Vec<String> = Vec::new();
    let mut i: usize = 0;
    assert(wanted.take(0) =~= Seq::<int>::empty());
    assert(texts(paths@) =~= season_paths(wanted.take(0), season_names@));
    while i < slots.len()
        invariant
            i <= slots.len(),
            slots@.len() == wanted.len(),
            forall|k: int| 0 <= k < slots@.len() ==> slots@[k] as int == wanted[k],
            texts(paths@) == season_paths(wanted.take(i as int), season_names@),
        decreases slots.len() - i,
    {
        let slot = slots[i];
        proof {
            assert(wanted.take(i + 1).drop_last() == wanted.take(i as int));
            assert(wanted.take(i + 1).last() == slot as int);
        }
        match season_names.get(&slot) {
            Some(season) => {
                let path = make_facet_path(SCHEMA_SEASON, season.name());
                proof {
                    lemma_texts_push(paths@, path);
                }
                paths.push(path);
            },
            None => {},
        }
        assert(texts(paths@) =~= season_paths(wanted.take(i + 1), season_names@));
        i += 1;
    }
    assert(wanted.take(slots.len() as int) == wanted);
    paths
}

/// Adds the clause on the facet `kind` for `id`, if the id resolves.
pub fn push_named_clause(
    clauses: &mut Vec<Clause>,
    kind: &str,
    id: Option<i32>,
    names: &HashMap<i32, String>,
)
    ensures
        clause_views(final(clauses)@) == clause_views(old(clauses)@) + named_clause(
            kind@,
            id,
            names@,
        ),
{
    match id {
        Some(i) => {
            match names.get(&i) {
                Some(name) => {
                    let path = make_facet_path(kind, name.as_str());
                    let clause = Clause::FacetEq { field: String::from_str(kind), path };
                    proof {
                        lemma_clause_views_push(clauses@, clause);
                    }
                    clauses.push(clause);
                },
                None => {},
            }
        },
        None => {},
    }
    assert(clause_views(clauses@) =~= clause_views(old(clauses)@) + named_clause(
        kind@,
        id,
        names@,
    ));
}

/// The index query for the terms `terms` and the structured part of the filter
/// `options`. `book_names` and `course_names` resolve the ids of the filter,
/// `season_names` the numbers of its slots; an id that does not resolve adds no
/// clause.
pub fn query_from_terms(
    terms: &Vec<String>,
    options: &SearchPrefill,
    book_names: &HashMap<i32, String>,
    season_names: &HashMap<usize, ESeason>,
    course_names: &HashMap<i32, String>,
) -> (query: IndexQuery)
    ensures
        query@ == query_tree_of(
            texts(terms@),
            *options,
            book_names@,
            season_names@,
            course_names@,
        ),
{
    let mut clauses: Vec<Clause> = Vec::new();
    let mut i: usize = 0;
    while i < terms.len()
        invariant
            i <= terms.len(),
            clauses@.len() == i,
            forall|k: int|
                0 <= k < i ==> (#[trigger] clauses@[k])@ == ClauseView::Term(terms@[k]@),
        decreases terms.len() - i,
    {
        clauses.push(Clause::Term(terms[i].clone()));
        i += 1;
    }
    let ghost first = term_clauses(texts(terms@));
    assert(clause_views(clauses@) =~= first);
    push_named_clause(&mut clauses, SCHEMA_BOOK, options.book, book_names);
    let paths = selected_season_paths(options, season_names);
    if paths.len() > 0 {
        let clause = Clause::FacetAny { field: String::from_str(SCHEMA_SEASON), paths };
        proof {
            lemma_clause_views_push(clauses@, clause);
        }
        clauses.push(clause);
    }
    let ghost seasons = season_clause(*options, season_names@);
    assert(clause_views(clauses@) =~= first + named_clause(SCHEMA_BOOK@, options.book, book_names@)
        + seasons);
    push_named_clause(&mut clauses, SCHEMA_COURSE, options.course, course_names);
    IndexQuery { clauses }
}

/// The index query of the filter `options`, with the words of its free text as
/// the terms.
pub fn build_query(
    options: &SearchPrefill,
    book_names: &HashMap<i32, String>,
    season_names: &HashMap<usize, ESeason>,
    course_names: &HashMap<i32, String>,
) -> (query: IndexQuery)
    ensures
        query@ == query_tree(*options, book_names@, season_names@, course_names@),
{
    let name = options.template_name();
    let terms = split_words(name.as_str());
    query_from_terms(&terms, options, book_names, season_names, course_names)
}

impl Clause {
    /// The text of this clause in the query language.
    pub fn render(&self) -> (out: String)
        ensures
            out@ == clause_text(self@),
    {
        let mut out = String::from_str("+");
        match self {
            Clause::Term(t) => {
                out.append(t.as_str());
            },
            Clause::FacetEq { field, path } => {
                out.append(field.as_str());
                out.append(":");
                let q = render_value(path.as_str());
                out.append(q.as_str());
            },
            Clause::FacetAny { field, paths } => {
                out.append(field.as_str());
                out.append(": IN [");
                let list = join(paths, " ");
                out.append(list.as_str());
                out.append("]");
            },
        }
        out
    }
}

impl IndexQuery {
    /// The text of this query in the query language.
    pub fn render(&self) -> (out: String)
        ensures
            out@ == query_text(self@),
    {
        let mut parts: Vec<String> = Vec::new();
        let mut i: usize = 0;
        while i < self.clauses.len()
            invariant
                i <= self.clauses.len(),
                parts@.len() == i,
                forall|k: int| 0 <= k < i ==> (#[trigger] parts@[k])@ == clause_text(self@[k]),
            decreases self.clauses.len() - i,
        {
            let part = self.clauses[i].render();
            parts.push(part);
            i += 1;
        }
        assert(texts(parts@) =~= self@.map_values(|c: ClauseView| clause_text(c)));
        join(&parts, " ")
    }
}

} // verus!
