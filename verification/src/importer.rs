//! Recipe lists: the text format in which recipes are brought into the
//! catalogue in bulk.
//!
//! A list is read line by line. The number of tabs in a line says what the line
//! is: none for the heading of a season, one for a book, two for a recipe. A
//! recipe line holds the name, then optionally the ingredients in square
//! brackets, separated by a comma and a space, and at its end optionally the
//! page.

use crate::models::{
    InsertBook, InsertCourse, InsertIngredient, InsertRecipe, InsertRecipeIngredient, InsertSeason,
};
use crate::parsetypes::{heading_season, match_season, season_number, season_title, ESeason, ParseRecipe};
use crate::strops::{strip_match, strip_matches, without_match, without_matches};
use crate::text::{chars_of, lemma_texts_push, lowercased, string_of, texts, trim, trimmed};
use vstd::prelude::*;
use vstd::string::StringExecFns;

verus! {

/// The pattern that is taken out of a recipe line before its name is read.
pub const PAGE_PATTERN: &'static str = "/\\d+$/";

/// What a recipe of a list holds, over plain sequences.
pub struct ParseRecipeView {
    pub course: Seq<char>,
    pub season: ESeason,
    pub book: Seq<char>,
    pub name: Seq<char>,
    pub page: Option<u16>,
    pub ingredients: Seq<Seq<char>>,
}

impl View for ParseRecipe {
    type V = ParseRecipeView;

    open spec fn view(&self) -> ParseRecipeView {
        ParseRecipeView {
            course: self.course@,
            season: self.season,
            book: self.book@,
            name: self.name@,
            page: self.page,
            ingredients: texts(self.ingredients@),
        }
    }
}

/// The views of a sequence of recipes.
pub open spec fn recipe_views(v: Seq<ParseRecipe>) -> Seq<ParseRecipeView> {
    Seq::new(v.len(), |i: int| v[i]@)
}

/// `line` without a carriage return at its end.
pub open spec fn without_return(line: Seq<char>) -> Seq<char> {
    if line.len() > 0 && line.last() == '\r' {
        line.drop_last()
    } else {
        line
    }
}

/// The lines of `s`, given the line `cur` that is being read. A line ends at a
/// line feed, and a carriage return before the line feed belongs to the ending.
/// What follows the last line feed is a line if it is not empty.
pub open spec fn lines_from(s: Seq<char>, cur: Seq<char>) -> Seq<Seq<char>>
    decreases s.len(),
{
    if s.len() == 0 {
        if cur.len() > 0 {
            seq![cur]
        } else {
            seq![]
        }
    } else if s[0] == '\n' {
        seq![without_return(cur)] + lines_from(s.drop_first(), seq![])
    } else {
        lines_from(s.drop_first(), cur.push(s[0]))
    }
}

/// The lines of `s`.
pub open spec fn text_lines(s: Seq<char>) -> Seq<Seq<char>> {
    lines_from(s, seq![])
}

/// How often `c` occurs in `s`.
pub open spec fn count_of(s: Seq<char>, c: char) -> nat
    decreases s.len(),
{
    if s.len() == 0 {
        0
    } else {
        count_of(s.drop_last(), c) + (if s.last() == c {
            1nat
        } else {
            0nat
        })
    }
}

/// `s` without its occurrences of `c`.
pub open spec fn without_char(s: Seq<char>, c: char) -> Seq<char>
    decreases s.len(),
{
    if s.len() == 0 {
        seq![]
    } else if s.last() == c {
        without_char(s.drop_last(), c)
    } else {
        without_char(s.drop_last(), c).push(s.last())
    }
}

/// The pieces of `s` between occurrences of `c`, given the piece `cur` that is
/// being read. There is one piece more than there are occurrences.
pub open spec fn pieces_from(s: Seq<char>, c: char, cur: Seq<char>) -> Seq<Seq<char>>
    decreases s.len(),
{
    if s.len() == 0 {
        seq![cur]
    } else if s[0] == c {
        seq![cur] + pieces_from(s.drop_first(), c, seq![])
    } else {
        pieces_from(s.drop_first(), c, cur.push(s[0]))
    }
}

/// The pieces of `s` between occurrences of `c`.
pub open spec fn pieces(s: Seq<char>, c: char) -> Seq<Seq<char>> {
    pieces_from(s, c, seq![])
}

/// The pieces of `s` between occurrences of a comma followed by a space, given
/// the piece `cur` that is being read.
pub open spec fn items_from(s: Seq<char>, cur: Seq<char>) -> Seq<Seq<char>>
    decreases s.len(),
{
    if s.len() == 0 {
        seq![cur]
    } else if s.len() >= 2 && s[0] == ',' && s[1] == ' ' {
        seq![cur] + items_from(s.skip(2), seq![])
    } else {
        items_from(s.drop_first(), cur.push(s[0]))
    }
}

/// The pieces of `s` between occurrences of a comma followed by a space.
pub open spec fn items(s: Seq<char>) -> Seq<Seq<char>> {
    items_from(s, seq![])
}

/// `s` without the later occurrences of what occurs more than once.
pub open spec fn distinct(s: Seq<Seq<char>>) -> Seq<Seq<char>>
    decreases s.len(),
{
    if s.len() == 0 {
        seq![]
    } else if distinct(s.drop_last()).contains(s.last()) {
        distinct(s.drop_last())
    } else {
        distinct(s.drop_last()).push(s.last())
    }
}

/// Whether `c` is an ASCII digit.
pub open spec fn is_digit(c: char) -> bool {
    '0' <= c <= '9'
}

/// The number that the digits `s` stand for.
pub open spec fn digits_value(s: Seq<char>) -> nat
    decreases s.len(),
{
    if s.len() == 0 {
        0
    } else {
        digits_value(s.drop_last()) * 10 + (s.last() as u32 - '0' as u32) as nat
    }
}

/// Whether `s` holds nothing but digits.
pub open spec fn all_digits(s: Seq<char>) -> bool {
    forall|i: int| 0 <= i < s.len() ==> is_digit(#[trigger] s[i])
}

/// The number that `s` states, if `s` is a run of digits, with or without a `+`
/// before it, whose value fits 16 bits.
pub open spec fn stated_number(s: Seq<char>) -> Option<u16> {
    let body = if s.len() > 0 && s[0] == '+' {
        s.drop_first()
    } else {
        s
    };
    if body.len() > 0 && all_digits(body) && digits_value(body) <= 0xffff {
        Some(digits_value(body) as u16)
    } else {
        None
    }
}

/// The page of a recipe line: the number that its last piece between spaces
/// states.
pub open spec fn page_of(line: Seq<char>) -> Option<u16> {
    stated_number(pieces(line, ' ').last())
}

/// Whether the ingredients of a recipe line can be read: a line that holds both
/// brackets holds an opening one before its first closing one.
pub open spec fn brackets_in_order(line: Seq<char>) -> bool {
    line.contains(']') && line.contains('[') ==> pieces(line, ']')[0].contains('[')
}

/// The ingredients of a recipe line: the items between the first opening
/// bracket and the next bracket; none where the line lacks a bracket.
pub open spec fn ingredients_of_line(line: Seq<char>) -> Seq<Seq<char>> {
    if line.contains(']') && line.contains('[') {
        items(pieces(pieces(line, ']')[0], '[')[1])
    } else {
        seq![]
    }
}

/// The name of a recipe line: what stands before the first opening bracket,
/// trimmed, and the whole line where it has no such bracket. The page pattern is
/// taken out first.
pub open spec fn name_of_line(line: Seq<char>) -> Seq<char> {
    let cleaned = without_match(PAGE_PATTERN@, line);
    if cleaned.contains('[') {
        trimmed(pieces(line, '[')[0])
    } else {
        without_matches(PAGE_PATTERN@, cleaned)
    }
}

/// Whether a line of a list counts: it is not empty, holds two tabs at most and
/// more than tabs.
pub open spec fn counts(line: Seq<char>) -> bool {
    line.len() > 0 && count_of(line, '\t') <= 2 && without_char(line, '\t').len() > 0
}

/// What has been read of a list: the season and the book that the next recipe
/// belongs to, and the recipes so far.
pub struct Progress {
    pub season: ESeason,
    pub book: Seq<char>,
    pub recipes: Seq<ParseRecipeView>,
}

/// What has been read after one more line.
pub open spec fn after_line(p: Progress, line: Seq<char>, course: Seq<char>) -> Progress {
    let content = without_char(line, '\t');
    if !counts(line) {
        p
    } else if count_of(line, '\t') == 0 {
        Progress { season: heading_season(lowercased(content)), ..p }
    } else if count_of(line, '\t') == 1 {
        Progress { book: content, ..p }
    } else {
        Progress {
            recipes: p.recipes.push(
                ParseRecipeView {
                    course,
                    season: p.season,
                    book: p.book,
                    name: name_of_line(content),
                    page: page_of(content),
                    ingredients: distinct(ingredients_of_line(content)),
                },
            ),
            ..p
        }
    }
}

/// What has been read after the lines `lines`, starting from `p`.
pub open spec fn after_lines(p: Progress, lines: Seq<Seq<char>>, course: Seq<char>) -> Progress
    decreases lines.len(),
{
    if lines.len() == 0 {
        p
    } else {
        after_line(after_lines(p, lines.drop_last(), course), lines.last(), course)
    }
}

/// Where the reading of a list starts: no book, and the season independent.
pub open spec fn start() -> Progress {
    Progress { season: ESeason::Independent, book: seq![], recipes: seq![] }
}

/// The recipes of the list `contents` for the course `course`.
pub open spec fn parsed(contents: Seq<char>, course: Seq<char>) -> Seq<ParseRecipeView> {
    after_lines(start(), text_lines(contents), course).recipes
}

/// Whether the list `contents` can be read: the brackets of each of its recipe
/// lines are in order.
pub open spec fn readable(contents: Seq<char>) -> bool {
    forall|i: int|
        0 <= i < text_lines(contents).len() ==> {
            let line = #[trigger] text_lines(contents)[i];
            counts(line) && count_of(line, '\t') == 2 ==> brackets_in_order(
                without_char(line, '\t'),
            )
        }
}

/// The lines of `s`.
pub fn split_lines(s: &str) -> (out: Vec<Vec<char>>)
    ensures
        out@.len() == text_lines(s@).len(),
        forall|i: int| 0 <= i < out@.len() ==> (#[trigger] out@[i])@ == text_lines(s@)[i],
{
    let cs = chars_of(s);
    let mut out: Vec<Vec<char>> = Vec::new();
    let mut cur: Vec<char> = Vec::new();
    let ghost mut done: Seq<Seq<char>> = seq![];
    let mut i: usize = 0;
    assert(cs@.skip(0) == cs@);
    while i < cs.len()
        invariant
            i <= cs.len(),
            cs@ == s@,
            out@.len() == done.len(),
            forall|k: int| 0 <= k < out@.len() ==> (#[trigger] out@[k])@ == done[k],
            text_lines(s@) == done + lines_from(cs@.skip(i as int), cur@),
        decreases cs.len() - i,
    {
        let c = cs[i];
        assert(cs@.skip(i as int).drop_first() == cs@.skip(i + 1));
        assert(cs@.skip(i as int)[0] == c);
        if c == '\n' {
            let n = cur.len();
            if n > 0 && cur[n - 1] == '\r' {
                cur.pop();
            }
            proof {
                let rest = lines_from(cs@.skip(i + 1), seq![]);
                assert(done.push(cur@) + rest =~= done + (seq![cur@] + rest));
                done = done.push(cur@);
            }
            out.push(cur);
            cur = Vec::new();
        } else {
            cur.push(c);
        }
        i += 1;
    }
    if cur.len() > 0 {
        proof {
            done = done.push(cur@);
        }
        out.push(cur);
    }
    assert(text_lines(s@) =~= done);
    out
}

/// How often `c` occurs in `s`.
pub fn count_char(s: &Vec<char>, c: char) -> (n: usize)
    ensures
        n == count_of(s@, c),
{
    let mut n: usize = 0;
    let mut i: usize = 0;
    assert(s@.take(0) =~= Seq::<char>::empty());
    while i < s.len()
        invariant
            i <= s.len(),
            n <= i,
            n == count_of(s@.take(i as int), c),
        decreases s.len() - i,
    {
        assert(s@.take(i + 1).drop_last() == s@.take(i as int));
        if s[i] == c {
            n += 1;
        }
        i += 1;
    }
    assert(s@.take(s.len() as int) == s@);
    n
}

/// `s` without its occurrences of `c`.
pub fn remove_char(s: &Vec<char>, c: char) -> (out: Vec<char>)
    ensures
        out@ == without_char(s@, c),
{
    let mut out: Vec<char> = Vec::new();
    let mut i: usize = 0;
    assert(s@.take(0) =~= Seq::<char>::empty());
    while i < s.len()
        invariant
            i <= s.len(),
            out@ == without_char(s@.take(i as int), c),
        decreases s.len() - i,
    {
        assert(s@.take(i + 1).drop_last() == s@.take(i as int));
        if s[i] != c {
            out.push(s[i]);
        }
        i += 1;
    }
    assert(s@.take(s.len() as int) == s@);
    out
}

/// Whether `c` occurs in `s`.
pub fn has_char(s: &Vec<char>, c: char) -> (found: bool)
    ensures
        found == s@.contains(c),
{
    let mut i: usize = 0;
    while i < s.len()
        invariant
            i <= s.len(),
            forall|k: int| 0 <= k < i ==> s@[k] != c,
        decreases s.len() - i,
    {
        if s[i] == c {
            return true;
        }
        i += 1;
    }
    false
}

/// The pieces of `s` between occurrences of `c`.
pub fn split_on(s: &Vec<char>, c: char) -> (out: Vec<Vec<char>>)
    ensures
        out@.len() == pieces(s@, c).len(),
        out@.len() >= 1,
        forall|i: int| 0 <= i < out@.len() ==> (#[trigger] out@[i])@ == pieces(s@, c)[i],
{
    let mut out: Vec<Vec<char>> = Vec::new();
    let mut cur: Vec<char> = Vec::new();
    let ghost mut done: Seq<Seq<char>> = seq![];
    let mut i: usize = 0;
    assert(s@.skip(0) == s@);
    while i < s.len()
        invariant
            i <= s.len(),
            out@.len() == done.len(),
            forall|k: int| 0 <= k < out@.len() ==> (#[trigger] out@[k])@ == done[k],
            pieces(s@, c) == done + pieces_from(s@.skip(i as int), c, cur@),
        decreases s.len() - i,
    {
        let x = s[i];
        assert(s@.skip(i as int).drop_first() == s@.skip(i + 1));
        assert(s@.skip(i as int)[0] == x);
        if x == c {
            proof {
                let rest = pieces_from(s@.skip(i + 1), c, seq![]);
                assert(done.push(cur@) + rest =~= done + (seq![cur@] + rest));
                done = done.push(cur@);
            }
            out.push(cur);
            cur = Vec::new();
        } else {
            cur.push(x);
        }
        i += 1;
    }
    proof {
        done = done.push(cur@);
    }
    out.push(cur);
    assert(pieces(s@, c) =~= done);
    out
}

/// The pieces of `s` between occurrences of a comma followed by a space.
pub fn split_items(s: &Vec<char>) -> (out: Vec<String>)
    ensures
        texts(out@) == items(s@),
{
    let mut out: Vec<String> = Vec::new();
    let mut cur: Vec<char> = Vec::new();
    let mut i: usize = 0;
    assert(s@.skip(0) == s@);
    assert(texts(out@) =~= Seq::<Seq<char>>::empty());
    while i < s.len()
        invariant
            i <= s.len(),
            items(s@) == texts(out@) + items_from(s@.skip(i as int), cur@),
        decreases s.len() - i,
    {
        let ghost here = s@.skip(i as int);
        assert(here.len() == s.len() - i);
        assert(here[0] == s@[i as int]);
        if s[i] == ',' && i + 1 < s.len() && s[i + 1] == ' ' {
            assert(here[1] == s@[i + 1]);
            assert(here.skip(2) == s@.skip(i + 2));
            let item = string_of(&cur, 0, cur.len());
            proof {
                assert(cur@.subrange(0, cur.len() as int) == cur@);
                lemma_texts_push(out@, item);
                let rest = items_from(s@.skip(i + 2), seq![]);
                assert(texts(out@).push(cur@) + rest =~= texts(out@) + (seq![cur@] + rest));
            }
            out.push(item);
            cur = Vec::new();
            i += 2;
        } else {
            assert(here.drop_first() == s@.skip(i + 1));
            if s[i] == ',' && i + 1 < s.len() {
                assert(here[1] == s@[i + 1]);
            }
            cur.push(s[i]);
            i += 1;
        }
    }
    let item = string_of(&cur, 0, cur.len());
    proof {
        assert(cur@.subrange(0, cur.len() as int) == cur@);
        lemma_texts_push(out@, item);
    }
    out.push(item);
    assert(texts(out@) =~= items(s@));
    out
}

/// Whether `item` is one of `list`.
pub fn has_item(list: &Vec<String>, item: &String) -> (found: bool)
    ensures
        found == texts(list@).contains(item@),
{
    let mut i: usize = 0;
    while i < list.len()
        invariant
            i <= list.len(),
            forall|k: int| 0 <= k < i ==> texts(list@)[k] != item@,
        decreases list.len() - i,
    {
        if list[i] == *item {
            assert(texts(list@)[i as int] == item@);
            return true;
        }
        i += 1;
    }
    false
}

/// `list` without the later occurrences of what occurs more than once.
pub fn unique(list: Vec<String>) -> (out: Vec<String>)
    ensures
        texts(out@) == distinct(texts(list@)),
{
    let mut out: Vec<String> = Vec::new();
    let mut i: usize = 0;
    let ghost all = texts(list@);
    assert(all.take(0) =~= Seq::<Seq<char>>::empty());
    assert(texts(out@) =~= distinct(all.take(0)));
    while i < list.len()
        invariant
            i <= list.len(),
            all == texts(list@),
            texts(out@) == distinct(all.take(i as int)),
        decreases list.len() - i,
    {
        assert(all.take(i + 1).drop_last() == all.take(i as int));
        assert(all.take(i + 1).last() == list@[i as int]@);
        if !has_item(&out, &list[i]) {
            let item = list[i].clone();
            proof {
                lemma_texts_push(out@, item);
            }
            out.push(item);
        }
        i += 1;
    }
    assert(all.take(list.len() as int) == all);
    out
}

/// The number that `s` states, if it states one that fits 16 bits.
pub fn parse_number(s: &Vec<char>) -> (n: Option<u16>)
    ensures
        n == stated_number(s@),
{
    let from: usize = if s.len() > 0 && s[0] == '+' {
        1
    } else {
        0
    };
    let ghost body = if s@.len() > 0 && s@[0] == '+' {
        s@.drop_first()
    } else {
        s@
    };
    assert(body == s@.skip(from as int));
    if from == s.len() {
        return None;
    }
    let mut value: u32 = 0;
    let mut i: usize = from;
    assert(body.take(0) =~= Seq::<char>::empty());
    while i < s.len()
        invariant
            from <= i <= s.len(),
            body == s@.skip(from as int),
            body == (if s@.len() > 0 && s@[0] == '+' {
                s@.drop_first()
            } else {
                s@
            }),
            forall|k: int| 0 <= k < i - from ==> is_digit(#[trigger] body[k]),
            value == digits_value(body.take(i - from)),
            value <= 0xffff,
        decreases s.len() - i,
    {
        let c = s[i];
        assert(body[i - from] == c);
        let ghost next = body.take(i - from + 1);
        assert(next.drop_last() == body.take(i - from));
        assert(next.last() == c);
        if !('0' <= c && c <= '9') {
            assert(!is_digit(body[i - from]));
            assert(!all_digits(body));
            return None;
        }
        let d: u32 = c as u32 - '0' as u32;
        let grown: u32 = value * 10 + d;
        if grown > 0xffff {
            proof {
                if all_digits(body) {
                    lemma_value_grows(body, i - from + 1);
                }
            }
            return None;
        }
        value = grown;
        i += 1;
    }
    assert(body.take(body.len() as int) == body);
    assert(all_digits(body));
    Some(value as u16)
}

/// The value of a run of digits is no less than the value of any of its
/// beginnings.
pub proof fn lemma_value_grows(s: Seq<char>, n: int)
    requires
        0 <= n <= s.len(),
        all_digits(s),
    ensures
        digits_value(s.take(n)) <= digits_value(s),
    decreases s.len() - n,
{
    if n < s.len() {
        assert(s.take(n + 1).drop_last() == s.take(n));
        assert(s.take(n + 1).last() == s[n]);
        lemma_value_grows(s, n + 1);
    } else {
        assert(s.take(n) == s);
    }
}

/// The page of a recipe line, where its last piece between spaces states one.
pub fn parse_page_number(b: &Vec<char>) -> (page: Option<u16>)
    ensures
        page == page_of(b@),
{
    let parts = split_on(b, ' ');
    parse_number(&parts[parts.len() - 1])
}

/// The ingredients that a recipe line names in square brackets.
pub fn parse_ingredients(b: &Vec<char>) -> (names: Vec<String>)
    requires
        brackets_in_order(b@),
    ensures
        texts(names@) == ingredients_of_line(b@),
{
    if has_char(b, ']') && has_char(b, '[') {
        let closed = split_on(b, ']');
        let ghost head = pieces(b@, ']')[0];
        assert(closed@[0]@ == head);
        let opened = split_on(&closed[0], '[');
        proof {
            lemma_pieces_of_a_holder(head, '[');
        }
        split_items(&opened[1])
    } else {
        let names: Vec<String> = Vec::new();
        assert(texts(names@) =~= Seq::<Seq<char>>::empty());
        names
    }
}

/// A text that holds `c` has two pieces at least.
pub proof fn lemma_pieces_of_a_holder(s: Seq<char>, c: char)
    requires
        s.contains(c),
    ensures
        pieces(s, c).len() >= 2,
{
    lemma_pieces_from(s, c, seq![]);
}

/// Reading pieces yields one piece at least, and two where the text still
/// holds the separator.
pub proof fn lemma_pieces_from(s: Seq<char>, c: char, cur: Seq<char>)
    ensures
        pieces_from(s, c, cur).len() >= 1,
        s.contains(c) ==> pieces_from(s, c, cur).len() >= 2,
    decreases s.len(),
{
    if s.len() > 0 {
        if s[0] == c {
            lemma_pieces_from(s.drop_first(), c, seq![]);
        } else {
            lemma_pieces_from(s.drop_first(), c, cur.push(s[0]));
            if s.contains(c) {
                let k = choose|k: int| 0 <= k < s.len() && s[k] == c;
                assert(s.drop_first()[k - 1] == c);
            }
        }
    }
}

/// The name of the recipe that a recipe line states.
pub fn parse_recipe_name(b: &Vec<char>) -> (name: String)
    ensures
        name@ == name_of_line(b@),
{
    let line = string_of(b, 0, b.len());
    assert(b@.subrange(0, b.len() as int) == b@);
    let cleaned = strip_match(PAGE_PATTERN, line);
    let cleaned_chars = chars_of(cleaned.as_str());
    if has_char(&cleaned_chars, '[') {
        let parts = split_on(b, '[');
        let front = string_of(&parts[0], 0, parts[0].len());
        assert(parts@[0]@.subrange(0, parts@[0]@.len() as int) == parts@[0]@);
        trim(front.as_str())
    } else {
        strip_matches(PAGE_PATTERN, cleaned)
    }
}

/// Whether the list `contents` can be read.
pub fn can_parse(contents: &str) -> (ok: bool)
    ensures
        ok == readable(contents@),
{
    let lines = split_lines(contents);
    let mut i: usize = 0;
    while i < lines.len()
        invariant
            i <= lines.len(),
            lines@.len() == text_lines(contents@).len(),
            forall|k: int|
                0 <= k < lines@.len() ==> (#[trigger] lines@[k])@ == text_lines(contents@)[k],
            forall|k: int|
                0 <= k < i ==> {
                    let line = #[trigger] text_lines(contents@)[k];
                    counts(line) && count_of(line, '\t') == 2 ==> brackets_in_order(
                        without_char(line, '\t'),
                    )
                },
        decreases lines.len() - i,
    {
        let line = &lines[i];
        assert(line@ == text_lines(contents@)[i as int]);
        let depth = count_char(line, '\t');
        let content = remove_char(line, '\t');
        if line.len() > 0 && depth == 2 && content.len() > 0 {
            if has_char(&content, ']') && has_char(&content, '[') {
                let closed = split_on(&content, ']');
                if !has_char(&closed[0], '[') {
                    assert(!brackets_in_order(without_char(text_lines(contents@)[i as int], '\t')));
                    return false;
                }
            }
        }
        i += 1;
    }
    true
}

/// The recipes of the list `raw_contents` for the course `course`, in the
/// order of their lines. Each recipe belongs to the season and the book named
/// last before it.
pub fn parse(raw_contents: String, course: String) -> (res: Vec<ParseRecipe>)
    requires
        readable(raw_contents@),
    ensures
        recipe_views(res@) == parsed(raw_contents@, course@),
{
    let lines = split_lines(raw_contents.as_str());
    let ghost all = text_lines(raw_contents@);
    let mut res: Vec<ParseRecipe> = Vec::new();
    let mut book: String = String::new();
    let mut season: ESeason = ESeason::Independent;
    let mut i: usize = 0;
    assert(all.take(0) =~= Seq::<Seq<char>>::empty());
    assert(recipe_views(res@) =~= start().recipes);
    assert(book@ =~= start().book);
    while i < lines.len()
        invariant
            i <= lines.len(),
            all == text_lines(raw_contents@),
            readable(raw_contents@),
            lines@.len() == all.len(),
            forall|k: int| 0 <= k < lines@.len() ==> (#[trigger] lines@[k])@ == all[k],
            after_lines(start(), all.take(i as int), course@) == (Progress {
                season,
                book: book@,
                recipes: recipe_views(res@),
            }),
        decreases lines.len() - i,
    {
        let line = &lines[i];
        proof {
            assert(all.take(i + 1).drop_last() == all.take(i as int));
            assert(all.take(i + 1).last() == line@);
            assert(line@ == all[i as int]);
        }
        let depth = count_char(line, '\t');
        let content = remove_char(line, '\t');
        if line.len() > 0 && depth <= 2 && content.len() > 0 {
            if depth == 0 {
                let heading = string_of(&content, 0, content.len());
                assert(content@.subrange(0, content.len() as int) == content@);
                season = match_season(heading.as_str());
            } else if depth == 1 {
                book = string_of(&content, 0, content.len());
                assert(content@.subrange(0, content.len() as int) == content@);
            } else {
                let name = parse_recipe_name(&content);
                let ingredients = unique(parse_ingredients(&content));
                let recipe = ParseRecipe {
                    course: course.clone(),
                    season,
                    book: book.clone(),
                    name,
                    page: parse_page_number(&content),
                    ingredients,
                };
                assert(recipe_views(res@.push(recipe)) =~= recipe_views(res@).push(recipe@));
                res.push(recipe);
            }
        }
        i += 1;
    }
    assert(all.take(lines.len() as int) == all);
    res
}

/// The ingredients of the recipes `a`, recipe by recipe.
pub open spec fn all_ingredients(a: Seq<ParseRecipeView>) -> Seq<Seq<char>>
    decreases a.len(),
{
    if a.len() == 0 {
        seq![]
    } else {
        all_ingredients(a.drop_last()) + a.last().ingredients
    }
}

/// The place of the first occurrence of `x` in `s`; the length of `s` where `x`
/// does not occur.
pub open spec fn first_place(s: Seq<Seq<char>>, x: Seq<char>) -> int
    decreases s.len(),
{
    if s.len() == 0 {
        0
    } else if s[0] == x {
        0
    } else {
        1 + first_place(s.drop_first(), x)
    }
}

/// The place of the last of the first `n` recipes of `a` with the name `name`;
/// -1 where none of them has it.
pub open spec fn last_named(a: Seq<ParseRecipeView>, name: Seq<char>, n: int) -> int
    decreases n,
{
    if n <= 0 {
        -1
    } else if a[n - 1].name == name {
        n - 1
    } else {
        last_named(a, name, n - 1)
    }
}

/// The links of the recipe at `at` to the first `n` of its ingredients: each
/// pairs the id of the recipe with the id of the ingredient. The id of a recipe
/// is the place of the last recipe with its name, the id of an ingredient its
/// place among `tags`.
pub open spec fn links_of_recipe(
    a: Seq<ParseRecipeView>,
    tags: Seq<Seq<char>>,
    at: int,
    n: int,
) -> Seq<(int, int)> {
    Seq::new(
        n as nat,
        |k: int| (last_named(a, a[at].name, a.len() as int), first_place(tags, a[at].ingredients[k])),
    )
}

/// The links of the first `n` recipes of `a`, recipe by recipe.
pub open spec fn links_of(a: Seq<ParseRecipeView>, tags: Seq<Seq<char>>, n: int) -> Seq<(int, int)>
    decreases n,
{
    if n <= 0 {
        seq![]
    } else {
        links_of(a, tags, n - 1) + links_of_recipe(
            a,
            tags,
            n - 1,
            a[n - 1].ingredients.len() as int,
        )
    }
}

/// The row of the season `a`: its number and its capitalised name.
pub fn build_season_record(a: ESeason) -> (row: InsertSeason)
    ensures
        row.season_id == Some(season_number(a) as i32),
        row.tag_name@ == season_title(a),
{
    InsertSeason::new(
        Some(ESeason::value(a) as i32),
        String::from_str(ESeason::to_string(&a)),
    )
}

/// The rows of the five seasons in the canonical order.
pub fn build_seasons_records() -> (rows: Vec<InsertSeason>)
    ensures
        rows@.len() == 5,
        forall|i: int|
            0 <= i < 5 ==> (#[trigger] rows@[i]).season_id == Some((i + 1) as i32)
                && rows@[i].tag_name@ == season_title(crate::parsetypes::season_at(i + 1)),
{
    let mut rows: Vec<InsertSeason> = Vec::new();
    rows.push(build_season_record(ESeason::Summer));
    rows.push(build_season_record(ESeason::Autumn));
    rows.push(build_season_record(ESeason::Winter));
    rows.push(build_season_record(ESeason::Spring));
    rows.push(build_season_record(ESeason::Independent));
    rows
}

/// The ingredients of the recipes `a`, recipe by recipe.
pub fn collect_ingredients(a: &Vec<ParseRecipe>) -> (out: Vec<String>)
    ensures
        texts(out@) == all_ingredients(recipe_views(a@)),
{
    let mut out: Vec<String> = Vec::new();
    let ghost views = recipe_views(a@);
    let mut i: usize = 0;
    assert(views.take(0) =~= Seq::<ParseRecipeView>::empty());
    assert(texts(out@) =~= all_ingredients(views.take(0)));
    while i < a.len()
        invariant
            i <= a.len(),
            views == recipe_views(a@),
            texts(out@) == all_ingredients(views.take(i as int)),
        decreases a.len() - i,
    {
        let ghost before = texts(out@);
        let ghost these = views[i as int].ingredients;
        assert(views.take(i + 1).drop_last() == views.take(i as int));
        assert(views.take(i + 1).last() == views[i as int]);
        let mut k: usize = 0;
        assert(before + these.take(0) =~= before);
        while k < a[i].ingredients.len()
            invariant
                i < a.len(),
                k <= a[i as int].ingredients.len(),
                these == texts(a@[i as int].ingredients@),
                texts(out@) == before + these.take(k as int),
            decreases a[i as int].ingredients.len() - k,
        {
            let item = a[i].ingredients[k].clone();
            proof {
                lemma_texts_push(out@, item);
                assert((before + these.take(k as int)).push(item@) =~= before + these.take(k + 1));
            }
            out.push(item);
            k += 1;
        }
        assert(these.take(these.len() as int) == these);
        i += 1;
    }
    assert(views.take(a.len() as int) == views);
    out
}

/// The place of the first occurrence of `item` in `list`; the length of `list`
/// where it does not occur.
pub fn place_of(list: &Vec<String>, item: &String) -> (at: usize)
    ensures
        at == first_place(texts(list@), item@),
        at <= list@.len(),
{
    let ghost all = texts(list@);
    let mut i: usize = 0;
    assert(all.skip(0) == all);
    while i < list.len()
        invariant
            i <= list.len(),
            all == texts(list@),
            first_place(all, item@) == i + first_place(all.skip(i as int), item@),
        decreases list.len() - i,
    {
        assert(all.skip(i as int)[0] == list@[i as int]@);
        assert(all.skip(i as int).drop_first() == all.skip(i + 1));
        if list[i] == *item {
            return i;
        }
        i += 1;
    }
    i
}

/// The place of the last recipe of `a` with the name `name`, if there is one.
pub fn last_with_name(a: &Vec<ParseRecipe>, name: &String) -> (at: Option<usize>)
    ensures
        match at {
            Some(i) => i == last_named(recipe_views(a@), name@, a@.len() as int),
            None => last_named(recipe_views(a@), name@, a@.len() as int) == -1,
        },
{
    let ghost views = recipe_views(a@);
    let mut n: usize = a.len();
    while n > 0
        invariant
            n <= a.len(),
            views == recipe_views(a@),
            last_named(views, name@, a@.len() as int) == last_named(views, name@, n as int),
        decreases n,
    {
        assert(views[n - 1].name == a@[n - 1].name@);
        if a[n - 1].name == *name {
            return Some(n - 1);
        }
        n -= 1;
    }
    None
}

/// The ingredients of a list of recipes and the links of the recipes to them.
/// Each ingredient occurs once, with its place as its id. Each recipe is linked
/// to each of its ingredients under the id of the last recipe with its name.
pub fn build_tag_records(a: &Vec<ParseRecipe>) -> (records: (
    Vec<InsertIngredient>,
    Vec<InsertRecipeIngredient>,
))
    requires
        a@.len() <= i32::MAX,
        all_ingredients(recipe_views(a@)).len() <= i32::MAX,
    ensures
        ({
            let views = recipe_views(a@);
            let tags = distinct(all_ingredients(views));
            let links = links_of(views, tags, views.len() as int);
            &&& records.0@.len() == tags.len()
            &&& forall|i: int|
                0 <= i < tags.len() ==> (#[trigger] records.0@[i]).name@ == tags[i]
                    && records.0@[i].id == Some(i as i32)
            &&& records.1@.len() == links.len()
            &&& forall|i: int|
                0 <= i < links.len() ==> (#[trigger] records.1@[i]).recipe_id as int == links[i].0
                    && records.1@[i].ingredient_id as int == links[i].1
        }),
{
    let ghost views = recipe_views(a@);
    let names = unique(collect_ingredients(a));
    let ghost tags = texts(names@);
    proof {
        lemma_distinct_len(all_ingredients(views));
    }
    let mut ingredients: Vec<InsertIngredient> = Vec::new();
    let mut i: usize = 0;
    while i < names.len()
        invariant
            i <= names.len(),
            names@.len() <= i32::MAX,
            tags == texts(names@),
            ingredients@.len() == i,
            forall|k: int|
                0 <= k < i ==> (#[trigger] ingredients@[k]).name@ == tags[k] && ingredients@[k].id
                    == Some(k as i32),
        decreases names.len() - i,
    {
        ingredients.push(InsertIngredient { name: names[i].clone(), id: Some(i as i32) });
        i += 1;
    }
    let mut links: Vec<InsertRecipeIngredient> = Vec::new();
    let mut r: usize = 0;
    while r < a.len()
        invariant
            r <= a.len(),
            a@.len() <= i32::MAX,
            names@.len() <= i32::MAX,
            views == recipe_views(a@),
            tags == texts(names@),
            links@.len() == links_of(views, tags, r as int).len(),
            forall|k: int|
                0 <= k < links@.len() ==> (#[trigger] links@[k]).recipe_id as int == links_of(
                    views,
                    tags,
                    r as int,
                )[k].0 && links@[k].ingredient_id as int == links_of(views, tags, r as int)[k].1,
        decreases a.len() - r,
    {
        let own = match last_with_name(a, &a[r].name) {
            Some(at) => at,
            None => r,
        };
        proof {
            assert(views[r as int].name == a@[r as int].name@);
            lemma_last_named_found(views, views[r as int].name, a@.len() as int, r as int);
        }
        let ghost before = links_of(views, tags, r as int);
        let ghost these = views[r as int].ingredients;
        let mut k: usize = 0;
        assert(before + links_of_recipe(views, tags, r as int, 0) =~= before);
        while k < a[r].ingredients.len()
            invariant
                r < a.len(),
                own < a@.len() <= i32::MAX,
                names@.len() <= i32::MAX,
                own == last_named(views, views[r as int].name, a@.len() as int),
                views == recipe_views(a@),
                tags == texts(names@),
                these == views[r as int].ingredients,
                these == texts(a@[r as int].ingredients@),
                k <= a@[r as int].ingredients@.len(),
                links@.len() == before.len() + k,
                forall|j: int|
                    0 <= j < links@.len() ==> (#[trigger] links@[j]).recipe_id as int == (before
                        + links_of_recipe(views, tags, r as int, k as int))[j].0
                        && links@[j].ingredient_id as int == (before + links_of_recipe(
                        views,
                        tags,
                        r as int,
                        k as int,
                    ))[j].1,
            decreases a@[r as int].ingredients@.len() - k,
        {
            let at = place_of(&names, &a[r].ingredients[k]);
            assert(these[k as int] == a@[r as int].ingredients@[k as int]@);
            let ghost grown = before + links_of_recipe(views, tags, r as int, k + 1);
            let ghost was = before + links_of_recipe(views, tags, r as int, k as int);
            assert forall|j: int| 0 <= j < was.len() implies grown[j] == was[j] by {}
            links.push(InsertRecipeIngredient { recipe_id: own as i32, ingredient_id: at as i32 });
            k += 1;
        }
        assert(links_of(views, tags, r + 1) == before + links_of_recipe(
            views,
            tags,
            r as int,
            these.len() as int,
        ));
        r += 1;
    }
    (ingredients, links)
}

/// The books of the recipes `a`, recipe by recipe.
pub open spec fn book_names(a: Seq<ParseRecipeView>) -> Seq<Seq<char>> {
    Seq::new(a.len(), |i: int| a[i].book)
}

/// The courses of the recipes `a`, recipe by recipe.
pub open spec fn course_names(a: Seq<ParseRecipeView>) -> Seq<Seq<char>> {
    Seq::new(a.len(), |i: int| a[i].course)
}

/// The page of a recipe as the store holds it.
pub open spec fn page_value(page: Option<u16>) -> Option<i32> {
    match page {
        Some(p) => Some(p as i32),
        None => None,
    }
}

/// Whether `row` is the row of the recipe at `at` of `a`: its id is its place,
/// its book and its course are the places of their names among the distinct
/// books and courses.
pub open spec fn is_recipe_row(row: InsertRecipe, a: Seq<ParseRecipeView>, at: int) -> bool {
    &&& row.recipe_id == Some(at as i32)
    &&& row.recipe_name@ == a[at].name
    &&& row.primary_season == season_number(a[at].season)
    &&& row.page == page_value(a[at].page)
    &&& row.course_id == first_place(distinct(course_names(a)), a[at].course)
    &&& row.book_id == Some(first_place(distinct(book_names(a)), a[at].book) as i32)
}

/// The books of the recipes `a`, recipe by recipe.
pub fn collect_books(a: &Vec<ParseRecipe>) -> (out: Vec<String>)
    ensures
        texts(out@) == book_names(recipe_views(a@)),
{
    let mut out: Vec<String> = Vec::new();
    let mut i: usize = 0;
    while i < a.len()
        invariant
            i <= a.len(),
            out@.len() == i,
            forall|k: int| 0 <= k < i ==> (#[trigger] out@[k])@ == a@[k].book@,
        decreases a.len() - i,
    {
        out.push(a[i].book.clone());
        i += 1;
    }
    assert(texts(out@) =~= book_names(recipe_views(a@)));
    out
}

/// The courses of the recipes `a`, recipe by recipe.
pub fn collect_courses(a: &Vec<ParseRecipe>) -> (out: Vec<String>)
    ensures
        texts(out@) == course_names(recipe_views(a@)),
{
    let mut out: Vec<String> = Vec::new();
    let mut i: usize = 0;
    while i < a.len()
        invariant
            i <= a.len(),
            out@.len() == i,
            forall|k: int| 0 <= k < i ==> (#[trigger] out@[k])@ == a@[k].course@,
        decreases a.len() - i,
    {
        out.push(a[i].course.clone());
        i += 1;
    }
    assert(texts(out@) =~= course_names(recipe_views(a@)));
    out
}

/// The rows of the books, the courses and the recipes of a list of recipes.
/// Each book and each course occurs once, with its place as its id; each recipe
/// has its place as its id and names its book and its course by their ids.
pub fn build_rows(a: &Vec<ParseRecipe>) -> (rows: (
    Vec<InsertBook>,
    Vec<InsertCourse>,
    Vec<InsertRecipe>,
))
    requires
        a@.len() <= i32::MAX,
    ensures
        ({
            let views = recipe_views(a@);
            let books = distinct(book_names(views));
            let courses = distinct(course_names(views));
            &&& rows.0@.len() == books.len()
            &&& forall|i: int|
                0 <= i < books.len() ==> (#[trigger] rows.0@[i]).book_name@ == books[i]
                    && rows.0@[i].book_id == Some(i as i32)
            &&& rows.1@.len() == courses.len()
            &&& forall|i: int|
                0 <= i < courses.len() ==> (#[trigger] rows.1@[i]).course_name@ == courses[i]
                    && rows.1@[i].course_id == Some(i as i32)
            &&& rows.2@.len() == views.len()
            &&& forall|i: int| 0 <= i < views.len() ==> is_recipe_row(#[trigger] rows.2@[i], views, i)
        }),
{
    let ghost views = recipe_views(a@);
    let book_list = unique(collect_books(a));
    let course_list = unique(collect_courses(a));
    proof {
        lemma_distinct_len(book_names(views));
        lemma_distinct_len(course_names(views));
    }
    let mut books: Vec<InsertBook> = Vec::new();
    let mut i: usize = 0;
    while i < book_list.len()
        invariant
            i <= book_list.len(),
            book_list@.len() <= i32::MAX,
            books@.len() == i,
            forall|k: int|
                0 <= k < i ==> (#[trigger] books@[k]).book_name@ == texts(book_list@)[k]
                    && books@[k].book_id == Some(k as i32),
        decreases book_list.len() - i,
    {
        books.push(InsertBook::new(Some(i as i32), book_list[i].clone()));
        i += 1;
    }
    let mut courses: Vec<InsertCourse> = Vec::new();
    let mut j: usize = 0;
    while j < course_list.len()
        invariant
            j <= course_list.len(),
            course_list@.len() <= i32::MAX,
            courses@.len() == j,
            forall|k: int|
                0 <= k < j ==> (#[trigger] courses@[k]).course_name@ == texts(course_list@)[k]
                    && courses@[k].course_id == Some(k as i32),
        decreases course_list.len() - j,
    {
        courses.push(InsertCourse::new(Some(j as i32), course_list[j].clone()));
        j += 1;
    }
    let mut recipes: Vec<InsertRecipe> = Vec::new();
    let mut r: usize = 0;
    while r < a.len()
        invariant
            r <= a.len(),
            a@.len() <= i32::MAX,
            book_list@.len() <= i32::MAX,
            course_list@.len() <= i32::MAX,
            views == recipe_views(a@),
            texts(book_list@) == distinct(book_names(views)),
            texts(course_list@) == distinct(course_names(views)),
            recipes@.len() == r,
            forall|k: int| 0 <= k < r ==> is_recipe_row(#[trigger] recipes@[k], views, k),
        decreases a.len() - r,
    {
        let book_at = place_of(&book_list, &a[r].book);
        let course_at = place_of(&course_list, &a[r].course);
        let page = match a[r].page {
            Some(p) => Some(p as i32),
            None => None,
        };
        let row = InsertRecipe {
            primary_season: ESeason::value(a[r].season) as i32,
            course_id: course_at as i32,
            book_id: Some(book_at as i32),
            recipe_name: a[r].name.clone(),
            page,
            recipe_id: Some(r as i32),
        };
        assert(views[r as int] == a@[r as int]@);
        assert(is_recipe_row(row, views, r as int));
        recipes.push(row);
        r += 1;
    }
    (books, courses, recipes)
}

/// Dropping what occurs twice makes a list no longer.
pub proof fn lemma_distinct_len(s: Seq<Seq<char>>)
    ensures
        distinct(s).len() <= s.len(),
    decreases s.len(),
{
    if s.len() > 0 {
        lemma_distinct_len(s.drop_last());
    }
}

/// Where one of the first `n` recipes has the name, the last one with the name
/// is found, at that place or behind it.
pub proof fn lemma_last_named_found(a: Seq<ParseRecipeView>, name: Seq<char>, n: int, at: int)
    requires
        0 <= at < n <= a.len(),
        a[at].name == name,
    ensures
        at <= last_named(a, name, n) < n,
    decreases n,
{
    if a[n - 1].name != name {
        lemma_last_named_found(a, name, n - 1, at);
    }
}

} // verus!
