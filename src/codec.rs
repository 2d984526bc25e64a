//! The textual record format of a recipe: six tab-separated header lines,
//! then the `Ingredients`, `Instructions` and `Notes` sections, each between a
//! `<Name> Start` and a `<Name> End` line.
use vstd::prelude::*;
use crate::recipe::{Recipe, RecipeView, empty_recipe, texts, lemma_texts_push};
use crate::text::{
    is_blank, trim, find_from, split_lines, join_lines, chars_of, string_of, trim_bounds,
    range_is, find_char, push_line,
};

verus! {

/// The section that the decoder is in.
#[derive(Clone, Copy, Debug, PartialEq, Eq, Structural)]
pub enum Section {
    NoSection,
    Ingredients,
    Instructions,
    Notes,
}

/// Why a strict decode refused a record.
#[derive(Clone, Copy, Debug, PartialEq, Eq, Structural)]
pub enum DecodeError {
    /// The record ended inside a section that was never closed.
    Malformed,
}

/// The decoder's state between two lines.
pub ghost struct ParseState {
    pub recipe: RecipeView,
    pub section: Section,
}

/// Before the first line: an empty recipe, no section open.
pub open spec fn initial_state() -> ParseState {
    ParseState { recipe: empty_recipe(), section: Section::NoSection }
}

/// The recipe with the header `key` set to `value`; an unknown key changes nothing.
pub open spec fn set_header(r: RecipeView, key: Seq<char>, value: Seq<char>) -> RecipeView {
    if key == "Title"@ {
        RecipeView { title: value, ..r }
    } else if key == "From"@ {
        RecipeView { source: value, ..r }
    } else if key == "Servings"@ {
        RecipeView { servings: value, ..r }
    } else if key == "Prep Time"@ {
        RecipeView { prep_time: value, ..r }
    } else if key == "Cook Time"@ {
        RecipeView { cook_time: value, ..r }
    } else if key == "Total Time"@ {
        RecipeView { total_time: value, ..r }
    } else {
        r
    }
}

/// The recipe with `line` appended to the open section, if any.
pub open spec fn add_body(r: RecipeView, section: Section, line: Seq<char>) -> RecipeView {
    match section {
        Section::NoSection => r,
        Section::Ingredients => RecipeView { ingredients: r.ingredients.push(line), ..r },
        Section::Instructions => RecipeView { instructions: r.instructions.push(line), ..r },
        Section::Notes => RecipeView { notes: r.notes.push(line), ..r },
    }
}

/// What a trimmed line without a tab does: a `Start` marker opens its
/// section, an `End` marker closes its own section and is otherwise ignored,
/// any other line is a body line of the open section.
pub open spec fn apply_plain(st: ParseState, t: Seq<char>) -> ParseState {
    if t == "Ingredients Start"@ {
        ParseState { section: Section::Ingredients, ..st }
    } else if t == "Instructions Start"@ {
        ParseState { section: Section::Instructions, ..st }
    } else if t == "Notes Start"@ {
        ParseState { section: Section::Notes, ..st }
    } else if t == "Ingredients End"@ {
        if st.section == Section::Ingredients {
            ParseState { section: Section::NoSection, ..st }
        } else {
            st
        }
    } else if t == "Instructions End"@ {
        if st.section == Section::Instructions {
            ParseState { section: Section::NoSection, ..st }
        } else {
            st
        }
    } else if t == "Notes End"@ {
        if st.section == Section::Notes {
            ParseState { section: Section::NoSection, ..st }
        } else {
            st
        }
    } else {
        ParseState { recipe: add_body(st.recipe, st.section, t), ..st }
    }
}

/// One line's effect: blank lines are skipped; a line with a tab is a header
/// whose key is the trimmed text before the first tab and whose value is the
/// trimmed text after it; any other line goes to `apply_plain`, trimmed.
pub open spec fn apply_line(st: ParseState, line: Seq<char>) -> ParseState {
    let k = find_from(line, '\t', 0);
    if is_blank(line) {
        st
    } else if k < line.len() {
        ParseState {
            recipe: set_header(st.recipe, trim(line.take(k)), trim(line.skip(k + 1))),
            ..st
        }
    } else {
        apply_plain(st, trim(line))
    }
}

/// The state after `lines`, one by one, starting from `st`.
pub open spec fn run_lines(st: ParseState, lines: Seq<Seq<char>>) -> ParseState
    decreases lines.len(),
{
    if lines.len() == 0 {
        st
    } else {
        apply_line(run_lines(st, lines.drop_last()), lines.last())
    }
}

/// The decoder's state at the end of `text`.
pub open spec fn final_state(text: Seq<char>) -> ParseState {
    run_lines(initial_state(), split_lines(text))
}

/// The recipe that a record decodes to.
pub open spec fn decode_spec(text: Seq<char>) -> RecipeView {
    final_state(text).recipe
}

struct LineParser {
    recipe: Recipe,
    section: Section,
}

impl LineParser {
    spec fn state(&self) -> ParseState {
        ParseState { recipe: self.recipe@, section: self.section }
    }

    fn set_header(&mut self, v: &Vec<char>, ka: usize, kb: usize, va: usize, vb: usize)
        requires
            ka <= kb <= v@.len(),
            va <= vb <= v@.len(),
        ensures
            final(self).state() == (ParseState {
                recipe: set_header(
                    old(self).state().recipe,
                    v@.subrange(ka as int, kb as int),
                    v@.subrange(va as int, vb as int),
                ),
                ..old(self).state()
            }),
    {
        if range_is(v, ka, kb, "Title") {
            self.recipe.title = string_of(v, va, vb);
        } else if range_is(v, ka, kb, "From") {
            self.recipe.source = string_of(v, va, vb);
        } else if range_is(v, ka, kb, "Servings") {
            self.recipe.servings = string_of(v, va, vb);
        } else if range_is(v, ka, kb, "Prep Time") {
            self.recipe.prep_time = string_of(v, va, vb);
        } else if range_is(v, ka, kb, "Cook Time") {
            self.recipe.cook_time = string_of(v, va, vb);
        } else if range_is(v, ka, kb, "Total Time") {
            self.recipe.total_time = string_of(v, va, vb);
        }
    }

    fn close(&mut self, s: Section)
        ensures
            final(self).state() == (if old(self).section == s {
                ParseState { section: Section::NoSection, ..old(self).state() }
            } else {
                old(self).state()
            }),
    {
        if self.section == s {
            self.section = Section::NoSection;
        }
    }

    fn add_body(&mut self, v: &Vec<char>, a: usize, b: usize)
        requires
            a <= b <= v@.len(),
        ensures
            final(self).state() == (ParseState {
                recipe: add_body(
                    old(self).state().recipe,
                    old(self).section,
                    v@.subrange(a as int, b as int),
                ),
                ..old(self).state()
            }),
    {
        let s = string_of(v, a, b);
        proof {
            lemma_texts_push(self.recipe.ingredients@, s);
            lemma_texts_push(self.recipe.instructions@, s);
            lemma_texts_push(self.recipe.notes@, s);
        }
        match self.section {
            Section::NoSection => {},
            Section::Ingredients => self.recipe.ingredients.push(s),
            Section::Instructions => self.recipe.instructions.push(s),
            Section::Notes => self.recipe.notes.push(s),
        }
    }

    fn apply_plain(&mut self, v: &Vec<char>, a: usize, b: usize)
        requires
            a <= b <= v@.len(),
        ensures
            final(self).state() == apply_plain(old(self).state(), v@.subrange(a as int, b as int)),
    {
        if range_is(v, a, b, "Ingredients Start") {
            self.section = Section::Ingredients;
        } else if range_is(v, a, b, "Instructions Start") {
            self.section = Section::Instructions;
        } else if range_is(v, a, b, "Notes Start") {
            self.section = Section::Notes;
        } else if range_is(v, a, b, "Ingredients End") {
            self.close(Section::Ingredients);
        } else if range_is(v, a, b, "Instructions End") {
            self.close(Section::Instructions);
        } else if range_is(v, a, b, "Notes End") {
            self.close(Section::Notes);
        } else {
            self.add_body(v, a, b);
        }
    }

    fn apply_line(&mut self, v: &Vec<char>, a: usize, b: usize)
        requires
            a <= b <= v@.len(),
        ensures
            final(self).state() == apply_line(old(self).state(), v@.subrange(a as int, b as int)),
    {
        let ghost line = v@.subrange(a as int, b as int);
        let (ta, tb) = trim_bounds(v, a, b);
        if ta == tb {
            return ;
        }
        let k = find_char(v, a, b, '\t');
        if k < b {
            let (ka, kb) = trim_bounds(v, a, k);
            let (va, vb) = trim_bounds(v, k + 1, b);
            assert(line.take(k - a) =~= v@.subrange(a as int, k as int));
            assert(line.skip(k - a + 1) =~= v@.subrange(k + 1, b as int));
            self.set_header(v, ka, kb, va, vb);
        } else {
            self.apply_plain(v, ta, tb);
        }
    }
}

/// Decodes a record. Never fails: unknown header keys and lines outside any
/// section are ignored, and a section left open runs to the end of the text.
pub fn decode(text: &str) -> (r: Recipe)
    ensures
        r@ == decode_spec(text@),
{
    let (r, _) = decode_with_section(text);
    r
}

/// Decodes a record, and refuses one that ends inside an open section.
pub fn decode_strict(text: &str) -> (r: Result<Recipe, DecodeError>)
    ensures
        final_state(text@).section == Section::NoSection ==> (r matches Ok(rec) && rec@
            == decode_spec(text@)),
        final_state(text@).section != Section::NoSection ==> r == Err::<Recipe, DecodeError>(
            DecodeError::Malformed,
        ),
{
    let (r, s) = decode_with_section(text);
    if s == Section::NoSection {
        Ok(r)
    } else {
        Err(DecodeError::Malformed)
    }
}

fn decode_with_section(text: &str) -> (r: (Recipe, Section))
    ensures
        (ParseState { recipe: r.0@, section: r.1 }) == final_state(text@),
{
    let v = chars_of(text);
    let mut p = LineParser { recipe: Recipe::new(), section: Section::NoSection };
    let mut start: usize = 0;
    let mut i: usize = 0;
    assert(v@.take(0) =~= Seq::<char>::empty());
    assert(split_lines(v@.take(0)).drop_last() =~= Seq::<Seq<char>>::empty());
    while i < v.len()
        invariant
            v@ == text@,
            start <= i <= v@.len(),
            split_lines(v@.take(i as int)).len() >= 1,
            p.state() == run_lines(initial_state(), split_lines(v@.take(i as int)).drop_last()),
            split_lines(v@.take(i as int)).last() == v@.subrange(start as int, i as int),
        decreases v@.len() - i,
    {
        let ghost prev = split_lines(v@.take(i as int));
        assert(v@.take(i + 1).drop_last() =~= v@.take(i as int));
        assert(v@.take(i + 1).last() == v@[i as int]);
        if v[i] == '\n' {
            p.apply_line(&v, start, i);
            assert(split_lines(v@.take(i + 1)) == prev.push(Seq::empty()));
            assert(prev.push(Seq::empty()).drop_last() =~= prev);
            assert(prev =~= prev.drop_last().push(prev.last()));
            i += 1;
            start = i;
            assert(v@.subrange(start as int, i as int) =~= Seq::<char>::empty());
        } else {
            let ghost next = prev.update(prev.len() - 1, prev.last().push(v@[i as int]));
            assert(split_lines(v@.take(i + 1)) == next);
            assert(next.drop_last() =~= prev.drop_last());
            assert(v@.subrange(start as int, i + 1) =~= prev.last().push(v@[i as int]));
            i += 1;
        }
    }
    let ghost all = split_lines(v@.take(i as int));
    assert(v@.take(i as int) =~= v@);
    assert(all =~= all.drop_last().push(all.last()));
    p.apply_line(&v, start, i);
    (p.recipe, p.section)
}

/// A header line: the key, a tab, the value.
pub open spec fn header_line(key: Seq<char>, value: Seq<char>) -> Seq<char> {
    key + seq!['\t'] + value
}

/// A section: its start marker, one line per item, its end marker.
pub open spec fn section_lines(
    start: Seq<char>,
    items: Seq<Seq<char>>,
    end: Seq<char>,
) -> Seq<Seq<char>> {
    seq![start] + items + seq![end]
}

/// The six header lines of a record, in their fixed order.
pub open spec fn header_lines(r: RecipeView) -> Seq<Seq<char>> {
    seq![
        header_line("Title"@, r.title),
        header_line("From"@, r.source),
        header_line("Servings"@, r.servings),
        header_line("Prep Time"@, r.prep_time),
        header_line("Cook Time"@, r.cook_time),
        header_line("Total Time"@, r.total_time),
    ]
}

/// The lines of the record of `r`.
pub open spec fn record_lines(r: RecipeView) -> Seq<Seq<char>> {
    header_lines(r) + section_lines("Ingredients Start"@, r.ingredients, "Ingredients End"@)
        + section_lines("Instructions Start"@, r.instructions, "Instructions End"@)
        + section_lines("Notes Start"@, r.notes, "Notes End"@)
}

/// The record of `r`: each of its lines followed by a newline.
pub open spec fn encode_spec(r: RecipeView) -> Seq<char> {
    join_lines(record_lines(r))
}

pub proof fn lemma_join_append(a: Seq<Seq<char>>, b: Seq<Seq<char>>)
    ensures
        join_lines(a + b) == join_lines(a) + join_lines(b),
    decreases b.len(),
{
    if b.len() == 0 {
        assert(a + b =~= a);
        assert(join_lines(a) + join_lines(b) =~= join_lines(a));
    } else {
        lemma_join_append(a, b.drop_last());
        assert((a + b).drop_last() =~= a + b.drop_last());
        assert((a + b).last() == b.last());
        assert(join_lines(a + b) =~= join_lines(a) + join_lines(b));
    }
}

proof fn lemma_join_push(a: Seq<Seq<char>>, l: Seq<char>)
    ensures
        join_lines(a.push(l)) == join_lines(a) + l + seq!['\n'],
{
    assert(a.push(l).drop_last() =~= a);
}

proof fn lemma_join_one(l: Seq<char>)
    ensures
        join_lines(seq![l]) == l + seq!['\n'],
{
    lemma_join_push(Seq::empty(), l);
    assert(Seq::<Seq<char>>::empty().push(l) =~= seq![l]);
    assert(Seq::<char>::empty() + l =~= l);
}

fn push_header(out: &mut String, key: &str, value: &String)
    ensures
        final(out)@ == old(out)@ + join_lines(seq![header_line(key@, value@)]),
{
    out.append(key);
    out.push('\t');
    out.append(value.as_str());
    out.push('\n');
    proof {
        lemma_join_one(header_line(key@, value@));
    }
    assert(final(out)@ =~= old(out)@ + join_lines(seq![header_line(key@, value@)]));
}

fn push_section(out: &mut String, start: &str, items: &Vec<String>, end: &str)
    ensures
        final(out)@ == old(out)@ + join_lines(section_lines(start@, texts(items@), end@)),
{
    let ghost base = out@;
    push_line(out, start);
    proof {
        lemma_join_one(start@);
    }
    let mut i: usize = 0;
    while i < items.len()
        invariant
            i <= items@.len(),
            out@ == base + join_lines(seq![start@] + texts(items@).take(i as int)),
        decreases items@.len() - i,
    {
        push_line(out, items[i].as_str());
        proof {
            let prefix = seq![start@] + texts(items@).take(i as int);
            lemma_join_push(prefix, items@[i as int]@);
            assert(seq![start@] + texts(items@).take(i + 1) =~= prefix.push(items@[i as int]@));
        }
        i += 1;
    }
    push_line(out, end);
    proof {
        let all = seq![start@] + texts(items@).take(i as int);
        lemma_join_push(all, end@);
        assert(texts(items@).take(i as int) =~= texts(items@));
        assert(all.push(end@) =~= section_lines(start@, texts(items@), end@));
    }
    assert(final(out)@ =~= base + join_lines(section_lines(start@, texts(items@), end@)));
}

/// The record of a recipe: the six header lines, then the three sections.
pub fn encode(r: &Recipe) -> (out: String)
    ensures
        out@ == encode_spec(r@),
{
    let mut out = String::new();
    push_header(&mut out, "Title", &r.title);
    push_header(&mut out, "From", &r.source);
    push_header(&mut out, "Servings", &r.servings);
    push_header(&mut out, "Prep Time", &r.prep_time);
    push_header(&mut out, "Cook Time", &r.cook_time);
    push_header(&mut out, "Total Time", &r.total_time);
    push_section(&mut out, "Ingredients Start", &r.ingredients, "Ingredients End");
    push_section(&mut out, "Instructions Start", &r.instructions, "Instructions End");
    push_section(&mut out, "Notes Start", &r.notes, "Notes End");
    proof {
        let v = r@;
        let h = header_lines(v);
        let s1 = section_lines("Ingredients Start"@, v.ingredients, "Ingredients End"@);
        let s2 = section_lines("Instructions Start"@, v.instructions, "Instructions End"@);
        let s3 = section_lines("Notes Start"@, v.notes, "Notes End"@);
        let h1 = seq![h[0]];
        let h2 = seq![h[1]];
        let h3 = seq![h[2]];
        let h4 = seq![h[3]];
        let h5 = seq![h[4]];
        let h6 = seq![h[5]];
        assert(h =~= h1 + h2 + h3 + h4 + h5 + h6);
        lemma_join_append(h1, h2);
        lemma_join_append(h1 + h2, h3);
        lemma_join_append(h1 + h2 + h3, h4);
        lemma_join_append(h1 + h2 + h3 + h4, h5);
        lemma_join_append(h1 + h2 + h3 + h4 + h5, h6);
        lemma_join_append(h, s1);
        lemma_join_append(h + s1, s2);
        lemma_join_append(h + s1 + s2, s3);
        assert(Seq::<char>::empty() + join_lines(h1) =~= join_lines(h1));
    }
    assert(out@ =~= encode_spec(r@));
    out
}

} // verus!
