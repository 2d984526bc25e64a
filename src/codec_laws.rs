//! What the record format guarantees: a recipe whose texts fit the format
//! decodes from its own record unchanged, and a record is a function of the
//! recipe alone.
use vstd::prelude::*;
use crate::recipe::{Recipe, RecipeView, empty_recipe};
use crate::text::{
    is_ws, is_blank, trim, trim_start, trim_end, find_from, split_lines, join_lines,
    lemma_split_lines_nonempty,
};
use crate::codec::{
    Section, ParseState, initial_state, apply_line, apply_plain, run_lines, decode_spec,
    encode_spec, header_line, section_lines, header_lines, record_lines, set_header,
};

verus! {

/// No `c` occurs in `s`.
pub open spec fn lacks(s: Seq<char>, c: char) -> bool {
    forall|i: int| 0 <= i < s.len() ==> s[i] != c
}

/// A header value that the record keeps as it is: no tab, no newline, and
/// no whitespace at either end.
pub open spec fn is_field_text(s: Seq<char>) -> bool {
    lacks(s, '\t') && lacks(s, '\n') && trim(s) == s
}

/// One of the six section markers.
pub open spec fn is_marker(s: Seq<char>) -> bool {
    s == "Ingredients Start"@ || s == "Instructions Start"@ || s == "Notes Start"@ || s
        == "Ingredients End"@ || s == "Instructions End"@ || s == "Notes End"@
}

/// A section line that the record keeps as it is: a non-empty field text
/// that is not a section marker.
pub open spec fn is_item_text(s: Seq<char>) -> bool {
    is_field_text(s) && s.len() > 0 && !is_marker(s)
}

/// A recipe that the record format represents exactly.
pub open spec fn encodable(r: RecipeView) -> bool {
    &&& is_field_text(r.title)
    &&& is_field_text(r.source)
    &&& is_field_text(r.servings)
    &&& is_field_text(r.prep_time)
    &&& is_field_text(r.cook_time)
    &&& is_field_text(r.total_time)
    &&& forall|i: int| 0 <= i < r.ingredients.len() ==> is_item_text(#[trigger] r.ingredients[i])
    &&& forall|i: int| 0 <= i < r.instructions.len() ==> is_item_text(#[trigger] r.instructions[i])
    &&& forall|i: int| 0 <= i < r.notes.len() ==> is_item_text(#[trigger] r.notes[i])
}

pub open spec fn start_marker(s: Section) -> Seq<char> {
    match s {
        Section::Ingredients => "Ingredients Start"@,
        Section::Instructions => "Instructions Start"@,
        Section::Notes => "Notes Start"@,
        Section::NoSection => Seq::empty(),
    }
}

pub open spec fn end_marker(s: Section) -> Seq<char> {
    match s {
        Section::Ingredients => "Ingredients End"@,
        Section::Instructions => "Instructions End"@,
        Section::Notes => "Notes End"@,
        Section::NoSection => Seq::empty(),
    }
}

/// `r` with `items` appended to the list of section `s`.
pub open spec fn append_items(r: RecipeView, s: Section, items: Seq<Seq<char>>) -> RecipeView {
    match s {
        Section::NoSection => r,
        Section::Ingredients => RecipeView { ingredients: r.ingredients + items, ..r },
        Section::Instructions => RecipeView { instructions: r.instructions + items, ..r },
        Section::Notes => RecipeView { notes: r.notes + items, ..r },
    }
}

proof fn lemma_split_append(s: Seq<char>, t: Seq<char>)
    requires
        lacks(t, '\n'),
    ensures
        split_lines(s).len() >= 1,
        split_lines(s + t) == split_lines(s).update(
            split_lines(s).len() - 1,
            split_lines(s).last() + t,
        ),
    decreases t.len(),
{
    lemma_split_lines_nonempty(s);
    let p = split_lines(s);
    if t.len() == 0 {
        assert(s + t =~= s);
        assert(p.update(p.len() - 1, p.last() + t) =~= p);
    } else {
        let t1 = t.drop_last();
        lemma_split_append(s, t1);
        assert((s + t).drop_last() =~= s + t1);
        assert((s + t).last() == t.last());
        assert(t.last() == t[t.len() - 1]);
        let prev = p.update(p.len() - 1, p.last() + t1);
        assert(prev.last().push(t.last()) =~= p.last() + t);
        assert(prev.update(prev.len() - 1, prev.last().push(t.last())) =~= p.update(
            p.len() - 1,
            p.last() + t,
        ));
    }
}

proof fn lemma_split_join(ls: Seq<Seq<char>>)
    requires
        forall|i: int| 0 <= i < ls.len() ==> lacks(#[trigger] ls[i], '\n'),
    ensures
        split_lines(join_lines(ls)) == ls.push(Seq::empty()),
    decreases ls.len(),
{
    if ls.len() == 0 {
        assert(split_lines(Seq::empty()) =~= seq![Seq::<char>::empty()]);
        assert(ls.push(Seq::empty()) =~= seq![Seq::<char>::empty()]);
    } else {
        let a = ls.drop_last();
        let l = ls.last();
        assert(lacks(ls[ls.len() - 1], '\n'));
        lemma_split_join(a);
        let j = join_lines(a);
        lemma_split_append(j, l);
        let whole = j + l + seq!['\n'];
        assert(whole.drop_last() =~= j + l);
        assert(whole.last() == '\n');
        assert(a.push(Seq::empty()).update(a.len() as int, Seq::<char>::empty() + l) =~= ls);
    }
}

proof fn lemma_run_push(st: ParseState, ls: Seq<Seq<char>>, l: Seq<char>)
    ensures
        run_lines(st, ls.push(l)) == apply_line(run_lines(st, ls), l),
{
    assert(ls.push(l).drop_last() =~= ls);
}

proof fn lemma_run_append(st: ParseState, a: Seq<Seq<char>>, b: Seq<Seq<char>>)
    ensures
        run_lines(st, a + b) == run_lines(run_lines(st, a), b),
    decreases b.len(),
{
    if b.len() == 0 {
        assert(a + b =~= a);
    } else {
        lemma_run_append(st, a, b.drop_last());
        assert((a + b).drop_last() =~= a + b.drop_last());
        assert((a + b).last() == b.last());
    }
}

proof fn lemma_find_at(s: Seq<char>, c: char, i: int, j: int)
    requires
        0 <= i <= j < s.len(),
        s[j] == c,
        forall|m: int| i <= m < j ==> s[m] != c,
    ensures
        find_from(s, c, i) == j,
    decreases j - i,
{
    if i < j {
        lemma_find_at(s, c, i + 1, j);
    }
}

proof fn lemma_find_none(s: Seq<char>, c: char, i: int)
    requires
        0 <= i <= s.len(),
        forall|m: int| i <= m < s.len() ==> s[m] != c,
    ensures
        find_from(s, c, i) == s.len(),
    decreases s.len() - i,
{
    if i < s.len() {
        lemma_find_none(s, c, i + 1);
    }
}

proof fn lemma_trim_end_nonempty(s: Seq<char>)
    requires
        s.len() > 0,
        !is_ws(s[0]),
    ensures
        trim_end(s).len() > 0,
    decreases s.len(),
{
    if is_ws(s.last()) {
        if s.len() == 1 {
            assert(s.last() == s[0]);
        } else {
            lemma_trim_end_nonempty(s.drop_last());
        }
    }
}

proof fn lemma_trim_fixed(s: Seq<char>)
    requires
        s.len() > 0,
        !is_ws(s[0]),
        !is_ws(s.last()),
    ensures
        trim(s) == s,
{
}

proof fn lemma_header(st: ParseState, key: Seq<char>, value: Seq<char>)
    requires
        key.len() > 0,
        lacks(key, '\t'),
        !is_ws(key[0]),
        trim(key) == key,
        trim(value) == value,
    ensures
        apply_line(st, header_line(key, value)) == (ParseState {
            recipe: set_header(st.recipe, key, value),
            ..st
        }),
{
    let line = header_line(key, value);
    assert(line[0] == key[0]);
    lemma_trim_end_nonempty(line);
    assert(line.len() > 0 && !is_ws(line[0]));
    assert(trim_start(line) == line);
    lemma_find_at(line, '\t', 0, key.len() as int);
    assert(line.take(key.len() as int) =~= key);
    assert(line.skip(key.len() as int + 1) =~= value);
}

proof fn lemma_plain(st: ParseState, t: Seq<char>)
    requires
        t.len() > 0,
        lacks(t, '\t'),
        trim(t) == t,
    ensures
        apply_line(st, t) == apply_plain(st, t),
{
    lemma_find_none(t, '\t', 0);
}

proof fn lemma_literal_facts()
    ensures
        is_field_text("Title"@) && "Title"@.len() > 0 && !is_ws("Title"@[0]),
        is_field_text("From"@) && "From"@.len() > 0 && !is_ws("From"@[0]),
        is_field_text("Servings"@) && "Servings"@.len() > 0 && !is_ws("Servings"@[0]),
        is_field_text("Prep Time"@) && "Prep Time"@.len() > 0 && !is_ws("Prep Time"@[0]),
        is_field_text("Cook Time"@) && "Cook Time"@.len() > 0 && !is_ws("Cook Time"@[0]),
        is_field_text("Total Time"@) && "Total Time"@.len() > 0 && !is_ws("Total Time"@[0]),
        "Title"@ != "From"@,
        "Title"@ != "Servings"@ && "From"@ != "Servings"@,
        "Title"@ != "Prep Time"@ && "From"@ != "Prep Time"@ && "Servings"@ != "Prep Time"@,
        "Title"@ != "Cook Time"@ && "From"@ != "Cook Time"@ && "Servings"@ != "Cook Time"@
            && "Prep Time"@ != "Cook Time"@,
        "Title"@ != "Total Time"@ && "From"@ != "Total Time"@ && "Servings"@ != "Total Time"@
            && "Prep Time"@ != "Total Time"@ && "Cook Time"@ != "Total Time"@,
{
    reveal_strlit("Title");
    reveal_strlit("From");
    reveal_strlit("Servings");
    reveal_strlit("Prep Time");
    reveal_strlit("Cook Time");
    reveal_strlit("Total Time");
    lemma_trim_fixed("Title"@);
    lemma_trim_fixed("From"@);
    lemma_trim_fixed("Servings"@);
    lemma_trim_fixed("Prep Time"@);
    lemma_trim_fixed("Cook Time"@);
    lemma_trim_fixed("Total Time"@);
    assert("Prep Time"@[0] != "Cook Time"@[0]);
}

proof fn lemma_marker_facts()
    ensures
        forall|s: Section|
            s != Section::NoSection ==> is_field_text(#[trigger] start_marker(s)) && start_marker(
                s,
            ).len() > 0 && is_field_text(end_marker(s)) && end_marker(s).len() > 0,
        "Ingredients Start"@ != "Instructions Start"@,
        "Ingredients Start"@ != "Notes Start"@,
        "Instructions Start"@ != "Notes Start"@,
        "Ingredients End"@ != "Ingredients Start"@,
        "Ingredients End"@ != "Instructions Start"@,
        "Ingredients End"@ != "Notes Start"@,
        "Instructions End"@ != "Ingredients Start"@,
        "Instructions End"@ != "Instructions Start"@,
        "Instructions End"@ != "Notes Start"@,
        "Instructions End"@ != "Ingredients End"@,
        "Notes End"@ != "Ingredients Start"@,
        "Notes End"@ != "Instructions Start"@,
        "Notes End"@ != "Notes Start"@,
        "Notes End"@ != "Ingredients End"@,
        "Notes End"@ != "Instructions End"@,
{
    reveal_strlit("Ingredients Start");
    reveal_strlit("Instructions Start");
    reveal_strlit("Notes Start");
    reveal_strlit("Ingredients End");
    reveal_strlit("Instructions End");
    reveal_strlit("Notes End");
    lemma_trim_fixed("Ingredients Start"@);
    lemma_trim_fixed("Instructions Start"@);
    lemma_trim_fixed("Notes Start"@);
    lemma_trim_fixed("Ingredients End"@);
    lemma_trim_fixed("Instructions End"@);
    lemma_trim_fixed("Notes End"@);
    assert("Ingredients Start"@[2] != "Instructions Start"@[2]);
    assert("Ingredients End"@[2] != "Instructions End"@[2]);
    assert("Ingredients End"@[12] != "Ingredients Start"@[12]);
    assert("Instructions End"@[13] != "Instructions Start"@[13]);
    assert("Notes End"@[6] != "Notes Start"@[6]);
}

proof fn lemma_markers(st: ParseState, s: Section)
    requires
        s != Section::NoSection,
    ensures
        apply_line(st, start_marker(s)) == (ParseState { section: s, ..st }),
        st.section == s ==> apply_line(st, end_marker(s)) == (ParseState {
            section: Section::NoSection,
            ..st
        }),
{
    lemma_marker_facts();
    lemma_plain(st, start_marker(s));
    lemma_plain(st, end_marker(s));
}

proof fn lemma_items(st: ParseState, items: Seq<Seq<char>>)
    requires
        st.section != Section::NoSection,
        forall|i: int| 0 <= i < items.len() ==> is_item_text(#[trigger] items[i]),
    ensures
        run_lines(st, items) == (ParseState {
            recipe: append_items(st.recipe, st.section, items),
            section: st.section,
        }),
    decreases items.len(),
{
    if items.len() == 0 {
        assert(st.recipe.ingredients + items =~= st.recipe.ingredients);
        assert(st.recipe.instructions + items =~= st.recipe.instructions);
        assert(st.recipe.notes + items =~= st.recipe.notes);
    } else {
        let a = items.drop_last();
        let l = items.last();
        assert(is_item_text(items[items.len() - 1]));
        lemma_items(st, a);
        let mid = ParseState {
            recipe: append_items(st.recipe, st.section, a),
            section: st.section,
        };
        lemma_plain(mid, l);
        assert((st.recipe.ingredients + a).push(l) =~= st.recipe.ingredients + items);
        assert((st.recipe.instructions + a).push(l) =~= st.recipe.instructions + items);
        assert((st.recipe.notes + a).push(l) =~= st.recipe.notes + items);
    }
}

proof fn lemma_section(st: ParseState, s: Section, items: Seq<Seq<char>>)
    requires
        s != Section::NoSection,
        forall|i: int| 0 <= i < items.len() ==> is_item_text(#[trigger] items[i]),
    ensures
        run_lines(st, section_lines(start_marker(s), items, end_marker(s))) == (ParseState {
            recipe: append_items(st.recipe, s, items),
            section: Section::NoSection,
        }),
{
    let st1 = ParseState { section: s, ..st };
    lemma_markers(st, s);
    lemma_items(st1, items);
    let st2 = run_lines(st1, items);
    lemma_markers(st2, s);
    let one = seq![start_marker(s)];
    lemma_run_push(st, Seq::empty(), start_marker(s));
    assert(Seq::<Seq<char>>::empty().push(start_marker(s)) =~= one);
    lemma_run_append(st, one, items);
    lemma_run_push(st, one + items, end_marker(s));
    assert((one + items).push(end_marker(s)) =~= section_lines(
        start_marker(s),
        items,
        end_marker(s),
    ));
}

proof fn lemma_lines_lack_newline(r: RecipeView)
    requires
        encodable(r),
    ensures
        forall|i: int|
            0 <= i < record_lines(r).len() ==> lacks(#[trigger] record_lines(r)[i], '\n'),
{
    lemma_literal_facts();
    lemma_marker_facts();
    assert(start_marker(Section::Ingredients) == "Ingredients Start"@);
    assert(start_marker(Section::Instructions) == "Instructions Start"@);
    assert(start_marker(Section::Notes) == "Notes Start"@);
    let h = header_lines(r);
    assert forall|i: int| 0 <= i < h.len() implies lacks(#[trigger] h[i], '\n') by {
        assert forall|k: int| 0 <= k < h[i].len() implies h[i][k] != '\n' by {
            if i == 0 {
                assert(h[i] == header_line("Title"@, r.title));
            } else if i == 1 {
                assert(h[i] == header_line("From"@, r.source));
            } else if i == 2 {
                assert(h[i] == header_line("Servings"@, r.servings));
            } else if i == 3 {
                assert(h[i] == header_line("Prep Time"@, r.prep_time));
            } else if i == 4 {
                assert(h[i] == header_line("Cook Time"@, r.cook_time));
            } else {
                assert(h[i] == header_line("Total Time"@, r.total_time));
            }
        }
    }
}

/// A recipe whose texts fit the record format (no tab or newline anywhere,
/// no whitespace at either end of a text, and section lines that are neither
/// empty nor a section marker) decodes from its own record unchanged.
pub proof fn lemma_decode_encode(r: RecipeView)
    requires
        encodable(r),
    ensures
        decode_spec(encode_spec(r)) == r,
{
    let lines = record_lines(r);
    lemma_lines_lack_newline(r);
    lemma_split_join(lines);
    lemma_run_push(initial_state(), lines, Seq::empty());
    assert(is_blank(Seq::<char>::empty()));
    lemma_literal_facts();
    let h = header_lines(r);
    let e = empty_recipe();
    let st0 = initial_state();
    lemma_header(st0, "Title"@, r.title);
    let st1 = ParseState { recipe: RecipeView { title: r.title, ..e }, ..st0 };
    lemma_header(st1, "From"@, r.source);
    let st2 = ParseState { recipe: RecipeView { source: r.source, ..st1.recipe }, ..st1 };
    lemma_header(st2, "Servings"@, r.servings);
    let st3 = ParseState { recipe: RecipeView { servings: r.servings, ..st2.recipe }, ..st2 };
    lemma_header(st3, "Prep Time"@, r.prep_time);
    let st4 = ParseState { recipe: RecipeView { prep_time: r.prep_time, ..st3.recipe }, ..st3 };
    lemma_header(st4, "Cook Time"@, r.cook_time);
    let st5 = ParseState { recipe: RecipeView { cook_time: r.cook_time, ..st4.recipe }, ..st4 };
    lemma_header(st5, "Total Time"@, r.total_time);
    let st6 = ParseState { recipe: RecipeView { total_time: r.total_time, ..st5.recipe }, ..st5 };
    let hs = Seq::<Seq<char>>::empty();
    lemma_run_push(st0, hs, h[0]);
    lemma_run_push(st0, hs.push(h[0]), h[1]);
    lemma_run_push(st0, hs.push(h[0]).push(h[1]), h[2]);
    lemma_run_push(st0, hs.push(h[0]).push(h[1]).push(h[2]), h[3]);
    lemma_run_push(st0, hs.push(h[0]).push(h[1]).push(h[2]).push(h[3]), h[4]);
    lemma_run_push(st0, hs.push(h[0]).push(h[1]).push(h[2]).push(h[3]).push(h[4]), h[5]);
    assert(hs.push(h[0]).push(h[1]).push(h[2]).push(h[3]).push(h[4]).push(h[5]) =~= h);
    assert(run_lines(st0, h) == st6);
    let s1 = section_lines("Ingredients Start"@, r.ingredients, "Ingredients End"@);
    let s2 = section_lines("Instructions Start"@, r.instructions, "Instructions End"@);
    let s3 = section_lines("Notes Start"@, r.notes, "Notes End"@);
    lemma_run_append(st0, h, s1);
    lemma_run_append(st0, h + s1, s2);
    lemma_run_append(st0, h + s1 + s2, s3);
    lemma_section(st6, Section::Ingredients, r.ingredients);
    let st7 = run_lines(st6, s1);
    lemma_section(st7, Section::Instructions, r.instructions);
    let st8 = run_lines(st7, s2);
    lemma_section(st8, Section::Notes, r.notes);
    let st9 = run_lines(st8, s3);
    assert(Seq::<Seq<char>>::empty() + r.ingredients =~= r.ingredients);
    assert(Seq::<Seq<char>>::empty() + r.instructions =~= r.instructions);
    assert(Seq::<Seq<char>>::empty() + r.notes =~= r.notes);
    assert(st9.recipe == r);
}

/// Encoding is a function of the recipe: two recipes with the same content
/// give the same record, character for character.
pub proof fn lemma_encode_deterministic(a: &Recipe, b: &Recipe)
    requires
        a@ == b@,
    ensures
        encode_spec(a@) == encode_spec(b@),
{
}

} // verus!
