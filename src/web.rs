//! The list items of the web pages that show the schedule report and the
//! shopping list.
use vstd::prelude::*;
use crate::text::{
    trim, text_lines_spec, join_newline, text_lines, push_joined, chars_of, string_of, trim_bounds,
};

verus! {

/// The index of the first `": "` in `s` at or after `i`, or `s.len()`.
pub open spec fn find_separator(s: Seq<char>, i: int) -> int
    decreases s.len() - i,
{
    if i < 0 || i + 1 >= s.len() {
        s.len() as int
    } else if s[i] == ':' && s[i + 1] == ' ' {
        i
    } else {
        find_separator(s, i + 1)
    }
}

/// A report line as a day card: the text before the first `": "` as its
/// heading and the rest as the meal; a line without `": "` is both.
pub open spec fn schedule_item(l: Seq<char>) -> Seq<char> {
    let k = find_separator(l, 0);
    if k < l.len() {
        "<div class=\"day\"><h2>"@ + l.take(k) + "</h2> <p class=\"meal\">"@ + l.skip(k + 2)
            + "</p></div>"@
    } else {
        "<h2>"@ + l + "</h2> <p class=\"meal\">"@ + l + "</p>"@
    }
}

/// A shopping-list line as a paragraph, trimmed.
pub open spec fn ingredient_item(l: Seq<char>) -> Seq<char> {
    "<p class=\"item\">"@ + trim(l) + "</p>"@
}

fn schedule_item_html(line: &str) -> (r: String)
    ensures
        r@ == schedule_item(line@),
{
    let v = chars_of(line);
    let n = v.len();
    let mut k: usize = 0;
    while n > 0 && k < n - 1 && !(v[k] == ':' && v[k + 1] == ' ')
        invariant
            v@ == line@,
            n == v@.len(),
            k <= n,
            find_separator(v@, 0) == find_separator(v@, k as int),
        decreases n - k,
    {
        k += 1;
    }
    let mut r = String::new();
    if n > 0 && k < n - 1 {
        r.append("<div class=\"day\"><h2>");
        r.append(string_of(&v, 0, k).as_str());
        r.append("</h2> <p class=\"meal\">");
        r.append(string_of(&v, k + 2, n).as_str());
        r.append("</p></div>");
        assert(v@.take(k as int) =~= v@.subrange(0, k as int));
        assert(v@.skip(k + 2) =~= v@.subrange(k + 2, n as int));
    } else {
        r.append("<h2>");
        r.append(line);
        r.append("</h2> <p class=\"meal\">");
        r.append(line);
        r.append("</p>");
    }
    assert(r@ =~= schedule_item(line@));
    r
}

fn ingredient_item_html(line: &str) -> (r: String)
    ensures
        r@ == ingredient_item(line@),
{
    let v = chars_of(line);
    let (a, b) = trim_bounds(&v, 0, v.len());
    assert(v@.subrange(0, v@.len() as int) =~= v@);
    let mut r = String::new();
    r.append("<p class=\"item\">");
    r.append(string_of(&v, a, b).as_str());
    r.append("</p>");
    assert(r@ =~= ingredient_item(line@));
    r
}

/// The day cards of a schedule report, one per line, separated by newlines.
pub fn schedule_items_html(contents: &str) -> (r: String)
    ensures
        r@ == join_newline(text_lines_spec(contents@).map_values(|l: Seq<char>| schedule_item(l))),
{
    let lines = text_lines(contents);
    let ghost ls = text_lines_spec(contents@);
    let mut items: Vec<String> = Vec::new();
    let mut i: usize = 0;
    while i < lines.len()
        invariant
            lines@.map_values(|l: String| l@) == ls,
            i <= lines@.len(),
            items@.map_values(|l: String| l@) == ls.take(i as int).map_values(
                |l: Seq<char>| schedule_item(l),
            ),
        decreases lines@.len() - i,
    {
        let ghost before = items@;
        let item = schedule_item_html(lines[i].as_str());
        items.push(item);
        assert(ls[i as int] == lines@[i as int]@);
        assert(items@.map_values(|l: String| l@) =~= before.map_values(|l: String| l@).push(item@));
        let ghost f = |l: Seq<char>| schedule_item(l);
        assert(ls.take(i + 1).map_values(f) =~= ls.take(i as int).map_values(f).push(
            f(ls[i as int]),
        ));
        assert(items@.map_values(|l: String| l@) =~= ls.take(i + 1).map_values(
            |l: Seq<char>| schedule_item(l),
        ));
        i += 1;
    }
    assert(ls.take(i as int) =~= ls);
    let mut r = String::new();
    push_joined(&mut r, &items);
    assert(r@ =~= join_newline(ls.map_values(|l: Seq<char>| schedule_item(l))));
    r
}

/// The paragraphs of a shopping list, one per line, trimmed, separated by
/// newlines.
pub fn ingredient_items_html(contents: &str) -> (r: String)
    ensures
        r@ == join_newline(
            text_lines_spec(contents@).map_values(|l: Seq<char>| ingredient_item(l)),
        ),
{
    let lines = text_lines(contents);
    let ghost ls = text_lines_spec(contents@);
    let mut items: Vec<String> = Vec::new();
    let mut i: usize = 0;
    while i < lines.len()
        invariant
            lines@.map_values(|l: String| l@) == ls,
            i <= lines@.len(),
            items@.map_values(|l: String| l@) == ls.take(i as int).map_values(
                |l: Seq<char>| ingredient_item(l),
            ),
        decreases lines@.len() - i,
    {
        let ghost before = items@;
        let item = ingredient_item_html(lines[i].as_str());
        items.push(item);
        assert(ls[i as int] == lines@[i as int]@);
        assert(items@.map_values(|l: String| l@) =~= before.map_values(|l: String| l@).push(item@));
        let ghost f = |l: Seq<char>| ingredient_item(l);
        assert(ls.take(i + 1).map_values(f) =~= ls.take(i as int).map_values(f).push(
            f(ls[i as int]),
        ));
        assert(items@.map_values(|l: String| l@) =~= ls.take(i + 1).map_values(
            |l: Seq<char>| ingredient_item(l),
        ));
        i += 1;
    }
    assert(ls.take(i as int) =~= ls);
    let mut r = String::new();
    push_joined(&mut r, &items);
    assert(r@ =~= join_newline(ls.map_values(|l: Seq<char>| ingredient_item(l))));
    r
}

} // verus!
