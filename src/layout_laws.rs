//! What the layout guarantees: lines fit the text area unless they hold a
//! single word too wide for it, and no line is placed below the bottom margin.
use vstd::prelude::*;
use crate::recipe::RecipeView;
use crate::text::is_ws;
use crate::layout::{
    fits, scan_words, words, pack, wrap_spec, is_one_word, PageGeometry, geometry_error,
    text_area, LineView, LayoutState, start_state, emit, emit_lines, Block,
    run_blocks, recipe_blocks, layout_spec,
};

verus! {

proof fn lemma_scan_words(s: Seq<char>)
    ensures
        forall|i: int|
            0 <= i < scan_words(s).0.len() ==> is_one_word(#[trigger] scan_words(s).0[i]),
        forall|i: int| 0 <= i < scan_words(s).1.len() ==> !is_ws(#[trigger] scan_words(s).1[i]),
    decreases s.len(),
{
    if s.len() > 0 {
        lemma_scan_words(s.drop_last());
        let (ws, cur) = scan_words(s.drop_last());
        let c = s.last();
        if !is_ws(c) {
            let next = cur.push(c);
            assert forall|i: int| 0 <= i < next.len() implies !is_ws(#[trigger] next[i]) by {
                if i < cur.len() {
                    assert(next[i] == cur[i]);
                }
            }
        }
    }
}

/// Every word of a text is a single word: not empty, no whitespace in it.
pub proof fn lemma_words_are_single(s: Seq<char>)
    ensures
        forall|i: int| 0 <= i < words(s).len() ==> is_one_word(#[trigger] words(s)[i]),
{
    lemma_scan_words(s);
}

proof fn lemma_pack(ws: Seq<Seq<char>>, size: int, avail: int)
    ensures
        forall|i: int|
            0 <= i < pack(ws, size, avail).0.len() ==> fits(
                (#[trigger] pack(ws, size, avail).0[i]).len() as int,
                size,
                avail,
            ) || ws.contains(pack(ws, size, avail).0[i]),
        pack(ws, size, avail).1.len() == 0 || fits(
            pack(ws, size, avail).1.len() as int,
            size,
            avail,
        ) || ws.contains(pack(ws, size, avail).1),
    decreases ws.len(),
{
    if ws.len() > 0 {
        let prev = ws.drop_last();
        lemma_pack(prev, size, avail);
        let (lines, cur) = pack(prev, size, avail);
        let w = ws.last();
        assert(ws[ws.len() - 1] == w);
        assert forall|x: Seq<char>| prev.contains(x) implies ws.contains(x) by {
            let k = choose|k: int| 0 <= k < prev.len() && prev[k] == x;
            assert(ws[k] == x);
        }
        if cur.len() != 0 && !fits(cur.len() + 1 + w.len() as int, size, avail) {
            assert forall|i: int| 0 <= i < lines.push(cur).len() implies fits(
                (#[trigger] lines.push(cur)[i]).len() as int,
                size,
                avail,
            ) || ws.contains(lines.push(cur)[i]) by {
                if i < lines.len() {
                    assert(lines.push(cur)[i] == lines[i]);
                }
            }
        }
    }
}

/// Word wrap: every line fits in `avail` at font size `size`, except a line
/// that holds one word of the text, alone and unsplit, which is too wide
/// for any line.
pub proof fn lemma_wrap_fits(s: Seq<char>, size: int, avail: int)
    ensures
        forall|i: int|
            0 <= i < wrap_spec(s, size, avail).len() ==> fits(
                (#[trigger] wrap_spec(s, size, avail)[i]).len() as int,
                size,
                avail,
            ) || (is_one_word(wrap_spec(s, size, avail)[i]) && words(s).contains(
                wrap_spec(s, size, avail)[i],
            )),
{
    let ws = words(s);
    lemma_words_are_single(s);
    lemma_pack(ws, size, avail);
    let (lines, cur) = pack(ws, size, avail);
    assert forall|i: int| 0 <= i < wrap_spec(s, size, avail).len() implies fits(
        (#[trigger] wrap_spec(s, size, avail)[i]).len() as int,
        size,
        avail,
    ) || (is_one_word(wrap_spec(s, size, avail)[i]) && words(s).contains(
        wrap_spec(s, size, avail)[i],
    )) by {
        let l = wrap_spec(s, size, avail)[i];
        if i < lines.len() {
            assert(l == lines[i]);
        } else {
            assert(l == cur);
        }
        if !fits(l.len() as int, size, avail) {
            let k = choose|k: int| 0 <= k < ws.len() && ws[k] == l;
            assert(is_one_word(ws[k]));
        }
    }
}

/// The texts joined with a single space between each two.
pub open spec fn unwords(ws: Seq<Seq<char>>) -> Seq<char>
    decreases ws.len(),
{
    if ws.len() == 0 {
        Seq::empty()
    } else if ws.len() == 1 {
        ws[0]
    } else {
        unwords(ws.drop_last()) + seq![' '] + ws.last()
    }
}

/// The finished lines of a packing followed by its current line, if any.
spec fn packed_lines(p: (Seq<Seq<char>>, Seq<char>)) -> Seq<Seq<char>> {
    if p.1.len() > 0 {
        p.0.push(p.1)
    } else {
        p.0
    }
}

proof fn lemma_unwords_push(ws: Seq<Seq<char>>, w: Seq<char>)
    ensures
        unwords(ws.push(w)) == if ws.len() == 0 {
            w
        } else {
            unwords(ws) + seq![' '] + w
        },
{
    assert(ws.push(w).drop_last() =~= ws);
    if ws.len() == 0 {
        assert(ws.push(w)[0] == w);
    }
}

proof fn lemma_pack_keeps_words(ws: Seq<Seq<char>>, size: int, avail: int)
    requires
        forall|i: int| 0 <= i < ws.len() ==> (#[trigger] ws[i]).len() > 0,
    ensures
        pack(ws, size, avail).1.len() == 0 ==> ws.len() == 0 && pack(ws, size, avail).0.len() == 0,
        unwords(packed_lines(pack(ws, size, avail))) == unwords(ws),
    decreases ws.len(),
{
    if ws.len() > 0 {
        let prev = ws.drop_last();
        assert forall|i: int| 0 <= i < prev.len() implies (#[trigger] prev[i]).len() > 0 by {
            assert(prev[i] == ws[i]);
        }
        lemma_pack_keeps_words(prev, size, avail);
        let (lines, cur) = pack(prev, size, avail);
        let w = ws.last();
        assert(ws[ws.len() - 1] == w);
        assert(prev.push(w) =~= ws);
        lemma_unwords_push(prev, w);
        if cur.len() == 0 {
            assert(Seq::<Seq<char>>::empty().push(w) =~= seq![w]);
            assert(unwords(seq![w]) == w);
        } else if fits(cur.len() + 1 + w.len() as int, size, avail) {
            let joined = cur + seq![' '] + w;
            lemma_unwords_push(lines, cur);
            lemma_unwords_push(lines, joined);
            if lines.len() > 0 {
                assert(unwords(lines) + seq![' '] + joined =~= unwords(lines) + seq![' '] + cur
                    + seq![' '] + w);
            }
        } else {
            lemma_unwords_push(lines, cur);
            lemma_unwords_push(lines.push(cur), w);
        }
    }
}

/// Word wrap neither loses, splits nor reorders words: the lines joined by
/// single spaces are the text's words joined by single spaces.
pub proof fn lemma_wrap_keeps_words(s: Seq<char>, size: int, avail: int)
    ensures
        unwords(wrap_spec(s, size, avail)) == unwords(words(s)),
{
    lemma_words_are_single(s);
    let ws = words(s);
    assert forall|i: int| 0 <= i < ws.len() implies (#[trigger] ws[i]).len() > 0 by {
        assert(is_one_word(ws[i]));
    }
    lemma_pack_keeps_words(ws, size, avail);
}

/// A placed line: between the bottom margin and the starting height, and
/// either fitting the text area or a single word.
pub open spec fn line_ok(l: LineView, g: PageGeometry) -> bool {
    &&& g.margin <= l.y <= g.starting_y
    &&& fits(l.text.len() as int, l.size, text_area(g)) || is_one_word(l.text)
}

pub open spec fn page_ok(p: Seq<LineView>, g: PageGeometry) -> bool {
    forall|i: int| 0 <= i < p.len() ==> line_ok(#[trigger] p[i], g)
}

pub open spec fn state_ok(st: LayoutState, g: PageGeometry) -> bool {
    &&& st.y <= g.starting_y
    &&& forall|p: int| 0 <= p < st.closed.len() ==> page_ok(#[trigger] st.closed[p], g)
    &&& page_ok(st.current, g)
}

/// Pagination: emitting a line whose cursor stands below the bottom margin
/// first closes the page and puts the line at the starting height of a new
/// one; otherwise the line goes on the open page at the cursor. Either way
/// the cursor afterwards stands at least at the bottom margin minus the
/// line's height (font size and line gap).
pub proof fn lemma_emit_breaks_page_first(
    st: LayoutState,
    g: PageGeometry,
    text: Seq<char>,
    size: int,
    x: int,
)
    requires
        geometry_error(g) is None,
    ensures
        st.y < g.margin ==> emit(st, g, text, size, x).closed == st.closed.push(st.current)
            && emit(st, g, text, size, x).current == seq![
            LineView { text, size, x, y: g.starting_y as int },
        ],
        st.y >= g.margin ==> emit(st, g, text, size, x).closed == st.closed && emit(
            st,
            g,
            text,
            size,
            x,
        ).current == st.current.push(LineView { text, size, x, y: st.y }),
        emit(st, g, text, size, x).y >= g.margin - (size + g.line_gap),
{
}

proof fn lemma_emit_ok(st: LayoutState, g: PageGeometry, text: Seq<char>, size: int, x: int)
    requires
        geometry_error(g) is None,
        state_ok(st, g),
        0 <= size,
        fits(text.len() as int, size, text_area(g)) || is_one_word(text),
    ensures
        state_ok(emit(st, g, text, size, x), g),
{
    let n = emit(st, g, text, size, x);
    let l = LineView { text, size, x, y: if st.y < g.margin { g.starting_y as int } else { st.y } };
    assert(line_ok(l, g));
    if st.y < g.margin {
        assert forall|p: int| 0 <= p < n.closed.len() implies page_ok(
            #[trigger] n.closed[p],
            g,
        ) by {
            if p < st.closed.len() {
                assert(n.closed[p] == st.closed[p]);
            }
        }
        assert(n.current[0] == l);
    } else {
        assert forall|i: int| 0 <= i < n.current.len() implies line_ok(
            #[trigger] n.current[i],
            g,
        ) by {
            if i < st.current.len() {
                assert(n.current[i] == st.current[i]);
            }
        }
    }
}

proof fn lemma_emit_lines_ok(
    st: LayoutState,
    g: PageGeometry,
    lines: Seq<Seq<char>>,
    size: int,
    x: int,
)
    requires
        geometry_error(g) is None,
        state_ok(st, g),
        0 <= size,
        forall|i: int|
            0 <= i < lines.len() ==> fits((#[trigger] lines[i]).len() as int, size, text_area(g))
                || is_one_word(lines[i]),
    ensures
        state_ok(emit_lines(st, g, lines, size, x), g),
    decreases lines.len(),
{
    if lines.len() > 0 {
        lemma_emit_lines_ok(st, g, lines.drop_last(), size, x);
        assert(lines[lines.len() - 1] == lines.last());
        lemma_emit_ok(emit_lines(st, g, lines.drop_last(), size, x), g, lines.last(), size, x);
    }
}

spec fn size_nonneg(b: Block) -> bool {
    b matches Block::Text { size, .. } ==> size >= 0
}

spec fn sizes_nonneg(bs: Seq<Block>) -> bool {
    forall|i: int| 0 <= i < bs.len() ==> size_nonneg(#[trigger] bs[i])
}

proof fn lemma_run_ok(st: LayoutState, g: PageGeometry, bs: Seq<Block>)
    requires
        geometry_error(g) is None,
        state_ok(st, g),
        sizes_nonneg(bs),
    ensures
        state_ok(run_blocks(st, g, bs), g),
    decreases bs.len(),
{
    if bs.len() > 0 {
        let prev = bs.drop_last();
        assert forall|i: int| 0 <= i < prev.len() implies size_nonneg(#[trigger] prev[i]) by {
            assert(prev[i] == bs[i]);
        }
        lemma_run_ok(st, g, prev);
        let mid = run_blocks(st, g, prev);
        assert(bs[bs.len() - 1] == bs.last());
        match bs.last() {
            Block::Text { text, size, x } => {
                lemma_wrap_fits(text, size, text_area(g));
                lemma_emit_lines_ok(mid, g, wrap_spec(text, size, text_area(g)), size, x);
            },
            Block::Gap => {},
        }
    }
}

/// Pagination and wrap of a whole document: every line of every page stands
/// between the bottom margin and the starting height, and fits the text area
/// unless it is a single word.
pub proof fn lemma_layout_lines_placed(r: RecipeView, g: PageGeometry, numbered: bool)
    requires
        geometry_error(g) is None,
    ensures
        forall|p: int, i: int|
            0 <= p < layout_spec(r, g, numbered).len() && 0 <= i < layout_spec(
                r,
                g,
                numbered,
            )[p].len()
                ==> line_ok(#[trigger] layout_spec(r, g, numbered)[p][i], g),
{
    let bs = recipe_blocks(r, g, numbered);
    let st0 = start_state(g);
    assert(state_ok(st0, g));
    assert(sizes_nonneg(bs));
    lemma_run_ok(st0, g, bs);
    let st = run_blocks(st0, g, bs);
    let pages = layout_spec(r, g, numbered);
    assert forall|p: int, i: int| 0 <= p < pages.len() && 0 <= i < pages[p].len() implies line_ok(
        #[trigger] pages[p][i],
        g,
    ) by {
        if p < st.closed.len() {
            assert(pages[p] == st.closed[p]);
            assert(page_ok(st.closed[p], g));
        } else {
            assert(pages[p] == st.current);
        }
    }
}

} // verus!
