//! The layout engine: word wrap and pagination of a recipe into pages of
//! positioned, sized lines of text. All lengths share one unit (font sizes
//! included); text width is estimated from the number of characters.
use vstd::prelude::*;
use crate::recipe::{Recipe, RecipeView, texts};
use crate::text::{is_ws, chars_of, is_whitespace};

verus! {

/// Whether `n` characters at font size `size` fit in `avail`: the width of a
/// character is estimated at three fifths of the font size.
pub open spec fn fits(n: int, size: int, avail: int) -> bool {
    3 * n * size <= 5 * avail
}

/// The words of `s` so far, and the word being read: a left-to-right scan.
pub open spec fn scan_words(s: Seq<char>) -> (Seq<Seq<char>>, Seq<char>)
    decreases s.len(),
{
    if s.len() == 0 {
        (Seq::empty(), Seq::empty())
    } else {
        let (ws, cur) = scan_words(s.drop_last());
        let c = s.last();
        if is_ws(c) {
            if cur.len() > 0 {
                (ws.push(cur), Seq::empty())
            } else {
                (ws, Seq::empty())
            }
        } else {
            (ws, cur.push(c))
        }
    }
}

/// The words of `s`: its maximal runs of non-whitespace characters, in order.
pub open spec fn words(s: Seq<char>) -> Seq<Seq<char>> {
    let (ws, cur) = scan_words(s);
    if cur.len() > 0 {
        ws.push(cur)
    } else {
        ws
    }
}

/// Greedy packing of `ws`: the finished lines and the line being filled. A
/// word joins the current line, after a space, while the line still fits;
/// otherwise it starts the next line, alone even when it does not fit.
pub open spec fn pack(ws: Seq<Seq<char>>, size: int, avail: int) -> (Seq<Seq<char>>, Seq<char>)
    decreases ws.len(),
{
    if ws.len() == 0 {
        (Seq::empty(), Seq::empty())
    } else {
        let (lines, cur) = pack(ws.drop_last(), size, avail);
        let w = ws.last();
        if cur.len() == 0 {
            (lines, w)
        } else if fits(cur.len() + 1 + w.len() as int, size, avail) {
            (lines, cur + seq![' '] + w)
        } else {
            (lines.push(cur), w)
        }
    }
}

/// The lines that `s` wraps into at font size `size` in a width of `avail`.
pub open spec fn wrap_spec(s: Seq<char>, size: int, avail: int) -> Seq<Seq<char>> {
    let (lines, cur) = pack(words(s), size, avail);
    if cur.len() > 0 {
        lines.push(cur)
    } else {
        lines
    }
}

/// A single word: not empty, and no whitespace in it.
pub open spec fn is_one_word(s: Seq<char>) -> bool {
    s.len() > 0 && forall|i: int| 0 <= i < s.len() ==> !is_ws(#[trigger] s[i])
}

/// The words of `text`, in order.
pub fn split_words(text: &str) -> (r: Vec<String>)
    ensures
        texts(r@) == words(text@),
{
    let v = chars_of(text);
    let mut r: Vec<String> = Vec::new();
    let mut cur = String::new();
    let mut i: usize = 0;
    while i < v.len()
        invariant
            v@ == text@,
            i <= v@.len(),
            (texts(r@), cur@) == scan_words(v@.take(i as int)),
        decreases v@.len() - i,
    {
        let ghost before = r@;
        assert(v@.take(i + 1).drop_last() =~= v@.take(i as int));
        assert(v@.take(i + 1).last() == v@[i as int]);
        let c = v[i];
        if is_whitespace(c) {
            if !cur.as_str().is_empty() {
                let w = cur;
                cur = String::new();
                r.push(w);
                assert(texts(r@) =~= texts(before).push(w@));
            }
        } else {
            cur.push(c);
        }
        i += 1;
    }
    assert(v@.take(i as int) =~= v@);
    if !cur.as_str().is_empty() {
        let ghost before = r@;
        r.push(cur);
        assert(texts(r@) =~= texts(before).push(cur@));
    }
    r
}

/// The lines that `text` wraps into at font size `size` in a width of
/// `avail`: its words, in order, each line holding as many as fit, separated
/// by single spaces; a word too wide for any line stands alone on its own.
pub fn wrap_text(text: &str, size: u32, avail: u32) -> (r: Vec<String>)
    ensures
        texts(r@) == wrap_spec(text@, size as int, avail as int),
{
    let ws = split_words(text);
    let ghost wv = texts(ws@);
    let mut lines: Vec<String> = Vec::new();
    let mut cur = String::new();
    let mut i: usize = 0;
    while i < ws.len()
        invariant
            wv == texts(ws@),
            wv == words(text@),
            i <= ws@.len(),
            (texts(lines@), cur@) == pack(wv.take(i as int), size as int, avail as int),
        decreases ws@.len() - i,
    {
        assert(wv.take(i + 1).drop_last() =~= wv.take(i as int));
        assert(wv.take(i + 1).last() == ws@[i as int]@);
        let w = &ws[i];
        if cur.as_str().is_empty() {
            cur = w.clone();
        } else {
            let cl = cur.as_str().unicode_len() as u128;
            let wl = w.as_str().unicode_len() as u128;
            let n: u128 = cl + 1 + wl;
            let sz = size as u128;
            let n3 = 3 * n;
            assert(n3 * sz <= 0x6_0000_0000_0000_0000 * 0x1_0000_0000) by (nonlinear_arith)
                requires
                    n3 <= 0x6_0000_0000_0000_0000,
                    sz <= 0x1_0000_0000,
            ;
            if n3 * sz <= 5 * (avail as u128) {
                cur.push(' ');
                cur.append(w.as_str());
                assert(cur@ =~= pack(wv.take(i as int), size as int, avail as int).1 + seq![' ']
                    + w@);
            } else {
                let ghost before = lines@;
                let done = cur;
                cur = w.clone();
                lines.push(done);
                assert(texts(lines@) =~= texts(before).push(done@));
            }
        }
        i += 1;
    }
    assert(wv.take(i as int) =~= wv);
    if !cur.as_str().is_empty() {
        let ghost before = lines@;
        lines.push(cur);
        assert(texts(lines@) =~= texts(before).push(cur@));
    }
    lines
}

/// Font size of the title.
pub const TITLE_SIZE: u32 = 20;
/// Font size of the attribution, servings and timing lines.
pub const DETAIL_SIZE: u32 = 14;
/// Font size of the section headings.
pub const HEADING_SIZE: u32 = 16;
/// Font size of the ingredient, instruction and note lines.
pub const BODY_SIZE: u32 = 12;
/// How far section lines stand to the right of the margin.
pub const INDENT: u32 = 5;
/// The vertical space left between two groups of lines.
pub const BLOCK_GAP: u32 = 10;

/// The page's size, its margin on every side, where the first line of a page
/// stands, and the space between two lines. The vertical cursor counts up
/// from the bottom edge.
#[derive(Clone, Copy, Debug, PartialEq, Eq, Structural)]
pub struct PageGeometry {
    pub width: u32,
    pub height: u32,
    pub margin: u32,
    pub starting_y: u32,
    pub line_gap: u32,
}

/// Why a geometry leaves no room for text.
#[derive(Clone, Copy, Debug, PartialEq, Eq, Structural)]
pub enum ConfigError {
    /// Twice the margin is at least the page's width or height.
    MarginsTooWide,
    /// The first line would stand below the bottom margin or above the top one.
    StartOutsideMargins,
}

/// What is wrong with a geometry, if anything.
pub open spec fn geometry_error(g: PageGeometry) -> Option<ConfigError> {
    if 2 * g.margin >= g.width || 2 * g.margin >= g.height {
        Some(ConfigError::MarginsTooWide)
    } else if g.starting_y < g.margin || g.starting_y + g.margin > g.height {
        Some(ConfigError::StartOutsideMargins)
    } else {
        None
    }
}

/// The width that lines may fill.
pub open spec fn text_area(g: PageGeometry) -> int {
    g.width - 2 * g.margin
}

impl PageGeometry {
    /// An A4 page measured in points.
    pub fn a4() -> (g: PageGeometry)
        ensures
            g == (PageGeometry {
                width: 595,
                height: 842,
                margin: 28,
                starting_y: 794,
                line_gap: 2,
            }),
            geometry_error(g) is None,
    {
        PageGeometry { width: 595, height: 842, margin: 28, starting_y: 794, line_gap: 2 }
    }

    /// Checks that the geometry leaves room for text.
    pub fn validate(&self) -> (r: Result<(), ConfigError>)
        ensures
            r is Ok <==> geometry_error(*self) is None,
            geometry_error(*self) matches Some(e) ==> r == Err::<(), ConfigError>(e),
    {
        let m = self.margin as u64;
        if 2 * m >= self.width as u64 || 2 * m >= self.height as u64 {
            Err(ConfigError::MarginsTooWide)
        } else if self.starting_y < self.margin || self.starting_y as u64 + m > self.height as u64 {
            Err(ConfigError::StartOutsideMargins)
        } else {
            Ok(())
        }
    }
}

/// One line of text placed on a page: `y_offset` is its baseline, measured
/// from the bottom edge.
#[derive(Clone, Debug, PartialEq, Eq)]
pub struct Line {
    pub text: String,
    pub font_size: u32,
    pub x_offset: u32,
    pub y_offset: u32,
}

/// The model of a [`Line`].
pub ghost struct LineView {
    pub text: Seq<char>,
    pub size: int,
    pub x: int,
    pub y: int,
}

impl View for Line {
    type V = LineView;

    open spec fn view(&self) -> LineView {
        LineView {
            text: self.text@,
            size: self.font_size as int,
            x: self.x_offset as int,
            y: self.y_offset as int,
        }
    }
}

/// One page: its lines, top to bottom.
#[derive(Clone, Debug, PartialEq, Eq)]
pub struct Page {
    pub lines: Vec<Line>,
}

pub open spec fn lines_view(v: Seq<Line>) -> Seq<LineView> {
    v.map_values(|l: Line| l@)
}

impl View for Page {
    type V = Seq<LineView>;

    open spec fn view(&self) -> Seq<LineView> {
        lines_view(self.lines@)
    }
}

pub open spec fn pages_view(v: Seq<Page>) -> Seq<Seq<LineView>> {
    v.map_values(|p: Page| p@)
}

/// The pages laid out so far: those already closed, the open one, and the
/// vertical cursor on it.
pub ghost struct LayoutState {
    pub closed: Seq<Seq<LineView>>,
    pub current: Seq<LineView>,
    pub y: int,
}

/// One empty page, with the cursor at the starting height.
pub open spec fn start_state(g: PageGeometry) -> LayoutState {
    LayoutState { closed: Seq::empty(), current: Seq::empty(), y: g.starting_y as int }
}

/// Emits one line. When the cursor has dropped below the bottom margin, the
/// open page is closed first and the line goes at the starting height of a
/// new page; the cursor then moves down by the font size and the line gap.
pub open spec fn emit(
    st: LayoutState,
    g: PageGeometry,
    text: Seq<char>,
    size: int,
    x: int,
) -> LayoutState {
    if st.y < g.margin {
        LayoutState {
            closed: st.closed.push(st.current),
            current: seq![LineView { text, size, x, y: g.starting_y as int }],
            y: g.starting_y - (size + g.line_gap),
        }
    } else {
        LayoutState {
            closed: st.closed,
            current: st.current.push(LineView { text, size, x, y: st.y }),
            y: st.y - (size + g.line_gap),
        }
    }
}

/// Emits `lines`, one by one.
pub open spec fn emit_lines(
    st: LayoutState,
    g: PageGeometry,
    lines: Seq<Seq<char>>,
    size: int,
    x: int,
) -> LayoutState
    decreases lines.len(),
{
    if lines.len() == 0 {
        st
    } else {
        emit(emit_lines(st, g, lines.drop_last(), size, x), g, lines.last(), size, x)
    }
}

/// Moves the cursor down by the block gap. Below the bottom margin it stays
/// where it is: the next line opens a new page either way.
pub open spec fn gap(st: LayoutState, g: PageGeometry) -> LayoutState {
    if st.y < g.margin {
        st
    } else {
        LayoutState { y: st.y - BLOCK_GAP, ..st }
    }
}

/// One step of a layout: a text, wrapped and emitted, or a gap.
pub ghost enum Block {
    Text { text: Seq<char>, size: int, x: int },
    Gap,
}

pub open spec fn apply_block(st: LayoutState, g: PageGeometry, b: Block) -> LayoutState {
    match b {
        Block::Text { text, size, x } => emit_lines(
            st,
            g,
            wrap_spec(text, size, text_area(g)),
            size,
            x,
        ),
        Block::Gap => gap(st, g),
    }
}

/// The state after the blocks `bs`, one by one.
pub open spec fn run_blocks(st: LayoutState, g: PageGeometry, bs: Seq<Block>) -> LayoutState
    decreases bs.len(),
{
    if bs.len() == 0 {
        st
    } else {
        apply_block(run_blocks(st, g, bs.drop_last()), g, bs.last())
    }
}

pub open spec fn digit_char(d: int) -> char {
    if d == 0 {
        '0'
    } else if d == 1 {
        '1'
    } else if d == 2 {
        '2'
    } else if d == 3 {
        '3'
    } else if d == 4 {
        '4'
    } else if d == 5 {
        '5'
    } else if d == 6 {
        '6'
    } else if d == 7 {
        '7'
    } else if d == 8 {
        '8'
    } else {
        '9'
    }
}

/// The decimal digits of `n`.
pub open spec fn decimal(n: nat) -> Seq<char>
    decreases n,
{
    if n < 10 {
        seq![digit_char(n as int)]
    } else {
        decimal(n / 10).push(digit_char((n % 10) as int))
    }
}

/// What stands before instruction `i`: `"<i+1>. "` when steps are numbered.
pub open spec fn step_label(numbered: bool, i: int) -> Seq<char> {
    if numbered {
        decimal((i + 1) as nat) + ". "@
    } else {
        Seq::empty()
    }
}

pub open spec fn ingredient_blocks(items: Seq<Seq<char>>, x: int) -> Seq<Block> {
    Seq::new(
        items.len(),
        |i: int| Block::Text { text: "\u{2022} "@ + items[i], size: BODY_SIZE as int, x },
    )
}

pub open spec fn instruction_blocks(items: Seq<Seq<char>>, x: int, numbered: bool) -> Seq<Block> {
    Seq::new(
        items.len(),
        |i: int|
            Block::Text { text: step_label(numbered, i) + items[i], size: BODY_SIZE as int, x },
    )
}

pub open spec fn note_blocks(items: Seq<Seq<char>>, x: int) -> Seq<Block> {
    Seq::new(items.len(), |i: int| Block::Text { text: items[i], size: BODY_SIZE as int, x })
}

pub open spec fn header_blocks(r: RecipeView, x: int) -> Seq<Block> {
    seq![
        Block::Text { text: r.title, size: TITLE_SIZE as int, x },
        Block::Text { text: "From: "@ + r.source, size: DETAIL_SIZE as int, x },
        Block::Text { text: "Servings: "@ + r.servings, size: DETAIL_SIZE as int, x },
        Block::Text { text: "Prep Time: "@ + r.prep_time, size: DETAIL_SIZE as int, x },
        Block::Text { text: "Cook Time: "@ + r.cook_time, size: DETAIL_SIZE as int, x },
        Block::Text { text: "Total Time: "@ + r.total_time, size: DETAIL_SIZE as int, x },
        Block::Gap,
        Block::Text { text: "Ingredients:"@, size: HEADING_SIZE as int, x },
    ]
}

/// The blocks of a recipe's document, in order: title, attribution,
/// servings and timing lines, a gap, the bulleted ingredients under their
/// heading, a gap, the instructions under theirs, a gap, and the notes under
/// theirs when there are any.
pub open spec fn recipe_blocks(r: RecipeView, g: PageGeometry, numbered: bool) -> Seq<Block> {
    let x = g.margin as int;
    let ind = g.margin + INDENT;
    header_blocks(r, x) + ingredient_blocks(r.ingredients, ind) + seq![
        Block::Gap,
        Block::Text { text: "Instructions:"@, size: HEADING_SIZE as int, x },
    ] + instruction_blocks(r.instructions, ind, numbered) + seq![Block::Gap] + if r.notes.len()
        > 0 {
        seq![Block::Text { text: "Notes:"@, size: HEADING_SIZE as int, x }] + note_blocks(
            r.notes,
            ind,
        )
    } else {
        Seq::empty()
    }
}

/// The pages of a recipe's document.
pub open spec fn layout_spec(r: RecipeView, g: PageGeometry, numbered: bool) -> Seq<Seq<LineView>> {
    let st = run_blocks(start_state(g), g, recipe_blocks(r, g, numbered));
    st.closed.push(st.current)
}

struct PageBuilder {
    closed: Vec<Page>,
    current: Vec<Line>,
    y: i64,
    geometry: PageGeometry,
    blocks: Ghost<Seq<Block>>,
}

impl PageBuilder {
    spec fn state(&self) -> LayoutState {
        LayoutState {
            closed: pages_view(self.closed@),
            current: lines_view(self.current@),
            y: self.y as int,
        }
    }

    spec fn inv(&self) -> bool {
        &&& geometry_error(self.geometry) is None
        &&& -0x4_0000_0000 <= self.y <= self.geometry.starting_y
    }

    /// The pages so far are those of the blocks added so far.
    spec fn tracks(&self) -> bool {
        self.state() == run_blocks(start_state(self.geometry), self.geometry, self.blocks@)
    }

    fn new(g: PageGeometry) -> (b: PageBuilder)
        requires
            geometry_error(g) is None,
        ensures
            b.inv(),
            b.tracks(),
            b.geometry == g,
            b.blocks@ == Seq::<Block>::empty(),
    {
        let b = PageBuilder {
            closed: Vec::new(),
            current: Vec::new(),
            y: g.starting_y as i64,
            geometry: g,
            blocks: Ghost(Seq::empty()),
        };
        assert(b.state().closed =~= Seq::<Seq<LineView>>::empty());
        assert(b.state().current =~= Seq::<LineView>::empty());
        b
    }

    fn emit(&mut self, text: String, size: u32, x: u32)
        requires
            old(self).inv(),
        ensures
            final(self).inv(),
            final(self).geometry == old(self).geometry,
            final(self).blocks == old(self).blocks,
            final(self).state() == emit(
                old(self).state(),
                old(self).geometry,
                text@,
                size as int,
                x as int,
            ),
    {
        let g = self.geometry;
        if self.y < g.margin as i64 {
            let mut page: Vec<Line> = Vec::new();
            core::mem::swap(&mut page, &mut self.current);
            let ghost before = self.closed@;
            self.closed.push(Page { lines: page });
            assert(pages_view(self.closed@) =~= pages_view(before).push(lines_view(page@)));
            assert(lines_view(self.current@) =~= Seq::<LineView>::empty());
            self.y = g.starting_y as i64;
        }
        let ghost before = self.current@;
        let line = Line { text, font_size: size, x_offset: x, y_offset: self.y as u32 };
        self.current.push(line);
        assert(lines_view(self.current@) =~= lines_view(before).push(line@));
        assert(Seq::<LineView>::empty().push(line@) =~= seq![line@]);
        self.y = self.y - (size as i64 + g.line_gap as i64);
    }

    fn emit_lines(&mut self, lines: &Vec<String>, size: u32, x: u32)
        requires
            old(self).inv(),
        ensures
            final(self).inv(),
            final(self).geometry == old(self).geometry,
            final(self).blocks == old(self).blocks,
            final(self).state() == emit_lines(
                old(self).state(),
                old(self).geometry,
                texts(lines@),
                size as int,
                x as int,
            ),
    {
        let ghost st0 = self.state();
        let ghost ls = texts(lines@);
        let mut i: usize = 0;
        let ghost all = lines@;
        while i < lines.len()
            invariant
                lines@ == all,
                ls == texts(all),
                i <= all.len(),
                self.inv(),
                self.geometry == old(self).geometry,
                self.blocks == old(self).blocks,
                self.state() == emit_lines(
                    st0,
                    self.geometry,
                    ls.take(i as int),
                    size as int,
                    x as int,
                ),
            decreases all.len() - i,
        {
            let t = lines[i].clone();
            assert(t@ == ls[i as int]);
            assert(ls.take(i + 1).drop_last() =~= ls.take(i as int));
            self.emit(t, size, x);
            i += 1;
        }
        assert(ls.take(i as int) =~= ls);
    }

    /// Wraps `text` and emits its lines.
    fn add_text(&mut self, text: &str, size: u32, x: u32)
        requires
            old(self).inv(),
            old(self).tracks(),
        ensures
            final(self).inv(),
            final(self).tracks(),
            final(self).geometry == old(self).geometry,
            final(self).blocks@ == old(self).blocks@.push(
                Block::Text { text: text@, size: size as int, x: x as int },
            ),
    {
        let avail = self.geometry.width - 2 * self.geometry.margin;
        let lines = wrap_text(text, size, avail);
        self.emit_lines(&lines, size, x);
        let ghost b = Block::Text { text: text@, size: size as int, x: x as int };
        proof {
            lemma_run_push(start_state(self.geometry), self.geometry, self.blocks@, b);
        }
        self.blocks = Ghost(self.blocks@.push(b));
    }

    /// Leaves the block gap.
    fn add_gap(&mut self)
        requires
            old(self).inv(),
            old(self).tracks(),
        ensures
            final(self).inv(),
            final(self).tracks(),
            final(self).geometry == old(self).geometry,
            final(self).blocks@ == old(self).blocks@.push(Block::Gap),
    {
        if self.y >= self.geometry.margin as i64 {
            self.y = self.y - BLOCK_GAP as i64;
        }
        proof {
            lemma_run_push(start_state(self.geometry), self.geometry, self.blocks@, Block::Gap);
        }
        self.blocks = Ghost(self.blocks@.push(Block::Gap));
    }

    fn finish(self) -> (r: Vec<Page>)
        ensures
            pages_view(r@) == self.state().closed.push(self.state().current),
    {
        let mut closed = self.closed;
        let ghost before = closed@;
        let last = Page { lines: self.current };
        closed.push(last);
        assert(pages_view(closed@) =~= pages_view(before).push(last@));
        closed
    }
}

proof fn lemma_run_push(st: LayoutState, g: PageGeometry, bs: Seq<Block>, b: Block)
    ensures
        run_blocks(st, g, bs.push(b)) == apply_block(run_blocks(st, g, bs), g, b),
{
    assert(bs.push(b).drop_last() =~= bs);
}

fn digit(d: usize) -> (c: char)
    requires
        d < 10,
    ensures
        c == digit_char(d as int),
{
    match d {
        0 => '0',
        1 => '1',
        2 => '2',
        3 => '3',
        4 => '4',
        5 => '5',
        6 => '6',
        7 => '7',
        8 => '8',
        _ => '9',
    }
}

/// Appends the decimal digits of `n` to `out`.
pub fn push_decimal(out: &mut String, n: usize)
    ensures
        final(out)@ == old(out)@ + decimal(n as nat),
    decreases n,
{
    if n >= 10 {
        push_decimal(out, n / 10);
    }
    out.push(digit(n % 10));
    assert(final(out)@ =~= old(out)@ + decimal(n as nat));
}

fn prefixed(prefix: &str, s: &str) -> (r: String)
    ensures
        r@ == prefix@ + s@,
{
    let mut r = String::from_str(prefix);
    r.append(s);
    r
}

/// Lays a recipe out on pages of geometry `g`; instructions are numbered
/// when `numbered` holds. Fails on a geometry that leaves no room for text.
pub fn layout_recipe(r: &Recipe, g: PageGeometry, numbered: bool) -> (res: Result<
    Vec<Page>,
    ConfigError,
>)
    ensures
        geometry_error(g) matches Some(e) ==> res == Err::<Vec<Page>, ConfigError>(e),
        geometry_error(g) is None ==> (res matches Ok(pages) && pages_view(pages@) == layout_spec(
            r@,
            g,
            numbered,
        )),
{
    match g.validate() {
        Err(e) => {
            return Err(e);
        },
        Ok(()) => {},
    }
    let ghost rv = r@;
    let x = g.margin;
    let ind = g.margin + INDENT;
    let mut b = PageBuilder::new(g);
    b.add_text(r.title.as_str(), TITLE_SIZE, x);
    b.add_text(prefixed("From: ", r.source.as_str()).as_str(), DETAIL_SIZE, x);
    b.add_text(prefixed("Servings: ", r.servings.as_str()).as_str(), DETAIL_SIZE, x);
    b.add_text(prefixed("Prep Time: ", r.prep_time.as_str()).as_str(), DETAIL_SIZE, x);
    b.add_text(prefixed("Cook Time: ", r.cook_time.as_str()).as_str(), DETAIL_SIZE, x);
    b.add_text(prefixed("Total Time: ", r.total_time.as_str()).as_str(), DETAIL_SIZE, x);
    b.add_gap();
    b.add_text("Ingredients:", HEADING_SIZE, x);
    assert(b.blocks@ =~= header_blocks(rv, x as int));

    let ghost pre = b.blocks@;
    let mut i: usize = 0;
    while i < r.ingredients.len()
        invariant
            rv == r@,
            b.inv(),
            b.tracks(),
            b.geometry == g,
            i <= rv.ingredients.len(),
            b.blocks@ == pre + ingredient_blocks(rv.ingredients, ind as int).take(i as int),
        decreases rv.ingredients.len() - i,
    {
        b.add_text(prefixed("\u{2022} ", r.ingredients[i].as_str()).as_str(), BODY_SIZE, ind);
        assert(b.blocks@ =~= pre + ingredient_blocks(rv.ingredients, ind as int).take(i + 1));
        i += 1;
    }
    assert(ingredient_blocks(rv.ingredients, ind as int).take(i as int) =~= ingredient_blocks(
        rv.ingredients,
        ind as int,
    ));

    b.add_gap();
    b.add_text("Instructions:", HEADING_SIZE, x);
    let ghost pre = b.blocks@;
    let mut i: usize = 0;
    while i < r.instructions.len()
        invariant
            rv == r@,
            b.inv(),
            b.tracks(),
            b.geometry == g,
            i <= rv.instructions.len(),
            b.blocks@ == pre + instruction_blocks(rv.instructions, ind as int, numbered).take(
                i as int,
            ),
        decreases rv.instructions.len() - i,
    {
        let mut t = String::new();
        if numbered {
            push_decimal(&mut t, i + 1);
            t.append(". ");
        }
        t.append(r.instructions[i].as_str());
        assert(t@ =~= step_label(numbered, i as int) + rv.instructions[i as int]);
        b.add_text(t.as_str(), BODY_SIZE, ind);
        assert(b.blocks@ =~= pre + instruction_blocks(rv.instructions, ind as int, numbered).take(
            i + 1,
        ));
        i += 1;
    }
    assert(instruction_blocks(rv.instructions, ind as int, numbered).take(i as int)
        =~= instruction_blocks(rv.instructions, ind as int, numbered));

    b.add_gap();
    if r.notes.len() > 0 {
        b.add_text("Notes:", HEADING_SIZE, x);
        let ghost pre = b.blocks@;
        let mut i: usize = 0;
        while i < r.notes.len()
            invariant
                rv == r@,
                b.inv(),
                b.tracks(),
                b.geometry == g,
                i <= rv.notes.len(),
                b.blocks@ == pre + note_blocks(rv.notes, ind as int).take(i as int),
            decreases rv.notes.len() - i,
        {
            b.add_text(r.notes[i].as_str(), BODY_SIZE, ind);
            assert(b.blocks@ =~= pre + note_blocks(rv.notes, ind as int).take(i + 1));
            i += 1;
        }
        assert(note_blocks(rv.notes, ind as int).take(i as int) =~= note_blocks(
            rv.notes,
            ind as int,
        ));
    }
    assert(b.blocks@ =~= recipe_blocks(rv, g, numbered));
    Ok(b.finish())
}

} // verus!
