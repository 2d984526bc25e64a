//! The weekly schedule: one optional recipe identifier for each day of the
//! week, how it is filled at random, and what it turns into: a report, a
//! shopping list and a copy of each scheduled record.
use vstd::prelude::*;
use rand::Rng;
use rand::rngs::StdRng;
use crate::recipe::{texts, lemma_texts_push};
use crate::text::{join_lines, push_line};
use crate::codec::{decode, decode_spec, encode_spec};
use crate::codec_laws::{encodable, lemma_decode_encode};
use crate::recipe::RecipeView;

verus! {

/// rand's seedable standard generator, carried through as an opaque value.
#[verifier::external_type_specification]
#[verifier::external_body]
pub struct ExStdRng(StdRng);

/// Relies on rand's `Rng::gen_range` over `0..n`: a value below `n`; it
/// panics on an empty range.
#[verifier::external_body]
fn draw_index(rng: &mut StdRng, n: usize) -> (r: usize)
    requires
        n > 0,
    ensures
        r < n,
{
    rng.gen_range(0..n)
}

/// The number of days in a schedule.
pub const DAYS_IN_WEEK: usize = 7;

/// A day of the week, Monday first.
#[derive(Clone, Copy, Debug, PartialEq, Eq, Structural)]
pub enum Day {
    Monday,
    Tuesday,
    Wednesday,
    Thursday,
    Friday,
    Saturday,
    Sunday,
}

/// The label of the day at position `i` of the week.
pub open spec fn day_name(i: int) -> Seq<char> {
    if i == 0 {
        "Monday"@
    } else if i == 1 {
        "Tuesday"@
    } else if i == 2 {
        "Wednesday"@
    } else if i == 3 {
        "Thursday"@
    } else if i == 4 {
        "Friday"@
    } else if i == 5 {
        "Saturday"@
    } else {
        "Sunday"@
    }
}

impl Day {
    pub open spec fn spec_index(self) -> int {
        match self {
            Day::Monday => 0,
            Day::Tuesday => 1,
            Day::Wednesday => 2,
            Day::Thursday => 3,
            Day::Friday => 4,
            Day::Saturday => 5,
            Day::Sunday => 6,
        }
    }

    /// The day's position in the week, Monday being 0.
    pub fn index(self) -> (r: usize)
        ensures
            r == self.spec_index(),
            r < DAYS_IN_WEEK,
    {
        match self {
            Day::Monday => 0,
            Day::Tuesday => 1,
            Day::Wednesday => 2,
            Day::Thursday => 3,
            Day::Friday => 4,
            Day::Saturday => 5,
            Day::Sunday => 6,
        }
    }

    /// The day at position `i` of the week, if `i` is below seven.
    pub fn from_index(i: usize) -> (r: Option<Day>)
        ensures
            i < DAYS_IN_WEEK <==> r is Some,
            r matches Some(d) ==> d.spec_index() == i,
    {
        match i {
            0 => Some(Day::Monday),
            1 => Some(Day::Tuesday),
            2 => Some(Day::Wednesday),
            3 => Some(Day::Thursday),
            4 => Some(Day::Friday),
            5 => Some(Day::Saturday),
            6 => Some(Day::Sunday),
            _ => None,
        }
    }

    /// The day's label, as it appears in reports and file names.
    pub fn name(self) -> (r: &'static str)
        ensures
            r@ == day_name(self.spec_index()),
    {
        match self {
            Day::Monday => "Monday",
            Day::Tuesday => "Tuesday",
            Day::Wednesday => "Wednesday",
            Day::Thursday => "Thursday",
            Day::Friday => "Friday",
            Day::Saturday => "Saturday",
            Day::Sunday => "Sunday",
        }
    }
}

fn day_name_at(i: usize) -> (r: &'static str)
    requires
        i < DAYS_IN_WEEK,
    ensures
        r@ == day_name(i as int),
{
    match Day::from_index(i) {
        Some(d) => d.name(),
        None => "",
    }
}

/// Seven slots, Monday first; an empty identifier is a day with no recipe.
#[derive(Clone, Debug, PartialEq, Eq)]
pub struct Schedule {
    slots: Vec<String>,
}

impl View for Schedule {
    type V = Seq<Seq<char>>;

    closed spec fn view(&self) -> Seq<Seq<char>> {
        texts(self.slots@)
    }
}

/// The schedule whose day `i` holds `pool[draws[i]]`, or nothing where that
/// draw falls outside the pool.
pub open spec fn drawn_schedule(pool: Seq<Seq<char>>, draws: Seq<usize>) -> Seq<Seq<char>> {
    Seq::new(
        7,
        |i: int|
            if draws[i] < pool.len() {
                pool[draws[i] as int]
            } else {
                Seq::empty()
            },
    )
}

/// The report line of day `i` that holds `id`: `"<Day>: <id>"`.
pub open spec fn report_line(i: int, id: Seq<char>) -> Seq<char> {
    day_name(i) + ": "@ + id
}

/// The report lines of the first `n` days, empty days left out.
pub open spec fn report_lines(slots: Seq<Seq<char>>, n: int) -> Seq<Seq<char>>
    decreases n,
{
    if n <= 0 {
        Seq::empty()
    } else if slots[n - 1].len() > 0 {
        report_lines(slots, n - 1).push(report_line(n - 1, slots[n - 1]))
    } else {
        report_lines(slots, n - 1)
    }
}

/// The report of a schedule: one line per scheduled day, in week order.
pub open spec fn report_spec(slots: Seq<Seq<char>>) -> Seq<char> {
    join_lines(report_lines(slots, 7))
}

/// The ingredients of the records of the first `n` days, empty days left out,
/// concatenated in day order.
pub open spec fn shopping_upto(slots: Seq<Seq<char>>, records: Seq<Seq<char>>, n: int) -> Seq<
    Seq<char>,
>
    decreases n,
{
    if n <= 0 {
        Seq::empty()
    } else if slots[n - 1].len() > 0 {
        shopping_upto(slots, records, n - 1) + decode_spec(records[n - 1]).ingredients
    } else {
        shopping_upto(slots, records, n - 1)
    }
}

/// The shopping list of a week whose day `i` has the record `records[i]`.
pub open spec fn shopping_spec(slots: Seq<Seq<char>>, records: Seq<Seq<char>>) -> Seq<Seq<char>> {
    shopping_upto(slots, records, 7)
}

/// The name of the file that holds the copy of day `i`'s record.
pub open spec fn day_file_name(i: int) -> Seq<char> {
    day_name(i) + ".rec"@
}

/// The copies of the first `n` days' records, empty days left out:
/// each a file name and the record.
pub open spec fn copies_upto(slots: Seq<Seq<char>>, records: Seq<Seq<char>>, n: int) -> Seq<
    (Seq<char>, Seq<char>),
>
    decreases n,
{
    if n <= 0 {
        Seq::empty()
    } else if slots[n - 1].len() > 0 {
        copies_upto(slots, records, n - 1).push((day_file_name(n - 1), records[n - 1]))
    } else {
        copies_upto(slots, records, n - 1)
    }
}

/// A record to be written for one scheduled day.
#[derive(Clone, Debug, PartialEq, Eq)]
pub struct DayCopy {
    pub file_name: String,
    pub record: String,
}

/// What a week turns into.
#[derive(Clone, Debug, PartialEq, Eq)]
pub struct Materialized {
    /// The ingredients of every scheduled recipe, in day order.
    pub shopping_list: Vec<String>,
    /// The shopping list as text, one ingredient per line.
    pub shopping_text: String,
    /// One `"<Day>: <id>"` line per scheduled day.
    pub report: String,
    /// The record of each scheduled day, under that day's file name.
    pub copies: Vec<DayCopy>,
}

pub open spec fn copies_view(c: Seq<DayCopy>) -> Seq<(Seq<char>, Seq<char>)> {
    c.map_values(|d: DayCopy| (d.file_name@, d.record@))
}

impl Schedule {
    /// A schedule has exactly one slot for each day of the week.
    pub open spec fn wf(&self) -> bool {
        self@.len() == DAYS_IN_WEEK
    }

    /// A week with no recipe on any day.
    pub fn new() -> (r: Schedule)
        ensures
            r.wf(),
            forall|i: int| 0 <= i < 7 ==> (#[trigger] r@[i]).len() == 0,
    {
        let mut slots: Vec<String> = Vec::new();
        let mut i: usize = 0;
        while i < DAYS_IN_WEEK
            invariant
                i <= DAYS_IN_WEEK,
                slots@.len() == i,
                forall|k: int| 0 <= k < i ==> (#[trigger] slots@[k])@.len() == 0,
            decreases DAYS_IN_WEEK - i,
        {
            slots.push(String::new());
            i += 1;
        }
        Schedule { slots }
    }

    /// The identifier scheduled on `day`; empty when there is none.
    pub fn slot(&self, day: Day) -> (r: &str)
        requires
            self.wf(),
        ensures
            r@ == self@[day.spec_index()],
    {
        self.slots[day.index()].as_str()
    }

    /// Schedules `id` on `day`. Nothing checks that `id` names a record.
    pub fn assign(&mut self, day: Day, id: String)
        requires
            old(self).wf(),
        ensures
            final(self).wf(),
            final(self)@ == old(self)@.update(day.spec_index(), id@),
    {
        let i = day.index();
        self.slots.set(i, id);
        assert(texts(self.slots@) =~= texts(old(self).slots@).update(i as int, id@));
    }

    /// The week whose day `i` holds `pool[draws[i]]`, or nothing where that
    /// draw is outside the pool (always so for an empty pool).
    pub fn from_draws(pool: &Vec<String>, draws: &Vec<usize>) -> (r: Schedule)
        requires
            draws@.len() == DAYS_IN_WEEK,
        ensures
            r.wf(),
            r@ == drawn_schedule(texts(pool@), draws@),
    {
        let mut r = Schedule::new();
        let mut i: usize = 0;
        while i < DAYS_IN_WEEK
            invariant
                draws@.len() == DAYS_IN_WEEK,
                i <= DAYS_IN_WEEK,
                r.wf(),
                forall|k: int|
                    0 <= k < i ==> (#[trigger] r@[k]) == drawn_schedule(texts(pool@), draws@)[k],
                forall|k: int| i <= k < 7 ==> (#[trigger] r@[k]).len() == 0,
            decreases DAYS_IN_WEEK - i,
        {
            if draws[i] < pool.len() {
                let ghost before = r.slots@;
                r.slots.set(i, pool[draws[i]].clone());
                let ghost picked = texts(pool@)[draws@[i as int] as int];
                assert(r@ =~= texts(before).update(i as int, picked));
            }
            i += 1;
        }
        assert(r@ =~= drawn_schedule(texts(pool@), draws@));
        r
    }

    /// Fills every day with an identifier drawn from `pool` by `rng`, with
    /// repeats allowed; an empty pool leaves every day empty. The week is the
    /// one that `from_draws` gives for the seven draws that `rng` made.
    pub fn randomize_all(&mut self, pool: &Vec<String>, rng: &mut StdRng)
        requires
            old(self).wf(),
        ensures
            final(self).wf(),
            exists|d: Seq<usize>|
                d.len() == DAYS_IN_WEEK && final(self)@ == #[trigger] drawn_schedule(
                    texts(pool@),
                    d,
                ),
            forall|i: int|
                0 <= i < 7 ==> if pool@.len() == 0 {
                    (#[trigger] final(self)@[i]).len() == 0
                } else {
                    texts(pool@).contains(final(self)@[i])
                },
    {
        let mut draws: Vec<usize> = Vec::new();
        let mut i: usize = 0;
        while i < DAYS_IN_WEEK
            invariant
                i <= DAYS_IN_WEEK,
                draws@.len() == i,
                forall|k: int|
                    0 <= k < i ==> pool@.len() == 0 || #[trigger] draws@[k] < pool@.len(),
            decreases DAYS_IN_WEEK - i,
        {
            if pool.len() > 0 {
                draws.push(draw_index(rng, pool.len()));
            } else {
                draws.push(0);
            }
            i += 1;
        }
        *self = Schedule::from_draws(pool, &draws);
        assert(draws@.len() == DAYS_IN_WEEK && self@ == drawn_schedule(texts(pool@), draws@));
        assert forall|i: int| 0 <= i < 7 && pool@.len() > 0 implies texts(pool@).contains(
            #[trigger] self@[i],
        ) by {
            assert(texts(pool@)[draws@[i] as int] == self@[i]);
        }
    }

    /// Fills `day` with an identifier drawn from `pool` by `rng`; an empty
    /// pool leaves it empty. The other days keep their identifiers.
    pub fn randomize_single(&mut self, day: Day, pool: &Vec<String>, rng: &mut StdRng)
        requires
            old(self).wf(),
        ensures
            final(self).wf(),
            forall|i: int|
                0 <= i < 7 && i != day.spec_index() ==> #[trigger] final(self)@[i] == old(
                    self,
                )@[i],
            pool@.len() == 0 ==> final(self)@[day.spec_index()].len() == 0,
            pool@.len() > 0 ==> texts(pool@).contains(final(self)@[day.spec_index()]),
    {
        if pool.len() > 0 {
            let k = draw_index(rng, pool.len());
            self.assign(day, pool[k].clone());
            assert(texts(pool@)[k as int] == self@[day.spec_index()]);
        } else {
            self.assign(day, String::new());
        }
    }

    /// The report of the week: `"<Day>: <id>"` for each scheduled day, in
    /// week order, each line ending in a newline.
    pub fn report(&self) -> (r: String)
        requires
            self.wf(),
        ensures
            r@ == report_spec(self@),
    {
        let mut r = String::new();
        let mut i: usize = 0;
        while i < DAYS_IN_WEEK
            invariant
                self.wf(),
                i <= DAYS_IN_WEEK,
                r@ == join_lines(report_lines(self@, i as int)),
            decreases DAYS_IN_WEEK - i,
        {
            if !self.slots[i].as_str().is_empty() {
                let ghost before = r@;
                r.append(day_name_at(i));
                r.append(": ");
                push_line(&mut r, self.slots[i].as_str());
                proof {
                    let ls = report_lines(self@, i as int);
                    assert(ls.push(report_line(i as int, self@[i as int])).drop_last() =~= ls);
                }
                assert(r@ =~= join_lines(report_lines(self@, i + 1)));
            }
            i += 1;
        }
        r
    }

    /// The shopping list of the week: the ingredients of every scheduled
    /// day's record, concatenated in day order, duplicates kept. `records[i]`
    /// is the record scheduled on day `i`; the records of empty days are not
    /// read.
    pub fn shopping_list(&self, records: &Vec<String>) -> (r: Vec<String>)
        requires
            self.wf(),
            records@.len() == DAYS_IN_WEEK,
        ensures
            texts(r@) == shopping_spec(self@, texts(records@)),
    {
        let mut r: Vec<String> = Vec::new();
        let mut i: usize = 0;
        while i < DAYS_IN_WEEK
            invariant
                self.wf(),
                records@.len() == DAYS_IN_WEEK,
                i <= DAYS_IN_WEEK,
                texts(r@) == shopping_upto(self@, texts(records@), i as int),
            decreases DAYS_IN_WEEK - i,
        {
            if !self.slots[i].as_str().is_empty() {
                let recipe = decode(records[i].as_str());
                let ghost before = r@;
                let mut j: usize = 0;
                while j < recipe.ingredients.len()
                    invariant
                        j <= recipe.ingredients@.len(),
                        texts(r@) == texts(before) + texts(recipe.ingredients@).take(j as int),
                    decreases recipe.ingredients@.len() - j,
                {
                    let ghost prev = r@;
                    r.push(recipe.ingredients[j].clone());
                    proof {
                        lemma_texts_push(prev, recipe.ingredients@[j as int]);
                    }
                    assert(texts(r@) =~= texts(before) + texts(recipe.ingredients@).take(j + 1));
                    j += 1;
                }
                assert(texts(recipe.ingredients@).take(j as int) =~= texts(recipe.ingredients@));
            }
            i += 1;
        }
        r
    }

    /// The copy of each scheduled day's record, under `"<Day>.rec"`.
    pub fn day_copies(&self, records: &Vec<String>) -> (r: Vec<DayCopy>)
        requires
            self.wf(),
            records@.len() == DAYS_IN_WEEK,
        ensures
            copies_view(r@) == copies_upto(self@, texts(records@), 7),
    {
        let mut r: Vec<DayCopy> = Vec::new();
        let mut i: usize = 0;
        while i < DAYS_IN_WEEK
            invariant
                self.wf(),
                records@.len() == DAYS_IN_WEEK,
                i <= DAYS_IN_WEEK,
                copies_view(r@) == copies_upto(self@, texts(records@), i as int),
            decreases DAYS_IN_WEEK - i,
        {
            if !self.slots[i].as_str().is_empty() {
                let mut name = String::from_str(day_name_at(i));
                name.append(".rec");
                let c = DayCopy { file_name: name, record: records[i].clone() };
                let ghost before = r@;
                r.push(c);
                assert(copies_view(r@) =~= copies_view(before).push(
                    (day_file_name(i as int), texts(records@)[i as int]),
                ));
            }
            i += 1;
        }
        r
    }

    /// Everything a week turns into: the shopping list, as items and as
    /// text, the report, and the copies of the scheduled records.
    pub fn materialize(&self, records: &Vec<String>) -> (r: Materialized)
        requires
            self.wf(),
            records@.len() == DAYS_IN_WEEK,
        ensures
            texts(r.shopping_list@) == shopping_spec(self@, texts(records@)),
            r.shopping_text@ == join_lines(shopping_spec(self@, texts(records@))),
            r.report@ == report_spec(self@),
            copies_view(r.copies@) == copies_upto(self@, texts(records@), 7),
    {
        let shopping_list = self.shopping_list(records);
        let shopping_text = shopping_list_text(&shopping_list);
        Materialized {
            shopping_list,
            shopping_text,
            report: self.report(),
            copies: self.day_copies(records),
        }
    }
}

/// A shopping list as text: one ingredient per line.
pub fn shopping_list_text(list: &Vec<String>) -> (r: String)
    ensures
        r@ == join_lines(texts(list@)),
{
    let mut r = String::new();
    let mut i: usize = 0;
    while i < list.len()
        invariant
            i <= list@.len(),
            r@ == join_lines(texts(list@).take(i as int)),
        decreases list@.len() - i,
    {
        push_line(&mut r, list[i].as_str());
        assert(texts(list@).take(i + 1).drop_last() =~= texts(list@).take(i as int));
        i += 1;
    }
    assert(texts(list@).take(i as int) =~= texts(list@));
    r
}

/// The ingredient lists of `recipes[i]` for the first `n` days that hold a
/// recipe, concatenated in day order.
pub open spec fn ingredients_upto(slots: Seq<Seq<char>>, recipes: Seq<RecipeView>, n: int) -> Seq<
    Seq<char>,
>
    decreases n,
{
    if n <= 0 {
        Seq::empty()
    } else if slots[n - 1].len() > 0 {
        ingredients_upto(slots, recipes, n - 1) + recipes[n - 1].ingredients
    } else {
        ingredients_upto(slots, recipes, n - 1)
    }
}

proof fn lemma_shopping_upto(
    slots: Seq<Seq<char>>,
    records: Seq<Seq<char>>,
    recipes: Seq<RecipeView>,
    n: int,
)
    requires
        0 <= n <= 7,
        slots.len() == 7,
        records.len() == 7,
        recipes.len() == 7,
        forall|i: int|
            0 <= i < 7 && (#[trigger] slots[i]).len() > 0 ==> encodable(recipes[i])
                && records[i] == encode_spec(recipes[i]),
    ensures
        shopping_upto(slots, records, n) == ingredients_upto(slots, recipes, n),
    decreases n,
{
    if n > 0 {
        lemma_shopping_upto(slots, records, recipes, n - 1);
        if slots[n - 1].len() > 0 {
            lemma_decode_encode(recipes[n - 1]);
        }
    }
}

/// When every scheduled day holds the record of a recipe that the record
/// format represents exactly, the shopping list is the concatenation, in day
/// order, of those recipes' ingredient lists.
pub proof fn lemma_shopping_list_concatenates(
    slots: Seq<Seq<char>>,
    records: Seq<Seq<char>>,
    recipes: Seq<RecipeView>,
)
    requires
        slots.len() == 7,
        records.len() == 7,
        recipes.len() == 7,
        forall|i: int|
            0 <= i < 7 && (#[trigger] slots[i]).len() > 0 ==> encodable(recipes[i])
                && records[i] == encode_spec(recipes[i]),
    ensures
        shopping_spec(slots, records) == ingredients_upto(slots, recipes, 7),
{
    lemma_shopping_upto(slots, records, recipes, 7);
}

proof fn lemma_empty_upto(slots: Seq<Seq<char>>, records: Seq<Seq<char>>, n: int)
    requires
        0 <= n <= 7,
        slots.len() == 7,
        forall|i: int| 0 <= i < 7 ==> (#[trigger] slots[i]).len() == 0,
    ensures
        shopping_upto(slots, records, n) == Seq::<Seq<char>>::empty(),
        report_lines(slots, n) == Seq::<Seq<char>>::empty(),
    decreases n,
{
    if n > 0 {
        lemma_empty_upto(slots, records, n - 1);
    }
}

/// A week with no recipe on any day has an empty shopping list and an empty
/// report.
pub proof fn lemma_empty_week(slots: Seq<Seq<char>>, records: Seq<Seq<char>>)
    requires
        slots.len() == 7,
        forall|i: int| 0 <= i < 7 ==> (#[trigger] slots[i]).len() == 0,
    ensures
        shopping_spec(slots, records) == Seq::<Seq<char>>::empty(),
        report_spec(slots) == Seq::<char>::empty(),
{
    lemma_empty_upto(slots, records, 7);
}

} // verus!
