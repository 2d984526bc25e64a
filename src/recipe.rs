//! The recipe value and its mathematical model.
use vstd::prelude::*;

verus! {

/// One recipe. Every field is free-form text; an absent field is empty.
#[derive(Clone, Debug, PartialEq, Eq)]
pub struct Recipe {
    pub title: String,
    pub source: String,
    pub servings: String,
    pub prep_time: String,
    pub cook_time: String,
    pub total_time: String,
    pub ingredients: Vec<String>,
    pub instructions: Vec<String>,
    pub notes: Vec<String>,
}

/// The model of a [`Recipe`]: its texts as character sequences.
pub ghost struct RecipeView {
    pub title: Seq<char>,
    pub source: Seq<char>,
    pub servings: Seq<char>,
    pub prep_time: Seq<char>,
    pub cook_time: Seq<char>,
    pub total_time: Seq<char>,
    pub ingredients: Seq<Seq<char>>,
    pub instructions: Seq<Seq<char>>,
    pub notes: Seq<Seq<char>>,
}

/// The texts of a vector of strings.
pub open spec fn texts(v: Seq<String>) -> Seq<Seq<char>> {
    v.map_values(|s: String| s@)
}

impl View for Recipe {
    type V = RecipeView;

    open spec fn view(&self) -> RecipeView {
        RecipeView {
            title: self.title@,
            source: self.source@,
            servings: self.servings@,
            prep_time: self.prep_time@,
            cook_time: self.cook_time@,
            total_time: self.total_time@,
            ingredients: texts(self.ingredients@),
            instructions: texts(self.instructions@),
            notes: texts(self.notes@),
        }
    }
}

/// The recipe with every field empty.
pub open spec fn empty_recipe() -> RecipeView {
    RecipeView {
        title: Seq::empty(),
        source: Seq::empty(),
        servings: Seq::empty(),
        prep_time: Seq::empty(),
        cook_time: Seq::empty(),
        total_time: Seq::empty(),
        ingredients: Seq::empty(),
        instructions: Seq::empty(),
        notes: Seq::empty(),
    }
}

pub proof fn lemma_texts_push(v: Seq<String>, s: String)
    ensures
        texts(v.push(s)) == texts(v).push(s@),
{
    assert(texts(v.push(s)) =~= texts(v).push(s@));
}

impl Recipe {
    /// A recipe with every field empty.
    pub fn new() -> (r: Recipe)
        ensures
            r@ == empty_recipe(),
    {
        let r = Recipe {
            title: String::new(),
            source: String::new(),
            servings: String::new(),
            prep_time: String::new(),
            cook_time: String::new(),
            total_time: String::new(),
            ingredients: Vec::new(),
            instructions: Vec::new(),
            notes: Vec::new(),
        };
        assert(r@.ingredients =~= Seq::<Seq<char>>::empty());
        assert(r@.instructions =~= Seq::<Seq<char>>::empty());
        assert(r@.notes =~= Seq::<Seq<char>>::empty());
        r
    }
}

} // verus!
