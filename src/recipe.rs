use vstd::prelude::*;

verus! {

/// The mathematical value of a recipe: its id and its fields as character
/// sequences.
pub struct RecipeView {
    pub id: u32,
    pub name: Seq<char>,
    pub ingredients: Seq<Seq<char>>,
    pub instructions: Seq<Seq<char>>,
    pub servings: u32,
}

/// The characters of each string of a list, in order.
pub open spec fn strings_view(v: Seq<String>) -> Seq<Seq<char>> {
    v.map_values(|s: String| s@)
}

/// The values of a list of recipes, in order.
pub open spec fn recipes_view(v: Seq<Recipe>) -> Seq<RecipeView> {
    v.map_values(|r: Recipe| r@)
}

/// One catalogue entry.
#[derive(Debug, Clone)]
pub struct Recipe {
    pub id: u32,
    pub name: String,
    pub ingredients: Vec<String>,
    pub instructions: Vec<String>,
    pub servings: u32,
}

impl View for Recipe {
    type V = RecipeView;

    open spec fn view(&self) -> RecipeView {
        RecipeView {
            id: self.id,
            name: self.name@,
            ingredients: strings_view(self.ingredients@),
            instructions: strings_view(self.instructions@),
            servings: self.servings,
        }
    }
}

/// A list of strings with the same characters in each place.
fn copy_strings(v: &Vec<String>) -> (r: Vec<String>)
    ensures
        strings_view(r@) == strings_view(v@),
{
    let r = v.clone();
    assert(r@ =~= v@);
    r
}

impl Recipe {
    /// A recipe built from its fields as given.
    pub fn new(
        id: u32,
        name: String,
        ingredients: Vec<String>,
        instructions: Vec<String>,
        servings: u32,
    ) -> (r: Recipe)
        ensures
            r.id == id,
            r.name == name,
            r.ingredients == ingredients,
            r.instructions == instructions,
            r.servings == servings,
    {
        Recipe { id, name, ingredients, instructions, servings }
    }

    /// A second recipe with the same id and the same fields.
    pub fn duplicate(&self) -> (r: Recipe)
        ensures
            r@ == self@,
    {
        Recipe {
            id: self.id,
            name: self.name.clone(),
            ingredients: copy_strings(&self.ingredients),
            instructions: copy_strings(&self.instructions),
            servings: self.servings,
        }
    }
}

} // verus!
