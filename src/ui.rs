use vstd::prelude::*;
use crate::manager::{RecipeManager, has_id, lookup, max_id, updated, without_id};
use crate::recipe::{Recipe, RecipeView, recipes_view};
use crate::text::{
    decimal,
    decimal_text,
    join_with,
    joined,
    parse_u32,
    parsed_u32,
    split_at_char,
    split_on,
};

verus! {

/// What the user did in the window.
#[derive(Debug, Clone)]
pub enum Message {
    AddRecipe,
    EditRecipe(u32),
    UpdateRecipe,
    CancelEdit,
    RecipeNameChanged(String),
    RecipeIngredientsChanged(String),
    RecipeInstructionsChanged(String),
    RecipeServingsChanged(String),
    RecipeSelected(Recipe),
    DeleteRecipe(u32),
    SaveRecipes,
    LoadRecipes,
}

/// The file work that a message asks of the shell around the window.
#[derive(Debug, Clone, Copy, PartialEq, Eq, Structural)]
pub enum Command {
    Idle,
    SaveRecipes,
    LoadRecipes,
}

/// The state behind the window: the catalogue, the text of the form, the
/// recipe selected, the last error shown and whether a recipe is being edited.
pub struct RecipeManagerGUI {
    pub recipe_manager: RecipeManager,
    pub recipe_name: String,
    pub recipe_ingredients: String,
    pub recipe_instructions: String,
    pub recipe_servings: String,
    pub selected_recipe: Option<Recipe>,
    pub error_message: Option<String>,
    pub editing: bool,
}

/// The servings that the form's text gives, or `fallback` where it is no
/// number.
pub open spec fn servings_or(text: Seq<char>, fallback: u32) -> u32 {
    match parsed_u32(text) {
        Some(n) => n,
        None => fallback,
    }
}

/// The recipe that the form describes, under the id and with the fallback
/// servings given.
pub open spec fn form_entry(g: RecipeManagerGUI, id: u32, fallback: u32) -> RecipeView {
    RecipeView {
        id,
        name: g.recipe_name@,
        ingredients: split_on(g.recipe_ingredients@, ','),
        instructions: split_on(g.recipe_instructions@, '\n'),
        servings: servings_or(g.recipe_servings@, fallback),
    }
}

/// The four fields of the form are empty.
pub open spec fn form_cleared(g: RecipeManagerGUI) -> bool {
    &&& g.recipe_name@.len() == 0
    &&& g.recipe_ingredients@.len() == 0
    &&& g.recipe_instructions@.len() == 0
    &&& g.recipe_servings@.len() == 0
}

/// The four fields of the form are the same in both states.
pub open spec fn same_form(a: RecipeManagerGUI, b: RecipeManagerGUI) -> bool {
    &&& a.recipe_name == b.recipe_name
    &&& a.recipe_ingredients == b.recipe_ingredients
    &&& a.recipe_instructions == b.recipe_instructions
    &&& a.recipe_servings == b.recipe_servings
}

/// The form shows the recipe for editing.
pub open spec fn form_shows(g: RecipeManagerGUI, v: RecipeView) -> bool {
    &&& g.recipe_name@ == v.name
    &&& g.recipe_ingredients@ == joined(v.ingredients, ", "@)
    &&& g.recipe_instructions@ == joined(v.instructions, "\n"@)
    &&& g.recipe_servings@ == decimal(v.servings as nat)
}

/// The catalogue's recipes and next id are the same in both states.
pub open spec fn same_catalogue(a: RecipeManagerGUI, b: RecipeManagerGUI) -> bool {
    &&& a.recipe_manager.entries() == b.recipe_manager.entries()
    &&& a.recipe_manager.upcoming_id() == b.recipe_manager.upcoming_id()
}

/// How a message takes the state `pre` to `post`, and the command it hands
/// out.
pub open spec fn transition(
    pre: RecipeManagerGUI,
    message: Message,
    post: RecipeManagerGUI,
    command: Command,
) -> bool {
    match message {
        Message::AddRecipe => {
            &&& command == Command::Idle
            &&& post.selected_recipe == pre.selected_recipe
            &&& post.editing == pre.editing
            &&& if pre.recipe_name@.len() == 0 {
                &&& same_catalogue(pre, post)
                &&& same_form(pre, post)
                &&& post.error_message == pre.error_message
            } else if pre.recipe_manager.upcoming_id() == u32::MAX {
                &&& same_catalogue(pre, post)
                &&& same_form(pre, post)
                &&& post.error_message is Some
            } else {
                let id = pre.recipe_manager.upcoming_id();
                &&& post.recipe_manager.entries() == pre.recipe_manager.entries().push(
                    form_entry(pre, id, 1),
                )
                &&& post.recipe_manager.upcoming_id() == id + 1
                &&& form_cleared(post)
                &&& post.error_message == pre.error_message
            }
        },
        Message::EditRecipe(id) => {
            &&& command == Command::Idle
            &&& same_catalogue(pre, post)
            &&& post.error_message == pre.error_message
            &&& match lookup(pre.recipe_manager.entries(), id) {
                Some(v) => {
                    &&& form_shows(post, v)
                    &&& post.selected_recipe matches Some(s) && s@ == v
                    &&& post.editing
                },
                None => {
                    &&& same_form(pre, post)
                    &&& post.selected_recipe == pre.selected_recipe
                    &&& post.editing == pre.editing
                },
            }
        },
        Message::UpdateRecipe => {
            &&& command == Command::Idle
            &&& same_form(pre, post)
            &&& post.error_message == pre.error_message
            &&& post.selected_recipe is None
            &&& !post.editing
            &&& post.recipe_manager.upcoming_id() == pre.recipe_manager.upcoming_id()
            &&& match pre.selected_recipe {
                Some(s) => post.recipe_manager.entries() == updated(
                    pre.recipe_manager.entries(),
                    form_entry(pre, s.id, s.servings),
                ),
                None => post.recipe_manager.entries() == pre.recipe_manager.entries(),
            }
        },
        Message::CancelEdit => {
            &&& command == Command::Idle
            &&& same_catalogue(pre, post)
            &&& form_cleared(post)
            &&& !post.editing
            &&& post.selected_recipe == pre.selected_recipe
            &&& post.error_message == pre.error_message
        },
        Message::RecipeNameChanged(s) => {
            &&& command == Command::Idle
            &&& post == (RecipeManagerGUI { recipe_name: s, ..pre })
        },
        Message::RecipeIngredientsChanged(s) => {
            &&& command == Command::Idle
            &&& post == (RecipeManagerGUI { recipe_ingredients: s, ..pre })
        },
        Message::RecipeInstructionsChanged(s) => {
            &&& command == Command::Idle
            &&& post == (RecipeManagerGUI { recipe_instructions: s, ..pre })
        },
        Message::RecipeServingsChanged(s) => {
            &&& command == Command::Idle
            &&& post == (RecipeManagerGUI { recipe_servings: s, ..pre })
        },
        Message::RecipeSelected(r) => {
            &&& command == Command::Idle
            &&& post == (RecipeManagerGUI { selected_recipe: Some(r), editing: false, ..pre })
        },
        Message::DeleteRecipe(id) => {
            &&& command == Command::Idle
            &&& same_form(pre, post)
            &&& post.error_message == pre.error_message
            &&& post.editing == pre.editing
            &&& post.recipe_manager.entries() == without_id(pre.recipe_manager.entries(), id)
            &&& post.recipe_manager.upcoming_id() == pre.recipe_manager.upcoming_id()
            &&& if has_id(pre.recipe_manager.entries(), id) {
                post.selected_recipe is None
            } else {
                post.selected_recipe == pre.selected_recipe
            }
        },
        Message::SaveRecipes => {
            &&& command == Command::SaveRecipes
            &&& post == pre
        },
        Message::LoadRecipes => {
            &&& command == Command::LoadRecipes
            &&& post == pre
        },
    }
}

impl RecipeManagerGUI {
    /// The catalogue is well formed.
    pub open spec fn wf(&self) -> bool {
        self.recipe_manager.wf()
    }

    /// An empty catalogue and an empty form, nothing selected, no error.
    pub fn new() -> (r: RecipeManagerGUI)
        ensures
            r.wf(),
            r.recipe_manager.entries() == Seq::<RecipeView>::empty(),
            r.recipe_manager.upcoming_id() == 1,
            form_cleared(r),
            r.selected_recipe is None,
            r.error_message is None,
            !r.editing,
    {
        RecipeManagerGUI {
            recipe_manager: RecipeManager::new(),
            recipe_name: String::new(),
            recipe_ingredients: String::new(),
            recipe_instructions: String::new(),
            recipe_servings: String::new(),
            selected_recipe: None,
            error_message: None,
            editing: false,
        }
    }

    /// The window's title.
    pub fn title(&self) -> (r: String)
        ensures
            r@ == "RecipeManager"@,
    {
        String::from_str("RecipeManager")
    }

    fn clear_form(&mut self)
        ensures
            form_cleared(*final(self)),
            final(self).recipe_manager == old(self).recipe_manager,
            final(self).selected_recipe == old(self).selected_recipe,
            final(self).error_message == old(self).error_message,
            final(self).editing == old(self).editing,
    {
        self.recipe_name = String::new();
        self.recipe_ingredients = String::new();
        self.recipe_instructions = String::new();
        self.recipe_servings = String::new();
    }

    /// Applies a message to the state and returns the file work it asks for.
    pub fn update(&mut self, message: Message) -> (r: Command)
        requires
            old(self).wf(),
        ensures
            final(self).wf(),
            transition(*old(self), message, *final(self), r),
    {
        match message {
            Message::AddRecipe => {
                if !self.recipe_name.as_str().is_empty() {
                    if self.recipe_manager.next_id() == u32::MAX {
                        self.error_message = Some(
                            String::from_str("No id is left for another recipe"),
                        );
                    } else {
                        let servings = match parse_u32(self.recipe_servings.as_str()) {
                            Some(n) => n,
                            None => 1,
                        };
                        let name = self.recipe_name.clone();
                        let ingredients = split_at_char(self.recipe_ingredients.as_str(), ',');
                        let instructions = split_at_char(self.recipe_instructions.as_str(), '\n');
                        self.recipe_manager.add_recipe(name, ingredients, instructions, servings);
                        self.clear_form();
                    }
                }
                Command::Idle
            },
            Message::EditRecipe(id) => {
                match self.recipe_manager.get_recipe(id) {
                    Some(recipe) => {
                        let name = recipe.name.clone();
                        let ingredients = join_with(&recipe.ingredients, ", ");
                        let instructions = join_with(&recipe.instructions, "\n");
                        let servings = decimal_text(recipe.servings);
                        let selected = recipe.duplicate();
                        self.recipe_name = name;
                        self.recipe_ingredients = ingredients;
                        self.recipe_instructions = instructions;
                        self.recipe_servings = servings;
                        self.selected_recipe = Some(selected);
                        self.editing = true;
                    },
                    None => {},
                }
                Command::Idle
            },
            Message::UpdateRecipe => {
                match &self.selected_recipe {
                    Some(recipe) => {
                        let id = recipe.id;
                        let servings = match parse_u32(self.recipe_servings.as_str()) {
                            Some(n) => n,
                            None => recipe.servings,
                        };
                        let name = self.recipe_name.clone();
                        let ingredients = split_at_char(self.recipe_ingredients.as_str(), ',');
                        let instructions = split_at_char(self.recipe_instructions.as_str(), '\n');
                        self.recipe_manager.update_recipe(
                            id,
                            name,
                            ingredients,
                            instructions,
                            servings,
                        );
                    },
                    None => {},
                }
                self.editing = false;
                self.selected_recipe = None;
                Command::Idle
            },
            Message::CancelEdit => {
                self.editing = false;
                self.clear_form();
                Command::Idle
            },
            Message::RecipeNameChanged(name) => {
                self.recipe_name = name;
                Command::Idle
            },
            Message::RecipeIngredientsChanged(ingredients) => {
                self.recipe_ingredients = ingredients;
                Command::Idle
            },
            Message::RecipeInstructionsChanged(instructions) => {
                self.recipe_instructions = instructions;
                Command::Idle
            },
            Message::RecipeServingsChanged(servings) => {
                self.recipe_servings = servings;
                Command::Idle
            },
            Message::RecipeSelected(recipe) => {
                self.selected_recipe = Some(recipe);
                self.editing = false;
                Command::Idle
            },
            Message::DeleteRecipe(id) => {
                if self.recipe_manager.delete_recipe(id) {
                    self.selected_recipe = None;
                }
                Command::Idle
            },
            Message::SaveRecipes => Command::SaveRecipes,
            Message::LoadRecipes => Command::LoadRecipes,
        }
    }

    /// Takes the outcome of saving the catalogue: a failure is shown with its
    /// reason; nothing else changes.
    pub fn save_finished(&mut self, outcome: Result<(), String>)
        requires
            old(self).wf(),
        ensures
            final(self).wf(),
            match outcome {
                Ok(()) => *final(self) == *old(self),
                Err(reason) => {
                    &&& final(self).error_message matches Some(m) && m@
                        == "Failed to save recipes: "@ + reason@
                    &&& *final(self) == (RecipeManagerGUI {
                        error_message: final(self).error_message,
                        ..*old(self)
                    })
                },
            },
    {
        match outcome {
            Ok(()) => {},
            Err(reason) => {
                let mut text = String::from_str("Failed to save recipes: ");
                text.append(reason.as_str());
                self.error_message = Some(text);
            },
        }
    }

    /// Takes the outcome of loading the catalogue: loaded recipes replace the
    /// catalogue and clear the selection; a failure is shown with its reason
    /// and the catalogue stays as it was. A list holding the id `u32::MAX`
    /// counts as a failure.
    pub fn load_finished(&mut self, outcome: Result<Vec<Recipe>, String>)
        requires
            old(self).wf(),
        ensures
            final(self).wf(),
            same_form(*old(self), *final(self)),
            final(self).editing == old(self).editing,
            match outcome {
                Ok(list) => if forall|i: int|
                    0 <= i < list@.len() ==> #[trigger] list@[i].id < u32::MAX {
                    &&& final(self).recipe_manager.entries() == recipes_view(list@)
                    &&& final(self).recipe_manager.upcoming_id() == max_id(recipes_view(list@)) + 1
                    &&& final(self).selected_recipe is None
                    &&& final(self).error_message == old(self).error_message
                } else {
                    &&& same_catalogue(*old(self), *final(self))
                    &&& final(self).selected_recipe == old(self).selected_recipe
                    &&& final(self).error_message is Some
                },
                Err(reason) => {
                    &&& same_catalogue(*old(self), *final(self))
                    &&& final(self).selected_recipe == old(self).selected_recipe
                    &&& final(self).error_message matches Some(m) && m@
                        == "Failed to load recipes: "@ + reason@
                },
            },
    {
        match outcome {
            Ok(list) => {
                if self.recipe_manager.replace_recipes(list) {
                    self.selected_recipe = None;
                } else {
                    self.error_message = Some(
                        String::from_str(
                            "Failed to load recipes: a recipe has the largest id, so no id is left",
                        ),
                    );
                }
            },
            Err(reason) => {
                let mut text = String::from_str("Failed to load recipes: ");
                text.append(reason.as_str());
                self.error_message = Some(text);
            },
        }
    }
}

} // verus!
