use recipe_manager::recipe::Recipe;
use recipe_manager::ui::{Command, Message, RecipeManagerGUI};

fn fill(g: &mut RecipeManagerGUI, name: &str, ingredients: &str, instructions: &str, servings: &str) {
    g.update(Message::RecipeNameChanged(name.to_string()));
    g.update(Message::RecipeIngredientsChanged(ingredients.to_string()));
    g.update(Message::RecipeInstructionsChanged(instructions.to_string()));
    g.update(Message::RecipeServingsChanged(servings.to_string()));
}

fn form(g: &RecipeManagerGUI) -> (String, String, String, String) {
    (
        g.recipe_name.clone(),
        g.recipe_ingredients.clone(),
        g.recipe_instructions.clone(),
        g.recipe_servings.clone(),
    )
}

#[test]
fn new_window_is_empty() {
    let g = RecipeManagerGUI::new();
    assert_eq!(g.title(), "RecipeManager");
    assert!(g.recipe_manager.get_all_recipes().is_empty());
    assert_eq!(form(&g), (String::new(), String::new(), String::new(), String::new()));
    assert!(g.selected_recipe.is_none());
    assert!(g.error_message.is_none());
    assert!(!g.editing);
}

#[test]
fn add_splits_the_form_and_clears_it() {
    let mut g = RecipeManagerGUI::new();
    fill(&mut g, "Pancakes", "flour,milk, eggs", "mix\nfry", "4");
    assert_eq!(g.update(Message::AddRecipe), Command::Idle);
    let r = g.recipe_manager.get_recipe(1).unwrap();
    assert_eq!(r.name, "Pancakes");
    assert_eq!(r.ingredients, vec!["flour".to_string(), "milk".to_string(), " eggs".to_string()]);
    assert_eq!(r.instructions, vec!["mix".to_string(), "fry".to_string()]);
    assert_eq!(r.servings, 4);
    assert_eq!(form(&g), (String::new(), String::new(), String::new(), String::new()));
}

#[test]
fn add_keeps_empty_pieces() {
    let mut g = RecipeManagerGUI::new();
    fill(&mut g, "Toast", "", "a\n\nb\n", "+12");
    g.update(Message::AddRecipe);
    let r = g.recipe_manager.get_recipe(1).unwrap();
    assert_eq!(r.ingredients, vec![String::new()]);
    assert_eq!(
        r.instructions,
        vec!["a".to_string(), String::new(), "b".to_string(), String::new()]
    );
    assert_eq!(r.servings, 12);
}

#[test]
fn add_with_unreadable_servings_uses_one() {
    let mut g = RecipeManagerGUI::new();
    fill(&mut g, "Rice", "rice", "boil", "two");
    g.update(Message::AddRecipe);
    assert_eq!(g.recipe_manager.get_recipe(1).unwrap().servings, 1);
    fill(&mut g, "Beans", "beans", "soak", "-3");
    g.update(Message::AddRecipe);
    assert_eq!(g.recipe_manager.get_recipe(2).unwrap().servings, 1);
    fill(&mut g, "Corn", "corn", "grill", "4294967296");
    g.update(Message::AddRecipe);
    assert_eq!(g.recipe_manager.get_recipe(3).unwrap().servings, 1);
}

#[test]
fn add_without_name_does_nothing() {
    let mut g = RecipeManagerGUI::new();
    fill(&mut g, "", "salt", "stir", "2");
    g.update(Message::AddRecipe);
    assert!(g.recipe_manager.get_all_recipes().is_empty());
    assert_eq!(form(&g), (String::new(), "salt".to_string(), "stir".to_string(), "2".to_string()));
}

#[test]
fn add_when_no_id_is_left_shows_error() {
    let mut g = RecipeManagerGUI::new();
    g.load_finished(Ok(vec![Recipe::new(u32::MAX - 1, "last".to_string(), vec![], vec![], 1)]));
    assert_eq!(g.recipe_manager.next_id(), u32::MAX);
    fill(&mut g, "More", "x", "y", "1");
    g.update(Message::AddRecipe);
    assert_eq!(g.recipe_manager.get_all_recipes().len(), 1);
    assert!(g.error_message.is_some());
    assert_eq!(g.recipe_name, "More");
}

#[test]
fn edit_fills_the_form_from_the_recipe() {
    let mut g = RecipeManagerGUI::new();
    g.recipe_manager.add_recipe(
        "Curry".to_string(),
        vec!["rice".to_string(), "spice".to_string()],
        vec!["cook".to_string(), "serve".to_string()],
        250,
    );
    g.update(Message::EditRecipe(1));
    assert_eq!(
        form(&g),
        ("Curry".to_string(), "rice, spice".to_string(), "cook\nserve".to_string(), "250".to_string())
    );
    assert!(g.editing);
    assert_eq!(g.selected_recipe.as_ref().unwrap().id, 1);
    assert_eq!(g.selected_recipe.as_ref().unwrap().name, "Curry");
}

#[test]
fn edit_of_missing_id_changes_nothing() {
    let mut g = RecipeManagerGUI::new();
    g.update(Message::RecipeNameChanged("draft".to_string()));
    g.update(Message::EditRecipe(3));
    assert_eq!(g.recipe_name, "draft");
    assert!(!g.editing);
    assert!(g.selected_recipe.is_none());
}

#[test]
fn update_writes_the_form_to_the_selected_recipe() {
    let mut g = RecipeManagerGUI::new();
    fill(&mut g, "Pie", "apple", "bake", "8");
    g.update(Message::AddRecipe);
    g.update(Message::EditRecipe(1));
    g.update(Message::RecipeIngredientsChanged("apple,sugar".to_string()));
    g.update(Message::RecipeServingsChanged("lots".to_string()));
    assert_eq!(g.update(Message::UpdateRecipe), Command::Idle);
    let r = g.recipe_manager.get_recipe(1).unwrap();
    assert_eq!(r.name, "Pie");
    assert_eq!(r.ingredients, vec!["apple".to_string(), "sugar".to_string()]);
    assert_eq!(r.instructions, vec!["bake".to_string()]);
    assert_eq!(r.servings, 8);
    assert!(!g.editing);
    assert!(g.selected_recipe.is_none());
}

#[test]
fn update_without_selection_only_ends_editing() {
    let mut g = RecipeManagerGUI::new();
    fill(&mut g, "Pie", "apple", "bake", "8");
    g.update(Message::AddRecipe);
    fill(&mut g, "Other", "x", "y", "1");
    g.update(Message::UpdateRecipe);
    assert_eq!(g.recipe_manager.get_recipe(1).unwrap().name, "Pie");
    assert_eq!(g.recipe_name, "Other");
}

#[test]
fn cancel_clears_the_form() {
    let mut g = RecipeManagerGUI::new();
    fill(&mut g, "Pie", "apple", "bake", "8");
    g.update(Message::AddRecipe);
    g.update(Message::EditRecipe(1));
    g.update(Message::CancelEdit);
    assert!(!g.editing);
    assert_eq!(form(&g), (String::new(), String::new(), String::new(), String::new()));
    assert_eq!(g.selected_recipe.as_ref().unwrap().id, 1);
}

#[test]
fn select_and_delete() {
    let mut g = RecipeManagerGUI::new();
    fill(&mut g, "Pie", "apple", "bake", "8");
    g.update(Message::AddRecipe);
    let chosen = g.recipe_manager.get_recipe(1).unwrap().duplicate();
    g.update(Message::RecipeSelected(chosen));
    assert_eq!(g.selected_recipe.as_ref().unwrap().name, "Pie");
    g.update(Message::DeleteRecipe(5));
    assert!(g.selected_recipe.is_some());
    g.update(Message::DeleteRecipe(1));
    assert!(g.selected_recipe.is_none());
    assert!(g.recipe_manager.get_all_recipes().is_empty());
}

#[test]
fn save_and_load_are_handed_out() {
    let mut g = RecipeManagerGUI::new();
    assert_eq!(g.update(Message::SaveRecipes), Command::SaveRecipes);
    assert_eq!(g.update(Message::LoadRecipes), Command::LoadRecipes);
    assert!(g.error_message.is_none());
}

#[test]
fn save_failure_is_shown() {
    let mut g = RecipeManagerGUI::new();
    g.save_finished(Ok(()));
    assert!(g.error_message.is_none());
    g.save_finished(Err("disk full".to_string()));
    assert_eq!(g.error_message.as_deref(), Some("Failed to save recipes: disk full"));
}

#[test]
fn load_failure_is_shown_and_keeps_catalogue() {
    let mut g = RecipeManagerGUI::new();
    fill(&mut g, "Pie", "apple", "bake", "8");
    g.update(Message::AddRecipe);
    g.load_finished(Err("expected value at line 1 column 1".to_string()));
    assert_eq!(
        g.error_message.as_deref(),
        Some("Failed to load recipes: expected value at line 1 column 1")
    );
    assert_eq!(g.recipe_manager.get_all_recipes().len(), 1);
    assert_eq!(g.recipe_manager.next_id(), 2);
}

#[test]
fn load_replaces_catalogue_and_clears_selection() {
    let mut g = RecipeManagerGUI::new();
    fill(&mut g, "Pie", "apple", "bake", "8");
    g.update(Message::AddRecipe);
    g.update(Message::EditRecipe(1));
    g.load_finished(Ok(vec![
        Recipe::new(2, "a".to_string(), vec![], vec![], 1),
        Recipe::new(9, "b".to_string(), vec![], vec![], 3),
    ]));
    assert!(g.selected_recipe.is_none());
    assert!(g.error_message.is_none());
    assert_eq!(g.recipe_manager.get_all_recipes().len(), 2);
    assert_eq!(g.recipe_manager.next_id(), 10);
}

#[test]
fn load_with_largest_id_is_shown_as_failure() {
    let mut g = RecipeManagerGUI::new();
    g.load_finished(Ok(vec![Recipe::new(u32::MAX, "big".to_string(), vec![], vec![], 1)]));
    assert!(g.error_message.is_some());
    assert!(g.recipe_manager.get_all_recipes().is_empty());
    assert_eq!(g.recipe_manager.next_id(), 1);
}
