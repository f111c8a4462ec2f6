//! A small recipe catalogue: recipes with ingredients, instructions and
//! servings, kept in a manager that hands out increasing ids, together with the
//! event handling of the desktop front end that edits them.

pub mod recipe;
pub mod manager;
pub mod text;
pub mod ui;
