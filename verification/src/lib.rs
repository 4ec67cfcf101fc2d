//! The rules of a Discord bot that trains and queries capacitor text models.

pub mod answer_laws;
pub mod change_laws;
pub mod command_laws;
pub mod commands;
pub mod datasets;
pub mod files;
pub mod jobs;
pub mod models;
pub mod numbers;
pub mod options;
pub mod order;
pub mod paths;
pub mod percent;
pub mod progress;
pub mod query;
pub mod recipe;
pub mod recipe_edit;
pub mod recipe_laws;
pub mod recipes;
pub mod settings;
pub mod store;
pub mod store_laws;
pub mod text;
pub mod text_laws;
pub mod train;
pub mod util;
