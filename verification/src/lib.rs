pub mod decimal;
pub mod hook_context;
pub mod lexicon;
pub mod project;
pub mod protocol;
pub mod similarity;
pub mod sql;
pub mod store;
pub mod tags;
pub mod text;
