//! A disk usage analyzer: the logic behind a terminal browser of directory sizes.

pub mod app;
pub mod app_laws;
pub mod app_model;
pub mod command;
pub mod json;
pub mod layout;
pub mod model;
pub mod model_laws;
pub mod order;
pub mod path;
pub mod scan_laws;
pub mod scanner;
pub mod screen;
pub mod screen_laws;
pub mod storage;
pub mod text;
pub mod text_laws;
pub mod tree;
pub mod tree_laws;
