pub mod cache;
pub mod catalog;
pub mod json;
pub mod matcher;
pub mod options;
pub mod render;
