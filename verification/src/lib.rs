pub mod archive;
pub mod config;
pub mod gitignore;
pub mod pipeline;
pub mod text;
pub mod zipio;
