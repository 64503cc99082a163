pub mod commands;
pub mod config;
pub mod context;
pub mod error;
pub mod fs;
pub mod history;
pub mod path;
pub mod run;
pub mod sort;
pub mod stringmap;
pub mod tab;
pub mod text;
pub mod window;
