pub mod text;
pub mod git;
pub mod paths;
pub mod state;
pub mod config;
pub mod pool;
pub mod process;
pub mod display;
pub mod gitignore;
pub mod branch;
pub mod prompt;
pub mod shell;
pub mod release;
pub mod completions;
pub mod setup;
pub mod storage;
pub mod destroy;
