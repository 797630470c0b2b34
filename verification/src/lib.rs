//! Verified core of the CodeSpace workspace launcher.
pub mod text;
pub mod json;
pub mod jsonc;
pub mod color;
pub mod title;
pub mod workspace;
pub mod tasks;
pub mod prompts;
pub mod table;
pub mod terminal;
pub mod monitor;
pub mod tester;
pub mod window;
pub mod scan;
pub mod launch;
