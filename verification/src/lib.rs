pub mod color;
pub mod decimal;
pub mod path_abbrev;
pub mod prompt;
pub mod repo_status;
