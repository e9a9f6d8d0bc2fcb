pub mod glob;
pub mod matcher;
pub mod rule;
pub mod records;
pub mod files_from;
