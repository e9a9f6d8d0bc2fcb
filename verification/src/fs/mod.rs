pub mod memory;
pub mod memory_fs;
pub mod memory_laws;
pub mod metadata;
pub mod paths;
pub mod sync;
pub mod sync_paths;
pub mod sync_plan;
pub mod sync_engine;
pub mod sync_order;
pub mod tree;
pub mod local;
pub mod walk;
