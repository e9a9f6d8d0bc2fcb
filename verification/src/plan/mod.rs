pub mod limits;
pub mod stop_at;
pub mod filters;
pub mod options;
pub mod modes;
pub mod metadata;
pub mod remote_args;
pub mod transfer_plan;
