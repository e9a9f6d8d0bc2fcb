pub mod auth;
pub mod claims;
pub mod wire;
pub mod receive;
pub mod batch;
pub mod flist;
pub mod session;
