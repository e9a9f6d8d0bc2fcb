pub mod apply;
pub mod matcher;
pub mod rollsum;
pub mod signature;
pub mod roundtrip;
