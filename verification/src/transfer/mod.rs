pub mod checksum;
pub mod sum_head;
pub mod compression;
pub mod tokens;
