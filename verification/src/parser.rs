pub mod common;
pub mod filter;
pub mod order_by;
