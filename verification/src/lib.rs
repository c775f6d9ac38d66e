//! A DNS protocol library: domain names, messages, resource records and
//! their wire format.

pub mod addr;
pub mod constants;
pub mod errors;
pub mod packing;
pub mod text;
pub mod types;
pub mod utils;
pub mod zone;
