pub mod classes;
pub mod rheader;
pub mod types;

pub use classes::Class;
pub use rheader::{RHeader, RHeaderError};
pub use types::Type;
pub mod rdata;
pub mod record;

pub use rdata::{RData, RDataError, RDataParseError, HINFO, MINFO, MX, NULL, OPT, SOA, TXT};
pub use record::{Record, RecordError};
pub mod records;
