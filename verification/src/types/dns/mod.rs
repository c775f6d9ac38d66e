pub mod header;
pub mod message;
pub mod name;
pub mod query;
pub mod question;

pub use header::{Header, RawHeader};
pub use message::{Message, MessageError, ResultRecords};
pub use name::{Label, Name, NameIterator};
pub use query::{Query, ToQuery};
pub use question::{Question, QuestionError};
