pub mod network;
pub mod timeout;

pub use network::{Network, NetworkError};
pub use timeout::TimeoutResult;
