use vstd::prelude::*;

verus! {

/// `std::io::Error`, carried by [`ZoneError::IO`].
#[verifier::external_type_specification]
#[verifier::external_body]
pub struct ExIoError(std::io::Error);

/// Errors while loading a zone.
#[derive(Debug)]
pub enum ZoneError {
    /// Reading the zone file failed.
    IO(std::io::Error),

    /// The zone file could not be parsed.
    ParseError(String),
}

} // verus!
