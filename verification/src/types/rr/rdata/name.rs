use vstd::prelude::*;

use crate::errors::ProtocolError;
use crate::packing::UnpackBuffer;
use crate::types::dns::name::{name_end, read_name, Name};

verus! {

/// Reads a `<domain-name>` from record data, as [`Name::unpack`] does: the
/// same result, and the read offset left at the same place.
pub fn unpack(buf: &mut UnpackBuffer) -> (r: Result<Name, ProtocolError>)
    ensures
        final(buf).bytes() == old(buf).bytes(),
        final(buf).pos() == name_end(old(buf).bytes(), old(buf).pos()),
        match read_name(old(buf).bytes(), old(buf).pos()) {
            Ok((ls, p)) => r matches Ok(n) && n@ == ls && final(buf).pos() == p,
            Err(e) => r == Err::<Name, ProtocolError>(e),
        },
{
    Name::unpack(buf)
}

} // verus!
