use vstd::prelude::*;

use crate::errors::BufferError;
use crate::packing::{read_bytes_at, UnpackBuffer};

verus! {

/// Reads a 32 bit IPv4 address, octets in network order.
pub fn unpack(buf: &mut UnpackBuffer) -> (r: Result<[u8; 4], BufferError>)
    ensures
        final(buf).bytes() == old(buf).bytes(),
        match read_bytes_at(old(buf).bytes(), old(buf).pos(), 4) {
            Ok((v, p)) => r matches Ok(a) && a@ == v && final(buf).pos() == p,
            Err(e) => r == Err::<[u8; 4], BufferError>(e),
        },
{
    let v = buf.unpack_vec(4)?;
    let a = [v[0], v[1], v[2], v[3]];
    assert(a@ =~= v@);
    Ok(a)
}

/// Reads a 128 bit IPv6 address, octets in network order.
pub fn unpack_v6(buf: &mut UnpackBuffer) -> (r: Result<[u8; 16], BufferError>)
    ensures
        final(buf).bytes() == old(buf).bytes(),
        match read_bytes_at(old(buf).bytes(), old(buf).pos(), 16) {
            Ok((v, p)) => r matches Ok(a) && a@ == v && final(buf).pos() == p,
            Err(e) => r == Err::<[u8; 16], BufferError>(e),
        },
{
    let v = buf.unpack_vec(16)?;
    let a = [
        v[0],
        v[1],
        v[2],
        v[3],
        v[4],
        v[5],
        v[6],
        v[7],
        v[8],
        v[9],
        v[10],
        v[11],
        v[12],
        v[13],
        v[14],
        v[15],
    ];
    assert(a@ =~= v@);
    Ok(a)
}

} // verus!
