use vstd::prelude::*;

use crate::packing::{read_bytes_at, PackBuffer, UnpackBuffer};
use crate::types::rr::rdata::RDataError;

use crate::text::{debug_bytes, push_debug_bytes};

verus! {

/// A DNS cookie option (RFC 7873): an 8 octet client cookie and, when the
/// option is longer, a server cookie.
#[derive(Debug)]
pub struct COOKIE {
    client: Vec<u8>,
    server: Option<Vec<u8>>,
}

/// The contents of a [`COOKIE`].
pub struct CookieView {
    pub client: Seq<u8>,
    pub server: Option<Seq<u8>>,
}

impl View for COOKIE {
    type V = CookieView;

    closed spec fn view(&self) -> CookieView {
        CookieView {
            client: self.client@,
            server: match &self.server {
                Some(s) => Some(s@),
                None => None,
            },
        }
    }
}

/// Reading a cookie of `len` octets at offset `p`: 8 octets make only a
/// client cookie; more make a client cookie of 8 octets and a server cookie
/// of the rest; fewer are refused.
pub open spec fn read_cookie_at(b: Seq<u8>, p: int, len: u16) -> Result<(CookieView, int), RDataError> {
    if len == 8 {
        match read_bytes_at(b, p, 8) {
            Err(e) => Err(RDataError::BufferError(e)),
            Ok((client, q)) => Ok((CookieView { client, server: None }, q)),
        }
    } else if len < 8 {
        Err(RDataError::InvalidOptionLen(len))
    } else {
        match read_bytes_at(b, p, 8) {
            Err(e) => Err(RDataError::BufferError(e)),
            Ok((client, q)) => match read_bytes_at(b, q, len - 8) {
                Err(e) => Err(RDataError::BufferError(e)),
                Ok((server, r)) => Ok((CookieView { client, server: Some(server) }, r)),
            },
        }
    }
}

/// A cookie on the wire: the client cookie, then the server cookie if any.
pub open spec fn cookie_wire(c: CookieView) -> Seq<u8> {
    match c.server {
        Some(s) => c.client + s,
        None => c.client,
    }
}

impl COOKIE {
    #[verifier::type_invariant]
    spec fn inv(&self) -> bool {
        &&& self.client@.len() == 8
        &&& self.server matches Some(s) ==> s@.len() <= 65535
    }

    /// Reads a cookie option of `len` octets.
    pub fn unpack(buf: &mut UnpackBuffer, len: u16) -> (r: Result<Self, RDataError>)
        ensures
            final(buf).bytes() == old(buf).bytes(),
            match read_cookie_at(old(buf).bytes(), old(buf).pos(), len) {
                Ok((c, p)) => r matches Ok(x) && x@ == c && final(buf).pos() == p,
                Err(e) => r matches Err(x) && x == e,
            },
    {
        // If the len is only 8 octets, we know that only the client cookie is
        // present, so we take the short path
        if len == 8 {
            let client = match buf.unpack_vec(8) {
                Ok(v) => v,
                Err(e) => return Err(RDataError::BufferError(e)),
            };
            return Ok(Self { client, server: None });
        }
        if len < 8 {
            return Err(RDataError::InvalidOptionLen(len));
        }
        // Len is longer than 8 octets, both client and server cookie are
        // present
        let client = match buf.unpack_vec(8) {
            Ok(v) => v,
            Err(e) => return Err(RDataError::BufferError(e)),
        };
        let server = match buf.unpack_vec((len - 8) as usize) {
            Ok(v) => v,
            Err(e) => return Err(RDataError::BufferError(e)),
        };
        Ok(Self { client, server: Some(server) })
    }

    /// Writes the client cookie, then the server cookie if any.
    pub fn pack(&self, buf: &mut PackBuffer) -> (r: usize)
        ensures
            final(buf).bytes() == old(buf).bytes() + cookie_wire(self@),
            r == cookie_wire(self@).len(),
            r <= 8 + 65535,
    {
        proof {
            use_type_invariant(self);
        }
        buf.pack_slice(self.client.as_slice());
        match &self.server {
            Some(server) => {
                buf.pack_slice(server.as_slice());
                assert(buf.bytes() =~= old(buf).bytes() + cookie_wire(self@));
                8 + server.len()
            },
            None => 8,
        }
    }
}

/// A cookie as text, in the form `{:?}` gives it: the client cookie and, if
/// any, the server cookie, each as a list of octets.
pub open spec fn cookie_text(c: CookieView) -> Seq<char> {
    "COOKIE { client: "@ + debug_bytes(c.client) + ", server: "@ + match c.server {
        Some(s) => "Some("@ + debug_bytes(s) + ")"@,
        None => "None"@,
    } + " }"@
}

impl COOKIE {
    /// The cookie as text.
    pub fn to_string(&self) -> (r: String)
        ensures
            r@ == cookie_text(self@),
    {
        let mut s = String::from_str("COOKIE { client: ");
        push_debug_bytes(&mut s, self.client.as_slice());
        s.append(", server: ");
        match &self.server {
            Some(v) => {
                s.append("Some(");
                push_debug_bytes(&mut s, v.as_slice());
                s.append(")");
            },
            None => {
                s.append("None");
            },
        }
        s.append(" }");
        assert(s@ =~= cookie_text(self@));
        s
    }
}

} // verus!
