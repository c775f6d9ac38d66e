use vstd::prelude::*;

use crate::text::{ascii_lower, lowercase, str_equals, to_lowercase};

verus! {

/// The transport protocol.
#[derive(Debug, Clone, Copy, PartialEq, Eq, Structural)]
pub enum Network {
    Tcp,
    Udp,
}

/// A network name that is neither TCP nor UDP.
#[derive(Debug)]
pub struct NetworkError {
    input: String,
}

impl View for NetworkError {
    type V = Seq<char>;

    closed spec fn view(&self) -> Seq<char> {
        self.input@
    }
}

/// The network an (already lowercased) name stands for: `tcp`, `tcp4` and
/// `tcp6` are TCP, `udp`, `udp4` and `udp6` are UDP.
pub open spec fn network_from_word(s: Seq<char>) -> Option<Network> {
    if s == "tcp"@ || s == "tcp4"@ || s == "tcp6"@ {
        Some(Network::Tcp)
    } else if s == "udp"@ || s == "udp4"@ || s == "udp6"@ {
        Some(Network::Udp)
    } else {
        None
    }
}

impl NetworkError {
    /// The error for a refused network name.
    pub fn new(input: String) -> (r: Self)
        ensures
            r@ == input@,
    {
        NetworkError { input }
    }

    /// The text that was refused.
    pub fn input(&self) -> (r: &String)
        ensures
            r@ == self@,
    {
        &self.input
    }

    /// The message of the error: `Invalid network <input>, expected tcp/udp`.
    pub fn to_string(&self) -> (r: String)
        ensures
            r@ == "Invalid network "@ + self@ + ", expected tcp/udp"@,
    {
        let mut s = String::from_str("Invalid network ");
        s.append(self.input.as_str());
        s.append(", expected tcp/udp");
        s
    }
}

impl Network {
    /// The network an already lowercased name stands for; `input` is the
    /// text to report when there is none.
    pub fn from_lowercase(s: &str, input: &str) -> (r: Result<Network, NetworkError>)
        ensures
            match network_from_word(s@) {
                Some(n) => r matches Ok(x) && x == n,
                None => r matches Err(e) && e@ == input@,
            },
    {
        if str_equals(s, "tcp") || str_equals(s, "tcp4") || str_equals(s, "tcp6") {
            return Ok(Network::Tcp);
        }
        if str_equals(s, "udp") || str_equals(s, "udp4") || str_equals(s, "udp6") {
            return Ok(Network::Udp);
        }
        Err(NetworkError { input: input.to_owned() })
    }

    /// Parses a network name, whatever its case.
    pub fn from_str(s: &str) -> (r: Result<Network, NetworkError>)
        ensures
            match network_from_word(lowercase(s@)) {
                Some(n) => r matches Ok(x) && x == n,
                None => r matches Err(e) && e@ == s@,
            },
            vstd::utf8::is_ascii_chars(s@) ==> match network_from_word(ascii_lower(s@)) {
                Some(n) => r matches Ok(x) && x == n,
                None => r matches Err(e) && e@ == s@,
            },
    {
        let lower = to_lowercase(s);
        Self::from_lowercase(lower.as_str(), s)
    }
}

} // verus!
