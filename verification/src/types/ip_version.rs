use vstd::prelude::*;

verus! {

/// Which IP versions to use.
#[derive(Debug, Clone, Copy, PartialEq, Eq, Structural)]
pub enum IpVersion {
    Both,
    V4,
    V6,
}

/// The IP version chosen by the flags (use IPv4, use IPv6): neither flag
/// means both versions, only the IPv6 flag means IPv6, and otherwise IPv4.
pub open spec fn ip_version_of(value: (bool, bool)) -> IpVersion {
    if !value.0 && !value.1 {
        IpVersion::Both
    } else if !value.0 && value.1 {
        IpVersion::V6
    } else {
        IpVersion::V4
    }
}

impl Default for IpVersion {
    fn default() -> (r: Self)
        ensures
            r == IpVersion::Both,
    {
        Self::Both
    }
}

impl From<(bool, bool)> for IpVersion {
    fn from(value: (bool, bool)) -> (r: Self) {
        if !value.0 && !value.1 {
            return Self::Both;
        } else if !value.0 && value.1 {
            return Self::V6;
        } else {
            Self::V4
        }
    }
}

impl vstd::std_specs::convert::FromSpecImpl<(bool, bool)> for IpVersion {
    open spec fn obeys_from_spec() -> bool {
        true
    }

    open spec fn from_spec(value: (bool, bool)) -> Self {
        ip_version_of(value)
    }
}

} // verus!
