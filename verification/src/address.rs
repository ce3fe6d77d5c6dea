//! Picking exactly one address string out of a profile's candidates.

use vstd::prelude::*;

use crate::config::Address;
use crate::AddressFamily;
use crate::Error;

verus! {

impl Address {
    /// The address resolution rule: an explicit family preference demands the
    /// matching literal; with no preference the hostname wins, then the IPv6
    /// literal, then the IPv4 literal.
    pub open spec fn spec_choose(self, force_ipv4: bool, force_ipv6: bool) -> Result<
        Seq<char>,
        Error,
    > {
        if force_ipv4 {
            match self.ipv4 {
                Some(a) => Ok(a@),
                None => Err(Error::MissingAddressFamily(AddressFamily::V4)),
            }
        } else if force_ipv6 {
            match self.ipv6 {
                Some(a) => Ok(a@),
                None => Err(Error::MissingAddressFamily(AddressFamily::V6)),
            }
        } else if self.hostname is Some {
            Ok(self.hostname->0@)
        } else if self.ipv6 is Some {
            Ok(self.ipv6->0@)
        } else if self.ipv4 is Some {
            Ok(self.ipv4->0@)
        } else {
            Err(Error::NoAddressConfigured)
        }
    }

    pub fn choose_address(&self, force_ipv4: bool, force_ipv6: bool) -> (r: Result<&str, Error>)
        ensures
            match r {
                Ok(a) => self.spec_choose(force_ipv4, force_ipv6) == Ok::<Seq<char>, Error>(a@),
                Err(e) => self.spec_choose(force_ipv4, force_ipv6) == Err::<Seq<char>, Error>(e),
            },
    {
        if force_ipv4 {
            return match &self.ipv4 {
                Some(a) => Ok(a.as_str()),
                None => Err(Error::MissingAddressFamily(AddressFamily::V4)),
            };
        }
        if force_ipv6 {
            return match &self.ipv6 {
                Some(a) => Ok(a.as_str()),
                None => Err(Error::MissingAddressFamily(AddressFamily::V6)),
            };
        }
        if let Some(a) = &self.hostname {
            return Ok(a.as_str());
        }
        if let Some(a) = &self.ipv6 {
            return Ok(a.as_str());
        }
        if let Some(a) = &self.ipv4 {
            return Ok(a.as_str());
        }
        Err(Error::NoAddressConfigured)
    }
}

/// Law: with only a hostname configured and no family preference, resolution
/// returns exactly the hostname.
pub proof fn lemma_hostname_only_resolves_to_hostname(a: Address)
    requires
        a.hostname is Some,
        a.ipv4 is None,
        a.ipv6 is None,
    ensures
        a.spec_choose(false, false) == Ok::<Seq<char>, Error>(a.hostname->0@),
{
}

/// Law: a family preference whose literal is not configured fails with
/// the missing family named; IPv4 is checked before IPv6.
pub proof fn lemma_missing_family_is_reported(a: Address, force_ipv6: bool)
    ensures
        a.ipv4 is None ==> a.spec_choose(true, force_ipv6) == Err::<Seq<char>, Error>(
            Error::MissingAddressFamily(AddressFamily::V4),
        ),
        a.ipv6 is None ==> a.spec_choose(false, true) == Err::<Seq<char>, Error>(
            Error::MissingAddressFamily(AddressFamily::V6),
        ),
{
}

} // verus!
