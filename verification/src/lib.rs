//! Connection-launcher core: profile catalog, address resolution, profile
//! selection, and composition of ssh argument vectors and remote-desktop
//! connection descriptors.

use vstd::prelude::*;

pub mod address;
pub mod command;
pub mod completion;
pub mod config;
pub mod rdp;
pub mod select;
pub mod ssh;
pub mod strutil;
pub mod tunnel;

verus! {

/// Which address family a caller asked for explicitly.
#[derive(Clone, Copy, Debug, PartialEq, Eq, Structural)]
pub enum AddressFamily {
    V4,
    V6,
}

/// Every failure the composition logic can surface.
#[derive(Clone, Debug, PartialEq, Eq)]
pub enum Error {
    /// The requested address family has no configured literal.
    MissingAddressFamily(AddressFamily),
    /// The profile configures no hostname and no address literal.
    NoAddressConfigured,
    /// No profile of the given kind has the given name.
    ProfileNotFound(String, String),
    /// Jump hosts were requested but the profile configures none.
    NoJumpHostsConfigured,
    /// The gateway was requested but the profile configures none.
    NoGatewayConfigured,
    /// The tunnel profile configures no forward.
    EmptyForwardList,
    /// The command profile configures no command tokens.
    EmptyCommand,
    /// No remote-desktop backend exists for this platform.
    UnsupportedPlatform,
}

} // verus!
