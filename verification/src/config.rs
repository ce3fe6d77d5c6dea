//! The profile catalog: the typed model of the configuration file, the
//! per-invocation CLI flag records, and the merge of included fragments.

use vstd::prelude::*;

use crate::Error;

verus! {

/// The candidate addresses of one remote target.
pub struct Address {
    pub hostname: Option<String>,
    pub ipv4: Option<String>,
    pub ipv6: Option<String>,
    pub port: Option<u16>,
}

/// Whether and when a remote-desktop session routes through a gateway.
#[derive(Clone, Copy, Debug, PartialEq, Eq, Structural)]
pub enum GatewayPolicy {
    Disable,
    Enable,
    Fallback,
}

impl GatewayPolicy {
    /// The numeric encoding the remote-desktop descriptor uses.
    pub open spec fn spec_code(self) -> u8 {
        match self {
            GatewayPolicy::Disable => 0,
            GatewayPolicy::Enable => 1,
            GatewayPolicy::Fallback => 2,
        }
    }

    pub fn code(&self) -> (r: u8)
        ensures
            r == self.spec_code(),
    {
        match self {
            GatewayPolicy::Disable => 0,
            GatewayPolicy::Enable => 1,
            GatewayPolicy::Fallback => 2,
        }
    }
}

impl Default for GatewayPolicy {
    fn default() -> (r: Self)
        ensures
            r == GatewayPolicy::Fallback,
    {
        GatewayPolicy::Fallback
    }
}

/// The remote-desktop client used to open a composed descriptor.
#[derive(Clone, Copy, Debug, PartialEq, Eq, Structural)]
pub enum RdpBackend {
    Mstsc,
}

impl RdpBackend {
    /// The backend to fall back on when the configuration names none.
    /// Only the Microsoft client is known; on a platform without it the
    /// choice fails rather than being compiled away.
    pub fn default_for_platform(mstsc_available: bool) -> (r: Result<RdpBackend, Error>)
        ensures
            mstsc_available ==> r == Ok::<RdpBackend, Error>(RdpBackend::Mstsc),
            !mstsc_available ==> r == Err::<RdpBackend, Error>(Error::UnsupportedPlatform),
    {
        if mstsc_available {
            Ok(RdpBackend::Mstsc)
        } else {
            Err(Error::UnsupportedPlatform)
        }
    }
}

/// Fallback settings for remote-desktop profiles.
pub struct RdpDefaults {
    pub username: Option<String>,
    pub backend: Option<RdpBackend>,
}

/// Fallback settings for ssh profiles.
pub struct SshDefaults {
    pub username: Option<String>,
}

/// One intermediate ssh hop on the way to a destination.
pub struct SshJumpHost {
    pub username: Option<String>,
    pub hostname: String,
    pub port: Option<u16>,
}

/// One local-to-remote port forward of a tunnel profile.
pub struct SshForwardArgument {
    pub local_port: u16,
    pub remote_port: u16,
    pub remote_host: String,
}

/// A named remote-desktop target.
pub struct RdpProfile {
    pub name: String,
    pub address: Address,
    pub username: Option<String>,
    pub domain: Option<String>,
    pub gateway: Option<String>,
    pub gateway_policy: GatewayPolicy,
    pub separate_credentials: bool,
    pub description: Option<String>,
}

/// A named ssh target.
pub struct SshProfile {
    pub name: String,
    pub address: Address,
    pub username: Option<String>,
    pub disable_jump_hosts: bool,
    pub jump_hosts: Vec<SshJumpHost>,
    pub description: Option<String>,
}

/// A named set of port forwards over a referenced ssh profile.
pub struct TunnelProfile {
    pub name: String,
    pub ssh_profile: String,
    pub forwards: Vec<SshForwardArgument>,
    pub open: Option<String>,
    pub description: Option<String>,
}

/// A named remote command over a referenced ssh profile.
pub struct CommandProfile {
    pub name: String,
    pub ssh_profile: String,
    pub command: Vec<String>,
    pub description: Option<String>,
}

/// The merged, read-only catalog of one invocation.
pub struct Config {
    pub rdp: Vec<RdpProfile>,
    pub ssh: Vec<SshProfile>,
    pub tunnels: Vec<TunnelProfile>,
    pub commands: Vec<CommandProfile>,
    pub rdp_defaults: RdpDefaults,
    pub ssh_defaults: SshDefaults,
}

/// The profile collections contributed by one included fragment.
pub struct SatelliteConfig {
    pub rdp: Vec<RdpProfile>,
    pub ssh: Vec<SshProfile>,
    pub tunnels: Vec<TunnelProfile>,
    pub commands: Vec<CommandProfile>,
}

impl Config {
    /// Appends a fragment's profiles after the ones already loaded, so that
    /// primary-source profiles keep priority at lookup time. Defaults are
    /// untouched: fragments contribute profiles only.
    pub fn merge_fragment(&mut self, frag: SatelliteConfig)
        ensures
            final(self).rdp@ == old(self).rdp@ + frag.rdp@,
            final(self).ssh@ == old(self).ssh@ + frag.ssh@,
            final(self).tunnels@ == old(self).tunnels@ + frag.tunnels@,
            final(self).commands@ == old(self).commands@ + frag.commands@,
            final(self).rdp_defaults == old(self).rdp_defaults,
            final(self).ssh_defaults == old(self).ssh_defaults,
    {
        let mut fr = frag;
        self.rdp.append(&mut fr.rdp);
        self.ssh.append(&mut fr.ssh);
        self.tunnels.append(&mut fr.tunnels);
        self.commands.append(&mut fr.commands);
    }
}

impl Default for Config {
    fn default() -> (r: Self)
        ensures
            r.rdp@.len() == 0,
            r.ssh@.len() == 0,
            r.tunnels@.len() == 0,
            r.commands@.len() == 0,
            r.rdp_defaults.username is None,
            r.rdp_defaults.backend is None,
            r.ssh_defaults.username is None,
    {
        Config {
            rdp: Vec::new(),
            ssh: Vec::new(),
            tunnels: Vec::new(),
            commands: Vec::new(),
            rdp_defaults: RdpDefaults { username: None, backend: None },
            ssh_defaults: SshDefaults { username: None },
        }
    }
}

/// The flags of the remote-desktop subcommand.
pub struct Rdp {
    pub name: String,
    pub ipv4: bool,
    pub ipv6: bool,
    pub enable_gateway: bool,
    pub disable_gateway: bool,
    pub stdout: bool,
    pub edit: bool,
}

/// The flags shared by the ssh, tunnel and command subcommands.
pub struct SshCommon {
    pub ipv4: bool,
    pub ipv6: bool,
    pub use_jump_hosts: bool,
    pub disable_jump_hosts: bool,
    pub stdout: bool,
}

/// The ssh subcommand: a profile name and the shared flags.
pub struct Ssh {
    pub name: String,
    pub common: SshCommon,
}

/// The tunnel subcommand: a profile name and the shared flags.
pub struct Tunnel {
    pub name: String,
    pub common: SshCommon,
}

/// The command subcommand: a profile name and the shared flags.
pub struct Command {
    pub name: String,
    pub common: SshCommon,
}

impl Clone for SshJumpHost {
    fn clone(&self) -> (r: Self)
        ensures
            r == *self,
    {
        SshJumpHost {
            username: clone_opt_string(&self.username),
            hostname: self.hostname.clone(),
            port: self.port,
        }
    }
}

impl Clone for SshForwardArgument {
    fn clone(&self) -> (r: Self)
        ensures
            r == *self,
    {
        SshForwardArgument {
            local_port: self.local_port,
            remote_port: self.remote_port,
            remote_host: self.remote_host.clone(),
        }
    }
}

/// A clone of an optional string whose result is known field for field.
pub fn clone_opt_string(s: &Option<String>) -> (r: Option<String>)
    ensures
        r == *s,
{
    match s {
        Some(v) => Some(v.clone()),
        None => None,
    }
}

} // verus!
