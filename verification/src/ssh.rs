//! Composing the ssh-compatible argument vector for a profile: username,
//! address, port, and the jump-host chain.

use vstd::prelude::*;

use crate::config::Config;
use crate::config::Ssh;
use crate::config::SshCommon;
use crate::config::SshDefaults;
use crate::config::SshJumpHost;
use crate::config::SshProfile;
use crate::select::is_first_match;
use crate::select::select_profile_by_name;
use crate::select::NamedProfile;
use crate::strutil::dec_rep;
use crate::strutil::spec_join;
use crate::strutil::join_with;
use crate::strutil::u16_to_dec;
use crate::Error;

verus! {

/// The username rule: the profile's own, else the defaults bucket's, else
/// the local account name.
pub open spec fn spec_resolve_username(
    profile_user: Option<String>,
    default_user: Option<String>,
    os_user: Seq<char>,
) -> Seq<char> {
    if profile_user is Some {
        profile_user->0@
    } else if default_user is Some {
        default_user->0@
    } else {
        os_user
    }
}

/// Resolves the destination username from the profile, a defaults bucket,
/// and the local account name, in that order.
pub fn resolve_username(
    profile_user: &Option<String>,
    default_user: &Option<String>,
    os_user: &str,
) -> (r: String)
    ensures
        r@ == spec_resolve_username(*profile_user, *default_user, os_user@),
{
    match profile_user {
        Some(u) => u.clone(),
        None => match default_user {
            Some(u) => u.clone(),
            None => os_user.to_owned(),
        },
    }
}

/// The jump-host chain rule: an explicit request demands a non-empty list;
/// an explicit or profile-default refusal empties the chain; otherwise the
/// profile's list is used as it stands, empty or not.
pub open spec fn spec_jump_chain(profile: SshProfile, cli: SshCommon) -> Result<
    Seq<SshJumpHost>,
    Error,
> {
    if cli.use_jump_hosts {
        if profile.jump_hosts@.len() == 0 {
            Err(Error::NoJumpHostsConfigured)
        } else {
            Ok(profile.jump_hosts@)
        }
    } else if cli.disable_jump_hosts || profile.disable_jump_hosts {
        Ok(Seq::empty())
    } else {
        Ok(profile.jump_hosts@)
    }
}

/// Determines the jump-host chain the session will hop through.
pub fn jump_hosts(profile: &SshProfile, cli: &SshCommon) -> (r: Result<Vec<SshJumpHost>, Error>)
    ensures
        match r {
            Ok(v) => spec_jump_chain(*profile, *cli) == Ok::<Seq<SshJumpHost>, Error>(v@),
            Err(e) => spec_jump_chain(*profile, *cli) == Err::<Seq<SshJumpHost>, Error>(e),
        },
{
    if cli.use_jump_hosts && profile.jump_hosts.len() == 0 {
        return Err(Error::NoJumpHostsConfigured);
    }
    if !cli.use_jump_hosts && (cli.disable_jump_hosts || profile.disable_jump_hosts) {
        return Ok(Vec::new());
    }
    let mut v: Vec<SshJumpHost> = Vec::new();
    let mut i: usize = 0;
    while i < profile.jump_hosts.len()
        invariant
            i <= profile.jump_hosts@.len(),
            v@ =~= profile.jump_hosts@.take(i as int),
        decreases profile.jump_hosts@.len() - i,
    {
        v.push(profile.jump_hosts[i].clone());
        i = i + 1;
    }
    proof {
        assert(v@ =~= profile.jump_hosts@);
    }
    Ok(v)
}

/// The `:port` suffix of a hop or destination token, empty without a port.
pub open spec fn spec_port_suffix(port: Option<u16>) -> Seq<char> {
    match port {
        Some(p) => ":"@ + dec_rep(p as int),
        None => Seq::empty(),
    }
}

/// One `user@host[:port]` token.
pub open spec fn spec_host_token(user: Seq<char>, host: Seq<char>, port: Option<u16>) -> Seq<
    char,
> {
    user + "@"@ + host + spec_port_suffix(port)
}

/// The token of one jump hop: its own username when set, else the
/// destination's resolved username.
pub open spec fn spec_hop_token(hop: SshJumpHost, dest_user: Seq<char>) -> Seq<char> {
    spec_host_token(
        if hop.username is Some {
            hop.username->0@
        } else {
            dest_user
        },
        hop.hostname@,
        hop.port,
    )
}

/// Renders one `user@host[:port]` token.
pub fn host_token(user: &str, host: &str, port: Option<u16>) -> (r: String)
    ensures
        r@ == spec_host_token(user@, host@, port),
{
    let mut s = user.to_owned();
    s.append("@");
    s.append(host);
    match port {
        Some(p) => {
            s.append(":");
            let d = u16_to_dec(p);
            s.append(d.as_str());
        },
        None => {},
    }
    proof {
        assert(s@ =~= spec_host_token(user@, host@, port));
    }
    s
}

/// The argument vector for a resolved profile: either a bare destination
/// token with a `-p` port pair, or `-J` followed by one token per hop and
/// the destination token with a `:port` suffix.
pub open spec fn spec_ssh_args_for(
    profile: SshProfile,
    defaults: SshDefaults,
    cli: SshCommon,
    os_user: Seq<char>,
) -> Result<Seq<Seq<char>>, Error> {
    match spec_jump_chain(profile, cli) {
        Err(e) => Err(e),
        Ok(chain) => match profile.address.spec_choose(cli.ipv4, cli.ipv6) {
            Err(e) => Err(e),
            Ok(addr) => {
                let user = spec_resolve_username(profile.username, defaults.username, os_user);
                if chain.len() == 0 {
                    Ok(
                        match profile.address.port {
                            None => seq![spec_host_token(user, addr, None)],
                            Some(p) => seq![
                                spec_host_token(user, addr, None),
                                "-p"@,
                                dec_rep(p as int),
                            ],
                        },
                    )
                } else {
                    Ok(
                        seq!["-J"@] + Seq::new(chain.len(), |i: int| spec_hop_token(chain[i], user))
                            + seq![spec_host_token(user, addr, profile.address.port)],
                    )
                }
            },
        },
    }
}

/// What a composed ssh argument vector must be: the arguments of the first
/// profile bearing the name, or the error the composition rules give.
pub open spec fn ssh_args_post(
    config: Config,
    cli: SshCommon,
    profile: Seq<char>,
    os_user: Seq<char>,
    r: Result<Vec<String>, Error>,
) -> bool {
    match r {
        Ok(args) => exists|i: int|
            #[trigger] is_first_match(config.ssh@, profile, i) && spec_ssh_args_for(
                config.ssh@[i],
                config.ssh_defaults,
                cli,
                os_user,
            ) == Ok::<Seq<Seq<char>>, Error>(args.deep_view()),
        Err(e) => {
            ||| {
                &&& forall|i: int|
                    0 <= i < config.ssh@.len() ==> config.ssh@[i].spec_name() != profile
                &&& e matches Error::ProfileNotFound(t, n) && t@ == "SSH"@ && n@ == profile
            }
            ||| exists|i: int|
                #[trigger] is_first_match(config.ssh@, profile, i) && spec_ssh_args_for(
                    config.ssh@[i],
                    config.ssh_defaults,
                    cli,
                    os_user,
                ) == Err::<Seq<Seq<char>>, Error>(e)
        },
    }
}

/// Composes the full ssh argument vector for the named profile, with the
/// local account name supplied for the username fallback.
pub fn ssh_args_with_user(config: &Config, cli: &SshCommon, profile: &str, os_user: &str) -> (r:
    Result<Vec<String>, Error>)
    ensures
        ssh_args_post(*config, *cli, profile@, os_user@, r),
{
    let p = match select_profile_by_name("SSH", &config.ssh, profile) {
        Ok(p) => p,
        Err(e) => {
            return Err(e);
        },
    };
    let jumps = match jump_hosts(p, cli) {
        Ok(j) => j,
        Err(e) => {
            return Err(e);
        },
    };
    let address = match p.address.choose_address(cli.ipv4, cli.ipv6) {
        Ok(a) => a,
        Err(e) => {
            return Err(e);
        },
    };
    let username = resolve_username(&p.username, &config.ssh_defaults.username, os_user);

    let ghost user = username@;
    let mut args: Vec<String> = Vec::new();
    if jumps.len() == 0 {
        args.push(host_token(username.as_str(), address, None));
        let ghost first = args.deep_view();
        proof {
            assert(first =~= seq![spec_host_token(user, address@, None)]);
        }
        if let Some(port) = p.address.port {
            args.push("-p".to_owned());
            let ghost second = args.deep_view();
            args.push(u16_to_dec(port));
            proof {
                assert(second =~= first.push("-p"@));
                assert(args.deep_view() =~= seq![
                    spec_host_token(user, address@, None),
                    "-p"@,
                    dec_rep(port as int),
                ]);
            }
        }
        Ok(args)
    } else {
        args.push("-J".to_owned());
        proof {
            assert(args.deep_view() =~= seq!["-J"@]);
        }
        let ghost chain = jumps@;
        let mut k: usize = 0;
        while k < jumps.len()
            invariant
                k <= chain.len(),
                jumps@ == chain,
                username@ == user,
                args.deep_view() =~= seq!["-J"@] + Seq::new(
                    k as nat,
                    |i: int| spec_hop_token(chain[i], user),
                ),
            decreases chain.len() - k,
        {
            let j = &jumps[k];
            let hop_user = match &j.username {
                Some(u) => u.as_str(),
                None => username.as_str(),
            };
            let ghost before = args.deep_view();
            args.push(host_token(hop_user, j.hostname.as_str(), j.port));
            proof {
                assert(args.deep_view() =~= before.push(spec_hop_token(chain[k as int], user)));
                assert(args.deep_view() =~= seq!["-J"@] + Seq::new(
                    (k + 1) as nat,
                    |i: int| spec_hop_token(chain[i], user),
                ));
            }
            k = k + 1;
        }
        let ghost before = args.deep_view();
        args.push(host_token(username.as_str(), address, p.address.port));
        proof {
            assert(args.deep_view() =~= before.push(
                spec_host_token(user, address@, p.address.port),
            ));
            assert(args.deep_view() =~= seq!["-J"@] + Seq::new(
                chain.len(),
                |i: int| spec_hop_token(chain[i], user),
            ) + seq![spec_host_token(user, address@, p.address.port)]);
        }
        Ok(args)
    }
}

/// The printable form of an ssh invocation: the client name and the
/// arguments, space-separated.
pub fn ssh_command_line(args: &Vec<String>) -> (r: String)
    ensures
        r@ == "ssh "@ + spec_join(args.deep_view(), " "@),
{
    let mut s = "ssh ".to_owned();
    let joined = join_with(args, " ");
    s.append(joined.as_str());
    s
}


/// Relies on whoami::username: the local account name. It depends on the
/// environment, so nothing is promised of its value.
#[verifier::external_body]
pub(crate) fn os_username() -> String {
    whoami::username()
}

/// Composes the full ssh argument vector for the named profile. The
/// username fallback is the local account name, so the result is pinned
/// down only up to that name; `ssh_args_with_user` pins it completely.
pub fn ssh_args(config: &Config, cli: &SshCommon, profile: &str) -> (r: Result<Vec<String>, Error>)
    ensures
        exists|u: Seq<char>| #[trigger] ssh_args_post(*config, *cli, profile@, u, r),
{
    let user = os_username();
    let r = ssh_args_with_user(config, cli, profile, user.as_str());
    proof {
        assert(ssh_args_post(*config, *cli, profile@, user@, r));
    }
    r
}

/// Composes the argument vector of the ssh subcommand.
pub fn launch_ssh(config: &Config, cli: &Ssh) -> (r: Result<Vec<String>, Error>)
    ensures
        exists|u: Seq<char>| #[trigger] ssh_args_post(*config, cli.common, cli.name@, u, r),
{
    ssh_args(config, &cli.common, cli.name.as_str())
}

} // verus!

