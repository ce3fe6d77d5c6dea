//! Composing the argument vector of a tunnel session: the referenced ssh
//! profile's arguments, one `-L` pair per forward, and a long-sleep
//! placeholder command that keeps the session open.

use vstd::prelude::*;

use crate::config::Config;
use crate::config::SshForwardArgument;
use crate::config::Tunnel;
use crate::select::is_first_match;
use crate::select::select_profile_by_name;
use crate::select::NamedProfile;
use crate::ssh::spec_ssh_args_for;
use crate::ssh::os_username;
use crate::ssh::ssh_args_with_user;
use crate::strutil::dec_rep;
use crate::strutil::u16_to_dec;
use crate::Error;

verus! {

impl SshForwardArgument {
    /// The `local:remotehost:remoteport` form the ssh client expects.
    pub open spec fn spec_ssh_arg(self) -> Seq<char> {
        dec_rep(self.local_port as int) + ":"@ + self.remote_host@ + ":"@ + dec_rep(
            self.remote_port as int,
        )
    }

    pub fn ssh_arg(&self) -> (r: String)
        ensures
            r@ == self.spec_ssh_arg(),
    {
        let mut s = u16_to_dec(self.local_port);
        s.append(":");
        s.append(self.remote_host.as_str());
        s.append(":");
        let d = u16_to_dec(self.remote_port);
        s.append(d.as_str());
        proof {
            assert(s@ =~= self.spec_ssh_arg());
        }
        s
    }
}

/// The two tokens per forward, in configured order.
pub open spec fn spec_forward_tokens(forwards: Seq<SshForwardArgument>) -> Seq<Seq<char>>
    decreases forwards.len(),
{
    if forwards.len() == 0 {
        Seq::empty()
    } else {
        spec_forward_tokens(forwards.drop_last()) + seq!["-L"@, forwards.last().spec_ssh_arg()]
    }
}

/// What a composed tunnel argument vector must be: the referenced ssh
/// profile's arguments, the forward pairs, and the sleep placeholder; or
/// the error the composition rules give.
pub open spec fn tunnel_args_post(
    config: Config,
    cli: Tunnel,
    os_user: Seq<char>,
    r: Result<Vec<String>, Error>,
) -> bool {
    match r {
        Ok(args) => exists|i: int|
            {
                &&& #[trigger] is_first_match(config.tunnels@, cli.name@, i)
                &&& config.tunnels@[i].forwards@.len() > 0
                &&& exists|j: int|
                    {
                        &&& #[trigger] is_first_match(
                            config.ssh@,
                            config.tunnels@[i].ssh_profile@,
                            j,
                        )
                        &&& spec_ssh_args_for(
                            config.ssh@[j],
                            config.ssh_defaults,
                            cli.common,
                            os_user,
                        ) matches Ok(base) && args.deep_view() == base + spec_forward_tokens(
                            config.tunnels@[i].forwards@,
                        ) + seq!["sleep"@, "2147483647"@]
                    }
            },
        Err(e) => {
            ||| {
                &&& forall|i: int|
                    0 <= i < config.tunnels@.len() ==> config.tunnels@[i].spec_name() != cli.name@
                &&& e matches Error::ProfileNotFound(t, n) && t@ == "Tunnel"@ && n@ == cli.name@
            }
            ||| exists|i: int|
                {
                    &&& #[trigger] is_first_match(config.tunnels@, cli.name@, i)
                    &&& {
                        ||| (config.tunnels@[i].forwards@.len() == 0 && e
                            == Error::EmptyForwardList)
                        ||| {
                            &&& config.tunnels@[i].forwards@.len() > 0
                            &&& {
                                ||| {
                                    &&& forall|j: int|
                                        0 <= j < config.ssh@.len()
                                            ==> config.ssh@[j].spec_name()
                                            != config.tunnels@[i].ssh_profile@
                                    &&& e matches Error::ProfileNotFound(t, n) && t@ == "SSH"@
                                        && n@ == config.tunnels@[i].ssh_profile@
                                }
                                ||| exists|j: int|
                                    {
                                        &&& #[trigger] is_first_match(
                                            config.ssh@,
                                            config.tunnels@[i].ssh_profile@,
                                            j,
                                        )
                                        &&& spec_ssh_args_for(
                                            config.ssh@[j],
                                            config.ssh_defaults,
                                            cli.common,
                                            os_user,
                                        ) == Err::<Seq<Seq<char>>, Error>(e)
                                    }
                            }
                        }
                    }
                }
        },
    }
}

/// Composes the full tunnel argument vector for the named profile, with the
/// local account name supplied for the username fallback.
pub fn tunnel_args_with_user(config: &Config, cli: &Tunnel, os_user: &str) -> (r: Result<
    Vec<String>,
    Error,
>)
    ensures
        tunnel_args_post(*config, *cli, os_user@, r),
{
    let profile = match select_profile_by_name("Tunnel", &config.tunnels, cli.name.as_str()) {
        Ok(p) => p,
        Err(e) => {
            return Err(e);
        },
    };
    if profile.forwards.len() == 0 {
        return Err(Error::EmptyForwardList);
    }
    let mut args = match ssh_args_with_user(
        config,
        &cli.common,
        profile.ssh_profile.as_str(),
        os_user,
    ) {
        Ok(a) => a,
        Err(e) => {
            return Err(e);
        },
    };

    let ghost base = args.deep_view();
    let mut k: usize = 0;
    while k < profile.forwards.len()
        invariant
            k <= profile.forwards@.len(),
            args.deep_view() =~= base + spec_forward_tokens(profile.forwards@.take(k as int)),
        decreases profile.forwards@.len() - k,
    {
        let ghost before = args.deep_view();
        args.push("-L".to_owned());
        let ghost mid = args.deep_view();
        args.push(profile.forwards[k].ssh_arg());
        proof {
            assert(mid =~= before.push("-L"@));
            assert(args.deep_view() =~= mid.push(profile.forwards@[k as int].spec_ssh_arg()));
            assert(profile.forwards@.take(k + 1).drop_last() =~= profile.forwards@.take(k as int));
            assert(profile.forwards@.take(k + 1).last() == profile.forwards@[k as int]);
            assert(args.deep_view() =~= base + spec_forward_tokens(profile.forwards@.take(k + 1)));
        }
        k = k + 1;
    }
    proof {
        assert(profile.forwards@.take(profile.forwards@.len() as int) =~= profile.forwards@);
    }
    let ghost before_sleep = args.deep_view();
    args.push("sleep".to_owned());
    let ghost mid_sleep = args.deep_view();
    args.push("2147483647".to_owned());
    proof {
        assert(mid_sleep =~= before_sleep.push("sleep"@));
        assert(args.deep_view() =~= mid_sleep.push("2147483647"@));
        assert(args.deep_view() =~= base + spec_forward_tokens(profile.forwards@) + seq![
            "sleep"@,
            "2147483647"@,
        ]);
    }
    Ok(args)
}


/// Composes the argument vector of the tunnel subcommand. The username
/// fallback is the local account name, so the result is pinned down only
/// up to that name; `tunnel_args_with_user` pins it completely.
pub fn tunnel_args(config: &Config, cli: &Tunnel) -> (r: Result<Vec<String>, Error>)
    ensures
        exists|u: Seq<char>| #[trigger] tunnel_args_post(*config, *cli, u, r),
{
    let user = os_username();
    let r = tunnel_args_with_user(config, cli, user.as_str());
    proof {
        assert(tunnel_args_post(*config, *cli, user@, r));
    }
    r
}

} // verus!

