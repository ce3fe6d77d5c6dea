//! Composing the argument vector of a remote command: the referenced ssh
//! profile's arguments followed by the profile's command tokens verbatim.

use vstd::prelude::*;

use crate::config::Command;
use crate::config::Config;
use crate::select::is_first_match;
use crate::select::select_profile_by_name;
use crate::select::NamedProfile;
use crate::ssh::spec_ssh_args_for;
use crate::ssh::os_username;
use crate::ssh::ssh_args_with_user;
use crate::Error;

verus! {

/// What a composed remote-command argument vector must be: the referenced
/// ssh profile's arguments followed by the command tokens; or the error the
/// composition rules give.
pub open spec fn command_args_post(
    config: Config,
    cli: Command,
    os_user: Seq<char>,
    r: Result<Vec<String>, Error>,
) -> bool {
    match r {
        Ok(args) => exists|i: int|
            {
                &&& #[trigger] is_first_match(config.commands@, cli.name@, i)
                &&& config.commands@[i].command@.len() > 0
                &&& exists|j: int|
                    {
                        &&& #[trigger] is_first_match(
                            config.ssh@,
                            config.commands@[i].ssh_profile@,
                            j,
                        )
                        &&& spec_ssh_args_for(
                            config.ssh@[j],
                            config.ssh_defaults,
                            cli.common,
                            os_user,
                        ) matches Ok(base) && args.deep_view() == base
                            + config.commands@[i].command.deep_view()
                    }
            },
        Err(e) => {
            ||| {
                &&& forall|i: int|
                    0 <= i < config.commands@.len() ==> config.commands@[i].spec_name()
                        != cli.name@
                &&& e matches Error::ProfileNotFound(t, n) && t@ == "Command"@ && n@ == cli.name@
            }
            ||| exists|i: int|
                {
                    &&& #[trigger] is_first_match(config.commands@, cli.name@, i)
                    &&& {
                        ||| (config.commands@[i].command@.len() == 0 && e == Error::EmptyCommand)
                        ||| {
                            &&& config.commands@[i].command@.len() > 0
                            &&& {
                                ||| {
                                    &&& forall|j: int|
                                        0 <= j < config.ssh@.len()
                                            ==> config.ssh@[j].spec_name()
                                            != config.commands@[i].ssh_profile@
                                    &&& e matches Error::ProfileNotFound(t, n) && t@ == "SSH"@
                                        && n@ == config.commands@[i].ssh_profile@
                                }
                                ||| exists|j: int|
                                    {
                                        &&& #[trigger] is_first_match(
                                            config.ssh@,
                                            config.commands@[i].ssh_profile@,
                                            j,
                                        )
                                        &&& spec_ssh_args_for(
                                            config.ssh@[j],
                                            config.ssh_defaults,
                                            cli.common,
                                            os_user,
                                        ) == Err::<Seq<Seq<char>>, Error>(e)
                                    }
                            }
                        }
                    }
                }
        },
    }
}

/// Composes the full remote-command argument vector for the named profile,
/// with the local account name supplied for the username fallback.
pub fn command_args_with_user(config: &Config, cli: &Command, os_user: &str) -> (r: Result<
    Vec<String>,
    Error,
>)
    ensures
        command_args_post(*config, *cli, os_user@, r),
{
    let profile = match select_profile_by_name("Command", &config.commands, cli.name.as_str()) {
        Ok(p) => p,
        Err(e) => {
            return Err(e);
        },
    };
    if profile.command.len() == 0 {
        return Err(Error::EmptyCommand);
    }
    let mut args = match ssh_args_with_user(
        config,
        &cli.common,
        profile.ssh_profile.as_str(),
        os_user,
    ) {
        Ok(a) => a,
        Err(e) => {
            return Err(e);
        },
    };

    let ghost base = args.deep_view();
    let mut k: usize = 0;
    while k < profile.command.len()
        invariant
            k <= profile.command@.len(),
            args.deep_view() =~= base + profile.command.deep_view().take(k as int),
        decreases profile.command@.len() - k,
    {
        let ghost before = args.deep_view();
        args.push(profile.command[k].clone());
        proof {
            assert(args.deep_view() =~= before.push(profile.command@[k as int]@));
            assert(profile.command.deep_view()[k as int] == profile.command@[k as int]@);
            assert(args.deep_view() =~= base + profile.command.deep_view().take(k + 1));
        }
        k = k + 1;
    }
    proof {
        assert(profile.command.deep_view().take(profile.command@.len() as int)
            =~= profile.command.deep_view());
    }
    Ok(args)
}


/// Composes the argument vector of the command subcommand. The username
/// fallback is the local account name, so the result is pinned down only
/// up to that name; `command_args_with_user` pins it completely.
pub fn launch_command(config: &Config, cli: &Command) -> (r: Result<Vec<String>, Error>)
    ensures
        exists|u: Seq<char>| #[trigger] command_args_post(*config, *cli, u, r),
{
    let user = os_username();
    let r = command_args_with_user(config, cli, user.as_str());
    proof {
        assert(command_args_post(*config, *cli, user@, r));
    }
    r
}

} // verus!

