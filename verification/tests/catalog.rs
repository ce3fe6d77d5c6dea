use remotec::command::launch_command;
use remotec::config::Address;
use remotec::config::Command;
use remotec::config::CommandProfile;
use remotec::config::Config;
use remotec::config::GatewayPolicy;
use remotec::config::SatelliteConfig;
use remotec::config::Ssh;
use remotec::config::SshCommon;
use remotec::config::SshProfile;
use remotec::select::profile_names;
use remotec::ssh::launch_ssh;
use remotec::ssh::ssh_args;

fn ssh_profile(name: &str, host: &str) -> SshProfile {
    SshProfile {
        name: name.to_owned(),
        address: Address { hostname: Some(host.to_owned()), ipv4: None, ipv6: None, port: None },
        username: Some("u".to_owned()),
        disable_jump_hosts: false,
        jump_hosts: Vec::new(),
        description: None,
    }
}

fn quiet_flags() -> SshCommon {
    SshCommon { ipv4: false, ipv6: false, use_jump_hosts: false, disable_jump_hosts: false, stdout: false }
}

#[test]
fn fragments_merge_after_primary_profiles() {
    let mut config = Config::default();
    config.ssh.push(ssh_profile("a", "primary"));
    let frag = SatelliteConfig {
        rdp: Vec::new(),
        ssh: vec![ssh_profile("a", "fragment"), ssh_profile("b", "other")],
        tunnels: Vec::new(),
        commands: Vec::new(),
    };
    config.merge_fragment(frag);
    assert_eq!(profile_names(&config.ssh), vec!["a", "a", "b"]);
    // The primary source's profile wins a duplicate-name lookup.
    let args = ssh_args(&config, &quiet_flags(), "a").unwrap();
    assert_eq!(args, vec!["u@primary"]);
}

#[test]
fn gateway_policy_codes_are_fixed() {
    assert_eq!(GatewayPolicy::Disable.code(), 0);
    assert_eq!(GatewayPolicy::Enable.code(), 1);
    assert_eq!(GatewayPolicy::Fallback.code(), 2);
    assert_eq!(GatewayPolicy::default(), GatewayPolicy::Fallback);
}

#[test]
fn launchers_compose_for_named_profiles() {
    let mut config = Config::default();
    config.ssh.push(ssh_profile("box", "h"));
    config.commands.push(CommandProfile {
        name: "load".to_owned(),
        ssh_profile: "box".to_owned(),
        command: vec!["uptime".to_owned()],
        description: None,
    });

    let ssh_cli = Ssh { name: "box".to_owned(), common: quiet_flags() };
    assert_eq!(launch_ssh(&config, &ssh_cli).unwrap(), vec!["u@h"]);

    let cmd_cli = Command { name: "load".to_owned(), common: quiet_flags() };
    assert_eq!(launch_command(&config, &cmd_cli).unwrap(), vec!["u@h", "uptime"]);
}
