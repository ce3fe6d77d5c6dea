use remotec::command::command_args_with_user;
use remotec::config::Address;
use remotec::config::Command;
use remotec::config::CommandProfile;
use remotec::config::Config;
use remotec::config::RdpDefaults;
use remotec::config::SshCommon;
use remotec::config::SshDefaults;
use remotec::config::SshJumpHost;
use remotec::config::SshForwardArgument;
use remotec::config::SshProfile;
use remotec::config::Tunnel;
use remotec::config::TunnelProfile;
use remotec::ssh::jump_hosts;
use remotec::ssh::resolve_username;
use remotec::ssh::ssh_args_with_user;
use remotec::ssh::ssh_command_line;
use remotec::tunnel::tunnel_args_with_user;
use remotec::Error;

fn quiet_flags() -> SshCommon {
    SshCommon { ipv4: false, ipv6: false, use_jump_hosts: false, disable_jump_hosts: false, stdout: false }
}

fn profile(name: &str, host: &str, port: Option<u16>, username: Option<&str>) -> SshProfile {
    SshProfile {
        name: name.to_owned(),
        address: Address { hostname: Some(host.to_owned()), ipv4: None, ipv6: None, port },
        username: username.map(str::to_owned),
        disable_jump_hosts: false,
        jump_hosts: Vec::new(),
        description: None,
    }
}

fn config_with(ssh: Vec<SshProfile>) -> Config {
    Config {
        rdp: Vec::new(),
        ssh,
        tunnels: Vec::new(),
        commands: Vec::new(),
        rdp_defaults: RdpDefaults { username: None, backend: None },
        ssh_defaults: SshDefaults { username: None },
    }
}

fn jump(host: &str, username: Option<&str>, port: Option<u16>) -> SshJumpHost {
    SshJumpHost { username: username.map(str::to_owned), hostname: host.to_owned(), port }
}

#[test]
fn no_jump_hosts_gives_destination_and_port_pair() {
    let config = config_with(vec![profile("p", "h", Some(22), Some("u"))]);
    let args = ssh_args_with_user(&config, &quiet_flags(), "p", "fallback").unwrap();
    assert_eq!(args, vec!["u@h", "-p", "22"]);
}

#[test]
fn no_port_gives_bare_destination() {
    let config = config_with(vec![profile("p", "h", None, Some("u"))]);
    let args = ssh_args_with_user(&config, &quiet_flags(), "p", "fallback").unwrap();
    assert_eq!(args, vec!["u@h"]);
}

#[test]
fn jump_host_chain_uses_destination_username() {
    let mut p = profile("p", "h", None, Some("u"));
    p.jump_hosts = vec![jump("j1", None, None)];
    let config = config_with(vec![p]);
    let args = ssh_args_with_user(&config, &quiet_flags(), "p", "fallback").unwrap();
    assert_eq!(args, vec!["-J", "u@j1", "u@h"]);
}

#[test]
fn jump_hosts_keep_own_usernames_and_ports() {
    let mut p = profile("p", "h", Some(2222), Some("u"));
    p.jump_hosts = vec![jump("j1", Some("ju"), Some(22)), jump("j2", None, None)];
    let config = config_with(vec![p]);
    let args = ssh_args_with_user(&config, &quiet_flags(), "p", "fallback").unwrap();
    assert_eq!(args, vec!["-J", "ju@j1:22", "u@j2", "u@h:2222"]);
}

#[test]
fn requested_jump_hosts_must_exist() {
    let config = config_with(vec![profile("p", "h", None, Some("u"))]);
    let mut flags = quiet_flags();
    flags.use_jump_hosts = true;
    assert_eq!(
        ssh_args_with_user(&config, &flags, "p", "fallback"),
        Err(Error::NoJumpHostsConfigured)
    );
}

#[test]
fn disabled_jump_hosts_leave_an_empty_chain() {
    let mut p = profile("p", "h", None, Some("u"));
    p.jump_hosts = vec![jump("j1", None, None)];
    let mut by_cli = quiet_flags();
    by_cli.disable_jump_hosts = true;
    let chain = jump_hosts(&p, &by_cli).unwrap();
    assert_eq!(chain.len(), 0);

    p.disable_jump_hosts = true;
    let chain = jump_hosts(&p, &quiet_flags()).unwrap();
    assert_eq!(chain.len(), 0);
}

#[test]
fn username_falls_back_to_defaults_then_account() {
    assert_eq!(
        resolve_username(&Some("pu".to_owned()), &Some("du".to_owned()), "os"),
        "pu"
    );
    assert_eq!(resolve_username(&None, &Some("du".to_owned()), "os"), "du");
    assert_eq!(resolve_username(&None, &None, "os"), "os");

    let mut config = config_with(vec![profile("p", "h", None, None)]);
    config.ssh_defaults.username = Some("du".to_owned());
    let args = ssh_args_with_user(&config, &quiet_flags(), "p", "os").unwrap();
    assert_eq!(args, vec!["du@h"]);

    config.ssh_defaults.username = None;
    let args = ssh_args_with_user(&config, &quiet_flags(), "p", "os").unwrap();
    assert_eq!(args, vec!["os@h"]);
}

#[test]
fn unknown_ssh_profile_is_reported() {
    let config = config_with(Vec::new());
    assert_eq!(
        ssh_args_with_user(&config, &quiet_flags(), "p", "os"),
        Err(Error::ProfileNotFound("SSH".to_owned(), "p".to_owned()))
    );
}

#[test]
fn command_line_is_space_joined() {
    let args = vec!["u@h".to_owned(), "-p".to_owned(), "22".to_owned()];
    assert_eq!(ssh_command_line(&args), "ssh u@h -p 22");
}

#[test]
fn tunnel_appends_forwards_and_sleep() {
    let p = profile("s", "h", None, Some("u"));
    let tp = TunnelProfile {
        name: "t".to_owned(),
        ssh_profile: "s".to_owned(),
        forwards: vec![SshForwardArgument { local_port: 8080, remote_port: 80, remote_host: "svc".to_owned() }],
        open: None,
        description: None,
    };
    let mut config = config_with(vec![p]);
    config.tunnels = vec![tp];
    let cli = Tunnel { name: "t".to_owned(), common: quiet_flags() };
    let args = tunnel_args_with_user(&config, &cli, "os").unwrap();
    assert_eq!(args, vec!["u@h", "-L", "8080:svc:80", "sleep", "2147483647"]);
}

#[test]
fn tunnel_without_forwards_is_an_error() {
    let p = profile("s", "h", None, Some("u"));
    let tp = TunnelProfile {
        name: "t".to_owned(),
        ssh_profile: "s".to_owned(),
        forwards: Vec::new(),
        open: None,
        description: None,
    };
    let mut config = config_with(vec![p]);
    config.tunnels = vec![tp];
    let cli = Tunnel { name: "t".to_owned(), common: quiet_flags() };
    assert_eq!(tunnel_args_with_user(&config, &cli, "os"), Err(Error::EmptyForwardList));
}

#[test]
fn command_appends_tokens_verbatim() {
    let p = profile("s", "h", Some(22), Some("u"));
    let cp = CommandProfile {
        name: "c".to_owned(),
        ssh_profile: "s".to_owned(),
        command: vec!["uptime".to_owned(), "-p".to_owned()],
        description: None,
    };
    let mut config = config_with(vec![p]);
    config.commands = vec![cp];
    let cli = Command { name: "c".to_owned(), common: quiet_flags() };
    let args = command_args_with_user(&config, &cli, "os").unwrap();
    assert_eq!(args, vec!["u@h", "-p", "22", "uptime", "-p"]);
}

#[test]
fn empty_command_is_an_error() {
    let p = profile("s", "h", None, Some("u"));
    let cp = CommandProfile {
        name: "c".to_owned(),
        ssh_profile: "s".to_owned(),
        command: Vec::new(),
        description: None,
    };
    let mut config = config_with(vec![p]);
    config.commands = vec![cp];
    let cli = Command { name: "c".to_owned(), common: quiet_flags() };
    assert_eq!(command_args_with_user(&config, &cli, "os"), Err(Error::EmptyCommand));
}

#[test]
fn family_flags_reach_the_address_resolver() {
    let mut p = profile("p", "h", None, Some("u"));
    p.address.ipv4 = Some("4".to_owned());
    p.address.ipv6 = Some("6".to_owned());
    let config = config_with(vec![p]);
    let mut flags = quiet_flags();
    flags.ipv4 = true;
    assert_eq!(ssh_args_with_user(&config, &flags, "p", "os").unwrap(), vec!["u@4"]);
    flags.ipv4 = false;
    flags.ipv6 = true;
    assert_eq!(ssh_args_with_user(&config, &flags, "p", "os").unwrap(), vec!["u@6"]);
}

#[test]
fn missing_family_surfaces_through_the_builder() {
    let config = config_with(vec![profile("p", "h", None, Some("u"))]);
    let mut flags = quiet_flags();
    flags.ipv4 = true;
    assert_eq!(
        ssh_args_with_user(&config, &flags, "p", "os"),
        Err(Error::MissingAddressFamily(remotec::AddressFamily::V4))
    );
}

#[test]
fn tunnel_with_dangling_ssh_reference_is_reported() {
    let tp = TunnelProfile {
        name: "t".to_owned(),
        ssh_profile: "nosuch".to_owned(),
        forwards: vec![SshForwardArgument { local_port: 1, remote_port: 2, remote_host: "r".to_owned() }],
        open: None,
        description: None,
    };
    let mut config = config_with(Vec::new());
    config.tunnels = vec![tp];
    let cli = Tunnel { name: "t".to_owned(), common: quiet_flags() };
    assert_eq!(
        tunnel_args_with_user(&config, &cli, "os"),
        Err(Error::ProfileNotFound("SSH".to_owned(), "nosuch".to_owned()))
    );
}

#[test]
fn forward_argument_renders_exactly() {
    let f = SshForwardArgument { local_port: 8080, remote_port: 80, remote_host: "svc".to_owned() };
    assert_eq!(f.ssh_arg(), "8080:svc:80");
}
