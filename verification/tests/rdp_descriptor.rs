use remotec::config::Address;
use remotec::config::Config;
use remotec::config::GatewayPolicy;
use remotec::config::Rdp;
use remotec::config::RdpBackend;
use remotec::config::RdpDefaults;
use remotec::config::RdpProfile;
use remotec::config::SshDefaults;
use remotec::rdp::gateway_policy;
use remotec::rdp::rdp_config_text;
use remotec::rdp::rdp_field;
use remotec::Error;

fn rdp_profile(gateway: Option<&str>) -> RdpProfile {
    RdpProfile {
        name: "work".to_owned(),
        address: Address { hostname: Some("box".to_owned()), ipv4: None, ipv6: None, port: None },
        username: Some("alice".to_owned()),
        domain: Some("corp".to_owned()),
        gateway: gateway.map(str::to_owned),
        gateway_policy: GatewayPolicy::Fallback,
        separate_credentials: false,
        description: None,
    }
}

fn config_with(profile: RdpProfile) -> Config {
    Config {
        rdp: vec![profile],
        ssh: Vec::new(),
        tunnels: Vec::new(),
        commands: Vec::new(),
        rdp_defaults: RdpDefaults { username: None, backend: None },
        ssh_defaults: SshDefaults { username: None },
    }
}

fn flags(enable: bool, disable: bool) -> Rdp {
    Rdp {
        name: "work".to_owned(),
        ipv4: false,
        ipv6: false,
        enable_gateway: enable,
        disable_gateway: disable,
        stdout: true,
        edit: false,
    }
}

#[test]
fn descriptor_has_fixed_line_order() {
    let config = config_with(rdp_profile(Some("gw")));
    let text = rdp_config_text(&config, &flags(false, false), "os").unwrap();
    assert_eq!(
        text,
        "full address:s:box\nusername:s:alice\ndomain:s:corp\ngatewayhostname:s:gw\n\
         gatewayusagemethod:i:2\ngatewayprofileusagemethod:i:1\npromptcredentialonce:i:1\n"
    );
}

#[test]
fn enabled_gateway_is_encoded_as_one() {
    let config = config_with(rdp_profile(Some("gw")));
    let text = rdp_config_text(&config, &flags(true, false), "os").unwrap();
    assert!(text.contains("gatewayusagemethod:i:1\n"));
}

#[test]
fn disabled_gateway_is_encoded_as_zero() {
    let config = config_with(rdp_profile(Some("gw")));
    let text = rdp_config_text(&config, &flags(false, true), "os").unwrap();
    assert!(text.contains("gatewayusagemethod:i:0\n"));
}

#[test]
fn enabling_without_a_gateway_fails() {
    let config = config_with(rdp_profile(None));
    assert_eq!(
        rdp_config_text(&config, &flags(true, false), "os"),
        Err(Error::NoGatewayConfigured)
    );
    assert_eq!(
        gateway_policy(&rdp_profile(None), &flags(true, false)),
        Err(Error::NoGatewayConfigured)
    );
}

#[test]
fn separate_credentials_prompt_once_flag() {
    let mut p = rdp_profile(None);
    p.separate_credentials = true;
    let config = config_with(p);
    let text = rdp_config_text(&config, &flags(false, false), "os").unwrap();
    assert!(text.contains("promptcredentialonce:i:0\n"));
}

#[test]
fn descriptor_round_trips_through_the_parser() {
    let config = config_with(rdp_profile(Some("gw")));
    let text = rdp_config_text(&config, &flags(false, false), "os").unwrap();
    assert_eq!(rdp_field(&text, "full address"), Some("box".to_owned()));
    assert_eq!(rdp_field(&text, "username"), Some("alice".to_owned()));
    assert_eq!(rdp_field(&text, "domain"), Some("corp".to_owned()));
    assert_eq!(rdp_field(&text, "gatewayhostname"), Some("gw".to_owned()));
    assert_eq!(rdp_field(&text, "gatewayusagemethod"), Some("2".to_owned()));
}

#[test]
fn absent_fields_parse_back_as_absent() {
    let mut p = rdp_profile(None);
    p.domain = None;
    let config = config_with(p);
    let text = rdp_config_text(&config, &flags(false, false), "os").unwrap();
    assert_eq!(rdp_field(&text, "domain"), None);
    assert_eq!(rdp_field(&text, "gatewayhostname"), None);
}

#[test]
fn ipv6_addresses_survive_the_round_trip() {
    let mut p = rdp_profile(None);
    p.address = Address { hostname: None, ipv4: None, ipv6: Some("::1".to_owned()), port: None };
    let config = config_with(p);
    let text = rdp_config_text(&config, &flags(false, false), "os").unwrap();
    assert_eq!(rdp_field(&text, "full address"), Some("::1".to_owned()));
}

#[test]
fn rdp_username_falls_back_to_rdp_defaults() {
    let mut p = rdp_profile(None);
    p.username = None;
    let mut config = config_with(p);
    config.rdp_defaults.username = Some("deskuser".to_owned());
    let text = rdp_config_text(&config, &flags(false, false), "os").unwrap();
    assert_eq!(rdp_field(&text, "username"), Some("deskuser".to_owned()));

    config.rdp_defaults.username = None;
    let text = rdp_config_text(&config, &flags(false, false), "os").unwrap();
    assert_eq!(rdp_field(&text, "username"), Some("os".to_owned()));
}

#[test]
fn backend_choice_fails_off_platform() {
    assert_eq!(RdpBackend::default_for_platform(true), Ok(RdpBackend::Mstsc));
    assert_eq!(
        RdpBackend::default_for_platform(false),
        Err(Error::UnsupportedPlatform)
    );
}
