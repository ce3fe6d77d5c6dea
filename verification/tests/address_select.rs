use remotec::config::Address;
use remotec::config::SshProfile;
use remotec::select::count_matching;
use remotec::select::profile_names;
use remotec::select::select_profile_by_name;
use remotec::select::NamedProfile;
use remotec::AddressFamily;
use remotec::Error;

fn addr(hostname: Option<&str>, ipv4: Option<&str>, ipv6: Option<&str>, port: Option<u16>) -> Address {
    Address {
        hostname: hostname.map(str::to_owned),
        ipv4: ipv4.map(str::to_owned),
        ipv6: ipv6.map(str::to_owned),
        port,
    }
}

fn ssh_profile(name: &str, description: Option<&str>) -> SshProfile {
    SshProfile {
        name: name.to_owned(),
        address: addr(Some("h"), None, None, None),
        username: None,
        disable_jump_hosts: false,
        jump_hosts: Vec::new(),
        description: description.map(str::to_owned),
    }
}

#[test]
fn hostname_only_resolves_to_hostname() {
    let a = addr(Some("h"), None, None, None);
    assert_eq!(a.choose_address(false, false), Ok("h"));
}

#[test]
fn missing_family_is_an_error() {
    let a = addr(Some("h"), None, None, None);
    assert_eq!(
        a.choose_address(true, false),
        Err(Error::MissingAddressFamily(AddressFamily::V4))
    );
    assert_eq!(
        a.choose_address(false, true),
        Err(Error::MissingAddressFamily(AddressFamily::V6))
    );
}

#[test]
fn address_priority_hostname_then_ipv6_then_ipv4() {
    let full = addr(Some("h"), Some("4"), Some("6"), None);
    assert_eq!(full.choose_address(false, false), Ok("h"));

    let no_host = addr(None, Some("4"), Some("6"), None);
    assert_eq!(no_host.choose_address(false, false), Ok("6"));

    let v4_only = addr(None, Some("4"), None, None);
    assert_eq!(v4_only.choose_address(false, false), Ok("4"));

    let empty = addr(None, None, None, None);
    assert_eq!(empty.choose_address(false, false), Err(Error::NoAddressConfigured));
}

#[test]
fn family_preference_picks_the_literal() {
    let full = addr(Some("h"), Some("4"), Some("6"), None);
    assert_eq!(full.choose_address(true, false), Ok("4"));
    assert_eq!(full.choose_address(false, true), Ok("6"));
    // With both flags somehow set, the IPv4 literal is checked first.
    assert_eq!(full.choose_address(true, true), Ok("4"));
}

#[test]
fn duplicate_names_select_the_first_and_are_countable() {
    let list = vec![
        ssh_profile("a", Some("first")),
        ssh_profile("a", Some("second")),
        ssh_profile("b", None),
    ];
    let picked = select_profile_by_name("SSH", &list, "a").unwrap();
    assert_eq!(picked.description(), &Some("first".to_owned()));
    // The caller warns about duplicates when more than one profile matches.
    assert_eq!(count_matching(&list, "a"), 2);
    assert_eq!(count_matching(&list, "b"), 1);
}

#[test]
fn unknown_name_is_profile_not_found() {
    let list = vec![ssh_profile("a", None)];
    match select_profile_by_name("SSH", &list, "x") {
        Err(e) => assert_eq!(e, Error::ProfileNotFound("SSH".to_owned(), "x".to_owned())),
        Ok(_) => panic!("selection of an absent name must fail"),
    }
}

#[test]
fn profile_names_lists_names_in_order() {
    let list = vec![ssh_profile("a", None), ssh_profile("b", None), ssh_profile("a", None)];
    assert_eq!(profile_names(&list), vec!["a", "b", "a"]);
}
