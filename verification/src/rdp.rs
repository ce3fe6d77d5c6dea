//! Composing the remote-desktop connection descriptor: `key:type:value`
//! lines in a fixed order, and the parser that reads such a descriptor back.

use vstd::prelude::*;

use crate::config::Config;
use crate::config::GatewayPolicy;
use crate::config::Rdp;
use crate::config::RdpDefaults;
use crate::config::RdpProfile;
use crate::select::is_first_match;
use crate::select::select_profile_by_name;
use crate::select::NamedProfile;
use crate::select::str_eq;
use crate::ssh::spec_resolve_username;
use crate::ssh::os_username;
use crate::ssh::resolve_username;
use crate::strutil::dec_rep;
use crate::strutil::find_char;
use crate::strutil::find_char_in;
use crate::strutil::join_with;
use crate::strutil::lemma_find_char_found;
use crate::strutil::lemma_find_char_some;
use crate::strutil::lemma_split_join;
use crate::strutil::spec_split;
use crate::strutil::split_on;
use crate::strutil::digit_char;
use crate::strutil::spec_join;
use crate::strutil::u16_to_dec;
use crate::Error;

verus! {

/// The gateway rule: an explicit request demands a configured gateway and
/// enables it; an explicit refusal disables it; otherwise the profile's own
/// policy stands.
pub open spec fn spec_gateway_policy(profile: RdpProfile, cli: Rdp) -> Result<
    GatewayPolicy,
    Error,
> {
    if cli.enable_gateway {
        if profile.gateway is None {
            Err(Error::NoGatewayConfigured)
        } else {
            Ok(GatewayPolicy::Enable)
        }
    } else if cli.disable_gateway {
        Ok(GatewayPolicy::Disable)
    } else {
        Ok(profile.gateway_policy)
    }
}

/// Resolves the gateway policy of one invocation.
pub fn gateway_policy(profile: &RdpProfile, cli: &Rdp) -> (r: Result<GatewayPolicy, Error>)
    ensures
        r == spec_gateway_policy(*profile, *cli),
{
    if cli.enable_gateway {
        if profile.gateway.is_none() {
            return Err(Error::NoGatewayConfigured);
        }
        return Ok(GatewayPolicy::Enable);
    }
    if cli.disable_gateway {
        return Ok(GatewayPolicy::Disable);
    }
    Ok(profile.gateway_policy)
}

/// The descriptor lines, in their fixed order: address, username, domain
/// (only if set), gateway hostname (only if set), the numeric gateway
/// policy, a fixed profile-usage line, the credential-prompt flag, and a
/// trailing empty line.
pub open spec fn spec_rdp_lines(
    profile: RdpProfile,
    policy: GatewayPolicy,
    user: Seq<char>,
    addr: Seq<char>,
) -> Seq<Seq<char>> {
    let base = seq!["full address:s:"@ + addr, "username:s:"@ + user];
    let with_domain = if profile.domain is Some {
        base.push("domain:s:"@ + profile.domain->0@)
    } else {
        base
    };
    let with_gateway = if profile.gateway is Some {
        with_domain.push("gatewayhostname:s:"@ + profile.gateway->0@)
    } else {
        with_domain
    };
    with_gateway + seq![
        "gatewayusagemethod:i:"@ + dec_rep(policy.spec_code() as int),
        "gatewayprofileusagemethod:i:1"@,
        "promptcredentialonce:i:"@ + if profile.separate_credentials {
            "0"@
        } else {
            "1"@
        },
        Seq::<char>::empty(),
    ]
}

/// Composes the descriptor lines for one profile, with the local account
/// name supplied for the username fallback.
pub fn rdp_config_lines(profile: &RdpProfile, defaults: &RdpDefaults, cli: &Rdp, os_user: &str) -> (r:
    Result<Vec<String>, Error>)
    ensures
        match r {
            Ok(lines) => exists|policy: GatewayPolicy|
                {
                    &&& #[trigger] spec_gateway_policy(*profile, *cli) == Ok::<
                        GatewayPolicy,
                        Error,
                    >(policy)
                    &&& profile.address.spec_choose(cli.ipv4, cli.ipv6) matches Ok(addr)
                        && lines.deep_view() == spec_rdp_lines(
                        *profile,
                        policy,
                        spec_resolve_username(profile.username, defaults.username, os_user@),
                        addr,
                    )
                },
            Err(e) => {
                ||| profile.address.spec_choose(cli.ipv4, cli.ipv6) == Err::<Seq<char>, Error>(e)
                ||| (profile.address.spec_choose(cli.ipv4, cli.ipv6) is Ok && spec_gateway_policy(
                    *profile,
                    *cli,
                ) == Err::<GatewayPolicy, Error>(e))
            },
        },
{
    let addr = match profile.address.choose_address(cli.ipv4, cli.ipv6) {
        Ok(a) => a,
        Err(e) => {
            return Err(e);
        },
    };
    let policy = match gateway_policy(profile, cli) {
        Ok(p) => p,
        Err(e) => {
            return Err(e);
        },
    };
    let user = resolve_username(&profile.username, &defaults.username, os_user);

    let mut lines: Vec<String> = Vec::new();

    let mut l = "full address:s:".to_owned();
    l.append(addr);
    lines.push(l);
    let ghost s0 = seq!["full address:s:"@ + addr@];
    proof {
        assert(lines.deep_view() =~= s0);
    }

    let mut l = "username:s:".to_owned();
    l.append(user.as_str());
    lines.push(l);
    let ghost s1 = s0.push("username:s:"@ + user@);
    proof {
        assert(lines.deep_view() =~= s1);
    }

    if let Some(value) = &profile.domain {
        let mut l = "domain:s:".to_owned();
        l.append(value.as_str());
        lines.push(l);
    }
    let ghost s2 = if profile.domain is Some {
        s1.push("domain:s:"@ + profile.domain->0@)
    } else {
        s1
    };
    proof {
        assert(lines.deep_view() =~= s2);
    }

    if let Some(value) = &profile.gateway {
        let mut l = "gatewayhostname:s:".to_owned();
        l.append(value.as_str());
        lines.push(l);
    }
    let ghost s3 = if profile.gateway is Some {
        s2.push("gatewayhostname:s:"@ + profile.gateway->0@)
    } else {
        s2
    };
    proof {
        assert(lines.deep_view() =~= s3);
    }

    let mut l = "gatewayusagemethod:i:".to_owned();
    let code = u16_to_dec(policy.code() as u16);
    l.append(code.as_str());
    lines.push(l);
    let ghost s4 = s3.push("gatewayusagemethod:i:"@ + dec_rep(policy.spec_code() as int));
    proof {
        assert(lines.deep_view() =~= s4);
    }

    lines.push("gatewayprofileusagemethod:i:1".to_owned());
    let ghost s5 = s4.push("gatewayprofileusagemethod:i:1"@);
    proof {
        assert(lines.deep_view() =~= s5);
    }

    let mut l = "promptcredentialonce:i:".to_owned();
    if profile.separate_credentials {
        l.append("0");
    } else {
        l.append("1");
    }
    lines.push(l);
    let ghost s6 = s5.push(
        "promptcredentialonce:i:"@ + if profile.separate_credentials {
            "0"@
        } else {
            "1"@
        },
    );
    proof {
        assert(lines.deep_view() =~= s6);
    }

    lines.push("".to_owned());

    proof {
        reveal_strlit("");
        assert(""@ =~= Seq::<char>::empty());
        assert(lines.deep_view() =~= s6.push(Seq::<char>::empty()));
        assert(lines.deep_view() =~= spec_rdp_lines(
            *profile,
            policy,
            spec_resolve_username(profile.username, defaults.username, os_user@),
            addr@,
        ));
    }
    Ok(lines)
}

/// What a composed descriptor text must be: the newline-joined lines of the
/// first profile bearing the name, or the error the composition rules give.
pub open spec fn rdp_text_post(config: Config, cli: Rdp, os_user: Seq<char>, r: Result<
    String,
    Error,
>) -> bool {
    match r {
            Ok(t) => exists|i: int|
                {
                    &&& #[trigger] is_first_match(config.rdp@, cli.name@, i)
                    &&& exists|policy: GatewayPolicy|
                        {
                            &&& #[trigger] spec_gateway_policy(config.rdp@[i], cli) == Ok::<
                                GatewayPolicy,
                                Error,
                            >(policy)
                            &&& config.rdp@[i].address.spec_choose(
                                cli.ipv4,
                                cli.ipv6,
                            ) matches Ok(addr) && t@ == spec_join(
                                spec_rdp_lines(
                                    config.rdp@[i],
                                    policy,
                                    spec_resolve_username(
                                        config.rdp@[i].username,
                                        config.rdp_defaults.username,
                                        os_user,
                                    ),
                                    addr,
                                ),
                                "\n"@,
                            )
                        }
                },
            Err(e) => {
                ||| {
                    &&& forall|i: int|
                        0 <= i < config.rdp@.len() ==> config.rdp@[i].spec_name() != cli.name@
                    &&& e matches Error::ProfileNotFound(t, n) && t@ == "RDP"@ && n@ == cli.name@
                }
                ||| exists|i: int|
                    #[trigger] is_first_match(config.rdp@, cli.name@, i) && {
                        ||| config.rdp@[i].address.spec_choose(cli.ipv4, cli.ipv6) == Err::<
                            Seq<char>,
                            Error,
                        >(e)
                        ||| (config.rdp@[i].address.spec_choose(cli.ipv4, cli.ipv6) is Ok
                            && spec_gateway_policy(config.rdp@[i], cli) == Err::<
                            GatewayPolicy,
                            Error,
                        >(e))
                    }
            },
    }
}

/// Composes the full descriptor text for the named profile: the lines of
/// `spec_rdp_lines`, newline-joined.
pub fn rdp_config_text(config: &Config, cli: &Rdp, os_user: &str) -> (r: Result<String, Error>)
    ensures
        rdp_text_post(*config, *cli, os_user@, r),
{
    let profile = match select_profile_by_name("RDP", &config.rdp, cli.name.as_str()) {
        Ok(p) => p,
        Err(e) => {
            return Err(e);
        },
    };
    let lines = match rdp_config_lines(profile, &config.rdp_defaults, cli, os_user) {
        Ok(l) => l,
        Err(e) => {
            return Err(e);
        },
    };
    Ok(join_with(&lines, "\n"))
}

/// The key and value of one `key:type:value` line; nothing for a line
/// without two separating colons.
pub open spec fn spec_parse_line(line: Seq<char>) -> Option<(Seq<char>, Seq<char>)> {
    match find_char(line, ':') {
        None => None,
        Some(i) => {
            let rest = line.subrange(i + 1, line.len() as int);
            match find_char(rest, ':') {
                None => None,
                Some(j) => Some((line.take(i), rest.subrange(j + 1, rest.len() as int))),
            }
        },
    }
}

/// Reads the key and value out of one `key:type:value` line.
pub fn parse_line(line: &str) -> (r: Option<(String, String)>)
    ensures
        match r {
            Some(kv) => spec_parse_line(line@) == Some((kv.0@, kv.1@)),
            None => spec_parse_line(line@) is None,
        },
{
    let i = match find_char_in(line, ':') {
        Some(i) => i,
        None => {
            return None;
        },
    };
    proof {
        lemma_find_char_found(line@, ':', i as int);
    }
    let len = line.unicode_len();
    let rest = line.substring_char(i + 1, len);
    let j = match find_char_in(rest, ':') {
        Some(j) => j,
        None => {
            return None;
        },
    };
    proof {
        lemma_find_char_found(rest@, ':', j as int);
    }
    let rest_len = rest.unicode_len();
    let key = line.substring_char(0, i).to_owned();
    let value = rest.substring_char(j + 1, rest_len).to_owned();
    proof {
        assert(key@ =~= line@.take(i as int));
        assert(value@ =~= line@.subrange(i + 1, line@.len() as int).subrange(
            j + 1,
            line@.subrange(i + 1, line@.len() as int).len() as int,
        ));
    }
    Some((key, value))
}

/// The value of the first line bearing the key, if any line does.
pub open spec fn spec_lookup(lines: Seq<Seq<char>>, key: Seq<char>) -> Option<Seq<char>>
    decreases lines.len(),
{
    if lines.len() == 0 {
        None
    } else {
        match spec_parse_line(lines[0]) {
            Some(kv) => if kv.0 == key {
                Some(kv.1)
            } else {
                spec_lookup(lines.drop_first(), key)
            },
            None => spec_lookup(lines.drop_first(), key),
        }
    }
}

/// Finds the value of the first descriptor line bearing the key.
pub fn lookup_value(lines: &Vec<String>, key: &str) -> (r: Option<String>)
    ensures
        match r {
            Some(v) => spec_lookup(lines.deep_view(), key@) == Some(v@),
            None => spec_lookup(lines.deep_view(), key@) is None,
        },
{
    let mut i: usize = 0;
    proof {
        assert(lines.deep_view().skip(0) =~= lines.deep_view());
    }
    while i < lines.len()
        invariant
            i <= lines@.len(),
            spec_lookup(lines.deep_view(), key@) == spec_lookup(
                lines.deep_view().skip(i as int),
                key@,
            ),
        decreases lines@.len() - i,
    {
        let ghost rest = lines.deep_view().skip(i as int);
        proof {
            assert(rest[0] == lines.deep_view()[i as int]);
            assert(rest.drop_first() =~= lines.deep_view().skip(i + 1));
        }
        match parse_line(lines[i].as_str()) {
            Some(kv) => {
                if str_eq(kv.0.as_str(), key) {
                    return Some(kv.1);
                }
            },
            None => {},
        }
        i = i + 1;
    }
    proof {
        assert(lines.deep_view().skip(lines@.len() as int) =~= Seq::<Seq<char>>::empty());
    }
    None
}

/// Reads the value of one key back out of a whole descriptor text.
pub fn rdp_field(text: &str, key: &str) -> (r: Option<String>)
    ensures
        match r {
            Some(v) => spec_lookup(spec_split(text@, '\n'), key@) == Some(v@),
            None => spec_lookup(spec_split(text@, '\n'), key@) is None,
        },
{
    let lines = split_on(text, '\n');
    lookup_value(&lines, key)
}

/// A `key:type:value` line parses back to exactly its key and its value,
/// whatever the value holds, provided the key is colon-free and the type
/// mark is a single colon-free character.
pub proof fn lemma_parse_line_form(key: Seq<char>, ty: char, value: Seq<char>)
    requires
        ty != ':',
        forall|j: int| 0 <= j < key.len() ==> key[j] != ':',
    ensures
        spec_parse_line(key + seq![':'] + seq![ty] + seq![':'] + value) == Some((key, value)),
{
    let line = key + seq![':'] + seq![ty] + seq![':'] + value;
    let k = key.len() as int;
    assert(line[k] == ':');
    assert(forall|j: int| 0 <= j < k ==> line[j] == key[j]);
    lemma_find_char_some(line, ':', k);
    let rest = line.subrange(k + 1, line.len() as int);
    assert(rest[0] == ty);
    assert(rest[1] == ':');
    lemma_find_char_some(rest, ':', 1);
    assert(line.take(k) =~= key);
    assert(rest.subrange(2, rest.len() as int) =~= value);
}

/// Looking a key up in concatenated line lists tries the front list first.
pub proof fn lemma_lookup_append(a: Seq<Seq<char>>, b: Seq<Seq<char>>, key: Seq<char>)
    ensures
        spec_lookup(a + b, key) == match spec_lookup(a, key) {
            Some(v) => Some(v),
            None => spec_lookup(b, key),
        },
    decreases a.len(),
{
    if a.len() == 0 {
        assert(a + b =~= b);
    } else {
        assert((a + b)[0] == a[0]);
        assert((a + b).drop_first() =~= a.drop_first() + b);
        lemma_lookup_append(a.drop_first(), b, key);
    }
}

/// Looking a key up in a single line hits or misses by that line alone.
pub proof fn lemma_lookup_one(line: Seq<char>, key: Seq<char>)
    ensures
        spec_lookup(seq![line], key) == match spec_parse_line(line) {
            Some(kv) => if kv.0 == key {
                Some(kv.1)
            } else {
                None::<Seq<char>>
            },
            None => None::<Seq<char>>,
        },
{
    let l = seq![line];
    assert(l[0] == line);
    assert(l.len() == 1);
    assert(l.drop_first() =~= Seq::<Seq<char>>::empty());
    assert(spec_lookup(Seq::<Seq<char>>::empty(), key) is None);
}

/// The field a re-parse of the composed descriptor text reads back for one
/// key.
pub open spec fn spec_reparsed_field(
    profile: RdpProfile,
    policy: GatewayPolicy,
    user: Seq<char>,
    addr: Seq<char>,
    key: Seq<char>,
) -> Option<Seq<char>> {
    spec_lookup(
        spec_split(spec_join(spec_rdp_lines(profile, policy, user, addr), "\n"@), '\n'),
        key,
    )
}

/// Law: the descriptor text is stable under a round trip. Re-parsing the
/// composed text yields the same address, username, domain and gateway
/// values, and the same gateway-usage code, provided none of those values
/// contains a newline.
pub proof fn lemma_rdp_round_trip(
    profile: RdpProfile,
    policy: GatewayPolicy,
    user: Seq<char>,
    addr: Seq<char>,
)
    requires
        forall|j: int| 0 <= j < addr.len() ==> addr[j] != '\n',
        forall|j: int| 0 <= j < user.len() ==> user[j] != '\n',
        profile.domain matches Some(d) ==> forall|j: int| 0 <= j < d@.len() ==> d@[j] != '\n',
        profile.gateway matches Some(g) ==> forall|j: int| 0 <= j < g@.len() ==> g@[j] != '\n',
    ensures
        spec_reparsed_field(profile, policy, user, addr, "full address"@) == Some(addr),
        spec_reparsed_field(profile, policy, user, addr, "username"@) == Some(user),
        spec_reparsed_field(profile, policy, user, addr, "domain"@) == (if profile.domain is Some {
            Some(profile.domain->0@)
        } else {
            None::<Seq<char>>
        }),
        spec_reparsed_field(profile, policy, user, addr, "gatewayhostname"@) == (
        if profile.gateway is Some {
            Some(profile.gateway->0@)
        } else {
            None::<Seq<char>>
        }),
        spec_reparsed_field(profile, policy, user, addr, "gatewayusagemethod"@) == Some(
            dec_rep(policy.spec_code() as int),
        ),
{
    reveal_strlit("full address:s:");
    reveal_strlit("full address");
    reveal_strlit("username:s:");
    reveal_strlit("username");
    reveal_strlit("domain:s:");
    reveal_strlit("domain");
    reveal_strlit("gatewayhostname:s:");
    reveal_strlit("gatewayhostname");
    reveal_strlit("gatewayusagemethod:i:");
    reveal_strlit("gatewayusagemethod");
    reveal_strlit("gatewayprofileusagemethod:i:1");
    reveal_strlit("gatewayprofileusagemethod");
    reveal_strlit("promptcredentialonce:i:");
    reveal_strlit("promptcredentialonce");
    reveal_strlit("0");
    reveal_strlit("1");
    reveal_strlit("\n");

    let lines = spec_rdp_lines(profile, policy, user, addr);
    let l0 = "full address:s:"@ + addr;
    let l1 = "username:s:"@ + user;
    let base = seq![l0, l1];
    let ld = "domain:s:"@ + profile.domain->0@;
    let lg = "gatewayhostname:s:"@ + profile.gateway->0@;
    let code = dec_rep(policy.spec_code() as int);
    let l4 = "gatewayusagemethod:i:"@ + code;
    let l5 = "gatewayprofileusagemethod:i:1"@;
    let lpc = if profile.separate_credentials {
        "0"@
    } else {
        "1"@
    };
    let l6 = "promptcredentialonce:i:"@ + lpc;
    let l7 = Seq::<char>::empty();
    let tail = seq![l4, l5, l6, l7];

    let sd: Seq<Seq<char>> = if profile.domain is Some {
        seq![ld]
    } else {
        Seq::empty()
    };
    let sg: Seq<Seq<char>> = if profile.gateway is Some {
        seq![lg]
    } else {
        Seq::empty()
    };
    let bd = base + sd;
    let bg = bd + sg;
    assert(lines =~= bg + tail);

    // Every line is newline-free, so splitting the joined text recovers the
    // lines.
    assert(policy.spec_code() < 10);
    assert(code == seq![digit_char(policy.spec_code() as int)]);
    assert(digit_char(policy.spec_code() as int) != '\n');
    assert(forall|j: int| 0 <= j < l0.len() ==> l0[j] != '\n');
    assert(forall|j: int| 0 <= j < l1.len() ==> l1[j] != '\n');
    assert(profile.domain is Some ==> forall|j: int| 0 <= j < ld.len() ==> ld[j] != '\n');
    assert(profile.gateway is Some ==> forall|j: int| 0 <= j < lg.len() ==> lg[j] != '\n');
    assert(forall|j: int| 0 <= j < l4.len() ==> l4[j] != '\n');
    assert(forall|j: int| 0 <= j < l5.len() ==> l5[j] != '\n');
    assert(forall|j: int| 0 <= j < l6.len() ==> l6[j] != '\n');
    assert forall|i: int, j: int|
        0 <= i < lines.len() && 0 <= j < lines[i].len() implies #[trigger] lines[i][j]
        != '\n' by {
        assert(lines[i] == l0 || lines[i] == l1 || lines[i] == ld || lines[i] == lg || lines[i]
            == l4 || lines[i] == l5 || lines[i] == l6 || lines[i] == l7);
    }
    assert("\n"@ =~= seq!['\n']);
    lemma_split_join(lines, '\n');
    assert(spec_split(spec_join(lines, "\n"@), '\n') == lines);

    // How each line parses.
    assert(l0 =~= "full address"@ + seq![':'] + seq!['s'] + seq![':'] + addr);
    assert(forall|j: int| 0 <= j < "full address"@.len() ==> "full address"@[j] != ':');
    lemma_parse_line_form("full address"@, 's', addr);
    assert(spec_parse_line(l0) == Some(("full address"@, addr)));

    assert(l1 =~= "username"@ + seq![':'] + seq!['s'] + seq![':'] + user);
    assert(forall|j: int| 0 <= j < "username"@.len() ==> "username"@[j] != ':');
    lemma_parse_line_form("username"@, 's', user);
    assert(spec_parse_line(l1) == Some(("username"@, user)));

    if profile.domain is Some {
        assert(ld =~= "domain"@ + seq![':'] + seq!['s'] + seq![':'] + profile.domain->0@);
        assert(forall|j: int| 0 <= j < "domain"@.len() ==> "domain"@[j] != ':');
        lemma_parse_line_form("domain"@, 's', profile.domain->0@);
        assert(spec_parse_line(ld) == Some(("domain"@, profile.domain->0@)));
    }
    if profile.gateway is Some {
        assert(lg =~= "gatewayhostname"@ + seq![':'] + seq!['s'] + seq![':'] + profile.gateway->0@);
        assert(forall|j: int| 0 <= j < "gatewayhostname"@.len() ==> "gatewayhostname"@[j] != ':');
        lemma_parse_line_form("gatewayhostname"@, 's', profile.gateway->0@);
        assert(spec_parse_line(lg) == Some(("gatewayhostname"@, profile.gateway->0@)));
    }

    assert(l4 =~= "gatewayusagemethod"@ + seq![':'] + seq!['i'] + seq![':'] + code);
    assert(forall|j: int| 0 <= j < "gatewayusagemethod"@.len() ==> "gatewayusagemethod"@[j] != ':');
    lemma_parse_line_form("gatewayusagemethod"@, 'i', code);
    assert(spec_parse_line(l4) == Some(("gatewayusagemethod"@, code)));

    assert(l5 =~= "gatewayprofileusagemethod"@ + seq![':'] + seq!['i'] + seq![':'] + "1"@);
    assert(forall|j: int|
        0 <= j < "gatewayprofileusagemethod"@.len() ==> "gatewayprofileusagemethod"@[j] != ':');
    lemma_parse_line_form("gatewayprofileusagemethod"@, 'i', "1"@);
    assert(spec_parse_line(l5) == Some(("gatewayprofileusagemethod"@, "1"@)));

    assert(l6 =~= "promptcredentialonce"@ + seq![':'] + seq!['i'] + seq![':'] + lpc);
    assert(forall|j: int|
        0 <= j < "promptcredentialonce"@.len() ==> "promptcredentialonce"@[j] != ':');
    lemma_parse_line_form("promptcredentialonce"@, 'i', lpc);
    assert(spec_parse_line(l6) == Some(("promptcredentialonce"@, lpc)));

    assert(spec_parse_line(l7) is None);

    // The keys all have different lengths, so no line answers for another's
    // key. Walk the lookups through the line structure.
    assert(base.drop_first() =~= seq![l1]);
    assert(tail.drop_first() =~= seq![l5, l6, l7]);
    assert(seq![l5, l6, l7].drop_first() =~= seq![l6, l7]);
    assert(seq![l6, l7].drop_first() =~= seq![l7]);
    lemma_lookup_one(l1, "full address"@);
    lemma_lookup_one(l7, "full address"@);

    let keys = seq![
        "full address"@,
        "username"@,
        "domain"@,
        "gatewayhostname"@,
        "gatewayusagemethod"@,
    ];
    assert forall|ki: int| 0 <= ki < keys.len() implies spec_lookup(lines, keys[ki])
        == spec_lookup(bg + tail, keys[ki]) by {}
    let k0 = "full address"@;
    let k1 = "username"@;
    let k2 = "domain"@;
    let k3 = "gatewayhostname"@;
    let k4 = "gatewayusagemethod"@;

    // full address: hits the first line.
    lemma_lookup_append(bg, tail, k0);
    lemma_lookup_append(bd, sg, k0);
    lemma_lookup_append(base, sd, k0);
    assert(spec_lookup(base, k0) == Some(addr));
    assert(spec_lookup(lines, k0) == Some(addr));

    // username: misses the first line, hits the second.
    lemma_lookup_append(bg, tail, k1);
    lemma_lookup_append(bd, sg, k1);
    lemma_lookup_append(base, sd, k1);
    assert(k0.len() == 12 && k1.len() == 8);
    assert(spec_lookup(seq![l1], k1) == Some(user)) by {
        lemma_lookup_one(l1, k1);
    }
    assert(spec_lookup(base, k1) == Some(user));
    assert(spec_lookup(lines, k1) == Some(user));

    // domain: answered by the domain line exactly when it is present.
    lemma_lookup_append(bg, tail, k2);
    lemma_lookup_append(bd, sg, k2);
    lemma_lookup_append(base, sd, k2);
    assert(k2.len() == 6);
    assert(spec_lookup(seq![l1], k2) is None) by {
        lemma_lookup_one(l1, k2);
    }
    assert(spec_lookup(base, k2) is None);
    if profile.domain is Some {
        assert(spec_lookup(sd, k2) == Some(profile.domain->0@)) by {
            lemma_lookup_one(ld, k2);
        }
        assert(spec_lookup(lines, k2) == Some(profile.domain->0@));
    } else {
        assert(spec_lookup(sd, k2) is None);
        if profile.gateway is Some {
            assert(spec_lookup(sg, k2) is None) by {
                lemma_lookup_one(lg, k2);
                assert(k3.len() == 15);
            }
        } else {
            assert(spec_lookup(sg, k2) is None);
        }
        assert(spec_lookup(tail, k2) is None) by {
            assert(k4.len() == 18);
            assert("gatewayprofileusagemethod"@.len() == 25);
            assert("promptcredentialonce"@.len() == 20);
            assert(tail[0] == l4);
            assert(seq![l5, l6, l7][0] == l5);
            assert(seq![l6, l7][0] == l6);
            assert(spec_lookup(tail, k2) == spec_lookup(seq![l5, l6, l7], k2));
            assert(spec_lookup(seq![l5, l6, l7], k2) == spec_lookup(seq![l6, l7], k2));
            assert(spec_lookup(seq![l6, l7], k2) == spec_lookup(seq![l7], k2));
            lemma_lookup_one(l7, k2);
        }
        assert(spec_lookup(lines, k2) is None);
    }

    // gateway hostname: answered by the gateway line exactly when present.
    lemma_lookup_append(bg, tail, k3);
    lemma_lookup_append(bd, sg, k3);
    lemma_lookup_append(base, sd, k3);
    assert(k3.len() == 15);
    assert(spec_lookup(seq![l1], k3) is None) by {
        lemma_lookup_one(l1, k3);
    }
    assert(spec_lookup(base, k3) is None);
    if profile.domain is Some {
        assert(spec_lookup(sd, k3) is None) by {
            lemma_lookup_one(ld, k3);
        }
    }
    if profile.gateway is Some {
        assert(spec_lookup(sg, k3) == Some(profile.gateway->0@)) by {
            lemma_lookup_one(lg, k3);
        }
        assert(spec_lookup(lines, k3) == Some(profile.gateway->0@));
    } else {
        assert(spec_lookup(sg, k3) is None);
        assert(spec_lookup(tail, k3) is None) by {
            assert(k4.len() == 18);
            assert("gatewayprofileusagemethod"@.len() == 25);
            assert("promptcredentialonce"@.len() == 20);
            assert(tail[0] == l4);
            assert(seq![l5, l6, l7][0] == l5);
            assert(seq![l6, l7][0] == l6);
            assert(spec_lookup(tail, k3) == spec_lookup(seq![l5, l6, l7], k3));
            assert(spec_lookup(seq![l5, l6, l7], k3) == spec_lookup(seq![l6, l7], k3));
            assert(spec_lookup(seq![l6, l7], k3) == spec_lookup(seq![l7], k3));
            lemma_lookup_one(l7, k3);
        }
        assert(spec_lookup(lines, k3) is None);
    }

    // gateway usage method: misses everything before the tail, hits its
    // first line.
    lemma_lookup_append(bg, tail, k4);
    lemma_lookup_append(bd, sg, k4);
    lemma_lookup_append(base, sd, k4);
    assert(k4.len() == 18);
    assert(spec_lookup(seq![l1], k4) is None) by {
        lemma_lookup_one(l1, k4);
    }
    assert(spec_lookup(base, k4) is None);
    if profile.domain is Some {
        assert(spec_lookup(sd, k4) is None) by {
            lemma_lookup_one(ld, k4);
        }
    }
    if profile.gateway is Some {
        assert(spec_lookup(sg, k4) is None) by {
            lemma_lookup_one(lg, k4);
        }
    }
    assert(spec_lookup(tail, k4) == Some(code));
    assert(spec_lookup(lines, k4) == Some(code));
}


/// Composes the descriptor text of the remote-desktop subcommand. The
/// username fallback is the local account name, so the result is pinned
/// down only up to that name; `rdp_config_text` pins it completely.
pub fn launch_rdp(config: &Config, cli: &Rdp) -> (r: Result<String, Error>)
    ensures
        exists|u: Seq<char>| #[trigger] rdp_text_post(*config, *cli, u, r),
{
    let user = os_username();
    let r = rdp_config_text(config, cli, user.as_str());
    proof {
        assert(rdp_text_post(*config, *cli, user@, r));
    }
    r
}

} // verus!

