use vstd::prelude::*;

verus! {

/// Xapi RPC configuration: the endpoint and the credentials to log in with.
pub struct Config {
    pub host: String,
    pub user: String,
    pub pass: String,
}

/// A host with its scheme: kept as written when it already starts with
/// `http:` or `https:`, else with `https://` prepended.
pub open spec fn spec_as_url(host: Seq<char>) -> Seq<char> {
    if "https:"@.is_prefix_of(host) || "http:"@.is_prefix_of(host) {
        host
    } else {
        "https://"@ + host
    }
}

fn starts_with(s: &str, prefix: &str) -> (r: bool)
    ensures
        r == prefix@.is_prefix_of(s@),
{
    let n = prefix.unicode_len();
    if n > s.unicode_len() {
        return false;
    }
    let mut i: usize = 0;
    while i < n
        invariant
            i <= n,
            n == prefix@.len(),
            n <= s@.len(),
            forall|j: int| 0 <= j < i ==> s@[j] == prefix@[j],
        decreases n - i,
    {
        if s.get_char(i) != prefix.get_char(i) {
            proof {
                assert(s@.subrange(0, n as int)[i as int] == s@[i as int]);
            }
            return false;
        }
        i += 1;
    }
    proof {
        assert(prefix@ =~= s@.subrange(0, n as int));
    }
    true
}

/// Turn a configured host into the URL the transport is given.
pub fn as_url(host: &str) -> (r: String)
    ensures
        r@ == spec_as_url(host@),
{
    if starts_with(host, "https:") || starts_with(host, "http:") {
        host.to_owned()
    } else {
        let mut s = String::from_str("https://");
        s.append(host);
        s
    }
}

/// The effective value of one setting: the command line wins, then the
/// environment, then the preference file, then the built-in default.
pub open spec fn spec_cascade(
    cli: Option<Seq<char>>,
    env: Option<Seq<char>>,
    pref: Option<Seq<char>>,
    default: Seq<char>,
) -> Seq<char> {
    match cli {
        Some(v) => v,
        None => match env {
            Some(v) => v,
            None => match pref {
                Some(v) => v,
                None => default,
            },
        },
    }
}

fn cascade(cli: Option<String>, env: Option<String>, pref: Option<String>, default: &str) -> (r:
    String)
    ensures
        r@ == spec_cascade(cli.deep_view(), env.deep_view(), pref.deep_view(), default@),
{
    match cli {
        Some(v) => v,
        None => match env {
            Some(v) => v,
            None => match pref {
                Some(v) => v,
                None => default.to_owned(),
            },
        },
    }
}

/// Resolve the configuration by cascading each setting through the command
/// line, the environment and the preference file, with the built-in guest
/// defaults last; the chosen host is normalised to a URL.
pub fn get_config(
    cli_host: Option<String>,
    cli_user: Option<String>,
    cli_pass: Option<String>,
    env_host: Option<String>,
    env_user: Option<String>,
    env_pass: Option<String>,
    pref_host: Option<String>,
    pref_user: Option<String>,
    pref_pass: Option<String>,
) -> (r: Config)
    ensures
        r.host@ == spec_as_url(
            spec_cascade(
                cli_host.deep_view(),
                env_host.deep_view(),
                pref_host.deep_view(),
                "http://127.0.0.1"@,
            ),
        ),
        r.user@ == spec_cascade(
            cli_user.deep_view(),
            env_user.deep_view(),
            pref_user.deep_view(),
            "guest"@,
        ),
        r.pass@ == spec_cascade(
            cli_pass.deep_view(),
            env_pass.deep_view(),
            pref_pass.deep_view(),
            "guest"@,
        ),
{
    let host_raw = cascade(cli_host, env_host, pref_host, "http://127.0.0.1");
    let host = as_url(host_raw.as_str());
    let user = cascade(cli_user, env_user, pref_user, "guest");
    let pass = cascade(cli_pass, env_pass, pref_pass, "guest");
    Config { host, user, pass }
}

} // verus!
