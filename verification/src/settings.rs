//! Settings the hub takes from its environment, and what it does when they are unset.

use vstd::prelude::*;
use crate::addr::{default_service_addr, normalize_service_addr, opt_view, service_addr};
use crate::text::{lower, lower_str, trim, trim_str};

verus! {

/// What `std::path::Path::parent` gives for the path `path`, as text, with the
/// path rules of the platform the crate is built for.
pub uninterp spec fn path_parent(path: Seq<char>) -> Option<Seq<char>>;

/// What `std::path::Path::join` gives for `base` joined with `name`, as text, with
/// the path rules of the platform the crate is built for.
pub uninterp spec fn path_join(base: Seq<char>, name: Seq<char>) -> Seq<char>;

/// `Path::new(path).parent()`, as text.
#[verifier::external_body]
fn parent_of(path: &str) -> (r: Option<String>)
    ensures
        opt_view(r) == path_parent(path@),
{
    match std::path::Path::new(path).parent() {
        Some(p) => Some(p.to_string_lossy().into_owned()),
        None => None,
    }
}

/// `Path::new(base).join(name)`, as text.
#[verifier::external_body]
fn joined(base: &str, name: &str) -> (r: String)
    ensures
        r@ == path_join(base@, name@),
{
    std::path::Path::new(base).join(name).to_string_lossy().into_owned()
}

/// A setting's value with surrounding whitespace removed; a blank value counts as unset.
pub open spec fn setting(raw: Option<Seq<char>>) -> Option<Seq<char>> {
    match raw {
        Some(v) => if trim(v).len() > 0 {
            Some(trim(v))
        } else {
            None
        },
        None => None,
    }
}

/// The trimmed value of a setting, `None` when it is unset or blank.
pub fn setting_value(raw: Option<String>) -> (r: Option<String>)
    ensures
        opt_view(r) == setting(opt_view(raw)),
{
    match raw {
        Some(v) => {
            let t = trim_str(v.as_str());
            if t.as_str().is_empty() {
                None
            } else {
                Some(t)
            }
        },
        None => None,
    }
}

/// The service address the hub talks to: the configured one when it is
/// usable, else the default one.
pub fn resolve_service_addr(configured: Option<String>) -> (addr: String)
    ensures
        addr@ == match service_addr(
            match configured {
                Some(c) => c@,
                None => default_service_addr(),
            },
        ) {
            Some(a) => a,
            None => default_service_addr(),
        },
{
    let raw = match configured {
        Some(c) => c,
        None => "localhost:48760".to_owned(),
    };
    match normalize_service_addr(raw.as_str()) {
        Some(a) => a,
        None => "localhost:48760".to_owned(),
    }
}

/// The registration service's base URL: the configured one, else the default one.
pub fn resolve_register_base_url(configured: Option<String>) -> (url: String)
    ensures
        url@ == match configured {
            Some(c) => c@,
            None => "http://auto-register-go:8899"@,
        },
{
    match configured {
        Some(c) => c,
        None => "http://auto-register-go:8899".to_owned(),
    }
}

/// The address the hub listens on: the configured one, else the default one.
pub fn resolve_hub_addr(configured: Option<String>) -> (addr: String)
    ensures
        addr@ == match configured {
            Some(c) => c@,
            None => "0.0.0.0:48800"@,
        },
{
    match configured {
        Some(c) => c,
        None => "0.0.0.0:48800".to_owned(),
    }
}

/// The name of the token file kept beside the database.
pub open spec fn token_file_name() -> Seq<char> {
    "codexmanager.rpc-token"@
}

/// Where the token file is when only the database path is configured: beside
/// the database, or in the working directory when the path has no parent.
pub open spec fn default_token_path(db_path: Option<Seq<char>>) -> Option<Seq<char>> {
    match db_path {
        Some(p) => Some(
            match path_parent(p) {
                Some(dir) => path_join(dir, token_file_name()),
                None => token_file_name(),
            },
        ),
        None => None,
    }
}

/// The token file beside the configured database, if a database is configured.
pub fn resolve_default_rpc_token_path(db_path: Option<String>) -> (r: Option<String>)
    ensures
        opt_view(r) == default_token_path(opt_view(db_path)),
{
    let db_path = match db_path {
        Some(p) => p,
        None => {
            return None;
        },
    };
    match parent_of(db_path.as_str()) {
        Some(dir) => Some(joined(dir.as_str(), "codexmanager.rpc-token")),
        None => Some("codexmanager.rpc-token".to_owned()),
    }
}

/// Where the hub's token for the service's RPC comes from.
pub enum RpcTokenSource {
    /// The token itself was configured.
    Token(String),
    /// The token is to be read from this file.
    File(String),
    /// Neither a token nor a file to read it from is configured.
    Unconfigured(String),
}

/// The message given when no token is configured at all.
pub open spec fn token_unconfigured_message() -> Seq<char> {
    "rpc token not configured"@
}

/// Picks the token's source: the configured token, else the configured token
/// file, else the file beside the configured database.
pub fn resolve_rpc_token(
    token: Option<String>,
    token_file: Option<String>,
    db_path: Option<String>,
) -> (src: RpcTokenSource)
    ensures
        match src {
            RpcTokenSource::Token(t) => token matches Some(k) && t@ == k@,
            RpcTokenSource::File(f) => token is None && (match token_file {
                Some(p) => f@ == p@,
                None => default_token_path(opt_view(db_path)) == Some(f@),
            }),
            RpcTokenSource::Unconfigured(m) => token is None && token_file is None
                && default_token_path(opt_view(db_path)) is None && m@
                == token_unconfigured_message(),
        },
{
    if let Some(t) = token {
        return RpcTokenSource::Token(t);
    }
    let path = match token_file {
        Some(p) => Some(p),
        None => resolve_default_rpc_token_path(db_path),
    };
    match path {
        Some(p) => RpcTokenSource::File(p),
        None => RpcTokenSource::Unconfigured("rpc token not configured".to_owned()),
    }
}

/// The token read from the file at `path`: the file's trimmed text, or an
/// error naming the file when it could not be read or holds only whitespace.
pub fn rpc_token_from_file(path: &str, contents: Option<String>) -> (r: Result<String, String>)
    ensures
        match r {
            Ok(t) => contents matches Some(c) && trim(c@).len() > 0 && t@ == trim(c@),
            Err(e) => (contents matches Some(c) ==> trim(c@).len() == 0) && e@
                == "rpc token file missing or empty: "@ + path@,
        },
{
    if let Some(text) = contents {
        let trimmed = trim_str(text.as_str());
        if !trimmed.as_str().is_empty() {
            return Ok(trimmed);
        }
    }
    let mut msg = "rpc token file missing or empty: ".to_owned();
    msg.append(path);
    Err(msg)
}

/// Whether the front proxy is switched off: the setting is `1`, `true`,
/// `yes` or `on`, ignoring case and surrounding whitespace.
pub open spec fn proxy_disabled(raw: Option<Seq<char>>) -> bool {
    match raw {
        Some(v) => {
            let w = lower(trim(v));
            w == "1"@ || w == "true"@ || w == "yes"@ || w == "on"@
        },
        None => false,
    }
}

/// Decides from the raw setting whether the service runs without its front proxy.
pub fn front_proxy_disabled(raw: Option<String>) -> (b: bool)
    ensures
        b == proxy_disabled(opt_view(raw)),
{
    match raw {
        Some(v) => {
            let t = trim_str(v.as_str());
            let w = lower_str(t.as_str());
            w == "1".to_owned() || w == "true".to_owned() || w == "yes".to_owned() || w
                == "on".to_owned()
        },
        None => false,
    }
}

/// The front proxy is switched off only by one of the whole words `1`, `true`,
/// `yes` or `on` (any case, any surrounding whitespace): any other value, such
/// as `off`, `ok`, `t` or `yep`, leaves it on.
pub proof fn lemma_proxy_switch_whole_words(v: Seq<char>)
    ensures
        proxy_disabled(Some(v)) ==> {
            let w = lower(trim(v));
            ||| w.len() == 1 && w[0] == '1'
            ||| w.len() == 4 && w[0] == 't' && w[1] == 'r' && w[2] == 'u' && w[3] == 'e'
            ||| w.len() == 3 && w[0] == 'y' && w[1] == 'e' && w[2] == 's'
            ||| w.len() == 2 && w[0] == 'o' && w[1] == 'n'
        },
        proxy_disabled(Some(v)) <== {
            let w = lower(trim(v));
            ||| w =~= seq!['1']
            ||| w =~= seq!['t', 'r', 'u', 'e']
            ||| w =~= seq!['y', 'e', 's']
            ||| w =~= seq!['o', 'n']
        },
        !proxy_disabled(None),
{
    reveal_strlit("1");
    reveal_strlit("true");
    reveal_strlit("yes");
    reveal_strlit("on");
    assert("1"@ =~= seq!['1']);
    assert("true"@ =~= seq!['t', 'r', 'u', 'e']);
    assert("yes"@ =~= seq!['y', 'e', 's']);
    assert("on"@ =~= seq!['o', 'n']);
}

} // verus!
