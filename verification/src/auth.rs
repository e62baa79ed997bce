//! The decisions of the Twitch login: which tokens to keep, where the
//! OAuth callback listens, and what the callback carries.

use vstd::prelude::*;
use crate::text::{
    copy_str, decimal, push_str, replace_all, replace_str, str_equal, trim, trimmed, u64_to_string,
};

verus! {

/// The result of logging in.
#[derive(Clone, Debug)]
pub struct AuthData {
    pub access_token: String,
}

/// The tokens kept on disk between runs.
#[derive(Clone, Debug)]
pub struct AuthStore {
    pub access_token: Option<String>,
    pub refresh_token: Option<String>,
}

/// The application's credentials.
#[derive(Clone, Debug)]
pub struct Config {
    pub client_id: String,
    pub client_secret: String,
    pub refresh_token: Option<String>,
}

impl Default for Config {
    fn default() -> (r: Self)
        ensures
            r.client_id@ == Seq::<char>::empty(),
            r.client_secret@ == Seq::<char>::empty(),
            r.refresh_token is None,
    {
        Config { client_id: String::new(), client_secret: String::new(), refresh_token: None }
    }
}

fn copy_opt(s: Option<&str>) -> (r: Option<String>)
    ensures
        r.deep_view() == match s {
            Some(t) => Some(t@),
            None => None,
        },
{
    match s {
        Some(t) => Some(copy_str(t)),
        None => None,
    }
}

impl AuthStore {
    /// The record that `save_token` writes for the given tokens.
    pub fn from_tokens(access_token: Option<&str>, refresh_token: Option<&str>) -> (r: Self)
        ensures
            r.access_token.deep_view() == match access_token {
                Some(t) => Some(t@),
                None => None,
            },
            r.refresh_token.deep_view() == match refresh_token {
                Some(t) => Some(t@),
                None => None,
            },
    {
        AuthStore { access_token: copy_opt(access_token), refresh_token: copy_opt(refresh_token) }
    }
}

/// The refresh token that `load_token` offers from a stored record: the
/// stored one, trimmed, unless nothing is left of it.
pub open spec fn usable_refresh_token(stored: Option<Seq<char>>) -> Option<Seq<char>> {
    match stored {
        Some(t) => if trimmed(t).len() > 0 {
            Some(trimmed(t))
        } else {
            None
        },
        None => None,
    }
}

/// The refresh token to try from a stored record.
pub fn stored_refresh_token(store: AuthStore) -> (r: Option<String>)
    ensures
        r.deep_view() == usable_refresh_token(store.refresh_token.deep_view()),
{
    match store.refresh_token {
        Some(t) => {
            let t = trim(t.as_str());
            if t.as_str().is_empty() {
                None
            } else {
                Some(t)
            }
        },
        None => None,
    }
}

/// What `authenticate` does with fresh tokens: the access token is the
/// result, and both tokens are stored only when a refresh token came with
/// them.
pub fn finish_auth(access_token: String, refresh_token: String) -> (r: (AuthData, Option<AuthStore>))
    ensures
        r.0.access_token@ == access_token@,
        refresh_token@.len() == 0 ==> r.1 is None,
        refresh_token@.len() > 0 ==> (r.1 matches Some(st) && st.access_token.deep_view() == Some(
            access_token@,
        ) && st.refresh_token.deep_view() == Some(refresh_token@)),
{
    let store = if refresh_token.as_str().is_empty() {
        None
    } else {
        Some(AuthStore::from_tokens(Some(access_token.as_str()), Some(refresh_token.as_str())))
    };
    (AuthData { access_token }, store)
}

/// The address the OAuth callback server listens on: the redirect URI's
/// host (`127.0.0.1` without one) and port (80 without one).
pub open spec fn callback_address_text(host: Option<Seq<char>>, port: Option<u16>) -> Seq<char> {
    let h = match host {
        Some(h) => h,
        None => "127.0.0.1"@,
    };
    let p: nat = match port {
        Some(p) => p as nat,
        None => 80,
    };
    h + ":"@ + decimal(p)
}

/// The `host:port` address of the OAuth callback server.
pub fn callback_address(host: Option<&str>, port: Option<u16>) -> (r: String)
    ensures
        r@ == callback_address_text(
            match host {
                Some(h) => Some(h@),
                None => None,
            },
            port,
        ),
{
    let mut s = match host {
        Some(h) => copy_str(h),
        None => copy_str("127.0.0.1"),
    };
    push_str(&mut s, ":");
    let p: u16 = match port {
        Some(p) => p,
        None => 80,
    };
    let digits = u64_to_string(p as u64);
    push_str(&mut s, digits.as_str());
    s
}

/// The URL that the browser was sent back to: the redirect URI followed
/// by the request path.
pub fn callback_url(redirect_uri: &str, request_url: &str) -> (r: String)
    ensures
        r@ == redirect_uri@ + request_url@,
{
    let mut s = copy_str(redirect_uri);
    push_str(&mut s, request_url);
    s
}

/// The page shown after a successful login: the template with every
/// `__TWITCH_CHANNEL__` replaced by the channel name.
pub fn oauth_success_page(template: &str, channel_name: &str) -> (r: String)
    ensures
        r@ == replace_all(template@, "__TWITCH_CHANNEL__"@, channel_name@),
{
    proof {
        reveal_strlit("__TWITCH_CHANNEL__");
    }
    replace_str(template, "__TWITCH_CHANNEL__", channel_name)
}

/// Query pairs, as values.
pub open spec fn pairs_view(pairs: Seq<(String, String)>) -> Seq<(Seq<char>, Seq<char>)> {
    pairs.map_values(|p: (String, String)| (p.0@, p.1@))
}

/// The value of the last pair with this key (as a map built from the
/// pairs keeps it).
pub open spec fn last_value(pairs: Seq<(Seq<char>, Seq<char>)>, key: Seq<char>) -> Option<Seq<char>>
    decreases pairs.len(),
{
    if pairs.len() == 0 {
        None
    } else if pairs.last().0 == key {
        Some(pairs.last().1)
    } else {
        last_value(pairs.drop_last(), key)
    }
}

/// The value of the first pair with this key.
pub open spec fn first_value(pairs: Seq<(Seq<char>, Seq<char>)>, key: Seq<char>) -> Option<Seq<char>>
    decreases pairs.len(),
{
    if pairs.len() == 0 {
        None
    } else if pairs[0].0 == key {
        Some(pairs[0].1)
    } else {
        first_value(pairs.drop_first(), key)
    }
}

/// The value of the last query pair with this key.
pub fn last_query_value(pairs: &Vec<(String, String)>, key: &str) -> (r: Option<String>)
    ensures
        r.deep_view() == last_value(pairs_view(pairs@), key@),
{
    let ghost ps = pairs_view(pairs@);
    let mut i = pairs.len();
    assert(ps.take(ps.len() as int) =~= ps);
    while i > 0
        invariant
            i <= pairs@.len(),
            ps == pairs_view(pairs@),
            last_value(ps, key@) == last_value(ps.take(i as int), key@),
        decreases i,
    {
        let ghost t = ps.take(i as int);
        assert(t.last() == ps[i - 1]);
        assert(t.drop_last() =~= ps.take(i - 1));
        if str_equal(pairs[i - 1].0.as_str(), key) {
            return Some(copy_str(pairs[i - 1].1.as_str()));
        }
        i = i - 1;
    }
    None
}

/// The value of the first query pair with this key.
pub fn first_query_value(pairs: &Vec<(String, String)>, key: &str) -> (r: Option<String>)
    ensures
        r.deep_view() == first_value(pairs_view(pairs@), key@),
{
    let ghost ps = pairs_view(pairs@);
    let mut i: usize = 0;
    assert(ps.skip(0) =~= ps);
    while i < pairs.len()
        invariant
            i <= pairs@.len(),
            ps == pairs_view(pairs@),
            first_value(ps, key@) == first_value(ps.skip(i as int), key@),
        decreases pairs.len() - i,
    {
        let ghost t = ps.skip(i as int);
        assert(t[0] == ps[i as int]);
        assert(t.drop_first() =~= ps.skip(i + 1));
        if str_equal(pairs[i].0.as_str(), key) {
            return Some(copy_str(pairs[i].1.as_str()));
        }
        i = i + 1;
    }
    None
}

/// Why an OAuth callback could not be used.
#[derive(Debug, Clone, Copy, PartialEq, Eq, Structural)]
pub enum AuthError {
    /// The callback had no `code` ("No code").
    NoCode,
    /// The callback had no `state` ("No state").
    NoState,
}

/// The authorization code and CSRF state of an OAuth callback's query, a
/// later pair overriding an earlier one; the code is looked for first.
pub fn code_and_state(pairs: &Vec<(String, String)>) -> (r: Result<(String, String), AuthError>)
    ensures
        match r {
            Ok((code, state)) => last_value(pairs_view(pairs@), "code"@) == Some(code@)
                && last_value(pairs_view(pairs@), "state"@) == Some(state@),
            Err(AuthError::NoCode) => last_value(pairs_view(pairs@), "code"@) is None,
            Err(AuthError::NoState) => last_value(pairs_view(pairs@), "code"@) is Some
                && last_value(pairs_view(pairs@), "state"@) is None,
        },
{
    let code = match last_query_value(pairs, "code") {
        Some(c) => c,
        None => return Err(AuthError::NoCode),
    };
    let state = match last_query_value(pairs, "state") {
        Some(s) => s,
        None => return Err(AuthError::NoState),
    };
    Ok((code, state))
}

} // verus!
