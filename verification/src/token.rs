//! The OAuth 2.0 authorisation flow: the redirect that the browser sends
//! back to the local listener, the check of its `state`, the page that
//! answers it, the files that hold the client credentials and the cached
//! token, and what is cached after a token refresh.
//!
//! A redirect without target or without `code` and `state`, a forged
//! `state` and a cached token without refresh token are outside what
//! `parse_redirect_request`, `extract_from_url`, `check_state`,
//! `cached_refresh_token` and `read_token_cache` accept (`requires`). The
//! functions beside them (`read_redirect_request`, `query_parameter`,
//! `state_matches`, `try_read_token_cache`) accept every input and tell
//! these cases apart with an `AuthError`.

use vstd::prelude::*;
use oauth2::TokenResponse;
use crate::json::pair_views;
use crate::text::{
    all_white_space, decimal, lemma_request_line_words, no_white_space, push_decimal, split_words,
    words,
};

verus! {

/// Authorisation endpoint of Google's OAuth 2.0 service.
pub const AUTH_URL: &'static str = "https://accounts.google.com/o/oauth2/v2/auth";

/// Token endpoint of Google's OAuth 2.0 service.
pub const TOKEN_URL: &'static str = "https://www.googleapis.com/oauth2/v3/token";

/// Where the browser is sent back after authorisation.
pub const REDIRECT_URL: &'static str = "http://localhost:8000";

/// Address on which the redirect is awaited.
pub const LISTEN_ADDRESS: &'static str = "127.0.0.1:8000";

/// Scope for Google Docs.
pub const DOCUMENTS_SCOPE: &'static str = "https://www.googleapis.com/auth/documents";

/// Scope for Google Drive.
pub const DRIVE_SCOPE: &'static str = "https://www.googleapis.com/auth/drive";

/// File that holds the client credentials.
pub const CREDENTIALS_FILE: &'static str = "credentials.json";

/// File that caches the token.
pub const TOKEN_CACHE_FILE: &'static str = "token.json";

/// Environment variable that holds the client id.
pub const CLIENT_ID_VAR: &'static str = "GOOGLE_CLIENT_ID";

/// Environment variable that holds the client secret.
pub const CLIENT_SECRET_VAR: &'static str = "GOOGLE_CLIENT_SECRET";

/// Origin put in front of the request target of the redirect.
pub const LOCAL_ORIGIN: &'static str = "http://localhost";

/// Page shown in the browser once the redirect has arrived.
pub const REDIRECT_MESSAGE: &'static str = "Go back to your terminal :)";

/// Why the authorisation flow cannot go on.
#[derive(Debug, PartialEq, Eq)]
pub enum AuthError {
    /// The request line of the redirect has no target.
    MissingRequestTarget,
    /// The redirect URL does not parse.
    InvalidUrl,
    /// The redirect URL has no query parameter of this name.
    MissingParameter(String),
    /// The cached token holds no refresh token.
    MissingRefreshToken,
    /// The token cache does not hold a token in JSON.
    InvalidTokenCache,
}

/// `url::ParseError`, returned when a URL does not parse.
#[verifier::external_type_specification]
#[verifier::external_body]
pub struct ExUrlParseError(url::ParseError);

/// The query component (`None` when there is none) of the URL that
/// `url::Url::parse` makes of `input`; `None` when `input` does not parse.
pub uninterp spec fn url_query_component(input: Seq<char>) -> Option<Option<Seq<char>>>;

/// The name-value pairs that `url::form_urlencoded::parse` reads from a query
/// string (split at `&` and the first `=`, `+` and `%XX` decoded).
pub uninterp spec fn form_urlencoded_pairs(query: Seq<char>) -> Seq<(Seq<char>, Seq<char>)>;

/// `url::Url::parse`, then `Url::query` on the result. The contract names the
/// outcome `url_query_component(input)`; URL parsing itself is not stated.
#[verifier::external_body]
pub(crate) fn parse_url_query(input: &str) -> (r: Result<Option<String>, url::ParseError>)
    ensures
        match r {
            Ok(Some(q)) => url_query_component(input@) == Some(Some(q@)),
            Ok(None) => url_query_component(input@) == Some(None::<Seq<char>>),
            Err(_) => url_query_component(input@) is None,
        },
{
    let url = url::Url::parse(input)?;
    Ok(url.query().map(|q| q.to_owned()))
}

/// `url::form_urlencoded::parse` on the bytes of `query`, each pair taken
/// as owned strings. The contract names the pairs
/// `form_urlencoded_pairs(query)`; the decoding is not stated.
#[verifier::external_body]
pub(crate) fn form_pairs(query: &str) -> (r: Vec<(String, String)>)
    ensures
        pair_views(r@) == form_urlencoded_pairs(query@),
{
    url::form_urlencoded::parse(query.as_bytes()).map(|(k, v)| (k.into_owned(), v.into_owned())).collect()
}

/// The value of the first pair named `key`.
pub open spec fn first_value(pairs: Seq<(Seq<char>, Seq<char>)>, key: Seq<char>) -> Option<
    Seq<char>,
>
    decreases pairs.len(),
{
    if pairs.len() == 0 {
        None
    } else if pairs[0].0 == key {
        Some(pairs[0].1)
    } else {
        first_value(pairs.drop_first(), key)
    }
}

/// The value of the first query parameter named `key` of the URL `url`
/// (`Some(None)` when there is none), or `None` when the URL does not parse.
/// A URL without a query has no parameters.
pub open spec fn url_parameter(url: Seq<char>, key: Seq<char>) -> Option<Option<Seq<char>>> {
    match url_query_component(url) {
        None => None,
        Some(q) => Some(
            first_value(
                form_urlencoded_pairs(
                    match q {
                        Some(s) => s,
                        None => Seq::<char>::empty(),
                    },
                ),
                key,
            ),
        ),
    }
}

/// The value of the first pair named `key`.
pub fn find_value(pairs: &Vec<(String, String)>, key: &str) -> (r: Option<String>)
    ensures
        match first_value(pair_views(pairs@), key@) {
            Some(v) => r matches Some(s) && s@ == v,
            None => r is None,
        },
{
    let wanted = String::from_str(key);
    let ghost all = pair_views(pairs@);
    let mut i: usize = 0;
    assert(all.skip(0) =~= all);
    while i < pairs.len()
        invariant
            i <= pairs@.len(),
            all == pair_views(pairs@),
            wanted@ == key@,
            first_value(all, key@) == first_value(all.skip(i as int), key@),
        decreases pairs@.len() - i,
    {
        let ghost rest = all.skip(i as int);
        assert(all.len() == pairs@.len());
        assert(rest.len() > 0);
        assert(rest[0] == (pairs@[i as int].0@, pairs@[i as int].1@));
        if pairs[i].0 == wanted {
            assert(rest[0].0 == key@);
            assert(first_value(rest, key@) == Some(rest[0].1));
            return Some(pairs[i].1.clone());
        }
        assert(rest.drop_first() =~= all.skip(i + 1));
        i = i + 1;
    }
    None
}

/// The value of the first query parameter named `key` of `url`: `Ok(None)`
/// when it has no such parameter, `InvalidUrl` when the URL does not parse.
pub fn query_parameter(url: &str, key: &str) -> (r: Result<Option<String>, AuthError>)
    ensures
        match url_parameter(url@, key@) {
            None => r == Err::<Option<String>, AuthError>(AuthError::InvalidUrl),
            Some(None) => r == Ok::<Option<String>, AuthError>(None),
            Some(Some(v)) => r matches Ok(Some(s)) && s@ == v,
        },
{
    let query = match parse_url_query(url) {
        Ok(q) => q,
        Err(_) => {
            return Err(AuthError::InvalidUrl);
        },
    };
    let pairs = match query {
        Some(q) => form_pairs(q.as_str()),
        None => form_pairs(""),
    };
    proof {
        assert(""@ =~= Seq::<char>::empty()) by {
            reveal_strlit("");
        }
    }
    Ok(find_value(&pairs, key))
}

/// The value of the query parameter named `key` of `url`, which has to have
/// one when it parses; `InvalidUrl` when it does not parse.
pub fn extract_from_url(url: &str, key: &str) -> (r: Result<String, AuthError>)
    requires
        url_parameter(url@, key@) matches Some(v) ==> v is Some,
    ensures
        match url_parameter(url@, key@) {
            Some(Some(v)) => r matches Ok(s) && s@ == v,
            _ => r == Err::<String, AuthError>(AuthError::InvalidUrl),
        },
{
    match query_parameter(url, key) {
        Ok(Some(v)) => Ok(v),
        Ok(None) => Err(AuthError::InvalidUrl),
        Err(e) => Err(e),
    }
}

/// The target (second word) of an HTTP request line, as
/// `split_whitespace().nth(1)` finds it.
pub fn request_target(request_line: &str) -> (r: Option<String>)
    ensures
        match r {
            Some(t) => words(request_line@).len() > 1 && t@ == words(request_line@)[1],
            None => words(request_line@).len() <= 1,
        },
{
    let w = split_words(request_line);
    assert(w@.len() == words(request_line@).len());
    if w.len() > 1 {
        assert(w@[1]@ == words(request_line@)[1]);
        Some(w[1].clone())
    } else {
        None
    }
}

/// The URL that the redirect's request line stands for.
pub open spec fn redirect_url(request_line: Seq<char>) -> Seq<char> {
    LOCAL_ORIGIN@ + words(request_line)[1]
}

/// The `code` and `state` parameters of the redirect.
#[derive(Debug)]
pub struct RedirectParams {
    pub code: String,
    pub state: String,
}

/// Whether the redirect's request line has a target and, when its URL
/// parses, both a `code` and a `state` parameter.
pub open spec fn complete_redirect(request_line: Seq<char>) -> bool {
    &&& words(request_line).len() > 1
    &&& url_parameter(redirect_url(request_line), "code"@) matches Some(c) ==> c is Some
    &&& url_parameter(redirect_url(request_line), "state"@) matches Some(s) ==> s is Some
}

/// The URL read from a request line `method target version` is the local
/// origin followed by the whole target.
pub proof fn lemma_redirect_url_whole_target(
    method: Seq<char>,
    target: Seq<char>,
    version: Seq<char>,
    tail: Seq<char>,
)
    requires
        method.len() > 0,
        target.len() > 0,
        version.len() > 0,
        no_white_space(method),
        no_white_space(target),
        no_white_space(version),
        all_white_space(tail),
    ensures
        redirect_url(method + seq![' '] + target + seq![' '] + version + tail) == LOCAL_ORIGIN@
            + target,
{
    lemma_request_line_words(method, target, version, tail);
}

/// Reads the authorisation code and the state from the request line of the
/// redirect: its target is put after `http://localhost` and the `code` and
/// `state` query parameters are taken from that URL; `InvalidUrl` when that
/// URL does not parse.
pub fn parse_redirect_request(request_line: &str) -> (r: Result<RedirectParams, AuthError>)
    requires
        complete_redirect(request_line@),
    ensures
        match (
            url_parameter(redirect_url(request_line@), "code"@),
            url_parameter(redirect_url(request_line@), "state"@),
        ) {
            (Some(Some(c)), Some(Some(s))) => r matches Ok(p) && p.code@ == c && p.state@ == s,
            _ => r == Err::<RedirectParams, AuthError>(AuthError::InvalidUrl),
        },
{
    let target = match request_target(request_line) {
        Some(t) => t,
        None => {
            return Err(AuthError::MissingRequestTarget);
        },
    };
    let mut url = String::from_str(LOCAL_ORIGIN);
    url.append(target.as_str());
    assert(url@ == redirect_url(request_line@));
    let code = match extract_from_url(url.as_str(), "code") {
        Ok(c) => c,
        Err(e) => {
            return Err(e);
        },
    };
    let state = match extract_from_url(url.as_str(), "state") {
        Ok(s) => s,
        Err(e) => {
            return Err(e);
        },
    };
    Ok(RedirectParams { code, state })
}

/// Reads the redirect's request line whatever it holds: `MissingRequestTarget`
/// without target, `InvalidUrl` when the URL does not parse,
/// `MissingParameter` without `code` or `state`, and otherwise what
/// `parse_redirect_request` reads.
pub fn read_redirect_request(request_line: &str) -> (r: Result<RedirectParams, AuthError>)
    ensures
        words(request_line@).len() <= 1 ==> r == Err::<RedirectParams, AuthError>(
            AuthError::MissingRequestTarget,
        ),
        words(request_line@).len() > 1 ==> match (
            url_parameter(redirect_url(request_line@), "code"@),
            url_parameter(redirect_url(request_line@), "state"@),
        ) {
            (Some(Some(c)), Some(Some(s))) => r matches Ok(p) && p.code@ == c && p.state@ == s,
            (Some(None), _) => r matches Err(AuthError::MissingParameter(k)) && k@ == "code"@,
            (Some(Some(_)), Some(None)) => r matches Err(AuthError::MissingParameter(k)) && k@
                == "state"@,
            _ => r == Err::<RedirectParams, AuthError>(AuthError::InvalidUrl),
        },
{
    let target = match request_target(request_line) {
        Some(t) => t,
        None => {
            return Err(AuthError::MissingRequestTarget);
        },
    };
    let mut url = String::from_str(LOCAL_ORIGIN);
    url.append(target.as_str());
    assert(url@ == redirect_url(request_line@));
    match query_parameter(url.as_str(), "code") {
        Err(e) => {
            return Err(e);
        },
        Ok(None) => {
            return Err(AuthError::MissingParameter(String::from_str("code")));
        },
        Ok(Some(_)) => {},
    }
    match query_parameter(url.as_str(), "state") {
        Err(e) => {
            return Err(e);
        },
        Ok(None) => {
            return Err(AuthError::MissingParameter(String::from_str("state")));
        },
        Ok(Some(_)) => {},
    }
    parse_redirect_request(request_line)
}

/// Whether the state sent back is the one sent out.
pub fn state_matches(params: &RedirectParams, expected_state: &str) -> (r: bool)
    ensures
        r == (params.state@ == expected_state@),
{
    params.state == String::from_str(expected_state)
}

/// The authorisation code of a redirect whose state is the one sent out.
pub fn check_state(params: RedirectParams, expected_state: &str) -> (r: String)
    requires
        params.state@ == expected_state@,
    ensures
        r@ == params.code@,
{
    params.code
}

/// The HTTP answer to the redirect: status 200 with a `content-length`
/// header (the length of `message` in bytes) and `message` as body.
pub open spec fn redirect_response_text(message: &str) -> Seq<char> {
    "HTTP/1.1 200 OK\r\ncontent-length: "@ + decimal(message.len() as nat) + "\r\n\r\n"@
        + message@
}

/// Writes the HTTP answer to the redirect.
pub fn redirect_response(message: &str) -> (r: String)
    ensures
        r@ == redirect_response_text(message),
{
    let mut r = String::from_str("HTTP/1.1 200 OK\r\ncontent-length: ");
    push_decimal(&mut r, message.len());
    r.append("\r\n\r\n");
    r.append(message);
    assert(r@ =~= redirect_response_text(message));
    r
}

/// The secrets of a token: the access token and, when there is one, the
/// refresh token.
#[derive(Debug)]
pub struct TokenSecrets {
    pub access_token: String,
    pub refresh_token: Option<String>,
}

/// What to cache after a refresh.
#[derive(Debug)]
pub enum CacheUpdate {
    /// The cached token is still current.
    KeepCached,
    /// Store this token in place of the cached one.
    StoreFresh(TokenSecrets),
}

/// The refresh token of a cached token that has one.
pub fn cached_refresh_token(cached: &TokenSecrets) -> (r: String)
    requires
        cached.refresh_token is Some,
    ensures
        cached.refresh_token matches Some(t) && r@ == t@,
{
    match &cached.refresh_token {
        Some(t) => t.clone(),
        None => String::new(),
    }
}

/// After `refresh_token` was exchanged for `fresh`: when the access token
/// changed, the fresh token, with the refresh token kept, replaces the cached
/// one; otherwise the cached token stays.
pub fn check_cache(cached: &TokenSecrets, refresh_token: String, fresh: TokenSecrets) -> (r:
    CacheUpdate)
    ensures
        fresh.access_token@ != cached.access_token@ ==> (r matches CacheUpdate::StoreFresh(t)
            && t.access_token@ == fresh.access_token@ && (t.refresh_token matches Some(rt)
            && rt@ == refresh_token@)),
        fresh.access_token@ == cached.access_token@ ==> r is KeepCached,
{
    if fresh.access_token != cached.access_token {
        CacheUpdate::StoreFresh(
            TokenSecrets { access_token: fresh.access_token, refresh_token: Some(refresh_token) },
        )
    } else {
        CacheUpdate::KeepCached
    }
}

/// Whether `text` is a JSON document, as `serde_json::from_str` into a
/// `serde_json::Value` decides.
pub uninterp spec fn json_document(text: Seq<char>) -> bool;

/// `serde_json::from_str::<serde_json::Value>`, keeping only whether it
/// succeeded. The contract names the outcome `json_document(text)`; the JSON
/// grammar is not stated.
#[verifier::external_body]
pub(crate) fn parse_json_document(text: &str) -> (r: Result<(), serde_json::Error>)
    ensures
        r is Ok <==> json_document(text@),
{
    serde_json::from_str::<serde_json::Value>(text).map(|_| ())
}

/// Whether the text of the credentials file is accepted: it has to be a
/// JSON document.
pub fn check_credentials(text: &str) -> (r: bool)
    ensures
        r == json_document(text@),
{
    match parse_json_document(text) {
        Ok(()) => true,
        Err(_) => false,
    }
}

/// The access token and refresh token that `serde_json::from_str` reads from
/// `text` as an `oauth2::basic::BasicTokenResponse`; `None` when it does not
/// read one.
pub uninterp spec fn cached_token(text: Seq<char>) -> Option<(Seq<char>, Option<Seq<char>>)>;

/// `serde_json::from_str::<oauth2::basic::BasicTokenResponse>`, then the
/// secrets of the access token and of the refresh token (through
/// `oauth2::TokenResponse`). The contract names the outcome
/// `cached_token(text)`; the token's JSON form is not stated.
#[verifier::external_body]
pub(crate) fn parse_cached_token(text: &str) -> (r: Option<TokenSecrets>)
    ensures
        match r {
            Some(t) => cached_token(text@) == Some(
                (
                    t.access_token@,
                    match t.refresh_token {
                        Some(x) => Some(x@),
                        None => None::<Seq<char>>,
                    },
                ),
            ),
            None => cached_token(text@) is None,
        },
{
    serde_json::from_str::<oauth2::basic::BasicTokenResponse>(text).ok().map(
        |t| TokenSecrets {
            access_token: t.access_token().secret().clone(),
            refresh_token: t.refresh_token().map(|x| x.secret().clone()),
        },
    )
}

/// Whether the token that `text` holds, if it holds one, has a refresh token.
pub open spec fn refreshable_cache(text: Seq<char>) -> bool {
    cached_token(text) matches Some((_, rt)) ==> rt is Some
}

/// Reads the token cache: the cached token's secrets and its refresh token;
/// `InvalidTokenCache` when the text is not a token in JSON.
pub fn read_token_cache(text: &str) -> (r: Result<(TokenSecrets, String), AuthError>)
    requires
        refreshable_cache(text@),
    ensures
        match cached_token(text@) {
            Some((a, Some(rt))) => r matches Ok((t, s)) && t.access_token@ == a && (
            t.refresh_token matches Some(x) && x@ == rt) && s@ == rt,
            _ => r == Err::<(TokenSecrets, String), AuthError>(AuthError::InvalidTokenCache),
        },
{
    let cached = match parse_cached_token(text) {
        Some(t) => t,
        None => {
            return Err(AuthError::InvalidTokenCache);
        },
    };
    let refresh_token = cached_refresh_token(&cached);
    Ok((cached, refresh_token))
}

/// Reads the token cache whatever it holds: `InvalidTokenCache` when it is
/// not a token in JSON, `MissingRefreshToken` when the token has no refresh
/// token, and otherwise what `read_token_cache` reads.
pub fn try_read_token_cache(text: &str) -> (r: Result<(TokenSecrets, String), AuthError>)
    ensures
        match cached_token(text@) {
            None => r == Err::<(TokenSecrets, String), AuthError>(AuthError::InvalidTokenCache),
            Some((_, None)) => r == Err::<(TokenSecrets, String), AuthError>(
                AuthError::MissingRefreshToken,
            ),
            Some((a, Some(rt))) => r matches Ok((t, s)) && t.access_token@ == a && (
            t.refresh_token matches Some(x) && x@ == rt) && s@ == rt,
        },
{
    match parse_cached_token(text) {
        None => Err(AuthError::InvalidTokenCache),
        Some(t) => {
            if t.refresh_token.is_none() {
                Err(AuthError::MissingRefreshToken)
            } else {
                read_token_cache(text)
            }
        },
    }
}

} // verus!
