use uds::cli::{exit_code, select_command, CliError, Command};
use uds::token::{
    cached_refresh_token, check_cache, check_credentials, check_state, extract_from_url,
    find_value, parse_redirect_request, query_parameter, read_redirect_request, read_token_cache,
    redirect_response, request_target, state_matches, try_read_token_cache, AuthError,
    CacheUpdate, RedirectParams, TokenSecrets, REDIRECT_MESSAGE,
};

#[test]
fn url_parameters() {
    let url = "http://localhost/?code=4%2F0Ab&state=xyz+1&code=other";
    assert_eq!(extract_from_url(url, "code"), Ok("4/0Ab".to_string()));
    assert_eq!(extract_from_url(url, "state"), Ok("xyz 1".to_string()));
    assert_eq!(extract_from_url("not a url", "code"), Err(AuthError::InvalidUrl));
    assert_eq!(query_parameter(url, "code"), Ok(Some("4/0Ab".to_string())));
    assert_eq!(query_parameter(url, "scope"), Ok(None));
    assert_eq!(query_parameter("http://localhost/", "code"), Ok(None));
    assert_eq!(query_parameter("not a url", "code"), Err(AuthError::InvalidUrl));
}

#[test]
fn first_value_of_pairs() {
    let pairs = vec![
        ("a".to_string(), "1".to_string()),
        ("b".to_string(), "2".to_string()),
        ("a".to_string(), "3".to_string()),
    ];
    assert_eq!(find_value(&pairs, "a"), Some("1".to_string()));
    assert_eq!(find_value(&pairs, "b"), Some("2".to_string()));
    assert_eq!(find_value(&pairs, "c"), None);
    assert_eq!(find_value(&Vec::new(), "a"), None);
}

#[test]
fn request_targets() {
    assert_eq!(request_target("GET /x HTTP/1.1\r\n"), Some("/x".to_string()));
    assert_eq!(request_target("GET"), None);
    assert_eq!(request_target(""), None);
}

#[test]
fn redirect_accepted() {
    let p = parse_redirect_request("GET /?state=abc&code=xyz HTTP/1.1\r\n").unwrap();
    assert_eq!(p.code, "xyz");
    assert_eq!(p.state, "abc");
    assert!(state_matches(&p, "abc"));
    assert_eq!(check_state(p, "abc"), "xyz");
    let q = read_redirect_request("GET /?state=abc&code=xyz HTTP/1.1\r\n").unwrap();
    assert_eq!(q.code, "xyz");
    assert_eq!(q.state, "abc");
    assert_eq!(
        parse_redirect_request("GET :99999/?code=a&state=b HTTP/1.1").unwrap_err(),
        AuthError::InvalidUrl
    );
}

#[test]
fn redirect_errors() {
    assert_eq!(read_redirect_request("GET\r\n").unwrap_err(), AuthError::MissingRequestTarget);
    assert_eq!(
        read_redirect_request("GET /?state=abc HTTP/1.1").unwrap_err(),
        AuthError::MissingParameter("code".to_string())
    );
    assert_eq!(
        read_redirect_request("GET /?code=abc HTTP/1.1").unwrap_err(),
        AuthError::MissingParameter("state".to_string())
    );
    assert_eq!(
        read_redirect_request("GET :99999/?code=a HTTP/1.1").unwrap_err(),
        AuthError::InvalidUrl
    );
}

#[test]
fn state_mismatch_is_refused() {
    let p = RedirectParams { code: "c".to_string(), state: "forged".to_string() };
    assert!(!state_matches(&p, "expected"));
}

#[test]
fn redirect_page() {
    assert_eq!(
        redirect_response(REDIRECT_MESSAGE),
        "HTTP/1.1 200 OK\r\ncontent-length: 27\r\n\r\nGo back to your terminal :)"
    );
    assert_eq!(redirect_response("é"), "HTTP/1.1 200 OK\r\ncontent-length: 2\r\n\r\né");
}

#[test]
fn refresh_decisions() {
    let cached = TokenSecrets { access_token: "old".to_string(), refresh_token: Some("r".to_string()) };
    assert_eq!(cached_refresh_token(&cached), "r");

    let fresh = TokenSecrets { access_token: "new".to_string(), refresh_token: None };
    match check_cache(&cached, "r".to_string(), fresh) {
        CacheUpdate::StoreFresh(t) => {
            assert_eq!(t.access_token, "new");
            assert_eq!(t.refresh_token, Some("r".to_string()));
        }
        CacheUpdate::KeepCached => panic!("fresh token not stored"),
    }
    let same = TokenSecrets { access_token: "old".to_string(), refresh_token: None };
    assert!(matches!(check_cache(&cached, "r".to_string(), same), CacheUpdate::KeepCached));
}

#[test]
fn commands() {
    let files = vec!["a".to_string(), "b".to_string()];
    assert_eq!(select_command("upload", Some(files.clone())), Ok(Command::Upload(files.clone())));
    assert_eq!(select_command("download", Some(files.clone())), Ok(Command::Download(files)));
    assert_eq!(select_command("upload", None), Err(CliError::NoFileArgument));
    assert_eq!(select_command("download", None), Err(CliError::NoFileArgument));
    assert_eq!(select_command("list", None), Ok(Command::List));
    assert_eq!(select_command("", None), Ok(Command::NoSubcommand));
    assert_eq!(
        select_command("other", None),
        Err(CliError::UnknownSubcommand("other".to_string()))
    );
    assert_eq!(CliError::NoFileArgument.message(), "No file argument found");
}

#[test]
fn exit_codes() {
    assert_eq!(exit_code::<String>(&Ok(true)), 0);
    assert_eq!(exit_code::<String>(&Ok(false)), 1);
    assert_eq!(exit_code::<String>(&Err("e".to_string())), 1);
}

#[test]
fn credentials_must_be_json() {
    assert!(check_credentials("{\"installed\":{\"client_id\":\"x\"}}"));
    assert!(check_credentials("[]"));
    assert!(!check_credentials("client_id=x"));
    assert!(!check_credentials(""));
}

#[test]
fn token_cache_reading() {
    let (t, r) = read_token_cache(
        "{\"access_token\":\"acc\",\"token_type\":\"bearer\",\"refresh_token\":\"ref\"}",
    )
    .unwrap();
    assert_eq!(t.access_token, "acc");
    assert_eq!(t.refresh_token, Some("ref".to_string()));
    assert_eq!(r, "ref");
    assert_eq!(
        try_read_token_cache("{\"access_token\":\"acc\",\"token_type\":\"bearer\"}").unwrap_err(),
        AuthError::MissingRefreshToken
    );
    assert_eq!(try_read_token_cache("not json").unwrap_err(), AuthError::InvalidTokenCache);
    assert_eq!(read_token_cache("not json").unwrap_err(), AuthError::InvalidTokenCache);
    let (t2, r2) = try_read_token_cache(
        "{\"access_token\":\"acc\",\"token_type\":\"bearer\",\"refresh_token\":\"ref\"}",
    )
    .unwrap();
    assert_eq!(t2.access_token, "acc");
    assert_eq!(r2, "ref");
}
