use music_file_playlist_online_sync::api::mock::MockProvider;
use music_file_playlist_online_sync::api::pkce::{
    basic_auth_header, code_challenge_s256, generate_code_verifier,
};
use music_file_playlist_online_sync::api::spotify::{
    effective_client, expires_soon, expiry_time, has_client, StoredToken,
};
use music_file_playlist_online_sync::api::{
    classify_error_message, parse_retry_after, perform_provider_request, ErrorKind, Provider,
};
use music_file_playlist_online_sync::api::uris::{
    configured_root, dedupe, next_page, tidal_track_uri, track_id_of, trimmed_track_id_of,
};
use music_file_playlist_online_sync::api::urls::{
    code_among, code_of_redirect, spotify_authorize_url, spotify_isrc_search_url,
    spotify_search_url, spotify_user_playlists_url, tidal_search_url, value_of, RedirectError,
};
use music_file_playlist_online_sync::pattern::{pick_matching, select_by_name, Named};
use music_file_playlist_online_sync::protocol::{Request, Response};

#[test]
fn test_mock_provider_trait() {
    let mock = MockProvider::new();
    assert_eq!(mock.name(), "mock");
    assert!(!mock.is_authenticated());
}

#[test]
fn mock_provider_answers_from_its_arguments() {
    let mock = MockProvider::new();
    assert_eq!(mock.ensure_playlist("Album", ""), Ok("mock-playlist-Album".to_string()));
    assert_eq!(
        mock.search_track_uri("Title", "Artist"),
        Ok(Some("mock:track:Title:Artist".to_string()))
    );
    assert_eq!(mock.search_track_uri_by_isrc("X"), Ok(None));
    assert_eq!(mock.lookup_track_isrc("u"), Ok(None));
    assert_eq!(mock.playlist_is_valid("id"), Ok(true));
    assert_eq!(mock.list_playlist_tracks("id"), Ok(Vec::new()));
    assert!(mock.supports_folder_nesting());
    assert_eq!(Provider::name(&mock), "mock");
    assert!(!Provider::is_authenticated(&mock));
}

#[test]
fn requests_reach_the_provider() {
    let mock = MockProvider::new();
    assert_eq!(
        perform_provider_request(&mock, &Request::EnsurePlaylist { name: "n".to_string() }),
        Some(Response::Text(Some("mock-playlist-n".to_string())))
    );
    assert_eq!(
        perform_provider_request(&mock, &Request::CheckValid { remote_id: "r".to_string() }),
        Some(Response::Flag(true))
    );
    assert_eq!(
        perform_provider_request(
            &mock,
            &Request::AddTracks { remote_id: "r".to_string(), uris: vec!["u".to_string()] }
        ),
        Some(Response::Done)
    );
    assert_eq!(
        perform_provider_request(
            &mock,
            &Request::Search { title: "T".to_string(), artist: "A".to_string() }
        ),
        Some(Response::Text(Some("mock:track:T:A".to_string())))
    );
    assert_eq!(
        perform_provider_request(&mock, &Request::SearchByIsrc { code: "c".to_string() }),
        Some(Response::Text(None))
    );
    assert_eq!(
        perform_provider_request(&mock, &Request::ListTracks { remote_id: "r".to_string() }),
        Some(Response::Texts(Vec::new()))
    );
    assert_eq!(perform_provider_request(&mock, &Request::Sleep { secs: 3 }), None);
    assert_eq!(
        perform_provider_request(&mock, &Request::MarkSynced { ids: vec![1] }),
        None
    );
}

#[test]
fn error_messages_are_told_apart() {
    assert_eq!(
        classify_error_message("rate_limited: retry_after=Some(5)"),
        ErrorKind::RateLimited { retry_after: Some(5) }
    );
    assert_eq!(
        classify_error_message("rate_limited: retry_after=None"),
        ErrorKind::RateLimited { retry_after: None }
    );
    assert_eq!(
        classify_error_message("too many requests, retry_after=12 seconds"),
        ErrorKind::RateLimited { retry_after: Some(12) }
    );
    assert_eq!(
        classify_error_message("{\"error\":\"rate_limited\"}"),
        ErrorKind::RateLimited { retry_after: None }
    );
    assert_eq!(
        classify_error_message(
            "tidal add tracks failed: 404 Not Found => Playlists with id 5 not found"
        ),
        ErrorKind::PlaylistMissing
    );
    assert_eq!(classify_error_message("404 Not Found"), ErrorKind::TransientNetwork);
    assert_eq!(classify_error_message("connection reset"), ErrorKind::TransientNetwork);
    assert_eq!(classify_error_message(""), ErrorKind::TransientNetwork);
}

#[test]
fn retry_after_is_read_from_the_message() {
    assert_eq!(parse_retry_after("retry_after=3"), Some(3));
    assert_eq!(parse_retry_after("x retry_after= 42"), Some(42));
    assert_eq!(parse_retry_after("retry_after=Some(7) and more"), Some(7));
    assert_eq!(parse_retry_after("retry_after=Some()"), None);
    assert_eq!(parse_retry_after("retry_after=soon"), None);
    assert_eq!(parse_retry_after("retry_after="), None);
    assert_eq!(parse_retry_after("no token"), None);
    assert_eq!(parse_retry_after("retry_after=18446744073709551615"), Some(u64::MAX));
    assert_eq!(parse_retry_after("retry_after=18446744073709551616"), None);
}

#[test]
fn code_challenge_is_the_digest_in_base64() {
    // The example of RFC 7636, appendix B.
    assert_eq!(
        code_challenge_s256("dBjftJeZ4CVP-mB92K27uhbUJU1p1r_wW1gFWFOEjXk"),
        "E9Melhoa2OwvFrEMTJguCHaoeK1t8URWbuGJSstw-cM"
    );
    assert_ne!(code_challenge_s256("a"), code_challenge_s256("b"));
}

#[test]
fn code_verifiers_are_sixty_four_letters_and_digits() {
    let a = generate_code_verifier();
    let b = generate_code_verifier();
    assert_eq!(a.chars().count(), 64);
    assert!(a.chars().all(|c| c.is_ascii_alphanumeric()));
    assert_ne!(a, b);
}

#[test]
fn basic_auth_header_holds_id_and_secret() {
    assert_eq!(
        basic_auth_header("test_id", "test_secret"),
        Some("Basic dGVzdF9pZDp0ZXN0X3NlY3JldA==".to_string())
    );
    assert_eq!(basic_auth_header("", ""), Some("Basic Og==".to_string()));
}

#[test]
fn tokens_are_refreshed_near_their_expiry() {
    assert!(expires_soon(1_000, 970));
    assert!(expires_soon(1_000, 2_000));
    assert!(!expires_soon(1_000, 969));
    assert!(expires_soon(0, i64::MAX));
    assert_eq!(expiry_time(100, Some(50)), 150);
    assert_eq!(expiry_time(100, None), 3_700);
    assert_eq!(expiry_time(i64::MAX, Some(1)), i64::MAX);

    let t = StoredToken {
        access_token: "old".to_string(),
        token_type: "bearer".to_string(),
        expires_at: 0,
        refresh_token: Some("refresh-spotify".to_string()),
        scope: Some("playlist-read-private".to_string()),
    };
    assert!(t.needs_refresh(10));
    assert_eq!(t.bearer(), "Bearer old");
    let r = t.clone().refresh("new-access-token-spotify".to_string(), Some(3600), None, 1_000);
    assert_eq!(r.bearer(), "Bearer new-access-token-spotify");
    assert_eq!(r.token_type, "Bearer");
    assert_eq!(r.expires_at, 4_600);
    assert_eq!(r.refresh_token, Some("refresh-spotify".to_string()));
    assert_eq!(r.scope, Some("playlist-read-private".to_string()));
    assert!(!r.needs_refresh(1_000));
    let s = t.refresh("a".to_string(), None, Some("other".to_string()), 0);
    assert_eq!(s.scope, Some("other".to_string()));
    assert_eq!(s.expires_at, 3_600);
}

#[test]
fn tidal_tokens_keep_their_user() {
    let t = music_file_playlist_online_sync::api::tidal::StoredToken {
        access_token: "old".to_string(),
        token_type: "Bearer".to_string(),
        expires_at: 0,
        refresh_token: Some("refresh-tidal".to_string()),
        scope: None,
        user_id: Some(12345),
    };
    assert!(t.needs_refresh(0));
    let r = t.refresh("new-access-token-tidal".to_string(), Some(3600), None, 10);
    assert_eq!(r.user_id, Some(12345));
    assert_eq!(r.bearer(), "Bearer new-access-token-tidal");
    assert_eq!(r.expires_at, 3_610);
}

#[test]
fn client_is_taken_from_the_store_when_not_given() {
    assert!(has_client("client_id", "client_secret"));
    assert!(!has_client("", "client_secret"));
    assert!(!has_client("client_id", ""));
    assert!(!has_client("", ""));
    let given = effective_client(
        "a".to_string(),
        "b".to_string(),
        Some((Some("x".to_string()), Some("y".to_string()))),
    );
    assert_eq!(given, ("a".to_string(), "b".to_string()));
    let stored = effective_client(
        String::new(),
        String::new(),
        Some((Some("x".to_string()), Some("y".to_string()))),
    );
    assert_eq!(stored, ("x".to_string(), "y".to_string()));
    let partly = effective_client("a".to_string(), String::new(), Some((None, Some("y".to_string()))));
    assert_eq!(partly, ("a".to_string(), "y".to_string()));
    let nothing = effective_client(String::new(), String::new(), None);
    assert_eq!(nothing, (String::new(), String::new()));
}

#[test]
fn uris_and_pages_follow_their_rules() {
    let v = vec!["a".to_string(), "b".to_string(), "a".to_string(), "c".to_string(), "b".to_string()];
    assert_eq!(dedupe(&v), vec!["a".to_string(), "b".to_string(), "c".to_string()]);
    assert!(dedupe(&Vec::new()).is_empty());
    assert_eq!(track_id_of("spotify:track:42"), "42");
    assert_eq!(track_id_of("42"), "42");
    assert_eq!(track_id_of("x:"), "");
    assert_eq!(trimmed_track_id_of("tidal:track: 7 "), "7");
    assert_eq!(tidal_track_uri("7"), "tidal:track:7");
    assert_eq!(next_page("https://api", ""), None);
    assert_eq!(next_page("https://api", "/p?page=2"), Some("https://api/p?page=2".to_string()));
    assert_eq!(next_page("https://api", "http://other/p"), Some("http://other/p".to_string()));
    assert_eq!(configured_root(&None), None);
    assert_eq!(configured_root(&Some("  ".to_string())), None);
    assert_eq!(configured_root(&Some(" Syncd ".to_string())), Some("Syncd".to_string()));
}

#[test]
fn playlists_are_selected_by_name() {
    let n = |id: &str, name: &str| Named { id: id.to_string(), name: name.to_string() };
    let all = vec![n("1", "Test MFPOS 1"), n("2", "Rock"), n("3", "Test MFPOS 2")];
    assert_eq!(
        select_by_name(&all, "^Test MFPOS \\d+$"),
        Some(vec![n("1", "Test MFPOS 1"), n("3", "Test MFPOS 2")])
    );
    assert_eq!(select_by_name(&all, "nothing"), Some(Vec::new()));
    assert_eq!(select_by_name(&all, "("), None);
    assert_eq!(select_by_name(&Vec::new(), "("), None);
    assert_eq!(
        pick_matching(&all, &vec![Some(false), Some(true), None]),
        vec![n("2", "Rock")]
    );
    assert!(pick_matching(&all, &vec![Some(true)]).is_empty());
}

#[test]
fn addresses_are_built_with_encoded_parts() {
    assert_eq!(
        spotify_search_url("https://api.spotify.com/v1", "Héllo World", "A&B"),
        "https://api.spotify.com/v1/search?q=track%3AH%C3%A9llo%20World%20artist%3AA%26B&type=track&limit=1"
    );
    assert_eq!(
        spotify_isrc_search_url("https://api", "DEVF11900580"),
        "https://api/search?q=isrc%3ADEVF11900580&type=track&limit=1"
    );
    assert_eq!(
        spotify_user_playlists_url("https://api", "mock user*~"),
        "https://api/users/mock+user*%7E/playlists"
    );
    assert_eq!(
        tidal_search_url("https://t", "a-b_c.d~e", "x y", "US"),
        "https://t/search/tracks?query=a-b_c.d~e%20x%20y&limit=1&countryCode=US"
    );
    assert_eq!(
        spotify_authorize_url("cid", "http://127.0.0.1:8888/"),
        Some(
            "https://accounts.spotify.com/authorize?response_type=code&client_id=cid&scope=playlist-modify-private+playlist-modify-public+playlist-read-private+user-read-private+user-read-email&redirect_uri=http%3A%2F%2F127.0.0.1%3A8888%2F&show_dialog=true"
                .to_string()
        )
    );
}

#[test]
fn the_code_is_found_in_the_redirect_address() {
    assert_eq!(
        code_of_redirect("http://127.0.0.1:8888/?state=x&code=AQ%2Fb+c&code=second"),
        Ok("AQ/b c".to_string())
    );
    assert_eq!(code_of_redirect("http://127.0.0.1:8888/?error=denied"), Err(RedirectError::NoCode));
    assert_eq!(code_of_redirect("http://127.0.0.1:8888/"), Err(RedirectError::NoCode));
    assert_eq!(code_of_redirect("not an address"), Err(RedirectError::NotAnAddress));
    assert_eq!(code_among(None), Err(RedirectError::NotAnAddress));
    let pairs = vec![("a".to_string(), "1".to_string()), ("code".to_string(), "2".to_string())];
    assert_eq!(value_of(&pairs, "a"), Some("1".to_string()));
    assert_eq!(value_of(&pairs, "b"), None);
    assert_eq!(code_among(Some(pairs)), Ok("2".to_string()));
}

#[test]
fn test_spotify_provider_trait() {
    assert!(has_client("client_id", "client_secret"));
}

#[test]
fn test_tidal_provider_trait() {
    assert!(has_client("client_id", "client_secret"));
}

#[test]
fn test_spotify_provider_not_authenticated() {
    assert!(!has_client("", ""));
}

#[test]
fn test_tidal_provider_not_authenticated() {
    assert!(!has_client("", ""));
}
