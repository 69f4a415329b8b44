use now_playing::client::{
    basic_auth_header, bearer_header, parse_port, resource_response_step, token_request_form,
    token_response_step, Config,
};
use now_playing::error::AppError;
use now_playing::models::{Album, Artist, CurrentlyPlaying, ExternalUrls, Image, NowPlayingResponse,
    Track};
use now_playing::normalize::{join_artists, normalize};
use now_playing::respond::{error_body, parse_now_playing, respond, to_json};

fn playing_payload() -> &'static str {
    "{\"is_playing\":true,\"item\":{\"name\":\"Song\",\"artists\":[{\"name\":\"A\"},{\"name\":\"B\"}],\"album\":{\"name\":\"Alb\",\"images\":[{\"url\":\"http://img\"}]},\"external_urls\":{\"spotify\":\"http://link\"}}}"
}

#[test]
fn token_success_yields_token() {
    let r = token_response_step(200, "{\"access_token\":\"T\"}");
    assert_eq!(r.unwrap().access_token, "T");
}

#[test]
fn token_refusal_is_auth_failure() {
    let r = token_response_step(401, "{\"error\":\"invalid_client\"}");
    assert_eq!(r.unwrap_err(), AppError::UpstreamAuthFailure);
}

#[test]
fn token_refusal_maps_to_bad_gateway_envelope() {
    let r = token_response_step(401, "");
    let (status, body) = respond(&r.map(|_| NowPlayingResponse::not_playing()));
    assert_eq!(status, 502);
    assert_eq!(body, "{\"error\":\"Failed to get access token\"}");
}

#[test]
fn token_body_without_token_is_protocol_error() {
    let r = token_response_step(200, "{\"token_type\":\"Bearer\"}");
    assert_eq!(r.unwrap_err(), AppError::UpstreamProtocolError);
}

#[test]
fn token_body_that_is_not_json_is_protocol_error() {
    let r = token_response_step(200, "definitely not json");
    assert_eq!(r.unwrap_err(), AppError::UpstreamProtocolError);
}

#[test]
fn no_content_is_not_playing() {
    let r = resource_response_step(204, "").unwrap();
    assert_eq!(r, NowPlayingResponse::not_playing());
    let (status, body) = respond(&Ok(r));
    assert_eq!(status, 200);
    assert_eq!(body, "{\"isPlaying\":false}");
}

#[test]
fn resource_refusal_is_fetch_failure() {
    let r = resource_response_step(503, "oops");
    assert_eq!(r.unwrap_err(), AppError::UpstreamFetchFailure);
    let (status, body) = respond(&resource_response_step(503, "oops"));
    assert_eq!(status, 502);
    assert_eq!(body, "{\"error\":\"Failed to get currently playing track\"}");
}

#[test]
fn resource_bad_body_is_protocol_error() {
    let r = resource_response_step(200, "{\"is_playing\":\"yes\"}");
    assert_eq!(r.unwrap_err(), AppError::UpstreamProtocolError);
}

#[test]
fn full_playing_scenario() {
    let token = token_response_step(200, "{\"access_token\":\"T\"}").unwrap();
    assert_eq!(bearer_header(&token.access_token), "Bearer T");
    let r = resource_response_step(200, playing_payload());
    let (status, body) = respond(&r);
    assert_eq!(status, 200);
    assert_eq!(
        body,
        "{\"isPlaying\":true,\"title\":\"Song\",\"artist\":\"A,B\",\"album\":\"Alb\",\"albumImageUrl\":\"http://img\",\"songUrl\":\"http://link\"}"
    );
}

#[test]
fn not_playing_flag_wins_over_other_fields() {
    let body = "{\"is_playing\":false,\"item\":{\"name\":\"Song\",\"artists\":[{\"name\":\"A\"}],\"album\":{\"name\":\"Alb\",\"images\":[]},\"external_urls\":{\"spotify\":\"u\"}}}";
    let r = resource_response_step(200, body).unwrap();
    assert_eq!(r, NowPlayingResponse::not_playing());
}

#[test]
fn missing_item_is_not_playing() {
    let r = resource_response_step(200, "{\"is_playing\":true}").unwrap();
    assert_eq!(r, NowPlayingResponse::not_playing());
    let r = resource_response_step(200, "{\"is_playing\":true,\"item\":null}").unwrap();
    assert_eq!(r, NowPlayingResponse::not_playing());
}

#[test]
fn artists_join_in_order() {
    let artists = vec![
        Artist { name: "A".to_string() },
        Artist { name: "B".to_string() },
        Artist { name: "C".to_string() },
    ];
    assert_eq!(join_artists(&artists), "A,B,C");
    assert_eq!(join_artists(&Vec::new()), "");
    assert_eq!(join_artists(&vec![Artist { name: "Solo".to_string() }]), "Solo");
}

#[test]
fn empty_image_list_omits_album_image_url() {
    let body = "{\"is_playing\":true,\"item\":{\"name\":\"Song\",\"artists\":[{\"name\":\"A\"}],\"album\":{\"name\":\"Alb\",\"images\":[]},\"external_urls\":{\"spotify\":\"u\"}}}";
    let r = resource_response_step(200, body).unwrap();
    assert_eq!(r.album_image_url, None);
    let text = to_json(&r);
    assert!(!text.contains("albumImageUrl"));
    assert!(!text.contains("null"));
}

#[test]
fn missing_album_and_link_degrade_to_absent() {
    let body = "{\"is_playing\":true,\"item\":{\"name\":\"Song\",\"artists\":[{\"name\":\"A\"}]}}";
    let r = resource_response_step(200, body).unwrap();
    assert_eq!(r.title.as_deref(), Some("Song"));
    assert_eq!(r.album, None);
    assert_eq!(r.album_image_url, None);
    assert_eq!(r.song_url, None);
    let text = to_json(&r);
    assert_eq!(text, "{\"isPlaying\":true,\"title\":\"Song\",\"artist\":\"A\"}");
}

#[test]
fn tolerates_extra_fields_and_whitespace() {
    let body = " {\n \"progress_ms\": 1234, \"is_playing\": true, \"currently_playing_type\": \"track\", \"item\": { \"name\": \"S\", \"artists\": [ {\"name\": \"A\", \"id\": \"x\"} ], \"duration_ms\": 9 } } ";
    let r = resource_response_step(200, body).unwrap();
    assert_eq!(r.title.as_deref(), Some("S"));
    assert_eq!(r.artist.as_deref(), Some("A"));
}

#[test]
fn short_escapes_in_upstream_strings_decode() {
    let body = "{\"is_playing\":true,\"item\":{\"name\":\"a\\nb\\t\\\"c\\\"\\\\d\\/e\",\"artists\":[]}}";
    let r = resource_response_step(200, body).unwrap();
    assert_eq!(r.title.as_deref(), Some("a\nb\t\"c\"\\d/e"));
    assert_eq!(r.artist.as_deref(), Some(""));
}

#[test]
fn unicode_escape_decodes_low_codes() {
    let body = "{\"is_playing\":true,\"item\":{\"name\":\"x\\u0009y\",\"artists\":[{\"name\":\"A\"}]}}";
    let r = resource_response_step(200, body).unwrap();
    assert_eq!(r.title.as_deref(), Some("x\ty"));
}

#[test]
fn unsupported_unicode_escape_is_protocol_error() {
    let body = "{\"is_playing\":true,\"item\":{\"name\":\"x\\uD800y\",\"artists\":[]}}";
    let r = resource_response_step(200, body);
    assert_eq!(r.unwrap_err(), AppError::UpstreamProtocolError);
}

#[test]
fn fractional_numbers_in_extra_fields_are_tolerated() {
    let body = "{\"is_playing\":false,\"loudness\":-1.5e-3,\"progress_ms\":0}";
    let r = resource_response_step(200, body).unwrap();
    assert_eq!(r, NowPlayingResponse::not_playing());
}

#[test]
fn normalize_matches_typed_payload() {
    let p = CurrentlyPlaying {
        is_playing: true,
        item: Some(Track {
            name: "Song".to_string(),
            artists: vec![Artist { name: "A".to_string() }, Artist { name: "B".to_string() }],
            album: Some(Album {
                name: "Alb".to_string(),
                images: vec![Image { url: "http://img".to_string() }],
            }),
            external_urls: Some(ExternalUrls { spotify: "http://link".to_string() }),
        }),
    };
    let r = normalize(&p);
    assert_eq!(r.title.as_deref(), Some("Song"));
    assert_eq!(r.artist.as_deref(), Some("A,B"));
    assert_eq!(r.album.as_deref(), Some("Alb"));
    assert_eq!(r.album_image_url.as_deref(), Some("http://img"));
    assert_eq!(r.song_url.as_deref(), Some("http://link"));
}

#[test]
fn serialize_parse_round_trip() {
    let full = NowPlayingResponse {
        is_playing: true,
        title: Some("A \"quoted\" title".to_string()),
        artist: Some("X,Y".to_string()),
        album: Some("Backslash \\ and\ttab".to_string()),
        album_image_url: Some("http://img".to_string()),
        song_url: Some("http://link".to_string()),
    };
    let text = to_json(&full);
    let back = parse_now_playing(&text).unwrap();
    assert_eq!(back, full);

    let bare = NowPlayingResponse::not_playing();
    let back = parse_now_playing(&to_json(&bare)).unwrap();
    assert_eq!(back, bare);
}

#[test]
fn serialized_output_is_json_for_an_independent_parser() {
    let full = NowPlayingResponse {
        is_playing: true,
        title: Some("Song \u{1} with control".to_string()),
        artist: Some("A,B".to_string()),
        album: None,
        album_image_url: None,
        song_url: Some("http://link".to_string()),
    };
    let text = to_json(&full);
    let v: serde_json::Value = serde_json::from_str(&text).unwrap();
    assert_eq!(v.get("isPlaying").and_then(|x| x.as_bool()), Some(true));
    assert_eq!(
        v.get("title").and_then(|x| x.as_str()),
        Some("Song \u{1} with control")
    );
    assert_eq!(v.get("artist").and_then(|x| x.as_str()), Some("A,B"));
    assert!(v.get("album").is_none());
    assert!(v.get("albumImageUrl").is_none());
    assert_eq!(v.get("songUrl").and_then(|x| x.as_str()), Some("http://link"));
}

#[test]
fn error_envelope_is_a_single_error_field() {
    let body = error_body(&AppError::TransportError("boom".to_string()));
    assert_eq!(body, "{\"error\":\"boom\"}");
    let (status, body) = respond(&Err(AppError::TransportError("connect timeout".to_string())));
    assert_eq!(status, 500);
    assert_eq!(body, "{\"error\":\"connect timeout\"}");
    let (status, _) = respond(&Err(AppError::ConfigurationError("missing".to_string())));
    assert_eq!(status, 500);
    let (status, _) = respond(&Err(AppError::UpstreamProtocolError));
    assert_eq!(status, 502);
}

#[test]
fn basic_auth_header_encodes_credentials() {
    assert_eq!(basic_auth_header("id", "secret"), "Basic aWQ6c2VjcmV0");
}

#[test]
fn token_request_form_is_a_refresh_grant() {
    let c = Config {
        spotify_client_id: "id".to_string(),
        spotify_client_secret: "secret".to_string(),
        spotify_refresh_token: "rt".to_string(),
        port: 8080,
    };
    let form = token_request_form(&c);
    assert_eq!(form.len(), 2);
    assert_eq!(form[0], ("grant_type".to_string(), "refresh_token".to_string()));
    assert_eq!(form[1], ("refresh_token".to_string(), "rt".to_string()));
}

#[test]
fn port_parsing() {
    assert_eq!(parse_port(None).unwrap(), 8080);
    assert_eq!(parse_port(Some("3000")).unwrap(), 3000);
    assert_eq!(parse_port(Some("65535")).unwrap(), 65535);
    assert!(parse_port(Some("")).is_err());
    assert!(parse_port(Some("abc")).is_err());
    assert!(parse_port(Some("-1")).is_err());
    assert!(parse_port(Some("70000")).is_err());
    match parse_port(Some("8x")).unwrap_err() {
        AppError::ConfigurationError(m) => assert_eq!(m, "PORT is not a valid port number"),
        other => panic!("unexpected error: {:?}", other),
    }
}
