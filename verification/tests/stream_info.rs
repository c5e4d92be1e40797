use rivulet_core::json::Json;
use rivulet_core::stream_info::{
    bearer, chat_info_platform, chat_info_platform_of_chat, endpoint_url, error_hint,
    kick_api_root, percent_encode, precheck, InfoCredentials, InfoEndpoints, InfoPlatform,
    InfoUpdateOutcome, StreamInfoUpdate,
};
use rivulet_core::chat::ChatPlatform;
use rivulet_core::stream_info_flow::{BodyValue, FlowStage, HttpRequest, InfoStep, StreamInfoFlow};

fn s(v: &str) -> Json {
    Json::Str(v.to_string())
}

fn obj(entries: Vec<(&str, Json)>) -> Json {
    Json::Object(entries.into_iter().map(|(k, v)| (k.to_string(), v)).collect())
}

fn twitch_credentials() -> InfoCredentials {
    InfoCredentials {
        token: "test-token".to_owned(),
        client_id: "test-client".to_owned(),
        broadcaster_id: "12345".to_owned(),
        video_id: String::new(),
    }
}

/// Runs an update against canned answers; returns the outcome and the
/// requests that were made.
fn run(
    platform: InfoPlatform,
    update: &StreamInfoUpdate,
    credentials: &InfoCredentials,
    endpoints: &InfoEndpoints,
    mut answers: Vec<(u16, Json)>,
) -> (InfoUpdateOutcome, Vec<HttpRequest>) {
    let (mut flow, mut step) =
        StreamInfoFlow::start(platform, update.clone(), credentials.clone(), endpoints.clone());
    let mut sent = Vec::new();
    loop {
        match step {
            InfoStep::Finished(outcome) => {
                assert_eq!(flow.stage(), FlowStage::Done);
                return (outcome, sent);
            }
            InfoStep::Send(request) => {
                sent.push(request);
                let answer = if answers.is_empty() {
                    (200, obj(vec![]))
                } else {
                    answers.remove(0)
                };
                step = flow.on_reply(Ok(answer));
            }
        }
    }
}

fn body_text<'a>(request: &'a HttpRequest, key: &str) -> Option<&'a BodyValue> {
    request
        .body
        .as_ref()
        .and_then(|b| b.iter().find(|(k, _)| *k == key).map(|(_, v)| v))
}

fn text(value: Option<&BodyValue>) -> Option<String> {
    match value {
        Some(BodyValue::Text(t)) => Some(t.clone()),
        _ => None,
    }
}

fn header<'a>(request: &'a HttpRequest, name: &str) -> Option<&'a str> {
    request
        .headers
        .iter()
        .find(|(k, _)| *k == name)
        .map(|(_, v)| v.as_str())
}

#[test]
fn empty_update_is_rejected_up_front() {
    let (outcome, sent) = run(
        InfoPlatform::Twitch,
        &StreamInfoUpdate::default(),
        &twitch_credentials(),
        &InfoEndpoints::default(),
        vec![],
    );
    assert!(!outcome.is_ok());
    assert!(sent.is_empty());
    match outcome {
        InfoUpdateOutcome::Failed(message) => {
            assert!(message.contains("nothing to update"), "{message}");
        }
        other => panic!("expected failure, got {other:?}"),
    }
}

#[test]
fn twitch_title_only_sends_patch_without_game_lookup() {
    let endpoints = InfoEndpoints {
        twitch_api_base: "http://127.0.0.1:9/".to_owned(),
        ..InfoEndpoints::default()
    };
    let update = StreamInfoUpdate {
        title: Some("Hello world".to_owned()),
        game: None,
    };
    let (outcome, requests) = run(
        InfoPlatform::Twitch,
        &update,
        &twitch_credentials(),
        &endpoints,
        vec![(200, obj(vec![("data", Json::Array(vec![]))]))],
    );
    assert_eq!(outcome, InfoUpdateOutcome::Updated, "outcome: {outcome:?}");
    assert_eq!(requests.len(), 1, "no game lookup for title-only update");
    let request = &requests[0];
    assert_eq!(request.method, "PATCH");
    assert_eq!(request.url, "http://127.0.0.1:9/channels");
    assert_eq!(text(body_text(request, "title")).as_deref(), Some("Hello world"));
    assert_eq!(text(body_text(request, "broadcaster_id")).as_deref(), Some("12345"));
    assert!(body_text(request, "game_id").is_none());
    assert_eq!(header(request, "Client-Id"), Some("test-client"));
    assert_eq!(header(request, "Authorization"), Some("Bearer test-token"));
    assert_eq!(header(request, "Content-Type"), Some("application/json"));
}

#[test]
fn twitch_game_resolved_via_games_lookup_then_patched() {
    let endpoints = InfoEndpoints {
        twitch_api_base: "http://puppet".to_owned(),
        ..InfoEndpoints::default()
    };
    let update = StreamInfoUpdate {
        title: None,
        game: Some("Valheim".to_owned()),
    };
    let (outcome, requests) = run(
        InfoPlatform::Twitch,
        &update,
        &twitch_credentials(),
        &endpoints,
        vec![
            (
                200,
                obj(vec![(
                    "data",
                    Json::Array(vec![obj(vec![("id", s("516575")), ("name", s("Valheim"))])]),
                )]),
            ),
            (200, obj(vec![("data", Json::Array(vec![]))])),
        ],
    );
    assert_eq!(outcome, InfoUpdateOutcome::Updated);
    assert_eq!(requests.len(), 2);
    assert!(requests[0].url.starts_with("http://puppet/games?name=Valheim"));
    assert_eq!(requests[0].method, "GET");
    assert_eq!(requests[1].method, "PATCH");
    assert_eq!(text(body_text(&requests[1], "game_id")).as_deref(), Some("516575"));
}

#[test]
fn twitch_unknown_game_is_reported_without_patch() {
    let endpoints = InfoEndpoints {
        twitch_api_base: "http://puppet".to_owned(),
        ..InfoEndpoints::default()
    };
    let update = StreamInfoUpdate {
        game: Some("Nonexistent Game 12345".to_owned()),
        ..Default::default()
    };
    let (outcome, requests) = run(
        InfoPlatform::Twitch,
        &update,
        &twitch_credentials(),
        &endpoints,
        vec![(200, obj(vec![("data", Json::Array(vec![]))]))],
    );
    match &outcome {
        InfoUpdateOutcome::Failed(message) => {
            assert!(message.contains("not found"), "{message}");
            assert_eq!(message, "Twitch: game \"Nonexistent Game 12345\" not found");
        }
        other => panic!("expected failure, got {other:?}"),
    }
    assert_eq!(requests.len(), 1, "no PATCH after failed lookup");
    assert_eq!(
        requests[0].url,
        "http://puppet/games?name=Nonexistent%20Game%2012345"
    );
}

#[test]
fn twitch_missing_token_fails_without_network() {
    let update = StreamInfoUpdate {
        title: Some("x".to_owned()),
        ..Default::default()
    };
    let (outcome, requests) = run(
        InfoPlatform::Twitch,
        &update,
        &InfoCredentials::default(),
        &InfoEndpoints::default(),
        vec![],
    );
    assert!(!outcome.is_ok());
    assert!(requests.is_empty());
}

#[test]
fn kick_sends_stream_title_and_resolved_category() {
    let endpoints = InfoEndpoints {
        kick_api_base: "http://puppet/public/v1".to_owned(),
        ..InfoEndpoints::default()
    };
    let update = StreamInfoUpdate {
        title: Some("Playing Rust".to_owned()),
        game: Some("Rust".to_owned()),
    };
    let credentials = InfoCredentials {
        token: "kick-token".to_owned(),
        ..Default::default()
    };
    let (outcome, requests) = run(
        InfoPlatform::Kick,
        &update,
        &credentials,
        &endpoints,
        vec![
            (
                200,
                obj(vec![(
                    "data",
                    Json::Array(vec![obj(vec![("id", Json::Int(101)), ("name", s("Rust"))])]),
                )]),
            ),
            (200, obj(vec![("data", Json::Array(vec![])), ("message", s("OK"))])),
        ],
    );
    assert_eq!(outcome, InfoUpdateOutcome::Updated);
    assert_eq!(requests.len(), 2);
    assert!(requests[0].url.starts_with("http://puppet/public/v2/categories?name=Rust"));
    assert_eq!(requests[1].method, "PATCH");
    assert!(requests[1].url.starts_with("http://puppet/public/v1/channels"));
    assert_eq!(text(body_text(&requests[1], "stream_title")).as_deref(), Some("Playing Rust"));
    assert!(matches!(body_text(&requests[1], "category_id"), Some(BodyValue::Int(101))));
    assert_eq!(header(&requests[1], "Authorization"), Some("Bearer kick-token"));
}

#[test]
fn youtube_sends_snippet_with_title_and_category() {
    let endpoints = InfoEndpoints {
        youtube_api_base: "http://puppet".to_owned(),
        ..InfoEndpoints::default()
    };
    let update = StreamInfoUpdate {
        title: Some("New title".to_owned()),
        game: Some("Gaming".to_owned()),
    };
    let credentials = InfoCredentials {
        token: "yt-token".to_owned(),
        video_id: "abc123".to_owned(),
        ..Default::default()
    };
    let categories = obj(vec![(
        "items",
        Json::Array(vec![
            obj(vec![("id", s("20")), ("snippet", obj(vec![("title", s("Gaming"))]))]),
            obj(vec![("id", s("22")), ("snippet", obj(vec![("title", s("People & Blogs"))]))]),
        ]),
    )]);
    let (outcome, requests) = run(
        InfoPlatform::YouTube,
        &update,
        &credentials,
        &endpoints,
        vec![(200, categories), (200, obj(vec![("id", s("abc123"))]))],
    );
    assert_eq!(outcome, InfoUpdateOutcome::Updated);
    assert_eq!(requests.len(), 2);
    assert!(requests[0]
        .url
        .starts_with("http://puppet/videoCategories?part=snippet&regionCode=US"));
    assert_eq!(requests[1].method, "PUT");
    assert!(requests[1].url.starts_with("http://puppet/videos?part=snippet"));
    match body_text(&requests[1], "snippet") {
        Some(BodyValue::Fields(fields)) => {
            assert!(fields.contains(&("title", "New title".to_owned())));
            assert!(fields.contains(&("categoryId", "20".to_owned())));
        }
        other => panic!("expected a snippet, got {other:?}"),
    }
    assert_eq!(text(body_text(&requests[1], "id")).as_deref(), Some("abc123"));
}

#[test]
fn youtube_category_only_update_keeps_the_current_title() {
    let endpoints = InfoEndpoints {
        youtube_api_base: "http://puppet/".to_owned(),
        ..InfoEndpoints::default()
    };
    let update = StreamInfoUpdate {
        title: None,
        game: Some("gaming".to_owned()),
    };
    let credentials = InfoCredentials {
        token: "yt-token".to_owned(),
        video_id: " abc123 ".to_owned(),
        ..Default::default()
    };
    let categories = obj(vec![(
        "items",
        Json::Array(vec![obj(vec![("id", s("20")), ("snippet", obj(vec![("title", s("Gaming"))]))])]),
    )]);
    let current = obj(vec![(
        "items",
        Json::Array(vec![obj(vec![("snippet", obj(vec![("title", s("Old title"))]))])]),
    )]);
    let (outcome, requests) = run(
        InfoPlatform::YouTube,
        &update,
        &credentials,
        &endpoints,
        vec![(200, categories), (200, current), (200, obj(vec![]))],
    );
    assert_eq!(outcome, InfoUpdateOutcome::Updated);
    assert_eq!(requests.len(), 3);
    assert_eq!(requests[1].url, "http://puppet/videos?part=snippet&id=abc123");
    match body_text(&requests[2], "snippet") {
        Some(BodyValue::Fields(fields)) => {
            assert_eq!(
                fields,
                &vec![("categoryId", "20".to_owned()), ("title", "Old title".to_owned())]
            );
        }
        other => panic!("expected a snippet, got {other:?}"),
    }
}

#[test]
fn update_all_reports_per_platform_and_continues_after_failure() {
    let endpoints = InfoEndpoints {
        twitch_api_base: "http://puppet".to_owned(),
        kick_api_base: "http://puppet/public/v1".to_owned(),
        ..InfoEndpoints::default()
    };
    let update = StreamInfoUpdate {
        title: Some("Joint title".to_owned()),
        game: Some("Rust".to_owned()),
    };
    let mut answers = vec![
        vec![(401, obj(vec![("message", s("invalid OAuth token"))]))],
        vec![
            (
                200,
                obj(vec![(
                    "data",
                    Json::Array(vec![obj(vec![("id", Json::Int(101)), ("name", s("Rust"))])]),
                )]),
            ),
            (200, obj(vec![("data", Json::Array(vec![])), ("message", s("OK"))])),
        ],
    ];
    let mut results = Vec::new();
    for platform in [InfoPlatform::Twitch, InfoPlatform::Kick] {
        let credentials = match platform {
            InfoPlatform::Twitch => twitch_credentials(),
            InfoPlatform::Kick => InfoCredentials {
                token: "kick-token".to_owned(),
                ..Default::default()
            },
            InfoPlatform::YouTube => InfoCredentials::default(),
        };
        let (outcome, _) = run(platform, &update, &credentials, &endpoints, answers.remove(0));
        results.push((platform, outcome));
    }
    assert_eq!(results.len(), 2);
    assert!(!results[0].1.is_ok(), "Twitch must fail (401 on lookup)");
    assert!(results[1].1.is_ok(), "Kick must still succeed");
    match &results[0].1 {
        InfoUpdateOutcome::Failed(message) => {
            assert!(message.starts_with("Twitch:"), "{message}");
            assert!(!message.contains("test-token"), "no tokens in errors");
            assert_eq!(message, "Twitch: game lookup rejected (HTTP 401)");
        }
        other => panic!("expected failure, got {other:?}"),
    }
}

#[test]
fn error_messages_never_contain_tokens() {
    let endpoints = InfoEndpoints {
        twitch_api_base: "http://puppet".to_owned(),
        ..InfoEndpoints::default()
    };
    let update = StreamInfoUpdate {
        title: Some("t".to_owned()),
        ..Default::default()
    };
    let credentials = InfoCredentials {
        token: "super-secret-token-value".to_owned(),
        ..twitch_credentials()
    };
    let (outcome, _) = run(
        InfoPlatform::Twitch,
        &update,
        &credentials,
        &endpoints,
        vec![(403, obj(vec![("message", s("missing scope"))]))],
    );
    match outcome {
        InfoUpdateOutcome::Failed(message) => {
            assert!(!message.contains("super-secret-token-value"));
            assert_eq!(message, "Twitch: update rejected (HTTP 403, \"missing scope\")");
        }
        other => panic!("expected failure, got {other:?}"),
    }
}

#[test]
fn transport_failures_name_the_platform_and_stage() {
    let update = StreamInfoUpdate {
        title: Some("t".to_owned()),
        game: Some("g".to_owned()),
    };
    let credentials = InfoCredentials {
        token: "kick-token".to_owned(),
        ..Default::default()
    };
    let (mut flow, step) = StreamInfoFlow::start(
        InfoPlatform::Kick,
        update,
        credentials,
        InfoEndpoints::default(),
    );
    assert!(matches!(step, InfoStep::Send(_)));
    match flow.on_reply(Err("connection refused".to_owned())) {
        InfoStep::Finished(InfoUpdateOutcome::Failed(m)) => {
            assert_eq!(m, "Kick: category lookup failed: connection refused")
        }
        other => panic!("unexpected {other:?}"),
    }
}

#[test]
fn rejected_write_without_detail_says_so() {
    let update = StreamInfoUpdate {
        title: Some("t".to_owned()),
        game: None,
    };
    let credentials = InfoCredentials {
        token: "tok".to_owned(),
        video_id: "vid".to_owned(),
        ..Default::default()
    };
    let (outcome, _) = run(
        InfoPlatform::YouTube,
        &update,
        &credentials,
        &InfoEndpoints::default(),
        vec![(500, Json::Null)],
    );
    assert_eq!(
        outcome,
        InfoUpdateOutcome::Failed("YouTube: update rejected (HTTP 500, no detail)".to_owned())
    );
}

#[test]
fn helpers_build_addresses_headers_and_hints() {
    assert_eq!(endpoint_url("https://api.twitch.tv/helix//", "/channels"), "https://api.twitch.tv/helix/channels");
    assert_eq!(kick_api_root("https://api.kick.com/public/v1/"), "https://api.kick.com/public");
    assert_eq!(bearer("  abc "), "Bearer abc");
    assert_eq!(percent_encode("a b&c~ä"), "a%20b%26c~%C3%A4");
    assert_eq!(error_hint(None), "no detail");
    assert_eq!(error_hint(Some("bad")), "\"bad\"");
    let long = "x".repeat(130);
    assert_eq!(error_hint(Some(&long)), format!("\"{}\"", "x".repeat(120)));
}

#[test]
fn precheck_reports_missing_credentials_per_platform() {
    let update = StreamInfoUpdate {
        title: Some("t".to_owned()),
        game: None,
    };
    let mut credentials = twitch_credentials();
    assert_eq!(precheck(InfoPlatform::Twitch, &update, &credentials), None);
    credentials.client_id = "  ".to_owned();
    assert_eq!(
        precheck(InfoPlatform::Twitch, &update, &credentials),
        Some(InfoUpdateOutcome::Failed(
            "Twitch: no application client ID configured (EventSub settings)".to_owned()
        ))
    );
    assert_eq!(
        precheck(InfoPlatform::YouTube, &update, &credentials),
        Some(InfoUpdateOutcome::Failed(
            "YouTube: the chat account channel field must hold the live video ID to update its title"
                .to_owned()
        ))
    );
    assert_eq!(precheck(InfoPlatform::Kick, &update, &credentials), None);
}

#[test]
fn platform_mappings_round_trip() {
    for chat in [ChatPlatform::Twitch, ChatPlatform::Kick, ChatPlatform::YouTube] {
        let info = chat_info_platform_of_chat(chat).expect("every chat platform maps");
        assert_eq!(chat_info_platform(info), chat);
    }
    assert_eq!(InfoPlatform::all().map(|p| p.index()), [0, 1, 2]);
    assert_eq!(InfoPlatform::YouTube.label(), "YouTube");
}
