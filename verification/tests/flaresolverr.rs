use nexus_tui::json::Json;
use nexus_tui::net::{
    jikan_search_url, mal_id_of,
    build_url, extract_domain, extract_json_from_html, fetch_step, looks_like_bot_challenge,
    solver_timeout, FetchAction, FetchReply, FetchStage,
};

#[test]
fn test_extract_domain() {
    assert_eq!(
        extract_domain("https://api.allanime.day/graphql"),
        "api.allanime.day"
    );
    assert_eq!(extract_domain("http://example.com/path"), "example.com");
}

#[test]
fn extract_domain_strips_repeated_schemes_and_keeps_bare_hosts() {
    assert_eq!(extract_domain("https://https://host.io/a/b"), "host.io");
    assert_eq!(extract_domain("example.org"), "example.org");
    assert_eq!(extract_domain(""), "");
}

#[test]
fn build_url_without_query_is_the_base() {
    assert_eq!(build_url("https://api.allanime.day/api", &[]), "https://api.allanime.day/api");
}

#[test]
fn build_url_percent_encodes_pairs() {
    let q = vec![
        ("variables".to_string(), "{\"showId\":\"a b\"}".to_string()),
        ("query".to_string(), "x-y_z.~".to_string()),
    ];
    assert_eq!(
        build_url("https://h/api", &q),
        "https://h/api?variables=%7B%22showId%22%3A%22a%20b%22%7D&query=x-y_z.~"
    );
}

#[test]
fn build_url_encodes_each_utf8_byte() {
    let q = vec![("q".to_string(), "é".to_string())];
    assert_eq!(build_url("b", &q), "b?q=%C3%A9");
}

#[test]
fn challenge_pages_are_recognised_case_insensitively() {
    assert!(looks_like_bot_challenge("<title>Just a Moment...</title>"));
    assert!(looks_like_bot_challenge("please complete the CAPTCHA"));
    assert!(looks_like_bot_challenge("/cdn-cgi/challenge-platform/h/b"));
    assert!(!looks_like_bot_challenge("{\"data\":{\"shows\":[]}}"));
}

#[test]
fn json_is_taken_out_of_pre_tags() {
    let page = "<html><head></head><body><pre>{\"a\":1}</pre></body></html>";
    assert_eq!(extract_json_from_html(page), "{\"a\":1}");
}

#[test]
fn json_is_taken_out_of_the_body_element() {
    let page = "  <html><body>\n {\"b\":2} \n</body></html>\n";
    assert_eq!(extract_json_from_html(page), "{\"b\":2}");
}

#[test]
fn plain_json_is_left_alone() {
    assert_eq!(extract_json_from_html(" {\"c\":3}"), " {\"c\":3}");
    assert_eq!(extract_json_from_html("<div>no json</div>"), "<div>no json</div>");
}

#[test]
fn solver_timeout_reads_the_setting() {
    assert_eq!(solver_timeout(Some("1234")), 1234);
    assert_eq!(solver_timeout(Some("+5")), 5);
    assert_eq!(solver_timeout(Some("abc")), 60000);
    assert_eq!(solver_timeout(Some("18446744073709551616")), 60000);
    assert_eq!(solver_timeout(None), 60000);
}

#[test]
fn fetch_tiers_retry_once_then_give_up() {
    let (s, a) = fetch_step(FetchStage::Start, None);
    assert!(matches!(a, FetchAction::CheckSolver));
    let (s, a) = fetch_step(s, Some(FetchReply::SolverUp(true)));
    assert_eq!(s, FetchStage::WithCookies);
    assert!(matches!(a, FetchAction::FetchWithCookies));
    let (s, a) = fetch_step(s, Some(FetchReply::Page("Just a moment".to_string())));
    assert_eq!(s, FetchStage::Fresh);
    assert!(matches!(a, FetchAction::FetchFresh));
    let (_, a) = fetch_step(s, Some(FetchReply::Page("captcha".to_string())));
    assert!(matches!(a, FetchAction::GiveUp));
}

#[test]
fn fetch_answers_clean_pages_and_falls_back_to_the_browser() {
    let (_, a) = fetch_step(FetchStage::WithCookies, Some(FetchReply::Page("<pre>[1]</pre>".to_string())));
    match a {
        FetchAction::Answer(t) => assert_eq!(t, "[1]"),
        _ => panic!("expected an answer"),
    }
    let (_, a) = fetch_step(FetchStage::Start, Some(FetchReply::SolverUp(false)));
    assert!(matches!(a, FetchAction::UseBrowser));
    let (_, a) = fetch_step(FetchStage::WithCookies, Some(FetchReply::Failed));
    assert!(matches!(a, FetchAction::GiveUp));
}

#[test]
fn jikan_searches_encode_the_title() {
    assert_eq!(
        jikan_search_url("Spy x Family!"),
        "https://api.jikan.moe/v4/anime?q=Spy%20x%20Family%21&limit=1&sfw=false"
    );
}

#[test]
fn mal_ids_come_from_the_first_search_result() {
    let reply = |id: Json| {
        Json::Object(vec![(
            "data".to_string(),
            Json::Array(vec![Json::Object(vec![("mal_id".to_string(), id)])]),
        )])
    };
    assert_eq!(mal_id_of(&reply(Json::Number("16498".to_string()))), Some(16498));
    assert_eq!(mal_id_of(&reply(Json::Number("4294967297".to_string()))), Some(1));
    assert_eq!(mal_id_of(&reply(Json::Number("-3".to_string()))), None);
    assert_eq!(mal_id_of(&reply(Json::Number("2.5".to_string()))), None);
    assert_eq!(mal_id_of(&reply(Json::Str("7".to_string()))), None);
    assert_eq!(mal_id_of(&Json::Object(vec![("data".to_string(), Json::Array(vec![]))])), None);
}
