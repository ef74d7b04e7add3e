use aes::cipher::{KeyIvInit, StreamCipher};
use base64::Engine;
use sha2::Digest;

use nexus_tui::json::Json;
use nexus_tui::player::cipher::try_hex_decipher;
use nexus_tui::player::decrypt::{decipher_tobeparsed, extract_json_from_decrypted, PAYLOAD_SECRET};
use nexus_tui::player::links::{
    finish_links, master_playlist, parse_master_playlist, provider_links, provider_url,
};
use nexus_tui::player::mpv::{
    skip_picks,
    checkpoint_due, mpv_base_args, needs_referer, normalize_stream_url, skip_flags,
    watch_later_start,
};
use nexus_tui::player::select::{choose_link, resolution_key, select_index, sort_links};
use nexus_tui::player::sources::{available_episodes, collect_providers, episode_payload};
use nexus_tui::player::{decipher_hex_pair, expand_wixmp, extract_between, hex_decipher};

fn link(res: &str, url: &str, refr: Option<&str>) -> (String, String, Option<String>) {
    (res.to_string(), url.to_string(), refr.map(|r| r.to_string()))
}

fn s(t: &str) -> Json {
    Json::Str(t.to_string())
}

fn obj(members: Vec<(&str, Json)>) -> Json {
    Json::Object(members.into_iter().map(|(k, v)| (k.to_string(), v)).collect())
}

#[test]
fn hex_decipher_decodes_paths_and_points_clock_at_json() {
    assert_eq!(hex_decipher("175b54575b53"), "/clock.json");
    assert_eq!(hex_decipher("7a0e"), "B6");
    assert_eq!(hex_decipher("7a0"), "B");
    assert_eq!(hex_decipher("zz7a"), "B");
    assert_eq!(hex_decipher(""), "");
}

#[test]
fn try_hex_decipher_refuses_pairs_that_split_characters() {
    assert_eq!(try_hex_decipher("7a"), Some("B".to_string()));
    assert_eq!(try_hex_decipher("aé"), None);
    assert_eq!(try_hex_decipher("éa"), Some(String::new()));
}

#[test]
fn decipher_hex_pair_uses_the_older_table() {
    assert_eq!(decipher_hex_pair("79"), 'A');
    assert_eq!(decipher_hex_pair("2f"), '/');
    assert_eq!(decipher_hex_pair("00"), '\0');
    assert_eq!(decipher_hex_pair("zz"), '?');
}

#[test]
fn extract_between_finds_the_first_delimited_text() {
    assert_eq!(extract_between("a=[x][y]", "[", "]"), Some("x"));
    assert_eq!(extract_between("a=[x", "[", "]"), None);
    assert_eq!(extract_between("abc", "<", ">"), None);
    assert_eq!(extract_between("\"k\":\"é\"", "\"k\":\"", "\""), Some("é"));
}

#[test]
fn expand_wixmp_lists_one_link_per_resolution() {
    let url = "https://repackager.wixmp.com/video.wixstatic.com/video/abc/,480p,720p,/mp4/file.mp4.urlset/master.m3u8";
    assert_eq!(
        expand_wixmp(url),
        vec![
            link("480p", "https://video.wixstatic.com/video/abc/480p/mp4/file.mp4", None),
            link("720p", "https://video.wixstatic.com/video/abc/720p/mp4/file.mp4", None),
        ]
    );
    assert!(expand_wixmp("https://example.com/plain.mp4").is_empty());
}

#[test]
fn provider_links_reads_records_and_unescapes_slashes() {
    let response = r#"{"links":[{"link":"https:\/\/cdn.example\/ep1-720.mp4","resolutionStr":"720p"},{"link":"https:\u002F\u002Fcdn.example\u002Fep1-1080.mp4","resolutionStr":"1080p"},{"link":"ftp:\/\/x","resolutionStr":"1p"}]}"#;
    let (links, refr) = provider_links(response);
    assert_eq!(
        links,
        vec![
            link("720p", "https://cdn.example/ep1-720.mp4", None),
            link("1080p", "https://cdn.example/ep1-1080.mp4", None),
        ]
    );
    assert_eq!(refr, None);
}

#[test]
fn provider_links_takes_english_hls_with_the_referer() {
    let response = r#"{"Referer":"https://ref.example/"},{"hls":true,"hardsub_lang":"en-US","url":"https:\/\/hls.example\/master.m3u8"},{"hls":true,"hardsub_lang":"ja-JP","url":"https:\/\/hls.example\/ja.m3u8"}"#;
    let (links, refr) = provider_links(response);
    assert_eq!(refr, Some("https://ref.example/".to_string()));
    assert_eq!(
        links,
        vec![link("1080p", "https://hls.example/master.m3u8", Some("https://ref.example/"))]
    );
    assert_eq!(master_playlist(&links), Some("https://hls.example/master.m3u8".to_string()));
}

#[test]
fn provider_url_completes_relative_paths() {
    assert_eq!(provider_url("/apivtwo/clock.json?id=1"), "https://allanime.day/apivtwo/clock.json?id=1");
    assert_eq!(provider_url("https://tools.fast4speed.rsvp/x"), "https://tools.fast4speed.rsvp/x");
}

#[test]
fn finish_links_falls_back_to_the_fast4speed_url() {
    let url = "https://tools.fast4speed.rsvp/media/1.mp4";
    assert_eq!(
        finish_links(url, Vec::new()),
        vec![link("Yt", url, Some("https://allmanga.to"))]
    );
    let some = vec![link("720p", "https://a/b", None)];
    assert_eq!(finish_links(url, some.clone()), some);
    assert!(finish_links("https://other/x", Vec::new()).is_empty());
}

#[test]
fn master_playlists_become_links_sorted_by_resolution() {
    let body = "#EXTM3U\n#EXT-X-STREAM-INF:BANDWIDTH=800000,RESOLUTION=640x360\n360/index.m3u8\n#EXT-X-STREAM-INF:BANDWIDTH=2800000,RESOLUTION=1920x1080\nhttps://other.cdn/1080/index.m3u8\n";
    let links = parse_master_playlist("https://cdn.x/hls/master.m3u8", body, Some("https://r/"));
    assert_eq!(
        links,
        vec![
            link("1080p", "https://other.cdn/1080/index.m3u8", Some("https://r/")),
            link("360p", "https://cdn.x/hls/360/index.m3u8", Some("https://r/")),
        ]
    );
}

#[test]
fn resolution_keys_read_the_number_without_p() {
    assert_eq!(resolution_key("1080p"), 1080);
    assert_eq!(resolution_key("720"), 720);
    assert_eq!(resolution_key("unknown"), 0);
    assert_eq!(resolution_key(""), 0);
    assert_eq!(resolution_key("4294967296p"), 0);
    assert_eq!(resolution_key("+480p"), 480);
}

#[test]
fn sorting_is_by_descending_resolution_and_stable() {
    let links = vec![
        link("720p", "a", None),
        link("Yt", "y", None),
        link("1080p", "b", None),
        link("720p", "c", None),
    ];
    let sorted = sort_links(&links);
    assert_eq!(
        sorted,
        vec![link("1080p", "b", None), link("720p", "a", None), link("720p", "c", None), link("Yt", "y", None)]
    );
}

#[test]
fn quality_settings_choose_links() {
    let links = vec![
        link("720p", "a", None),
        link("1080p", "b", None),
        link("480p", "c", Some("ref")),
    ];
    assert_eq!(choose_link(&links, "best"), Some(("b".to_string(), None)));
    assert_eq!(choose_link(&links, "worst"), Some(("c".to_string(), Some("ref".to_string()))));
    assert_eq!(choose_link(&links, "720"), Some(("a".to_string(), None)));
    assert_eq!(choose_link(&links, "360"), Some(("b".to_string(), None)));
    assert_eq!(choose_link(&[], "best"), None);
    assert_eq!(select_index(&sort_links(&links), "480"), Some(2));
}

#[test]
fn providers_come_from_the_parsed_response() {
    let resp = obj(vec![(
        "data",
        obj(vec![(
            "episode",
            obj(vec![(
                "sourceUrls",
                Json::Array(vec![
                    obj(vec![("sourceName", s("Luf-mp4")), ("sourceUrl", s("--abc"))]),
                    obj(vec![("sourceName", s("S-mp4")), ("sourceUrl", s("https://plain"))]),
                    obj(vec![("sourceUrl", s("--def"))]),
                ]),
            )]),
        )]),
    )]);
    assert_eq!(episode_payload(&resp), None);
    assert_eq!(
        collect_providers("ignored", Some(&resp), None),
        vec![("Luf-mp4".to_string(), "abc".to_string())]
    );
}

#[test]
fn providers_come_from_the_decrypted_payload() {
    let resp = obj(vec![("data", obj(vec![("tobeparsed", s("AAAA"))]))]);
    assert_eq!(episode_payload(&resp), Some("AAAA".to_string()));
    let payload = obj(vec![(
        "episode",
        obj(vec![(
            "sourceUrls",
            Json::Array(vec![obj(vec![("sourceName", s("Default")), ("sourceUrl", s("--175b"))])]),
        )]),
    )]);
    assert_eq!(
        collect_providers("", Some(&resp), Some(&payload)),
        vec![("Default".to_string(), "175b".to_string())]
    );
    let bare = Json::Array(vec![obj(vec![("sourceName", s("Yt")), ("sourceUrl", s("--01"))])]);
    assert_eq!(
        collect_providers("", Some(&resp), Some(&bare)),
        vec![("Yt".to_string(), "01".to_string())]
    );
}

#[test]
fn providers_are_scanned_out_of_unparsed_text() {
    let text = r#"{"data":{"episode":{"sourceUrls":[{"sourceUrl":"--175b54\u002F","sourceName":"Default"},{"sourceUrl":"https://x","sourceName":"Raw"}]}}}"#;
    assert_eq!(
        collect_providers(text, None, None),
        vec![("Default".to_string(), "175b54/".to_string())]
    );
    assert!(collect_providers("nothing here", None, None).is_empty());
}

#[test]
fn episode_lists_keep_the_strings_of_the_mode() {
    let resp = obj(vec![(
        "data",
        obj(vec![(
            "show",
            obj(vec![(
                "availableEpisodesDetail",
                obj(vec![
                    ("sub", Json::Array(vec![s("2"), s("1"), Json::Number("3".to_string())])),
                    ("dub", Json::Array(vec![s("1")])),
                ]),
            )]),
        )]),
    )]);
    assert_eq!(available_episodes(&resp, "sub"), vec!["2".to_string(), "1".to_string()]);
    assert_eq!(available_episodes(&resp, "dub"), vec!["1".to_string()]);
    assert!(available_episodes(&resp, "raw").is_empty());
}

fn encrypt_payload(plain: &[u8]) -> String {
    let iv: [u8; 12] = [1, 2, 3, 4, 5, 6, 7, 8, 9, 10, 11, 12];
    let key = sha2::Sha256::digest(PAYLOAD_SECRET.as_bytes());
    let mut nonce = [0u8; 16];
    nonce[..12].copy_from_slice(&iv);
    nonce[15] = 2;
    let mut cipher = ctr::Ctr32BE::<aes::Aes256>::new(&key, &nonce.into());
    let mut data = plain.to_vec();
    cipher.apply_keystream(&mut data);
    let mut all = iv.to_vec();
    all.extend_from_slice(&data);
    base64::engine::general_purpose::STANDARD.encode(all)
}

#[test]
fn payloads_decrypt_to_their_json_document() {
    let json = br#"[{"sourceName":"Default","sourceUrl":"--17"}]"#;
    let mut plain = json.to_vec();
    plain.extend_from_slice(&[0xff, 0x00, 0x13]);
    let encoded = encrypt_payload(&plain);
    assert_eq!(
        decipher_tobeparsed(&encoded),
        Some(r#"[{"sourceName":"Default","sourceUrl":"--17"}]"#.to_string())
    );
}

#[test]
fn payloads_that_do_not_decode_give_nothing() {
    assert_eq!(decipher_tobeparsed("not base64!"), None);
    assert_eq!(decipher_tobeparsed("AAAA"), None);
    assert_eq!(decipher_tobeparsed(""), None);
}

#[test]
fn json_documents_are_found_in_decrypted_bytes() {
    assert_eq!(extract_json_from_decrypted(b"  {\"a\":1}  "), Some("{\"a\":1}".to_string()));
    assert_eq!(extract_json_from_decrypted(b"[1,2]xyz"), Some("[1,2]".to_string()));
    assert_eq!(
        extract_json_from_decrypted(b"\xff\xfe[1,2,3,4,5,6]"),
        Some("[1,2,3,4,5,6]".to_string())
    );
    assert_eq!(extract_json_from_decrypted(b"\xff\xfe[1]"), None);
    assert_eq!(extract_json_from_decrypted(b""), None);
}

#[test]
fn stream_urls_lose_doubled_schemes() {
    assert_eq!(normalize_stream_url("https://https://cdn/x.m3u8"), "https://cdn/x.m3u8");
    assert_eq!(normalize_stream_url("http://http://cdn/x"), "http://cdn/x");
    assert_eq!(normalize_stream_url("https://cdn/x"), "https://cdn/x");
}

#[test]
fn referers_are_sent_for_playlists_and_known_hosts() {
    assert!(needs_referer("https://tools.fast4speed.rsvp/a.mp4"));
    assert!(needs_referer("https://x/clock.json"));
    assert!(needs_referer("https://x/master.m3u8"));
    assert!(!needs_referer("https://x/a.mp4"));
}

#[test]
fn skip_settings_select_segments() {
    assert_eq!(skip_flags("both"), (true, true));
    assert_eq!(skip_flags("intro"), (true, false));
    assert_eq!(skip_flags("outro"), (false, true));
    assert_eq!(skip_flags("none"), (false, false));
}

#[test]
fn player_arguments_carry_tracking_and_headers() {
    let args = mpv_base_args("https://x/a.m3u8", "/tmp/w", "/tmp/s.sock", "UA");
    assert_eq!(
        args,
        vec![
            "https://x/a.m3u8".to_string(),
            "--save-position-on-quit".to_string(),
            "--watch-later-dir=/tmp/w".to_string(),
            "--watch-later-options=start".to_string(),
            "--input-ipc-server=/tmp/s.sock".to_string(),
            "--idle=no".to_string(),
            "--http-header-fields-append=User-Agent: UA".to_string(),
            "--http-header-fields-append=Referer: https://allmanga.to".to_string(),
        ]
    );
    assert_eq!(mpv_base_args("https://x/a.mp4", "w", "s", "UA").len(), 7);
}

#[test]
fn saved_positions_are_read_from_start_lines() {
    assert_eq!(watch_later_start("volume=100\nstart=842.123000\n"), Some("842.123000".to_string()));
    assert_eq!(watch_later_start("start= 12.5 \r\nstart=1"), Some("12.5".to_string()));
    assert_eq!(watch_later_start("volume=100\n"), None);
}

#[test]
fn checkpoints_come_every_thirty_seconds() {
    assert!(!checkpoint_due(29));
    assert!(checkpoint_due(30));
}

fn num(t: &str) -> Json {
    Json::Number(t.to_string())
}

fn skip(kind: &str, start: Json, end: Json) -> Json {
    obj(vec![("skipType", s(kind)), ("interval", obj(vec![("startTime", start), ("endTime", end)]))])
}

#[test]
fn skip_picks_take_the_first_complete_intro_and_outro() {
    let resp = obj(vec![
        ("found", Json::Bool(true)),
        (
            "results",
            Json::Array(vec![
                skip("recap", num("0"), num("10")),
                skip("op", Json::Null, num("90")),
                skip("mixed-op", num("30.5"), num("120.5")),
                skip("op", num("1"), num("2")),
                skip("ed", num("1300"), num("1390")),
            ]),
        ),
    ]);
    let (intro, outro) = skip_picks(&resp);
    assert_eq!(intro, Some(("30.5".to_string(), "120.5".to_string())));
    assert_eq!(outro, Some(("1300".to_string(), "1390".to_string())));
    let missing = obj(vec![("found", Json::Bool(false)), ("results", Json::Array(vec![skip("op", num("1"), num("2"))]))]);
    assert_eq!(skip_picks(&missing), (None, None));
    let not_array = obj(vec![("found", Json::Bool(true)), ("results", Json::Null)]);
    assert_eq!(skip_picks(&not_array), (None, None));
}
