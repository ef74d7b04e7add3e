use nexus_tui::api::allanime::{strip_html, title_bonus, AllAnimeItem, RawDate, RawEpisodes, RawShow};
use nexus_tui::api::queries::{episode_vars, post_body, search_vars, show_vars};
use nexus_tui::api::{ContentItem, MediaType};
use nexus_tui::history::{episodes_cache_stale, total_for};

fn anime(sub: u32, dub: u32, english: Option<&str>) -> AllAnimeItem {
    AllAnimeItem {
        id: "abc".to_string(),
        mal_id: None,
        name: "Shingeki no Kyojin".to_string(),
        english_name: english.map(|e| e.to_string()),
        thumbnail: Some("https://img/x.jpg".to_string()),
        banner: None,
        episodes_sub: sub,
        episodes_dub: dub,
        year: Some(2013),
        status: Some("Finished".to_string()),
        description: None,
        genres: vec!["Action".to_string(), "Drama".to_string()],
        score_centi: Some(850),
        studios: Vec::new(),
        show_type: Some("TV".to_string()),
    }
}

#[test]
fn content_items_expose_their_fields() {
    let item = ContentItem::Anime(anime(25, 0, Some("Attack on Titan")));
    assert_eq!(item.id(), "abc");
    assert_eq!(item.title(), "Attack on Titan");
    assert_eq!(item.cover_url(), Some("https://img/x.jpg"));
    assert_eq!(item.synopsis(), "No synopsis available.");
    assert_eq!(item.year(), Some(2013));
    assert_eq!(item.genres(), vec!["Action", "Drama"]);
    assert_eq!(item.status(), Some("Finished"));
    assert_eq!(item.media_type(), MediaType::Anime);
    assert_eq!(item.source_badge(), "AllAnime");
    assert_eq!(item.score_centi(), Some(850));
    assert_eq!(MediaType::Anime.name(), "Anime");
}

#[test]
fn titles_fall_back_to_the_primary_name() {
    let item = ContentItem::Anime(anime(1, 0, None));
    assert_eq!(item.title(), "Shingeki no Kyojin");
}

#[test]
fn episode_labels_name_sub_and_dub_counts() {
    assert_eq!(ContentItem::Anime(anime(0, 0, None)).episodes_or_chapters(), None);
    assert_eq!(ContentItem::Anime(anime(12, 0, None)).episodes_or_chapters(), Some("12 eps (SUB)".to_string()));
    assert_eq!(ContentItem::Anime(anime(0, 3, None)).episodes_or_chapters(), Some("3 eps (DUB)".to_string()));
    assert_eq!(
        ContentItem::Anime(anime(25, 13, None)).episodes_or_chapters(),
        Some("25 eps (SUB) · 13 eps (DUB)".to_string())
    );
}

#[test]
fn html_descriptions_become_text() {
    assert_eq!(strip_html("<p>Tom &amp; Jerry<br></p>"), "Tom & Jerry");
    assert_eq!(strip_html("a &lt;b&gt; &quot;c&quot; &#039;d&#039; &#x2014; e"), "a <b> \"c\" 'd' — e");
    assert_eq!(strip_html("plain"), "plain");
}

#[test]
fn raw_records_become_items() {
    let raw = RawShow {
        id: "id1".to_string(),
        name: None,
        english_name: Some("E".to_string()),
        thumbnail: None,
        banner: None,
        available_episodes: Some(RawEpisodes { sub: Some(10), dub: None }),
        aired_start: Some(RawDate { year: Some(1999) }),
        status: None,
        description: Some("<i>Hi</i>".to_string()),
        genres: None,
        score_centi: None,
        studios: Some(vec!["S".to_string()]),
        show_type: None,
    };
    let item = AllAnimeItem::from_raw(raw);
    assert_eq!(item.name, "");
    assert_eq!(item.episodes_sub, 10);
    assert_eq!(item.episodes_dub, 0);
    assert_eq!(item.year, Some(1999));
    assert_eq!(item.description, Some("Hi".to_string()));
    assert!(item.genres.is_empty());
    assert_eq!(item.studios, vec!["S".to_string()]);
    assert_eq!(item.total_episodes(), 10);
}

#[test]
fn title_bonus_ranks_exact_prefix_and_contained_titles() {
    let item = anime(1, 0, Some("Attack on Titan"));
    assert_eq!(title_bonus(&item, "attack on titan"), 300);
    assert_eq!(title_bonus(&item, "attack"), 150);
    assert_eq!(title_bonus(&item, "titan"), 50);
    assert_eq!(title_bonus(&item, "shingeki"), 150);
    assert_eq!(title_bonus(&item, "naruto"), 0);
}

#[test]
fn query_variables_are_built_with_escaped_quotes() {
    assert_eq!(
        search_vars("say \"hi\"", "sub"),
        "{\"search\":{\"allowAdult\":false,\"allowUnknown\":false,\"query\":\"say \\\"hi\\\"\"},\"limit\":25,\"page\":1,\"translationType\":\"sub\",\"countryOrigin\":\"ALL\"}"
    );
    assert_eq!(show_vars("abc"), "{\"showId\":\"abc\"}");
    assert_eq!(
        episode_vars("abc", "dub", 7),
        "{\"showId\":\"abc\",\"translationType\":\"dub\",\"episodeString\":\"7\"}"
    );
    assert_eq!(post_body("q(\"x\")", "{}"), "{\"query\":\"q(\\\"x\\\")\",\"variables\":{}}");
}

#[test]
fn episode_caches_go_stale_after_a_day() {
    assert!(episodes_cache_stale(None, 0));
    assert!(!episodes_cache_stale(Some(1000), 1000 + 86399));
    assert!(episodes_cache_stale(Some(1000), 1000 + 86400));
    assert!(!episodes_cache_stale(Some(5000), 1000));
}

#[test]
fn history_totals_take_the_larger_count() {
    assert_eq!(total_for(&ContentItem::Anime(anime(12, 24, None))), Some(24));
    assert_eq!(total_for(&ContentItem::Anime(anime(0, 0, None))), None);
}
