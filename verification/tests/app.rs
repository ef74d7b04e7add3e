use nexus_tui::api::allanime::AllAnimeItem;
use nexus_tui::api::ContentItem;
use nexus_tui::app::cache::Lru;
use nexus_tui::app::settings::SettingsPane;
use nexus_tui::config::Config;
use nexus_tui::app::state::{
    Effect, HistoryItem, HistoryPane, Key, KeyPress, Msg, Prompt, Results, SearchBar, Searching,
    State,
};
use nexus_tui::app::{
    retain_alive, retain_marked,
    detect_image_protocol, fuzzy_match, move_pane, push_toast, CachedDetail, Direction, Focus,
    ImageProtocol, Spinner, Tab, Toast, ToastKind,
};

fn item(id: &str, name: &str) -> ContentItem {
    ContentItem::Anime(AllAnimeItem {
        id: id.to_string(),
        mal_id: None,
        name: name.to_string(),
        english_name: None,
        thumbnail: None,
        banner: None,
        episodes_sub: 12,
        episodes_dub: 0,
        year: Some(2020),
        status: None,
        description: None,
        genres: Vec::new(),
        score_centi: None,
        studios: Vec::new(),
        show_type: None,
    })
}

fn state() -> State {
    State {
        tab: Tab::Anime,
        focus: Focus::Search,
        status: String::new(),
        search: SearchBar { input: Vec::new(), cursor: 0 },
        searching: Searching { active: false, gen: 0, page: 1 },
        results: Results { items: Vec::new(), idx: 0, has_more: false, selected: None, detail_scroll: 0 },
        history: HistoryPane {
            entries: Vec::new(),
            idx: 0,
            filter: Vec::new(),
            filtered: Vec::new(),
            episodes: Vec::new(),
            episode_idx: 0,
            episodes_loading: false,
            window_start: 0,
            window_end: 0,
            cols: 2,
        },
        prompt: Prompt {
            input: Vec::new(),
            cursor: 0,
            mode: "sub".to_string(),
            quality: "best".to_string(),
            episodes: Vec::new(),
            idx: 0,
            cols: 8,
        },
        detail_cache: Lru::new(),
        image_cache: Lru::new(),
        config: Config::default(),
        settings: SettingsPane::new(Tab::Anime),
    }
}

fn key(k: Key) -> KeyPress {
    KeyPress { key: k, ctrl: false }
}

fn ctrl(k: Key) -> KeyPress {
    KeyPress { key: k, ctrl: true }
}

fn press(st: &mut State, kp: KeyPress) -> (bool, Vec<Effect>) {
    assert!(st.accepts(kp));
    st.handle_key(kp)
}

fn typed(st: &mut State, text: &str) {
    for c in text.chars() {
        press(st, key(Key::Char(c)));
    }
}

#[test]
fn fuzzy_match_needs_the_characters_in_order() {
    assert!(fuzzy_match("attack on titan", &['a', 'o', 't']));
    assert!(fuzzy_match("anything", &[]));
    assert!(!fuzzy_match("abc", &['c', 'a']));
    assert!(!fuzzy_match("", &['a']));
    assert!(fuzzy_match("aab", &['a', 'b']));
}

#[test]
fn ctrl_c_always_quits_and_q_outside_text_panes() {
    let mut st = state();
    assert!(press(&mut st, ctrl(Key::Char('c'))).0);
    let mut st = state();
    assert!(!press(&mut st, key(Key::Char('q'))).0);
    assert_eq!(st.search.input, vec!['q']);
    let mut st = state();
    st.focus = Focus::Results;
    assert!(press(&mut st, key(Key::Char('q'))).0);
}

#[test]
fn typing_edits_the_search_bar() {
    let mut st = state();
    typed(&mut st, "naruto");
    press(&mut st, key(Key::Left));
    press(&mut st, key(Key::Backspace));
    assert_eq!(st.search.input.iter().collect::<String>(), "naruo");
    press(&mut st, key(Key::Home));
    press(&mut st, key(Key::Delete));
    assert_eq!(st.search.input.iter().collect::<String>(), "aruo");
    press(&mut st, key(Key::End));
    assert_eq!(st.search.cursor, 4);
}

#[test]
fn enter_starts_a_search_for_the_trimmed_text() {
    let mut st = state();
    typed(&mut st, "  one piece ");
    let (_, effects) = press(&mut st, key(Key::Enter));
    assert!(st.searching.active);
    assert_eq!(st.searching.gen, 1);
    assert_eq!(st.status, "Searching \"one piece\"…");
    match effects.last() {
        Some(Effect::Search { query, page, gen }) => {
            assert_eq!(query, "one piece");
            assert_eq!(*page, 1);
            assert_eq!(*gen, 1);
        },
        _ => panic!("expected a search"),
    }
}

#[test]
fn enter_on_blank_text_clears_the_results() {
    let mut st = state();
    st.results.items.push(item("a", "A"));
    typed(&mut st, "   ");
    press(&mut st, key(Key::Enter));
    assert!(st.results.items.is_empty());
    assert_eq!(st.status, "Type to search  •  press Enter");
}

#[test]
fn results_arrive_and_are_navigated() {
    let mut st = state();
    typed(&mut st, "x");
    press(&mut st, key(Key::Enter));
    let effects = st.handle_msg(Msg::SearchResults { items: vec![item("a", "A"), item("b", "B")], gen: 1 });
    assert_eq!(st.focus, Focus::Results);
    assert_eq!(st.status, "2 results");
    assert!(!st.results.has_more);
    assert!(effects.iter().any(|e| matches!(e, Effect::LoadDetail(0))));
    press(&mut st, key(Key::Char('j')));
    assert_eq!(st.results.idx, 1);
    press(&mut st, key(Key::Char('g')));
    assert_eq!(st.results.idx, 0);
    press(&mut st, key(Key::Char('G')));
    assert_eq!(st.results.idx, 1);
    press(&mut st, key(Key::Enter));
    assert_eq!(st.focus, Focus::Detail);
}

#[test]
fn stale_search_results_are_dropped() {
    let mut st = state();
    st.searching.gen = 3;
    st.handle_msg(Msg::SearchResults { items: vec![item("a", "A")], gen: 2 });
    assert!(st.results.items.is_empty());
}

#[test]
fn more_results_extend_the_list() {
    let mut st = state();
    st.results.items.push(item("a", "A"));
    st.handle_msg(Msg::MoreResults(vec![item("b", "B"), item("c", "C")]));
    assert_eq!(st.results.items.len(), 3);
    assert_eq!(st.status, "3 results  (+2 more)");
}

#[test]
fn episode_lists_are_cached_and_shown_for_the_selected_item() {
    let mut st = state();
    st.handle_msg(Msg::DetailLoaded(item("a", "A")));
    st.handle_msg(Msg::EpisodeList { id: "a".to_string(), eps: vec!["1".to_string(), "2".to_string()] });
    assert_eq!(st.prompt.episodes, vec!["1".to_string(), "2".to_string()]);
    assert!(st.detail_cache.contains("a"));
    st.handle_msg(Msg::EpisodeList { id: "b".to_string(), eps: vec!["9".to_string()] });
    assert_eq!(st.prompt.episodes.len(), 2);
}

#[test]
fn the_episode_prompt_navigates_and_cycles_settings() {
    let mut st = state();
    st.results.selected = Some(item("a", "A"));
    st.focus = Focus::Detail;
    press(&mut st, key(Key::Char('p')));
    assert_eq!(st.focus, Focus::EpisodePrompt);
    assert_eq!(st.prompt.input, vec!['1']);
    press(&mut st, key(Key::Char('2')));
    assert_eq!(st.prompt.input, vec!['1', '2']);
    press(&mut st, key(Key::Tab));
    assert_eq!(st.prompt.mode, "dub");
    press(&mut st, key(Key::Tab));
    assert_eq!(st.prompt.mode, "sub");
    for expected in ["1080", "720", "480", "best"] {
        press(&mut st, ctrl(Key::Char('q')));
        assert_eq!(st.prompt.quality, expected);
    }
    let (_, effects) = press(&mut st, key(Key::Enter));
    assert_eq!(st.focus, Focus::Detail);
    match effects.last() {
        Some(Effect::PlayEpisode { episode, key }) => {
            assert_eq!(*episode, 12);
            assert_eq!(key, "12");
        },
        _ => panic!("expected playback"),
    }
}

#[test]
fn the_episode_grid_moves_by_rows_and_cells() {
    let mut st = state();
    st.focus = Focus::EpisodePrompt;
    st.prompt.cols = 3;
    st.prompt.episodes = (1..=10).map(|n| n.to_string()).collect();
    press(&mut st, key(Key::Down));
    assert_eq!(st.prompt.idx, 3);
    assert_eq!(st.prompt.input, vec!['4']);
    press(&mut st, key(Key::Right));
    assert_eq!(st.prompt.idx, 4);
    press(&mut st, key(Key::Down));
    press(&mut st, key(Key::Down));
    assert_eq!(st.prompt.idx, 9);
    assert_eq!(st.prompt.input, vec!['1', '0']);
    press(&mut st, key(Key::Up));
    assert_eq!(st.prompt.idx, 6);
}

#[test]
fn ctrl_arrows_move_between_panes() {
    assert_eq!(move_pane(Focus::Search, Direction::Down, true, false), Focus::Results);
    assert_eq!(move_pane(Focus::Search, Direction::Down, false, false), Focus::Search);
    assert_eq!(move_pane(Focus::Results, Direction::Right, true, true), Focus::Detail);
    assert_eq!(move_pane(Focus::EpisodePrompt, Direction::Up, true, true), Focus::Detail);
    assert_eq!(move_pane(Focus::HistoryEpisodes, Direction::Left, true, true), Focus::HistoryDetail);
    let mut st = state();
    st.results.items.push(item("a", "A"));
    press(&mut st, ctrl(Key::Down));
    assert_eq!(st.focus, Focus::Results);
}

#[test]
fn function_keys_switch_tabs() {
    let mut st = state();
    typed(&mut st, "abc");
    press(&mut st, key(Key::F(2)));
    assert_eq!(st.tab, Tab::History);
    assert_eq!(st.focus, Focus::History);
    assert!(st.search.input.is_empty());
    assert_eq!(st.status, "History  •  type to search");
    press(&mut st, key(Key::F(3)));
    assert_eq!(st.tab, Tab::Settings);
    assert_eq!(st.focus, Focus::SettingsList);
    press(&mut st, key(Key::F(1)));
    assert_eq!(st.status, "Anime  •  type to search");
}

fn entry(id: &str, title: &str, progress: Option<u32>) -> HistoryItem {
    HistoryItem { id: id.to_string(), title: title.to_string(), progress }
}

#[test]
fn history_is_filtered_fuzzily_and_case_insensitively() {
    let mut st = state();
    st.focus = Focus::History;
    st.history.entries = vec![entry("1", "Attack on Titan", None), entry("2", "Naruto", None), entry("3", "One Piece", None)];
    typed(&mut st, "ON");
    assert_eq!(st.history.filtered, vec![0, 2]);
    press(&mut st, key(Key::Down));
    assert_eq!(st.history.selected(), Some(2));
    press(&mut st, key(Key::Backspace));
    assert_eq!(st.history.filter, vec!['O']);
    assert_eq!(st.history.filtered, vec![0, 1, 2]);
    press(&mut st, key(Key::Esc));
    assert!(st.history.filter.is_empty());
    assert!(st.history.filtered.is_empty());
}

#[test]
fn deleting_history_entries_keeps_the_selection_in_range() {
    let mut st = state();
    st.focus = Focus::History;
    st.history.entries = vec![entry("1", "A", None), entry("2", "B", None)];
    press(&mut st, key(Key::Char('j')));
    assert_eq!(st.history.idx, 1);
    let (_, effects) = press(&mut st, key(Key::Delete));
    assert!(matches!(effects[0], Effect::RemoveHistory(1)));
    match &effects[1] {
        Effect::Toast(ToastKind::Info, m) => assert_eq!(m, "Removed \"B\""),
        _ => panic!("expected a toast"),
    }
    assert_eq!(st.history.entries.len(), 1);
    assert_eq!(st.history.idx, 0);
}

#[test]
fn history_episodes_play_and_record_progress() {
    let mut st = state();
    st.focus = Focus::HistoryEpisodes;
    st.history.entries = vec![entry("x", "X", Some(1))];
    st.history.episodes = vec!["1".to_string(), "2".to_string(), "3".to_string()];
    press(&mut st, key(Key::Right));
    let (_, effects) = press(&mut st, key(Key::Enter));
    match effects.last() {
        Some(Effect::PlayFromHistory { entry, episode_key, stream_episode, progress }) => {
            assert_eq!(*entry, 0);
            assert_eq!(episode_key, "2");
            assert_eq!(*stream_episode, 2);
            assert_eq!(*progress, 2);
        },
        _ => panic!("expected playback"),
    }
    assert_eq!(st.history.entries[0].progress, Some(2));
    press(&mut st, key(Key::Left));
    press(&mut st, key(Key::Left));
    assert_eq!(st.focus, Focus::HistoryDetail);
}

#[test]
fn fetched_history_episodes_start_at_the_last_watched_row() {
    let mut st = state();
    st.focus = Focus::History;
    st.history.entries = vec![entry("x", "X", Some(5))];
    let eps: Vec<String> = (1..=100).map(|n| n.to_string()).collect();
    let effects = st.handle_msg(Msg::HistoryEpisodeList { anime_id: "x".to_string(), eps });
    assert_eq!(st.history.episode_idx, 2);
    match effects.last() {
        Some(Effect::LoadEpisodeWindow { entry, start, end, now }) => {
            assert_eq!((*entry, *start, *end, *now), (0, 0, 42, true));
        },
        _ => panic!("expected a window load"),
    }
    assert_eq!(st.history.window_request(true), Some((0, 0, 42)));
}

#[test]
fn the_history_plan_uses_fresh_cached_lists() {
    let mut st = state();
    st.history.entries = vec![entry("x", "X", None)];
    let cached = vec!["1".to_string(), "2".to_string()];
    let mut effects = Vec::new();
    st.history.plan_episodes(None, Some(&cached), false, &mut effects);
    assert_eq!(st.history.episodes, cached);
    let mut st2 = state();
    st2.history.entries = vec![entry("x", "X", None)];
    let mut effects = Vec::new();
    st2.history.plan_episodes(None, Some(&cached), true, &mut effects);
    assert!(st2.history.episodes_loading);
    assert!(matches!(effects.last(), Some(Effect::FetchHistoryEpisodes(0))));
}

#[test]
fn lru_caches_forget_the_oldest_entry() {
    let mut c: Lru<u32> = Lru::new();
    c.add("a".to_string(), 1, 2);
    c.add("b".to_string(), 2, 2);
    c.add("a".to_string(), 9, 2);
    assert_eq!(c.get("a"), Some(&1));
    c.add("c".to_string(), 3, 2);
    assert!(!c.contains("b"));
    assert!(c.contains("a") && c.contains("c"));
    assert_eq!(c.len(), 2);
    c.put("a".to_string(), 7, 2);
    assert_eq!(c.get("a"), Some(&7));
    c.put("d".to_string(), 4, 2);
    assert!(!c.contains("c"));
    let mut d: Lru<CachedDetail> = Lru::new();
    d.put("x".to_string(), CachedDetail { episode_list: None }, 50);
    assert!(d.get("x").is_some());
}

#[test]
fn spinner_frames_wrap_and_symbols_match() {
    let mut sp = Spinner::new();
    assert_eq!(sp.frame, 0);
    assert_eq!(sp.symbol(), "⠋");
    sp.tick();
    assert!(sp.frame <= 1);
    sp.frame = 9;
    assert_eq!(sp.symbol(), "⠏");
}

#[test]
fn toasts_are_capped_at_four() {
    let mut toasts: Vec<Toast> = Vec::new();
    for i in 0..6 {
        push_toast(&mut toasts, Toast::info(format!("t{i}")));
    }
    assert_eq!(toasts.len(), 4);
    assert_eq!(toasts[0].message, "t2");
    assert!(toasts[3].alive());
    assert_eq!(Toast::error("e".to_string()).kind, ToastKind::Error);
    assert_eq!(Toast::success("s".to_string()).kind, ToastKind::Success);
}

#[test]
fn image_protocol_follows_the_terminal() {
    assert_eq!(detect_image_protocol("xterm-kitty", "", false), ImageProtocol::Kitty);
    assert_eq!(detect_image_protocol("xterm", "WezTerm", false), ImageProtocol::Kitty);
    assert_eq!(detect_image_protocol("xterm", "", true), ImageProtocol::Kitty);
    assert_eq!(detect_image_protocol("xterm-256color", "Apple_Terminal", false), ImageProtocol::HalfBlock);
}

#[test]
fn tab_names() {
    assert_eq!(Tab::Anime.name(), "Anime");
    assert_eq!(Tab::Settings.name(), "Settings");
}

#[test]
fn fetched_covers_are_cached_and_decoded() {
    let mut st = state();
    let effects = st.handle_msg(Msg::ImageFetched {
        url: "https://img/a.jpg".to_string(),
        item_id: "a".to_string(),
        bytes: vec![1, 2, 3],
    });
    assert_eq!(st.image_cache.len(), 1);
    assert_eq!(st.image_cache.get("https://img/a.jpg"), Some(&vec![1u8, 2, 3]));
    assert_eq!(effects.len(), 1);
    assert!(matches!(&effects[0], Effect::DecodeImage { item_id, bytes } if item_id == "a" && bytes == &vec![1u8, 2, 3]));
}

#[test]
fn errors_stop_the_spinner_and_are_shown() {
    let mut st = state();
    st.searching.active = true;
    let effects = st.handle_msg(Msg::Error("network down".to_string()));
    assert!(!st.searching.active);
    assert_eq!(effects.len(), 1);
    assert!(matches!(&effects[0], Effect::Toast(ToastKind::Error, m) if m == "network down"));
}

#[test]
fn slash_moves_to_the_search_bar_with_the_cursor_at_the_end() {
    let mut st = state();
    typed(&mut st, "abc");
    st.search.cursor = 1;
    st.focus = Focus::Detail;
    let (quit, effects) = press(&mut st, key(Key::Char('/')));
    assert!(!quit);
    assert!(effects.is_empty());
    assert_eq!(st.focus, Focus::Search);
    assert_eq!(st.search.cursor, 3);
}

#[test]
fn detail_loaded_selects_and_resets_the_scroll() {
    let mut st = state();
    st.results.detail_scroll = 7;
    let effects = st.handle_msg(Msg::DetailLoaded(item("x", "X")));
    assert!(effects.is_empty());
    assert_eq!(st.results.detail_scroll, 0);
    assert_eq!(st.results.selected.as_ref().map(|s| s.id().to_string()), Some("x".to_string()));
}

fn in_settings() -> State {
    let mut st = state();
    press(&mut st, key(Key::F(3)));
    st
}

#[test]
fn f3_opens_the_settings_list_and_esc_returns() {
    let mut st = state();
    st.tab = Tab::History;
    st.focus = Focus::History;
    press(&mut st, key(Key::F(3)));
    assert_eq!(st.tab, Tab::Settings);
    assert_eq!(st.focus, Focus::SettingsList);
    press(&mut st, key(Key::Char('j')));
    assert_eq!(st.settings.category, 1);
    press(&mut st, key(Key::Esc));
    assert_eq!(st.tab, Tab::History);
    assert_eq!(st.focus, Focus::History);
}

#[test]
fn settings_cycle_choices_forward_and_back() {
    let mut st = in_settings();
    press(&mut st, key(Key::Right));
    assert_eq!(st.focus, Focus::SettingsEdit);
    let (_, effects) = press(&mut st, key(Key::Char('l')));
    assert_eq!(st.config.player.stream_mode, "dub");
    assert!(matches!(effects.as_slice(), [Effect::SaveConfig]));
    press(&mut st, key(Key::Right));
    assert_eq!(st.config.player.stream_mode, "sub");
    press(&mut st, key(Key::Down));
    press(&mut st, key(Key::Left));
    assert_eq!(st.config.player.quality, "480");
    press(&mut st, key(Key::Left));
    assert_eq!(st.config.player.quality, "720");
    press(&mut st, key(Key::Down));
    press(&mut st, key(Key::Right));
    assert_eq!(st.config.player.skip_segments, "intro");
}

#[test]
fn the_resume_offset_steps_within_a_minute() {
    let mut st = in_settings();
    press(&mut st, key(Key::Enter));
    for _ in 0..3 {
        press(&mut st, key(Key::Down));
    }
    assert_eq!(st.settings.row, 3);
    press(&mut st, key(Key::Right));
    assert_eq!(st.config.player.resume_offset_secs, 6);
    st.config.player.resume_offset_secs = 60;
    press(&mut st, key(Key::Right));
    assert_eq!(st.config.player.resume_offset_secs, 60);
    st.config.player.resume_offset_secs = 0;
    press(&mut st, key(Key::Left));
    assert_eq!(st.config.player.resume_offset_secs, 0);
}

#[test]
fn the_player_path_and_arguments_are_typed() {
    let mut st = in_settings();
    press(&mut st, key(Key::Enter));
    for _ in 0..4 {
        press(&mut st, key(Key::Down));
    }
    press(&mut st, key(Key::Enter));
    assert!(st.settings.editing);
    assert_eq!(st.settings.input.iter().collect::<String>(), "mpv");
    press(&mut st, key(Key::Char('q')));
    assert!(st.settings.editing);
    for _ in 0..4 {
        press(&mut st, key(Key::Backspace));
    }
    let (_, effects) = press(&mut st, key(Key::Enter));
    assert!(effects.is_empty());
    assert_eq!(st.settings.error.as_deref(), Some("The player path cannot be empty"));
    typed(&mut st, " /usr/bin/mpv ");
    press(&mut st, key(Key::Enter));
    assert!(!st.settings.editing);
    assert_eq!(st.config.player.mpv_path, "/usr/bin/mpv");
    press(&mut st, key(Key::Down));
    press(&mut st, key(Key::Enter));
    assert_eq!(st.settings.input.iter().collect::<String>(), "--no-terminal");
    typed(&mut st, "  --fs   --mute");
    press(&mut st, key(Key::Enter));
    assert_eq!(st.config.player.extra_args, vec!["--no-terminal".to_string(), "--fs".to_string(), "--mute".to_string()]);
}

#[test]
fn color_rows_pick_presets_and_add_custom_colors() {
    let mut st = in_settings();
    press(&mut st, key(Key::Down));
    press(&mut st, key(Key::Enter));
    assert_eq!(st.settings.accent_cursor, 0);
    press(&mut st, key(Key::Right));
    assert_eq!(st.config.theme.accent, "Cyan");
    assert_eq!(st.settings.accent_cursor, 1);
    for _ in 0..8 {
        press(&mut st, key(Key::Right));
    }
    assert_eq!(st.settings.accent_cursor, 9);
    assert_eq!(st.config.theme.accent, "White");
    press(&mut st, key(Key::Enter));
    assert!(st.settings.editing);
    typed(&mut st, "zz");
    press(&mut st, key(Key::Enter));
    assert_eq!(st.settings.error.as_deref(), Some("Use #rrggbb, #rgb or r,g,b"));
    press(&mut st, key(Key::Backspace));
    press(&mut st, key(Key::Backspace));
    typed(&mut st, "#ff8000");
    press(&mut st, key(Key::Enter));
    assert!(!st.settings.editing);
    assert_eq!(st.config.theme.accent, "#ff8000");
    assert_eq!(st.config.theme.accent_custom, vec!["#ff8000".to_string()]);
    assert_eq!(st.settings.accent_cursor, 9);
    let (_, effects) = press(&mut st, key(Key::Delete));
    assert!(matches!(effects.as_slice(), [Effect::SaveConfig]));
    assert!(st.config.theme.accent_custom.is_empty());
    assert_eq!(st.config.theme.accent, "Yellow");
}

#[test]
fn the_reset_row_restores_defaults() {
    let mut st = in_settings();
    st.config.player.quality = "720".to_string();
    st.config.theme.bar_complete = "Red".to_string();
    press(&mut st, key(Key::Down));
    press(&mut st, key(Key::Enter));
    for _ in 0..3 {
        press(&mut st, key(Key::Down));
    }
    let (_, effects) = press(&mut st, key(Key::Enter));
    assert_eq!(st.config.player.quality, "best");
    assert_eq!(st.config.theme.bar_complete, "Teal");
    assert_eq!(st.settings.complete_cursor, 3);
    assert_eq!(effects.len(), 2);
    assert!(matches!(&effects[1], Effect::Toast(ToastKind::Info, m) if m == "Settings reset to defaults"));
}

#[test]
fn display_settings_cycle_and_toggle_the_page_size() {
    let mut st = in_settings();
    press(&mut st, key(Key::Down));
    press(&mut st, key(Key::Down));
    press(&mut st, key(Key::Tab));
    press(&mut st, key(Key::Right));
    assert_eq!(st.config.ui.image_protocol, "kitty");
    press(&mut st, key(Key::Down));
    press(&mut st, key(Key::Left));
    assert_eq!(st.config.ui.results_limit, 50);
    press(&mut st, key(Key::Down));
    press(&mut st, key(Key::Left));
    assert_eq!(st.config.ui.episode_cols, "3");
    press(&mut st, ctrl(Key::Left));
    assert_eq!(st.focus, Focus::SettingsList);
}

#[test]
fn the_spinner_advances_after_eighty_milliseconds() {
    let mut sp = Spinner::new();
    let before = sp.last;
    sp.advance(79, std::time::Instant::now());
    assert_eq!(sp.frame, 0);
    assert_eq!(sp.last, before);
    sp.frame = 9;
    let stamp = std::time::Instant::now();
    sp.advance(80, stamp);
    assert_eq!(sp.frame, 0);
    assert_eq!(sp.last, stamp);
}

#[test]
fn marked_toasts_are_kept_in_order() {
    let mut toasts: Vec<Toast> = Vec::new();
    for i in 0..4 {
        toasts.push(Toast::info(format!("t{i}")));
    }
    retain_marked(&mut toasts, &vec![true, false, true, false]);
    let left: Vec<&str> = toasts.iter().map(|t| t.message.as_str()).collect();
    assert_eq!(left, vec!["t0", "t2"]);
    retain_alive(&mut toasts);
    assert_eq!(toasts.len(), 2);
}

#[test]
fn d_removes_the_selected_entry_when_no_filter_is_typed() {
    let mut st = state();
    st.focus = Focus::History;
    st.history.entries = vec![entry("1", "A", None), entry("2", "B", None)];
    let (_, effects) = press(&mut st, key(Key::Char('d')));
    assert!(matches!(effects[0], Effect::RemoveHistory(0)));
    assert_eq!(st.history.entries.len(), 1);
    assert!(st.history.filter.is_empty());
    typed(&mut st, "b");
    press(&mut st, key(Key::Char('d')));
    assert_eq!(st.history.filter, vec!['b', 'd']);
    assert_eq!(st.history.entries.len(), 1);
    st.history.filter.clear();
    st.history.rebuild_filter();
    st.focus = Focus::HistoryDetail;
    press(&mut st, key(Key::Char('d')));
    assert!(st.history.entries.is_empty());
    assert_eq!(st.focus, Focus::History);
}
