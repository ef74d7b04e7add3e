//! The settings tab: a list of categories (playback, theme, display,
//! about) and, for the selected one, rows of settings whose values change in
//! place, by cycling through their choices, stepping a number, picking a
//! color swatch, or typing text.

use vstd::prelude::*;
use crate::app::{Tab, Focus, ToastKind};
use crate::app::state::{Effect, Key, KeyPress};
use crate::config::{
    Config, PlayerConfig, UiConfig, ThemeConfig, valid_custom_color, is_valid_custom_color,
};
use crate::text;

verus! {

/// How many categories the list has.
pub const CATEGORY_COUNT: usize = 4;

/// How many preset swatches a color row starts with.
pub const PRESET_COUNT: usize = 9;

/// Where the settings tab stands.
pub struct SettingsPane {
    /// The selected category: playback, theme, display or about.
    pub category: usize,
    /// The selected row of the category.
    pub row: usize,
    /// Whether a text value is being typed.
    pub editing: bool,
    /// The text typed so far.
    pub input: Vec<char>,
    /// Why the text typed was refused, if it was.
    pub error: Option<String>,
    /// The swatch under the cursor in the accent color row.
    pub accent_cursor: usize,
    /// The swatch under the cursor in the progress bar color row.
    pub progress_cursor: usize,
    /// The swatch under the cursor in the complete bar color row.
    pub complete_cursor: usize,
    /// The tab to go back to.
    pub prev_tab: Tab,
}

// ── The rows ─────────────────────────────────────────────────────────────────

/// How many rows a category has: playback has the audio, quality, skipping,
/// resume offset, player path and player arguments; theme the three colors
/// and a reset; display the image protocol, page size and episode columns.
pub open spec fn rows_in(category: nat) -> nat {
    if category == 0 {
        6
    } else if category == 1 {
        4
    } else if category == 2 {
        3
    } else {
        0
    }
}

fn rows_in_exec(category: usize) -> (r: usize)
    ensures
        r as nat == rows_in(category as nat),
{
    if category == 0 {
        6
    } else if category == 1 {
        4
    } else if category == 2 {
        3
    } else {
        0
    }
}

/// The choices of a row that cycles through texts.
pub open spec fn row_options(category: nat, row: nat) -> Seq<Seq<char>> {
    if category == 0 && row == 0 {
        seq!["sub"@, "dub"@]
    } else if category == 0 && row == 1 {
        seq!["best"@, "1080"@, "720"@, "480"@]
    } else if category == 0 && row == 2 {
        seq!["none"@, "intro"@, "outro"@, "both"@]
    } else if category == 2 && row == 0 {
        seq!["auto"@, "kitty"@, "halfblock"@]
    } else if category == 2 && row == 2 {
        seq!["auto"@, "2"@, "3"@]
    } else {
        Seq::empty()
    }
}

/// The position of the first text equal to `v`.
pub open spec fn index_in(options: Seq<Seq<char>>, v: Seq<char>) -> Option<nat>
    decreases options.len(),
{
    if options.len() == 0 {
        None
    } else {
        match index_in(options.drop_last(), v) {
            Some(i) => Some(i),
            None => if options.last() == v {
                Some((options.len() - 1) as nat)
            } else {
                None
            },
        }
    }
}

/// The choice after (or before) `v`, going round; the first choice when
/// `v` is none of them.
pub open spec fn cycled(options: Seq<Seq<char>>, v: Seq<char>, forward: bool) -> Seq<char> {
    let n = options.len() as int;
    match index_in(options, v) {
        Some(i) => if forward {
            options[(i as int + 1) % n]
        } else {
            options[(i as int + n - 1) % n]
        },
        None => options[0],
    }
}

/// The value of a row that cycles through texts.
pub open spec fn text_setting(c: Config, category: nat, row: nat) -> Seq<char> {
    if category == 0 && row == 0 {
        c.player.stream_mode@
    } else if category == 0 && row == 1 {
        c.player.quality@
    } else if category == 0 && row == 2 {
        c.player.skip_segments@
    } else if category == 2 && row == 0 {
        c.ui.image_protocol@
    } else if category == 2 && row == 2 {
        c.ui.episode_cols@
    } else {
        Seq::empty()
    }
}

/// Only the value of that text row may differ between the configurations.
pub open spec fn only_text_setting(c0: Config, c1: Config, category: nat, row: nat) -> bool {
    if category == 0 && row == 0 {
        c1.player == PlayerConfig { stream_mode: c1.player.stream_mode, ..c0.player } && c1.ui
            == c0.ui && c1.theme == c0.theme
    } else if category == 0 && row == 1 {
        c1.player == PlayerConfig { quality: c1.player.quality, ..c0.player } && c1.ui == c0.ui
            && c1.theme == c0.theme
    } else if category == 0 && row == 2 {
        c1.player == PlayerConfig { skip_segments: c1.player.skip_segments, ..c0.player } && c1.ui
            == c0.ui && c1.theme == c0.theme
    } else if category == 2 && row == 0 {
        c1.ui == UiConfig { image_protocol: c1.ui.image_protocol, ..c0.ui } && c1.player
            == c0.player && c1.theme == c0.theme
    } else if category == 2 && row == 2 {
        c1.ui == UiConfig { episode_cols: c1.ui.episode_cols, ..c0.ui } && c1.player == c0.player
            && c1.theme == c0.theme
    } else {
        c1 == c0
    }
}

// ── The color rows ───────────────────────────────────────────────────────────

/// The preset swatches of a color row, in order.
pub open spec fn preset_names() -> Seq<Seq<char>> {
    seq![
        "Yellow"@,
        "Cyan"@,
        "Green"@,
        "Teal"@,
        "Orange"@,
        "Pink"@,
        "Purple"@,
        "Red"@,
        "White"@,
    ]
}

/// The custom colors saved for a color row: accent, progress bar or
/// complete bar.
pub open spec fn customs(c: Config, r: nat) -> Seq<String> {
    if r == 0 {
        c.theme.accent_custom@
    } else if r == 1 {
        c.theme.bar_progress_custom@
    } else {
        c.theme.bar_complete_custom@
    }
}

/// The texts of the custom colors of a color row.
pub open spec fn custom_views(c: Config, r: nat) -> Seq<Seq<char>> {
    customs(c, r).map_values(|s: String| s@)
}

/// The color a color row is set to.
pub open spec fn color_setting(c: Config, r: nat) -> Seq<char> {
    if r == 0 {
        c.theme.accent@
    } else if r == 1 {
        c.theme.bar_progress@
    } else {
        c.theme.bar_complete@
    }
}

/// The swatches of a color row: the presets, the custom colors, and the
/// cell that adds one.
pub open spec fn cell_count(c: Config, r: nat) -> nat {
    (PRESET_COUNT + customs(c, r).len() + 1) as nat
}

/// The color of a swatch, or none for the add cell.
pub open spec fn cell_color(c: Config, r: nat, i: nat) -> Option<Seq<char>> {
    if i < PRESET_COUNT {
        Some(preset_names()[i as int])
    } else if i < PRESET_COUNT + customs(c, r).len() {
        Some(customs(c, r)[i - PRESET_COUNT]@)
    } else {
        None
    }
}

/// The swatch of the color a row is set to: its preset, else its custom
/// color, else the first.
pub open spec fn position_of(c: Config, r: nat) -> nat {
    match index_in(preset_names(), color_setting(c, r)) {
        Some(i) => i,
        None => match index_in(custom_views(c, r), color_setting(c, r)) {
            Some(j) => (PRESET_COUNT + j) as nat,
            None => 0,
        },
    }
}

/// The color a row goes back to when its custom color is removed.
pub open spec fn default_color(r: nat) -> Seq<char> {
    if r == 2 {
        "Teal"@
    } else {
        "Yellow"@
    }
}

/// Only the color and the custom colors of that row may differ.
pub open spec fn only_color_row(c0: Config, c1: Config, r: nat) -> bool {
    &&& c1.player == c0.player
    &&& c1.ui == c0.ui
    &&& if r == 0 {
        c1.theme == ThemeConfig {
            accent: c1.theme.accent,
            accent_custom: c1.theme.accent_custom,
            ..c0.theme
        }
    } else if r == 1 {
        c1.theme == ThemeConfig {
            bar_progress: c1.theme.bar_progress,
            bar_progress_custom: c1.theme.bar_progress_custom,
            ..c0.theme
        }
    } else {
        c1.theme == ThemeConfig {
            bar_complete: c1.theme.bar_complete,
            bar_complete_custom: c1.theme.bar_complete_custom,
            ..c0.theme
        }
    }
}

impl SettingsPane {
    /// The swatch under the cursor of a color row.
    pub open spec fn cursor(&self, r: nat) -> usize {
        if r == 0 {
            self.accent_cursor
        } else if r == 1 {
            self.progress_cursor
        } else {
            self.complete_cursor
        }
    }

    /// The pane with the cursor of a color row at `v`.
    pub open spec fn with_cursor(self, r: nat, v: usize) -> SettingsPane {
        if r == 0 {
            SettingsPane { accent_cursor: v, ..self }
        } else if r == 1 {
            SettingsPane { progress_cursor: v, ..self }
        } else {
            SettingsPane { complete_cursor: v, ..self }
        }
    }

    /// The settings as first shown: the playback category, nothing typed,
    /// coming from `prev_tab`.
    pub fn new(prev_tab: Tab) -> (p: Self)
        ensures
            p.category == 0 && p.row == 0 && !p.editing && p.input@.len() == 0,
            p.error is None,
            p.accent_cursor == 0 && p.progress_cursor == 0 && p.complete_cursor == 0,
            p.prev_tab == prev_tab,
    {
        SettingsPane {
            category: 0,
            row: 0,
            editing: false,
            input: Vec::new(),
            error: None,
            accent_cursor: 0,
            progress_cursor: 0,
            complete_cursor: 0,
            prev_tab,
        }
    }

    fn cursor_at(&self, r: usize) -> (v: usize)
        ensures
            v == self.cursor(r as nat),
    {
        if r == 0 {
            self.accent_cursor
        } else if r == 1 {
            self.progress_cursor
        } else {
            self.complete_cursor
        }
    }

    fn set_cursor(&mut self, r: usize, v: usize)
        ensures
            *final(self) == old(self).with_cursor(r as nat, v),
    {
        if r == 0 {
            self.accent_cursor = v;
        } else if r == 1 {
            self.progress_cursor = v;
        } else {
            self.complete_cursor = v;
        }
    }
}

// ── Searching lists of texts ─────────────────────────────────────────────────

proof fn lemma_index_in_prefix(s: Seq<Seq<char>>, v: Seq<char>, n: int)
    requires
        0 < n <= s.len(),
        index_in(s.take(n), v) is Some,
    ensures
        index_in(s, v) == index_in(s.take(n), v),
    decreases s.len() - n,
{
    if n < s.len() {
        assert(s.take(n + 1).drop_last() =~= s.take(n));
        lemma_index_in_prefix(s, v, n + 1);
    } else {
        assert(s.take(n) =~= s);
    }
}

proof fn lemma_index_in_bound(s: Seq<Seq<char>>, v: Seq<char>)
    ensures
        index_in(s, v) matches Some(i) ==> i < s.len() && s[i as int] == v,
    decreases s.len(),
{
    if s.len() > 0 {
        lemma_index_in_bound(s.drop_last(), v);
    }
}

fn find_str(list: &Vec<&'static str>, t: &[char]) -> (r: Option<usize>)
    ensures
        r matches Some(i) ==> index_in(list@.map_values(|s: &str| s@), t@) == Some(i as nat),
        r is None ==> index_in(list@.map_values(|s: &str| s@), t@) is None,
{
    let ghost views = list@.map_values(|s: &str| s@);
    let mut i: usize = 0;
    while i < list.len()
        invariant
            i <= list@.len(),
            views == list@.map_values(|s: &str| s@),
            index_in(views.take(i as int), t@) is None,
        decreases list@.len() - i,
    {
        assert(views.take(i + 1).drop_last() =~= views.take(i as int));
        if text::eq_chars(&text::to_chars(list[i]), t) {
            proof {
                lemma_index_in_prefix(views, t@, i + 1);
            }
            return Some(i);
        }
        i += 1;
    }
    assert(views.take(list@.len() as int) =~= views);
    None
}

fn find_string(list: &Vec<String>, t: &[char]) -> (r: Option<usize>)
    ensures
        r matches Some(i) ==> index_in(list@.map_values(|s: String| s@), t@) == Some(i as nat),
        r is None ==> index_in(list@.map_values(|s: String| s@), t@) is None,
{
    let ghost views = list@.map_values(|s: String| s@);
    let mut i: usize = 0;
    while i < list.len()
        invariant
            i <= list@.len(),
            views == list@.map_values(|s: String| s@),
            index_in(views.take(i as int), t@) is None,
        decreases list@.len() - i,
    {
        assert(views.take(i + 1).drop_last() =~= views.take(i as int));
        if text::eq_chars(&text::to_chars(list[i].as_str()), t) {
            proof {
                lemma_index_in_prefix(views, t@, i + 1);
            }
            return Some(i);
        }
        i += 1;
    }
    assert(views.take(list@.len() as int) =~= views);
    None
}

fn options_for(category: usize, row: usize) -> (r: Vec<&'static str>)
    ensures
        r@.map_values(|s: &str| s@) == row_options(category as nat, row as nat),
{
    let mut v: Vec<&'static str> = Vec::new();
    if category == 0 && row == 0 {
        v.push("sub");
        v.push("dub");
    } else if category == 0 && row == 1 {
        v.push("best");
        v.push("1080");
        v.push("720");
        v.push("480");
    } else if category == 0 && row == 2 {
        v.push("none");
        v.push("intro");
        v.push("outro");
        v.push("both");
    } else if category == 2 && row == 0 {
        v.push("auto");
        v.push("kitty");
        v.push("halfblock");
    } else if category == 2 && row == 2 {
        v.push("auto");
        v.push("2");
        v.push("3");
    }
    assert(v@.map_values(|s: &str| s@) =~= row_options(category as nat, row as nat));
    v
}

fn preset_list() -> (r: Vec<&'static str>)
    ensures
        r@.map_values(|s: &str| s@) == preset_names(),
        r@.len() == PRESET_COUNT,
{
    let mut v: Vec<&'static str> = Vec::new();
    v.push("Yellow");
    v.push("Cyan");
    v.push("Green");
    v.push("Teal");
    v.push("Orange");
    v.push("Pink");
    v.push("Purple");
    v.push("Red");
    v.push("White");
    assert(v@.map_values(|s: &str| s@) =~= preset_names());
    v
}

/// The choice after (or before) a value in a row that cycles through texts.
fn cycle_choice(options: &Vec<&'static str>, cur: &str, forward: bool) -> (r: &'static str)
    requires
        options@.len() > 0,
    ensures
        r@ == cycled(options@.map_values(|s: &str| s@), cur@, forward),
{
    let n = options.len();
    match find_str(options, &text::to_chars(cur)) {
        Some(i) => {
            proof {
                lemma_index_in_bound(options@.map_values(|s: &str| s@), cur@);
            }
            if forward {
                options[(i + 1) % n]
            } else if i == 0 {
                assert((0 + n as int - 1) % (n as int) == n - 1) by (nonlinear_arith)
                    requires
                        n > 0,
                ;
                options[n - 1]
            } else {
                assert((i + n as int - 1) % (n as int) == i - 1) by (nonlinear_arith)
                    requires
                        0 < i < n,
                ;
                options[i - 1]
            }
        },
        None => options[0],
    }
}

// ── Texts of the player's arguments ──────────────────────────────────────────

/// The arguments joined by single spaces.
pub open spec fn joined(args: Seq<String>) -> Seq<char>
    decreases args.len(),
{
    if args.len() == 0 {
        Seq::empty()
    } else if args.len() == 1 {
        args[0]@
    } else {
        joined(args.drop_last()) + seq![' '] + args.last()@
    }
}

fn join_args(args: &Vec<String>) -> (r: Vec<char>)
    ensures
        r@ == joined(args@),
{
    let mut out: Vec<char> = Vec::new();
    let mut i: usize = 0;
    while i < args.len()
        invariant
            i <= args@.len(),
            out@ == joined(args@.take(i as int)),
        decreases args@.len() - i,
    {
        assert(args@.take(i + 1).drop_last() =~= args@.take(i as int));
        if i > 0 {
            out.push(' ');
        }
        text::extend_chars(&mut out, &text::to_chars(args[i].as_str()));
        i += 1;
    }
    assert(args@.take(args@.len() as int) =~= args@);
    out
}

/// Scanning a text for words: the words ended so far and the one being read.
pub open spec fn scan_words(s: Seq<char>) -> (Seq<Seq<char>>, Seq<char>)
    decreases s.len(),
{
    if s.len() == 0 {
        (Seq::empty(), Seq::empty())
    } else {
        let (done, cur) = scan_words(s.drop_last());
        let c = s.last();
        if text::is_whitespace(c) {
            if cur.len() > 0 {
                (done.push(cur), Seq::empty())
            } else {
                (done, cur)
            }
        } else {
            (done, cur.push(c))
        }
    }
}

/// The whitespace-separated words of a text, in order.
pub open spec fn words(s: Seq<char>) -> Seq<Seq<char>> {
    let (done, cur) = scan_words(s);
    if cur.len() > 0 {
        done.push(cur)
    } else {
        done
    }
}

fn split_words(s: &[char]) -> (r: Vec<String>)
    ensures
        r@.map_values(|w: String| w@) == words(s@),
{
    let mut done: Vec<String> = Vec::new();
    let mut cur: Vec<char> = Vec::new();
    let mut i: usize = 0;
    while i < s.len()
        invariant
            i <= s@.len(),
            (done@.map_values(|w: String| w@), cur@) == scan_words(s@.take(i as int)),
        decreases s@.len() - i,
    {
        assert(s@.take(i + 1).drop_last() =~= s@.take(i as int));
        let ghost before = done@;
        if text::is_whitespace_char(s[i]) {
            if cur.len() > 0 {
                done.push(text::from_chars(&cur));
                cur = Vec::new();
                assert(done@.map_values(|w: String| w@) =~= before.map_values(|w: String| w@).push(
                    done@.last()@,
                ));
            }
        } else {
            cur.push(s[i]);
        }
        i += 1;
    }
    assert(s@.take(s@.len() as int) =~= s@);
    if cur.len() > 0 {
        let ghost before = done@;
        done.push(text::from_chars(&cur));
        assert(done@.map_values(|w: String| w@) =~= before.map_values(|w: String| w@).push(cur@));
    }
    done
}

// ── Reading the configuration ────────────────────────────────────────────────

/// The custom color lists leave room for the swatch positions.
pub open spec fn customs_fit(c: Config) -> bool {
    &&& c.theme.accent_custom@.len() + PRESET_COUNT + 2 <= usize::MAX
    &&& c.theme.bar_progress_custom@.len() + PRESET_COUNT + 2 <= usize::MAX
    &&& c.theme.bar_complete_custom@.len() + PRESET_COUNT + 2 <= usize::MAX
}

fn customs_of(config: &Config, r: usize) -> (v: &Vec<String>)
    ensures
        v@ == customs(*config, r as nat),
{
    if r == 0 {
        &config.theme.accent_custom
    } else if r == 1 {
        &config.theme.bar_progress_custom
    } else {
        &config.theme.bar_complete_custom
    }
}

fn color_setting_of(config: &Config, r: usize) -> (v: &String)
    ensures
        v@ == color_setting(*config, r as nat),
{
    if r == 0 {
        &config.theme.accent
    } else if r == 1 {
        &config.theme.bar_progress
    } else {
        &config.theme.bar_complete
    }
}

/// The swatch of the color a row is set to.
fn color_position(config: &Config, r: usize) -> (v: usize)
    requires
        customs_fit(*config),
    ensures
        v as nat == position_of(*config, r as nat),
{
    let name = text::to_chars(color_setting_of(config, r).as_str());
    match find_str(&preset_list(), &name) {
        Some(i) => i,
        None => match find_string(customs_of(config, r), &name) {
            Some(j) => {
                proof {
                    lemma_index_in_bound(custom_views(*config, r as nat), name@);
                }
                PRESET_COUNT + j
            },
            None => 0,
        },
    }
}

// ── The category list ────────────────────────────────────────────────────────

/// The settings pane as the rows of a category are entered: the first row,
/// nothing typed, and each color cursor on the color in use.
pub open spec fn rows_entered(p0: SettingsPane, p1: SettingsPane, c: Config) -> bool {
    &&& p1 == SettingsPane {
        row: 0,
        editing: false,
        input: p1.input,
        error: None,
        accent_cursor: position_of(c, 0) as usize,
        progress_cursor: position_of(c, 1) as usize,
        complete_cursor: position_of(c, 2) as usize,
        ..p0
    }
    &&& p1.input@.len() == 0
}

/// What a key does in the category list: Up/`k` and Down/`j` move between
/// the categories, and Right/`l`, Tab and Enter enter the selected
/// category's rows. (Esc, which leaves the tab, is the caller's.)
pub open spec fn list_key_done(
    p0: SettingsPane,
    p1: SettingsPane,
    c: Config,
    f0: Focus,
    f1: Focus,
    kp: KeyPress,
) -> bool {
    match kp.key {
        Key::Up | Key::Char('k') => p1 == SettingsPane {
            category: if p0.category > 0 {
                (p0.category - 1) as usize
            } else {
                p0.category
            },
            row: 0,
            ..p0
        } && f1 == f0,
        Key::Down | Key::Char('j') => p1 == SettingsPane {
            category: if p0.category + 1 < CATEGORY_COUNT {
                (p0.category + 1) as usize
            } else {
                p0.category
            },
            row: 0,
            ..p0
        } && f1 == f0,
        Key::Right | Key::Char('l') | Key::Tab | Key::Enter => f1 == Focus::SettingsEdit
            && rows_entered(p0, p1, c),
        _ => p1 == p0 && f1 == f0,
    }
}

/// A key in the category list.
pub fn key_settings_list(pane: &mut SettingsPane, config: &Config, focus: &mut Focus, kp: KeyPress)
    requires
        customs_fit(*config),
    ensures
        list_key_done(*old(pane), *final(pane), *config, *old(focus), *final(focus), kp),
{
    match kp.key {
        Key::Up | Key::Char('k') => {
            if pane.category > 0 {
                pane.category = pane.category - 1;
            }
            pane.row = 0;
        },
        Key::Down | Key::Char('j') => {
            if pane.category < CATEGORY_COUNT - 1 {
                pane.category = pane.category + 1;
            }
            pane.row = 0;
        },
        Key::Right | Key::Char('l') | Key::Tab | Key::Enter => {
            *focus = Focus::SettingsEdit;
            pane.row = 0;
            pane.editing = false;
            pane.input = Vec::new();
            pane.error = None;
            pane.accent_cursor = color_position(config, 0);
            pane.progress_cursor = color_position(config, 1);
            pane.complete_cursor = color_position(config, 2);
        },
        _ => {},
    }
}

// ── Changing values ──────────────────────────────────────────────────────────

/// What Left/`h` (`forward` false) or Right/`l` (`forward` true) does to
/// the selected row: a text row cycles through its choices, the resume
/// offset steps by a second within 0 to 60, the page size toggles between
/// 25 and 50, and a color row moves its cursor a swatch, using the color
/// under it. A change is stored.
pub open spec fn value_changed(
    p0: SettingsPane,
    p1: SettingsPane,
    c0: Config,
    c1: Config,
    forward: bool,
    e0: Seq<Effect>,
    e1: Seq<Effect>,
) -> bool {
    let cat = p0.category as nat;
    let row = p0.row as nat;
    let saved = e1 == e0.push(Effect::SaveConfig);
    if row_options(cat, row).len() > 0 {
        &&& text_setting(c1, cat, row) == cycled(row_options(cat, row), text_setting(c0, cat, row), forward)
        &&& only_text_setting(c0, c1, cat, row)
        &&& p1 == p0 && saved
    } else if cat == 0 && row == 3 {
        let v = c0.player.resume_offset_secs;
        &&& c1.player.resume_offset_secs == if forward {
            if v < 60 {
                (v + 1) as u32
            } else {
                v
            }
        } else {
            if v > 0 {
                (v - 1) as u32
            } else {
                v
            }
        }
        &&& c1.player == PlayerConfig { resume_offset_secs: c1.player.resume_offset_secs, ..c0.player }
        &&& c1.ui == c0.ui && c1.theme == c0.theme
        &&& p1 == p0 && saved
    } else if cat == 2 && row == 1 {
        &&& c1.ui.results_limit == if c0.ui.results_limit == 25 {
            50usize
        } else {
            25usize
        }
        &&& c1.ui == UiConfig { results_limit: c1.ui.results_limit, ..c0.ui }
        &&& c1.player == c0.player && c1.theme == c0.theme
        &&& p1 == p0 && saved
    } else if cat == 1 && row < 3 {
        let cur = p0.cursor(row);
        let n = cell_count(c0, row);
        let next: usize = if forward {
            if cur + 1 < n {
                (cur + 1) as usize
            } else {
                cur
            }
        } else {
            if cur > 0 {
                (cur - 1) as usize
            } else {
                cur
            }
        };
        &&& p1 == p0.with_cursor(row, next)
        &&& match cell_color(c0, row, next as nat) {
            Some(color) => {
                &&& color_setting(c1, row) == color
                &&& customs(c1, row) == customs(c0, row)
                &&& only_color_row(c0, c1, row)
                &&& saved
            },
            None => c1 == c0 && e1 == e0,
        }
    } else {
        p1 == p0 && c1 == c0 && e1 == e0
    }
}

fn set_text_setting(config: &mut Config, category: usize, row: usize, v: &str)
    requires
        row_options(category as nat, row as nat).len() > 0,
    ensures
        text_setting(*final(config), category as nat, row as nat) == v@,
        only_text_setting(*old(config), *final(config), category as nat, row as nat),
{
    if category == 0 && row == 0 {
        config.player.stream_mode = v.to_owned();
    } else if category == 0 && row == 1 {
        config.player.quality = v.to_owned();
    } else if category == 0 && row == 2 {
        config.player.skip_segments = v.to_owned();
    } else if category == 2 && row == 0 {
        config.ui.image_protocol = v.to_owned();
    } else {
        config.ui.episode_cols = v.to_owned();
    }
}

fn text_setting_of(config: &Config, category: usize, row: usize) -> (v: &String)
    requires
        row_options(category as nat, row as nat).len() > 0,
    ensures
        v@ == text_setting(*config, category as nat, row as nat),
{
    if category == 0 && row == 0 {
        &config.player.stream_mode
    } else if category == 0 && row == 1 {
        &config.player.quality
    } else if category == 0 && row == 2 {
        &config.player.skip_segments
    } else if category == 2 && row == 0 {
        &config.ui.image_protocol
    } else {
        &config.ui.episode_cols
    }
}

fn set_row_color(config: &mut Config, r: usize, v: String)
    ensures
        color_setting(*final(config), r as nat) == v@,
        customs(*final(config), r as nat) == customs(*old(config), r as nat),
        only_color_row(*old(config), *final(config), r as nat),
{
    if r == 0 {
        config.theme.accent = v;
    } else if r == 1 {
        config.theme.bar_progress = v;
    } else {
        config.theme.bar_complete = v;
    }
}

fn change_value(pane: &mut SettingsPane, config: &mut Config, forward: bool, effects: &mut Vec<Effect>)
    requires
        customs_fit(*old(config)),
    ensures
        value_changed(
            *old(pane),
            *final(pane),
            *old(config),
            *final(config),
            forward,
            old(effects)@,
            final(effects)@,
        ),
{
    let cat = pane.category;
    let row = pane.row;
    let options = options_for(cat, row);
    if options.len() > 0 {
        let next = cycle_choice(&options, text_setting_of(config, cat, row).as_str(), forward);
        set_text_setting(config, cat, row, next);
        effects.push(Effect::SaveConfig);
    } else if cat == 0 && row == 3 {
        let v = config.player.resume_offset_secs;
        config.player.resume_offset_secs = if forward {
            if v < 60 {
                v + 1
            } else {
                v
            }
        } else {
            if v > 0 {
                v - 1
            } else {
                v
            }
        };
        effects.push(Effect::SaveConfig);
    } else if cat == 2 && row == 1 {
        config.ui.results_limit = if config.ui.results_limit == 25 {
            50
        } else {
            25
        };
        effects.push(Effect::SaveConfig);
    } else if cat == 1 && row < 3 {
        let cur = pane.cursor_at(row);
        let n = PRESET_COUNT + customs_of(config, row).len() + 1;
        let next = if forward {
            if cur < n - 1 {
                cur + 1
            } else {
                cur
            }
        } else {
            if cur > 0 {
                cur - 1
            } else {
                cur
            }
        };
        pane.set_cursor(row, next);
        if next < PRESET_COUNT {
            let presets = preset_list();
            let name = presets[next].to_owned();
            proof {
                assert(presets@.map_values(|s: &str| s@)[next as int] == presets@[next as int]@);
            }
            set_row_color(config, row, name);
            effects.push(Effect::SaveConfig);
        } else if next < PRESET_COUNT + customs_of(config, row).len() {
            let name = customs_of(config, row)[next - PRESET_COUNT].clone();
            set_row_color(config, row, name);
            effects.push(Effect::SaveConfig);
        }
    }
}

// ── Enter, Delete and typed values ───────────────────────────────────────────

/// The pane after typing stops: nothing typed and no complaint.
pub open spec fn typing_stopped(p0: SettingsPane, p1: SettingsPane) -> bool {
    p1 == SettingsPane { editing: false, input: p1.input, error: None, ..p0 } && p1.input@.len() == 0
}

/// What Enter does on the selected row: the player path and arguments rows
/// start typing from their current text, the add cell of a color row starts
/// typing a new color, and the reset row puts every setting back to its
/// default, stores it and says so.
pub open spec fn row_entered(
    p0: SettingsPane,
    p1: SettingsPane,
    c0: Config,
    c1: Config,
    e0: Seq<Effect>,
    e1: Seq<Effect>,
) -> bool {
    let cat = p0.category as nat;
    let row = p0.row as nat;
    if cat == 0 && (row == 4 || row == 5) {
        &&& p1 == SettingsPane { editing: true, input: p1.input, error: None, ..p0 }
        &&& p1.input@ == if row == 4 {
            c0.player.mpv_path@
        } else {
            joined(c0.player.extra_args@)
        }
        &&& c1 == c0 && e1 == e0
    } else if cat == 1 && row < 3 && p0.cursor(row) + 1 == cell_count(c0, row) {
        &&& p1 == SettingsPane { editing: true, input: p1.input, error: None, ..p0 }
        &&& p1.input@.len() == 0
        &&& c1 == c0 && e1 == e0
    } else if cat == 1 && row == 3 {
        &&& c1.is_default()
        &&& p1 == SettingsPane {
            accent_cursor: position_of(c1, 0) as usize,
            progress_cursor: position_of(c1, 1) as usize,
            complete_cursor: position_of(c1, 2) as usize,
            ..p0
        }
        &&& e1.len() == e0.len() + 2 && e1.take(e0.len() as int) == e0
        &&& e1[e0.len() as int] == Effect::SaveConfig
        &&& e1.last() matches Effect::Toast(ToastKind::Info, m) && m@ == "Settings reset to defaults"@
    } else {
        p1 == p0 && c1 == c0 && e1 == e0
    }
}

/// What Delete does on a color row whose cursor is on a custom color: the
/// color goes, the row falls back to its default color when it was using
/// it, and the change is stored.
pub open spec fn custom_deleted(
    p0: SettingsPane,
    p1: SettingsPane,
    c0: Config,
    c1: Config,
    e0: Seq<Effect>,
    e1: Seq<Effect>,
) -> bool {
    let cat = p0.category as nat;
    let row = p0.row as nat;
    let cur = p0.cursor(row) as nat;
    if cat == 1 && row < 3 && PRESET_COUNT <= cur < PRESET_COUNT + customs(c0, row).len() {
        let j = cur - PRESET_COUNT;
        let removed = customs(c0, row)[j]@;
        &&& customs(c1, row) == customs(c0, row).remove(j)
        &&& color_setting(c1, row) == if color_setting(c0, row) == removed {
            default_color(row)
        } else {
            color_setting(c0, row)
        }
        &&& only_color_row(c0, c1, row)
        &&& p1 == p0
        &&& e1 == e0.push(Effect::SaveConfig)
    } else {
        p1 == p0 && c1 == c0 && e1 == e0
    }
}

/// What Enter does while typing: the player path takes the trimmed text
/// unless it is blank, the player arguments take its words, and a color row
/// takes a valid custom color, adding it to the row's custom colors when it
/// is new and moving the cursor to it. A value taken is stored and typing
/// stops; a refused one is complained about and typing goes on.
pub open spec fn typed_committed(
    p0: SettingsPane,
    p1: SettingsPane,
    c0: Config,
    c1: Config,
    e0: Seq<Effect>,
    e1: Seq<Effect>,
) -> bool {
    let cat = p0.category as nat;
    let row = p0.row as nat;
    let t = text::trim(p0.input@);
    let saved = e1 == e0.push(Effect::SaveConfig);
    if cat == 0 && row == 4 {
        if t.len() > 0 {
            &&& c1.player.mpv_path@ == t
            &&& c1.player == PlayerConfig { mpv_path: c1.player.mpv_path, ..c0.player }
            &&& c1.ui == c0.ui && c1.theme == c0.theme
            &&& typing_stopped(p0, p1) && saved
        } else {
            &&& p1 == SettingsPane { error: p1.error, ..p0 }
            &&& p1.error matches Some(m) && m@ == "The player path cannot be empty"@
            &&& c1 == c0 && e1 == e0
        }
    } else if cat == 0 && row == 5 {
        &&& c1.player.extra_args@.map_values(|a: String| a@) == words(p0.input@)
        &&& c1.player == PlayerConfig { extra_args: c1.player.extra_args, ..c0.player }
        &&& c1.ui == c0.ui && c1.theme == c0.theme
        &&& typing_stopped(p0, p1) && saved
    } else if cat == 1 && row < 3 {
        if valid_custom_color(t) {
            let before = custom_views(c0, row);
            let after = if index_in(before, t) is Some {
                before
            } else {
                before.push(t)
            };
            &&& custom_views(c1, row) == after
            &&& color_setting(c1, row) == t
            &&& only_color_row(c0, c1, row)
            &&& typing_stopped(p0.with_cursor(row, (PRESET_COUNT + index_in(after, t)->0) as usize), p1)
            &&& saved
        } else {
            &&& p1 == SettingsPane { error: p1.error, ..p0 }
            &&& p1.error matches Some(m) && m@ == "Use #rrggbb, #rgb or r,g,b"@
            &&& c1 == c0 && e1 == e0
        }
    } else {
        typing_stopped(p0, p1) && c1 == c0 && e1 == e0
    }
}

fn enter_row(pane: &mut SettingsPane, config: &mut Config, effects: &mut Vec<Effect>)
    requires
        customs_fit(*old(config)),
    ensures
        row_entered(*old(pane), *final(pane), *old(config), *final(config), old(effects)@, final(effects)@),
        customs_fit(*final(config)),
{
    let cat = pane.category;
    let row = pane.row;
    if cat == 0 && (row == 4 || row == 5) {
        pane.input = if row == 4 {
            text::to_chars(config.player.mpv_path.as_str())
        } else {
            join_args(&config.player.extra_args)
        };
        pane.editing = true;
        pane.error = None;
    } else if cat == 1 && row < 3 && pane.cursor_at(row) == PRESET_COUNT + customs_of(config, row).len() {
        pane.input = Vec::new();
        pane.editing = true;
        pane.error = None;
    } else if cat == 1 && row == 3 {
        *config = Config::default();
        pane.accent_cursor = color_position(config, 0);
        pane.progress_cursor = color_position(config, 1);
        pane.complete_cursor = color_position(config, 2);
        let ghost e0 = effects@;
        effects.push(Effect::SaveConfig);
        effects.push(Effect::Toast(ToastKind::Info, "Settings reset to defaults".to_owned()));
        assert(effects@.take(e0.len() as int) =~= e0);
    }
}

fn remove_custom(config: &mut Config, r: usize, j: usize) -> (removed: String)
    requires
        j < customs(*old(config), r as nat).len(),
    ensures
        removed@ == customs(*old(config), r as nat)[j as int]@,
        customs(*final(config), r as nat) == customs(*old(config), r as nat).remove(j as int),
        color_setting(*final(config), r as nat) == color_setting(*old(config), r as nat),
        only_color_row(*old(config), *final(config), r as nat),
{
    if r == 0 {
        config.theme.accent_custom.remove(j)
    } else if r == 1 {
        config.theme.bar_progress_custom.remove(j)
    } else {
        config.theme.bar_complete_custom.remove(j)
    }
}

fn push_custom(config: &mut Config, r: usize, v: String)
    ensures
        customs(*final(config), r as nat) == customs(*old(config), r as nat).push(v),
        color_setting(*final(config), r as nat) == color_setting(*old(config), r as nat),
        only_color_row(*old(config), *final(config), r as nat),
{
    if r == 0 {
        config.theme.accent_custom.push(v);
    } else if r == 1 {
        config.theme.bar_progress_custom.push(v);
    } else {
        config.theme.bar_complete_custom.push(v);
    }
}

fn delete_custom(pane: &mut SettingsPane, config: &mut Config, effects: &mut Vec<Effect>)
    requires
        customs_fit(*old(config)),
    ensures
        custom_deleted(*old(pane), *final(pane), *old(config), *final(config), old(effects)@, final(effects)@),
        customs_fit(*final(config)),
{
    let cat = pane.category;
    let row = pane.row;
    if cat == 1 && row < 3 {
        let cur = pane.cursor_at(row);
        if PRESET_COUNT <= cur && cur < PRESET_COUNT + customs_of(config, row).len() {
            let ghost c0 = *config;
            let removed = remove_custom(config, row, cur - PRESET_COUNT);
            let in_use = text::eq_chars(
                &text::to_chars(color_setting_of(config, row).as_str()),
                &text::to_chars(removed.as_str()),
            );
            if in_use {
                let fallback = if row == 2 {
                    "Teal"
                } else {
                    "Yellow"
                };
                proof {
                    reveal_strlit("Teal");
                    reveal_strlit("Yellow");
                }
                set_row_color(config, row, fallback.to_owned());
                assert(only_color_row(c0, *config, row as nat));
            }
            effects.push(Effect::SaveConfig);
        }
    }
}

fn commit_typed(pane: &mut SettingsPane, config: &mut Config, effects: &mut Vec<Effect>)
    requires
        customs_fit(*old(config)),
    ensures
        typed_committed(*old(pane), *final(pane), *old(config), *final(config), old(effects)@, final(effects)@),
{
    let cat = pane.category;
    let row = pane.row;
    let t = text::trim_chars(&pane.input);
    if cat == 0 && row == 4 {
        if t.len() > 0 {
            config.player.mpv_path = text::from_chars(&t);
            pane.editing = false;
            pane.input = Vec::new();
            pane.error = None;
            effects.push(Effect::SaveConfig);
        } else {
            pane.error = Some("The player path cannot be empty".to_owned());
        }
    } else if cat == 0 && row == 5 {
        config.player.extra_args = split_words(&pane.input);
        pane.editing = false;
        pane.input = Vec::new();
        pane.error = None;
        effects.push(Effect::SaveConfig);
    } else if cat == 1 && row < 3 {
        let ts = text::from_chars(&t);
        if is_valid_custom_color(ts.as_str()) {
            let ghost c0 = *config;
            let j = match find_string(customs_of(config, row), &t) {
                Some(j) => {
                    proof {
                        lemma_index_in_bound(custom_views(c0, row as nat), t@);
                    }
                    j
                },
                None => {
                    let n = customs_of(config, row).len();
                    push_custom(config, row, text::from_chars(&t));
                    proof {
                        let before = custom_views(c0, row as nat);
                        assert(custom_views(*config, row as nat) =~= before.push(t@));
                        lemma_index_in_none_push(before, t@);
                    }
                    n
                },
            };
            set_row_color(config, row, ts);
            assert(only_color_row(c0, *config, row as nat));
            pane.set_cursor(row, PRESET_COUNT + j);
            pane.editing = false;
            pane.input = Vec::new();
            pane.error = None;
            effects.push(Effect::SaveConfig);
        } else {
            pane.error = Some("Use #rrggbb, #rgb or r,g,b".to_owned());
        }
    } else {
        pane.editing = false;
        pane.input = Vec::new();
        pane.error = None;
    }
}

proof fn lemma_index_in_none_push(s: Seq<Seq<char>>, v: Seq<char>)
    requires
        index_in(s, v) is None,
    ensures
        index_in(s.push(v), v) == Some(s.len()),
{
    assert(s.push(v).drop_last() =~= s);
}

// ── The rows ─────────────────────────────────────────────────────────────────

/// What a key does among the rows of a category. While typing, characters
/// are added and Backspace removes the last one (clearing any complaint),
/// Enter takes the text and Esc stops typing. Otherwise Up/`k` and Down/`j`
/// move between the rows, Left/`h` and Right/`l` change the value,
/// Ctrl+Left and Esc go back to the category list, Enter and Delete do what
/// `row_entered` and `custom_deleted` say. Nothing else changes.
pub open spec fn rows_key_done(
    p0: SettingsPane,
    p1: SettingsPane,
    c0: Config,
    c1: Config,
    f0: Focus,
    f1: Focus,
    kp: KeyPress,
    e0: Seq<Effect>,
    e1: Seq<Effect>,
) -> bool {
    let same = p1 == p0 && c1 == c0 && f1 == f0 && e1 == e0;
    if p0.editing {
        match kp.key {
            Key::Char(ch) => p1.input@ == p0.input@.push(ch) && p1 == SettingsPane {
                input: p1.input,
                error: None,
                ..p0
            } && c1 == c0 && f1 == f0 && e1 == e0,
            Key::Backspace => p1.input@ == (if p0.input@.len() > 0 {
                p0.input@.drop_last()
            } else {
                p0.input@
            }) && p1 == SettingsPane { input: p1.input, error: None, ..p0 } && c1 == c0 && f1 == f0
                && e1 == e0,
            Key::Esc => typing_stopped(p0, p1) && c1 == c0 && f1 == f0 && e1 == e0,
            Key::Enter => typed_committed(p0, p1, c0, c1, e0, e1) && f1 == f0,
            _ => same,
        }
    } else {
        match kp.key {
            Key::Up | Key::Char('k') => p1 == SettingsPane {
                row: if p0.row > 0 {
                    (p0.row - 1) as usize
                } else {
                    p0.row
                },
                ..p0
            } && c1 == c0 && f1 == f0 && e1 == e0,
            Key::Down | Key::Char('j') => p1 == SettingsPane {
                row: if p0.row + 1 < rows_in(p0.category as nat) {
                    (p0.row + 1) as usize
                } else {
                    p0.row
                },
                ..p0
            } && c1 == c0 && f1 == f0 && e1 == e0,
            Key::Left if kp.ctrl => f1 == Focus::SettingsList && p1 == p0 && c1 == c0 && e1 == e0,
            Key::Left | Key::Char('h') => value_changed(p0, p1, c0, c1, false, e0, e1) && f1 == f0,
            Key::Right | Key::Char('l') => value_changed(p0, p1, c0, c1, true, e0, e1) && f1 == f0,
            Key::Enter => row_entered(p0, p1, c0, c1, e0, e1) && f1 == f0,
            Key::Delete => custom_deleted(p0, p1, c0, c1, e0, e1) && f1 == f0,
            Key::Esc => f1 == Focus::SettingsList && p1 == p0 && c1 == c0 && e1 == e0,
            _ => same,
        }
    }
}

/// A key among the rows of a category.
pub fn key_settings_rows(
    pane: &mut SettingsPane,
    config: &mut Config,
    focus: &mut Focus,
    kp: KeyPress,
    effects: &mut Vec<Effect>,
)
    requires
        customs_fit(*old(config)),
        old(pane).input@.len() < usize::MAX,
        old(pane).row < usize::MAX,
    ensures
        rows_key_done(
            *old(pane),
            *final(pane),
            *old(config),
            *final(config),
            *old(focus),
            *final(focus),
            kp,
            old(effects)@,
            final(effects)@,
        ),
{
    if pane.editing {
        match kp.key {
            Key::Char(ch) => {
                pane.input.push(ch);
                pane.error = None;
            },
            Key::Backspace => {
                if pane.input.len() > 0 {
                    pane.input.pop();
                }
                pane.error = None;
            },
            Key::Esc => {
                pane.editing = false;
                pane.input = Vec::new();
                pane.error = None;
            },
            Key::Enter => commit_typed(pane, config, effects),
            _ => {},
        }
    } else {
        match kp.key {
            Key::Up | Key::Char('k') => {
                if pane.row > 0 {
                    pane.row = pane.row - 1;
                }
            },
            Key::Down | Key::Char('j') => {
                if pane.row + 1 < rows_in_exec(pane.category) {
                    pane.row = pane.row + 1;
                }
            },
            Key::Left if kp.ctrl => {
                *focus = Focus::SettingsList;
            },
            Key::Left | Key::Char('h') => change_value(pane, config, false, effects),
            Key::Right | Key::Char('l') => change_value(pane, config, true, effects),
            Key::Enter => enter_row(pane, config, effects),
            Key::Delete => delete_custom(pane, config, effects),
            Key::Esc => {
                *focus = Focus::SettingsList;
            },
            _ => {},
        }
    }
}

// ── Laws ─────────────────────────────────────────────────────────────────────

/// No text occurs twice.
pub open spec fn distinct_texts(s: Seq<Seq<char>>) -> bool {
    forall|i: int, j: int| 0 <= i < j < s.len() ==> #[trigger] s[i] != #[trigger] s[j]
}

proof fn lemma_index_in_distinct(s: Seq<Seq<char>>, k: int)
    requires
        distinct_texts(s),
        0 <= k < s.len(),
    ensures
        index_in(s, s[k]) == Some(k as nat),
    decreases s.len(),
{
    let t = s.drop_last();
    assert(distinct_texts(t)) by {
        assert forall|i: int, j: int| 0 <= i < j < t.len() implies #[trigger] t[i] != #[trigger] t[j] by {
            assert(t[i] == s[i] && t[j] == s[j]);
        }
    }
    if k < s.len() - 1 {
        assert(t[k] == s[k]);
        lemma_index_in_distinct(t, k);
    } else {
        lemma_index_in_bound(t, s[k]);
        if index_in(t, s[k]) is Some {
            let i = index_in(t, s[k])->0 as int;
            assert(t[i] == s[i]);
            assert(s[i] != s[k]);
        }
    }
}

proof fn lemma_options_distinct(category: nat, row: nat)
    ensures
        distinct_texts(row_options(category, row)),
{
    reveal_strlit("sub");
    reveal_strlit("dub");
    reveal_strlit("best");
    reveal_strlit("1080");
    reveal_strlit("720");
    reveal_strlit("480");
    reveal_strlit("none");
    reveal_strlit("intro");
    reveal_strlit("outro");
    reveal_strlit("both");
    reveal_strlit("auto");
    reveal_strlit("kitty");
    reveal_strlit("halfblock");
    reveal_strlit("2");
    reveal_strlit("3");
    let s = row_options(category, row);
    assert forall|i: int, j: int| 0 <= i < j < s.len() implies #[trigger] s[i] != #[trigger] s[j] by {
        assert(s[i][0] != s[j][0] || s[i].len() != s[j].len() || s[i][1] != s[j][1]);
    }
}

/// Left undoes Right on a row that cycles through texts: stepping a choice
/// forward and then back gives it again.
pub proof fn lemma_left_undoes_right(category: nat, row: nat, v: Seq<char>)
    requires
        index_in(row_options(category, row), v) is Some,
    ensures
        cycled(row_options(category, row), cycled(row_options(category, row), v, true), false) == v,
{
    let s = row_options(category, row);
    let n = s.len() as int;
    lemma_options_distinct(category, row);
    lemma_index_in_bound(s, v);
    let i = index_in(s, v)->0 as int;
    let k = (i + 1) % n;
    assert(0 <= k < n);
    lemma_index_in_distinct(s, k);
    assert((k + n - 1) % n == i) by (nonlinear_arith)
        requires
            0 <= i < n,
            k == (i + 1) % n,
    ;
}

/// Right undoes Left on a row that cycles through texts.
pub proof fn lemma_right_undoes_left(category: nat, row: nat, v: Seq<char>)
    requires
        index_in(row_options(category, row), v) is Some,
    ensures
        cycled(row_options(category, row), cycled(row_options(category, row), v, false), true) == v,
{
    let s = row_options(category, row);
    let n = s.len() as int;
    lemma_options_distinct(category, row);
    lemma_index_in_bound(s, v);
    let i = index_in(s, v)->0 as int;
    let k = (i + n - 1) % n;
    assert(0 <= k < n) by (nonlinear_arith)
        requires
            0 <= i < n,
            k == (i + n - 1) % n,
    ;
    lemma_index_in_distinct(s, k);
    assert((k + 1) % n == i) by (nonlinear_arith)
        requires
            0 <= i < n,
            k == (i + n - 1) % n,
    ;
}

} // verus!
