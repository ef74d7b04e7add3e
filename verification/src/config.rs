//! The user's configuration: its defaults, what loading it yields, and the
//! colors its theme names.

use vstd::prelude::*;
use vstd::string::StringSliceAdditionalSpecFns;
use vstd::utf8::{encode_utf8, is_char_boundary};
use crate::text;

verus! {

/// How the player is run.
#[derive(Debug, Clone)]
pub struct PlayerConfig {
    pub mpv_path: String,
    pub extra_args: Vec<String>,
    pub stream_mode: String,
    pub quality: String,
    pub skip_segments: String,
    /// Seconds to rewind when resuming, 0 to 60.
    pub resume_offset_secs: u32,
}

/// How the interface looks.
#[derive(Debug, Clone)]
pub struct UiConfig {
    /// `auto`, `kitty` or `halfblock`.
    pub image_protocol: String,
    pub results_limit: usize,
    /// `auto`, `2` or `3`.
    pub episode_cols: String,
}

/// The color theme: preset names or custom colors, and the custom colors
/// entered before.
#[derive(Debug, Clone)]
pub struct ThemeConfig {
    pub accent: String,
    pub bar_progress: String,
    pub bar_complete: String,
    pub accent_custom: Vec<String>,
    pub bar_progress_custom: Vec<String>,
    pub bar_complete_custom: Vec<String>,
}

/// The whole configuration.
#[derive(Debug, Clone)]
pub struct Config {
    pub player: PlayerConfig,
    pub ui: UiConfig,
    pub theme: ThemeConfig,
}

impl PlayerConfig {
    /// The default player settings.
    pub open spec fn is_default(&self) -> bool {
        &&& self.mpv_path@ == "mpv"@
        &&& self.extra_args@.len() == 1
        &&& self.extra_args@[0]@ == "--no-terminal"@
        &&& self.stream_mode@ == "sub"@
        &&& self.quality@ == "best"@
        &&& self.skip_segments@ == "none"@
        &&& self.resume_offset_secs == 5
    }
}

impl UiConfig {
    /// The default interface settings.
    pub open spec fn is_default(&self) -> bool {
        &&& self.image_protocol@ == "auto"@
        &&& self.results_limit == 25
        &&& self.episode_cols@ == "auto"@
    }
}

impl ThemeConfig {
    /// The default theme.
    pub open spec fn is_default(&self) -> bool {
        &&& self.accent@ == "Yellow"@
        &&& self.bar_progress@ == "Yellow"@
        &&& self.bar_complete@ == "Teal"@
        &&& self.accent_custom@.len() == 0
        &&& self.bar_progress_custom@.len() == 0
        &&& self.bar_complete_custom@.len() == 0
    }
}

impl Config {
    /// The default configuration.
    pub open spec fn is_default(&self) -> bool {
        self.player.is_default() && self.ui.is_default() && self.theme.is_default()
    }
}

impl Default for PlayerConfig {
    fn default() -> (r: Self)
        ensures
            r.is_default(),
    {
        let mut extra_args: Vec<String> = Vec::new();
        extra_args.push("--no-terminal".to_owned());
        PlayerConfig {
            mpv_path: "mpv".to_owned(),
            extra_args,
            stream_mode: "sub".to_owned(),
            quality: "best".to_owned(),
            skip_segments: "none".to_owned(),
            resume_offset_secs: 5,
        }
    }
}

impl Default for UiConfig {
    fn default() -> (r: Self)
        ensures
            r.is_default(),
    {
        UiConfig {
            image_protocol: "auto".to_owned(),
            results_limit: 25,
            episode_cols: "auto".to_owned(),
        }
    }
}

impl Default for ThemeConfig {
    fn default() -> (r: Self)
        ensures
            r.is_default(),
    {
        ThemeConfig {
            accent: "Yellow".to_owned(),
            bar_progress: "Yellow".to_owned(),
            bar_complete: "Teal".to_owned(),
            accent_custom: Vec::new(),
            bar_progress_custom: Vec::new(),
            bar_complete_custom: Vec::new(),
        }
    }
}

impl Default for Config {
    fn default() -> (r: Self)
        ensures
            r.is_default(),
    {
        Config { player: PlayerConfig::default(), ui: UiConfig::default(), theme: ThemeConfig::default() }
    }
}

/// What reading the configuration file gave.
pub enum StoredConfig {
    /// There is no configuration file.
    Missing,
    /// The file was read and parsed.
    Parsed(Config),
    /// The file could not be read or parsed.
    Unreadable,
}

impl Config {
    /// The configuration in effect: the stored one when it was read and
    /// parsed, the default otherwise.
    pub fn load(stored: StoredConfig) -> (r: Config)
        ensures
            match stored {
                StoredConfig::Parsed(c) => r == c,
                _ => r.is_default(),
            },
    {
        match stored {
            StoredConfig::Parsed(c) => c,
            _ => Config::default(),
        }
    }

    /// The sample configuration to write, if there is no configuration file
    /// yet: the default one.
    pub fn write_sample(exists: bool) -> (r: Option<Config>)
        ensures
            r is Some == !exists,
            r matches Some(c) ==> c.is_default(),
    {
        if exists {
            None
        } else {
            Some(Config::default())
        }
    }
}

// ── Colors ───────────────────────────────────────────────────────────────────

/// The named color presets, in the order the settings cycle through them.
pub fn color_preset_names() -> (r: Vec<&'static str>)
    ensures
        r@.len() == 10,
        r@[0]@ == "Yellow"@ && r@[1]@ == "Cyan"@ && r@[2]@ == "Green"@ && r@[3]@ == "Teal"@
            && r@[4]@ == "Orange"@ && r@[5]@ == "Pink"@ && r@[6]@ == "Purple"@ && r@[7]@
            == "Red"@ && r@[8]@ == "White"@ && r@[9]@ == "Custom"@,
{
    let mut v: Vec<&'static str> = Vec::new();
    v.push("Yellow");
    v.push("Cyan");
    v.push("Green");
    v.push("Teal");
    v.push("Orange");
    v.push("Pink");
    v.push("Purple");
    v.push("Red");
    v.push("White");
    v.push("Custom");
    v
}

/// The color of a named preset.
pub open spec fn preset_rgb(name: Seq<char>) -> Option<(u8, u8, u8)> {
    if name == "Yellow"@ {
        Some((255, 255, 0))
    } else if name == "Cyan"@ {
        Some((0, 220, 255))
    } else if name == "Green"@ {
        Some((0, 255, 128))
    } else if name == "Orange"@ {
        Some((255, 140, 0))
    } else if name == "Pink"@ {
        Some((255, 80, 180))
    } else if name == "Purple"@ {
        Some((160, 80, 255))
    } else if name == "Teal"@ {
        Some((0, 200, 150))
    } else if name == "Red"@ {
        Some((255, 60, 60))
    } else if name == "White"@ {
        Some((220, 220, 220))
    } else {
        None
    }
}

/// A custom color's text: trimmed, with leading `#` removed.
pub open spec fn color_text(s: Seq<char>) -> Seq<char> {
    text::trim_start_matches(text::trim(s), "#"@)
}

/// A color text whose hexadecimal digit pairs can be cut out of it: when it
/// is six bytes long, its pairs start on character boundaries, and when it
/// is three bytes long, it is three characters.
pub open spec fn color_text_splittable(t: Seq<char>) -> bool {
    let b = encode_utf8(t);
    &&& b.len() == 6 ==> is_char_boundary(b, 2) && is_char_boundary(b, 4)
    &&& b.len() == 3 ==> t.len() == 3
}

/// A component written in hexadecimal.
pub open spec fn hex_component(d: Seq<char>) -> Option<u8> {
    match text::parse_unsigned(d, 16, 255) {
        Some(v) => Some(v as u8),
        None => None,
    }
}

/// A component written in decimal, surrounding whitespace allowed.
pub open spec fn decimal_component(d: Seq<char>) -> Option<u8> {
    match text::parse_unsigned(text::trim(d), 10, 255) {
        Some(v) => Some(v as u8),
        None => None,
    }
}

pub open spec fn all_three(
    r: Option<u8>,
    g: Option<u8>,
    b: Option<u8>,
) -> Option<(u8, u8, u8)> {
    match (r, g, b) {
        (Some(r), Some(g), Some(b)) => Some((r, g, b)),
        _ => None,
    }
}

/// The hexadecimal reading of a custom color text: six bytes are `rrggbb`
/// (when all six are ASCII), three bytes are `rgb`, each digit doubled;
/// anything else, or a digit that is not hexadecimal, has none.
pub open spec fn hex_color(t: Seq<char>) -> Option<(u8, u8, u8)> {
    let n = encode_utf8(t).len();
    if n == 6 && t.len() == 6 {
        all_three(
            hex_component(t.subrange(0, 2)),
            hex_component(t.subrange(2, 4)),
            hex_component(t.subrange(4, 6)),
        )
    } else if n == 3 && t.len() == 3 {
        all_three(
            hex_component(seq![t[0], t[0]]),
            hex_component(seq![t[1], t[1]]),
            hex_component(seq![t[2], t[2]]),
        )
    } else {
        None
    }
}

/// The comma reading of a custom color text: `r,g,b` (or with more fields)
/// in decimal.
pub open spec fn comma_color(t: Seq<char>) -> Option<(u8, u8, u8)> {
    let parts = text::split(t, ","@);
    if parts.len() >= 3 {
        all_three(
            decimal_component(parts[0]),
            decimal_component(parts[1]),
            decimal_component(parts[2]),
        )
    } else {
        None
    }
}

/// The color a custom color text gives: its hexadecimal reading, else its
/// comma reading.
pub open spec fn parsed_color(t: Seq<char>) -> Option<(u8, u8, u8)> {
    match hex_color(t) {
        Some(c) => Some(c),
        None => comma_color(t),
    }
}

/// The color a theme entry names: a preset, else a custom color, else
/// yellow.
pub open spec fn color_of(name: Seq<char>) -> (u8, u8, u8) {
    match preset_rgb(name) {
        Some(c) => c,
        None => match parsed_color(color_text(name)) {
            Some(c) => c,
            None => (255, 255, 0),
        },
    }
}

fn hex_component_exec(d: &[char]) -> (r: Option<u8>)
    ensures
        r == hex_component(d@),
{
    match text::parse_unsigned_chars(d, 16, 255) {
        Some(v) => Some(v as u8),
        None => None,
    }
}

fn decimal_component_exec(d: &[char]) -> (r: Option<u8>)
    ensures
        r == decimal_component(d@),
{
    match text::parse_unsigned_chars(&text::trim_chars(d), 10, 255) {
        Some(v) => Some(v as u8),
        None => None,
    }
}

fn all_three_exec(r: Option<u8>, g: Option<u8>, b: Option<u8>) -> (c: Option<(u8, u8, u8)>)
    ensures
        c == all_three(r, g, b),
{
    match (r, g, b) {
        (Some(r), Some(g), Some(b)) => Some((r, g, b)),
        _ => None,
    }
}

/// Parses a custom color: `#rrggbb`, `rrggbb`, `#rgb`, `rgb`, or `r,g,b`
/// (a fourth field is ignored); a text that does not read as hexadecimal
/// is read in the comma form.
pub fn parse_custom_color(s: &str) -> (r: Option<(u8, u8, u8)>)
    requires
        color_text_splittable(color_text(s@)),
    ensures
        r == parsed_color(color_text(s@)),
{
    proof {
        reveal_strlit("#");
        reveal_strlit(",");
    }
    let t = text::trim_start_matches_chars(&text::trim_chars(&text::to_chars(s)), &text::to_chars("#"));
    let ts = text::from_chars(&t);
    let n = ts.as_str().as_bytes().len();
    let hex = if n == 6 && t.len() == 6 {
        let r = hex_component_exec(&text::sub_chars(&t, 0, 2));
        let g = hex_component_exec(&text::sub_chars(&t, 2, 4));
        let b = hex_component_exec(&text::sub_chars(&t, 4, 6));
        all_three_exec(r, g, b)
    } else if n == 3 && t.len() == 3 {
        let r = hex_component_exec(&[t[0], t[0]]);
        let g = hex_component_exec(&[t[1], t[1]]);
        let b = hex_component_exec(&[t[2], t[2]]);
        assert([t[0], t[0]]@ =~= seq![t@[0], t@[0]]);
        assert([t[1], t[1]]@ =~= seq![t@[1], t@[1]]);
        assert([t[2], t[2]]@ =~= seq![t@[2], t@[2]]);
        all_three_exec(r, g, b)
    } else {
        None
    };
    if hex.is_some() {
        return hex;
    }
    let parts = text::split_chars(&t, &text::to_chars(","));
    let ghost pv = parts@.map_values(|v: Vec<char>| v@);
    if parts.len() >= 3 {
        assert(pv[0] == parts@[0]@ && pv[1] == parts@[1]@ && pv[2] == parts@[2]@);
        let r = decimal_component_exec(&parts[0]);
        let g = decimal_component_exec(&parts[1]);
        let b = decimal_component_exec(&parts[2]);
        all_three_exec(r, g, b)
    } else {
        None
    }
}

impl Config {
    /// The color of a theme entry: a preset name, else a custom color,
    /// else yellow.
    pub fn color_rgb(name: &str) -> (r: (u8, u8, u8))
        requires
            preset_rgb(name@) is None ==> color_text_splittable(color_text(name@)),
        ensures
            r == color_of(name@),
    {
        let n = text::to_chars(name);
        if text::eq_chars(&n, &text::to_chars("Yellow")) {
            (255, 255, 0)
        } else if text::eq_chars(&n, &text::to_chars("Cyan")) {
            (0, 220, 255)
        } else if text::eq_chars(&n, &text::to_chars("Green")) {
            (0, 255, 128)
        } else if text::eq_chars(&n, &text::to_chars("Orange")) {
            (255, 140, 0)
        } else if text::eq_chars(&n, &text::to_chars("Pink")) {
            (255, 80, 180)
        } else if text::eq_chars(&n, &text::to_chars("Purple")) {
            (160, 80, 255)
        } else if text::eq_chars(&n, &text::to_chars("Teal")) {
            (0, 200, 150)
        } else if text::eq_chars(&n, &text::to_chars("Red")) {
            (255, 60, 60)
        } else if text::eq_chars(&n, &text::to_chars("White")) {
            (220, 220, 220)
        } else {
            match parse_custom_color(name) {
                Some(c) => c,
                None => (255, 255, 0),
            }
        }
    }

    /// The accent color a theme entry names.
    pub fn accent_rgb(accent: &str) -> (r: (u8, u8, u8))
        requires
            preset_rgb(accent@) is None ==> color_text_splittable(color_text(accent@)),
        ensures
            r == color_of(accent@),
    {
        Config::color_rgb(accent)
    }
}

/// Whether a name is one of the color presets.
pub fn is_preset_name(name: &str) -> (r: bool)
    ensures
        r == preset_rgb(name@) is Some,
{
    let n = text::to_chars(name);
    text::eq_chars(&n, &text::to_chars("Yellow")) || text::eq_chars(&n, &text::to_chars("Cyan"))
        || text::eq_chars(&n, &text::to_chars("Green")) || text::eq_chars(
        &n,
        &text::to_chars("Orange"),
    ) || text::eq_chars(&n, &text::to_chars("Pink")) || text::eq_chars(
        &n,
        &text::to_chars("Purple"),
    ) || text::eq_chars(&n, &text::to_chars("Teal")) || text::eq_chars(&n, &text::to_chars("Red"))
        || text::eq_chars(&n, &text::to_chars("White"))
}

/// Whether the digit pairs of a custom color's text can be cut out of it.
pub fn color_text_can_split(name: &str) -> (r: bool)
    ensures
        r == color_text_splittable(color_text(name@)),
{
    proof {
        reveal_strlit("#");
    }
    let n = text::to_chars(name);
    let t = text::trim_start_matches_chars(&text::trim_chars(&n), &text::to_chars("#"));
    let ts = text::from_chars(&t);
    let b = ts.as_str().as_bytes().len();
    if b == 6 {
        ts.as_str().is_char_boundary(2) && ts.as_str().is_char_boundary(4)
    } else if b == 3 {
        t.len() == 3
    } else {
        true
    }
}

/// Whether a theme entry can be read: a preset name, or a custom color
/// text whose digit pairs can be cut out of it.
pub fn color_name_accepted(name: &str) -> (r: bool)
    ensures
        r == (preset_rgb(name@) is None ==> color_text_splittable(color_text(name@))),
{
    is_preset_name(name) || color_text_can_split(name)
}

/// A custom color a user may add: not a preset name, and a text that
/// parses as a color.
pub open spec fn valid_custom_color(t: Seq<char>) -> bool {
    &&& preset_rgb(t) is None
    &&& color_text_splittable(color_text(t))
    &&& parsed_color(color_text(t)) is Some
}

/// Whether a text is a custom color a user may add.
pub fn is_valid_custom_color(t: &str) -> (r: bool)
    ensures
        r == valid_custom_color(t@),
{
    !is_preset_name(t) && color_text_can_split(t) && parse_custom_color(t).is_some()
}

} // verus!
