//! The state the interface keeps, and what each key and each background
//! result does to it. Work that leaves the process (fetching, the database,
//! images, the player) is handed back as effects for the caller to perform.

use vstd::prelude::*;
use crate::api::ContentItem;
use crate::app::{Tab, Focus, Direction, ToastKind, CachedDetail, move_pane, pane_after};
use crate::app::cache::{Lru, value_of, after_add, after_put};
use crate::app::settings::{
    SettingsPane, customs_fit, list_key_done, rows_key_done, key_settings_list, key_settings_rows,
    PRESET_COUNT,
};
use crate::config::Config;
use crate::text;

verus! {

// ── Keys and effects ─────────────────────────────────────────────────────────

/// A key, as the terminal reports it.
#[derive(Debug, Clone, Copy, PartialEq, Eq, Structural)]
pub enum Key {
    Char(char),
    Up,
    Down,
    Left,
    Right,
    Enter,
    Esc,
    Tab,
    Backspace,
    Delete,
    Home,
    End,
    PageUp,
    PageDown,
    F(u8),
    Other,
}

/// A key and whether Ctrl was held.
#[derive(Debug, Clone, Copy, PartialEq, Eq, Structural)]
pub struct KeyPress {
    pub key: Key,
    pub ctrl: bool,
}

/// Work for the caller.
pub enum Effect {
    /// Search for the query; page 1 replaces the results, a later page adds
    /// to them. `gen` tells the answer to the latest page-1 search apart.
    Search { query: String, page: u32, gen: u64 },
    /// Show the result at this index in the detail pane: its cover, and the
    /// per-episode progress of it.
    LoadDetail(usize),
    /// Fetch the episode list of the item with this id.
    FetchEpisodeList(String),
    /// Fetch the covers of the results in `start..end`.
    PrefetchImages { start: usize, end: usize },
    /// Fetch the episode lists of the results in `start..end` that are not
    /// cached.
    PrefetchEpisodeLists { start: usize, end: usize },
    /// Forget the cover in the detail pane.
    ClearCover,
    /// Forget the cover in the history pane.
    ClearHistoryCover,
    /// Forget the per-episode records loaded for the history episode list.
    ClearHistoryRecords,
    /// Forget the per-episode records loaded for the selected anime.
    ClearAnimeRecords,
    /// Load the per-episode records of the history entry at `entry` for the
    /// episodes in `start..end` of its list; `now` asks for them before the
    /// next frame.
    LoadEpisodeWindow { entry: usize, start: usize, end: usize, now: bool },
    /// Decode a fetched cover for the item with this id.
    DecodeImage { item_id: String, bytes: Vec<u8> },
    /// Fetch the episode list of the history entry at this index.
    FetchHistoryEpisodes(usize),
    /// Remove the entry at this index of the history from the store and the
    /// list the caller keeps beside this state.
    RemoveHistory(usize),
    /// Resolve and play an episode of the selected item; `key` is the episode
    /// as typed.
    PlayEpisode { episode: u32, key: String },
    /// Play an episode of the history entry at `entry`; `stream_episode` is
    /// the episode number to resolve, `progress` the number to record (0 for
    /// none).
    PlayFromHistory { entry: usize, episode_key: String, stream_episode: u32, progress: u32 },
    /// Show a toast.
    Toast(ToastKind, String),
    /// Store the configuration, which changed, and redraw with its colors.
    SaveConfig,
}

// ── The state ────────────────────────────────────────────────────────────────

/// The search bar: its text and the cursor, a character position.
pub struct SearchBar {
    pub input: Vec<char>,
    pub cursor: usize,
}

/// The search in progress.
pub struct Searching {
    pub active: bool,
    /// Counts page-1 searches, so that stale answers are dropped.
    pub gen: u64,
    pub page: u32,
}

/// The results and the selected item.
pub struct Results {
    pub items: Vec<ContentItem>,
    pub idx: usize,
    pub has_more: bool,
    pub selected: Option<ContentItem>,
    pub detail_scroll: u16,
}

/// A history entry as the interface uses it.
pub struct HistoryItem {
    pub id: String,
    pub title: String,
    /// The last watched episode number.
    pub progress: Option<u32>,
}

/// The history tab.
pub struct HistoryPane {
    pub entries: Vec<HistoryItem>,
    pub idx: usize,
    pub filter: Vec<char>,
    /// Indices of the entries that match the filter, in order.
    pub filtered: Vec<usize>,
    pub episodes: Vec<String>,
    pub episode_idx: usize,
    pub episodes_loading: bool,
    pub window_start: usize,
    pub window_end: usize,
    /// Columns of the episode grid, as last drawn.
    pub cols: usize,
}

/// The episode prompt of the anime tab.
pub struct Prompt {
    pub input: Vec<char>,
    pub cursor: usize,
    /// `sub` or `dub`.
    pub mode: String,
    /// `best`, `1080`, `720` or `480`.
    pub quality: String,
    pub episodes: Vec<String>,
    pub idx: usize,
    /// Columns of the episode grid, as last drawn.
    pub cols: usize,
}

// ── Text helpers ─────────────────────────────────────────────────────────────

fn push_str(out: &mut Vec<char>, s: &str)
    ensures
        final(out)@ == old(out)@ + s@,
{
    text::extend_chars(out, &text::to_chars(s));
}

// ── The search bar ───────────────────────────────────────────────────────────

/// What an editing key does to a text and its cursor: characters go in at
/// the cursor, Backspace and Delete remove the character before and at it,
/// and the arrows, Home and End move it.
pub open spec fn edited(input: Seq<char>, cursor: nat, k: Key) -> (Seq<char>, nat) {
    match k {
        Key::Char(c) => (input.insert(cursor as int, c), cursor + 1),
        Key::Backspace => if cursor > 0 {
            (input.remove(cursor - 1), (cursor - 1) as nat)
        } else {
            (input, cursor)
        },
        Key::Delete => if cursor < input.len() {
            (input.remove(cursor as int), cursor)
        } else {
            (input, cursor)
        },
        Key::Left => if cursor > 0 {
            (input, (cursor - 1) as nat)
        } else {
            (input, cursor)
        },
        Key::Right => if cursor < input.len() {
            (input, cursor + 1)
        } else {
            (input, cursor)
        },
        Key::Home => (input, 0),
        Key::End => (input, input.len()),
        _ => (input, cursor),
    }
}

impl SearchBar {
    /// The cursor is within the text.
    pub open spec fn wf(&self) -> bool {
        self.cursor <= self.input@.len()
    }

    /// Applies an editing key.
    pub fn edit(&mut self, k: Key)
        requires
            old(self).wf(),
            old(self).input@.len() < usize::MAX,
        ensures
            final(self).wf(),
            (final(self).input@, final(self).cursor as nat) == edited(
                old(self).input@,
                old(self).cursor as nat,
                k,
            ),
    {
        match k {
            Key::Char(c) => {
                self.input.insert(self.cursor, c);
                self.cursor = self.cursor + 1;
            },
            Key::Backspace => {
                if self.cursor > 0 {
                    self.cursor = self.cursor - 1;
                    self.input.remove(self.cursor);
                }
            },
            Key::Delete => {
                if self.cursor < self.input.len() {
                    self.input.remove(self.cursor);
                }
            },
            Key::Left => {
                if self.cursor > 0 {
                    self.cursor = self.cursor - 1;
                }
            },
            Key::Right => {
                if self.cursor < self.input.len() {
                    self.cursor = self.cursor + 1;
                }
            },
            Key::Home => {
                self.cursor = 0;
            },
            Key::End => {
                self.cursor = self.input.len();
            },
            _ => {},
        }
    }
}

// ── Searching ────────────────────────────────────────────────────────────────

/// The status line while a search runs.
pub open spec fn searching_status(query: Seq<char>, page: nat) -> Seq<char> {
    if page == 1 {
        "Searching \""@ + query + "\"…"@
    } else {
        "Loading page "@ + text::decimal(page) + "…"@
    }
}

/// What starting a search at a page does, from the search text: nothing
/// when the text is blank; otherwise the spinner runs at that page under a
/// new generation, the status says so, a first page clears the results and
/// the selection, and a search for the trimmed text is asked for.
pub open spec fn search_started(
    bar: SearchBar,
    s0: Searching,
    s1: Searching,
    r0: Results,
    r1: Results,
    st0: String,
    st1: String,
    page: u32,
    e0: Seq<Effect>,
    e1: Seq<Effect>,
) -> bool {
    if text::trim(bar.input@).len() == 0 {
        s1 == s0 && r1 == r0 && st1 == st0 && e1 == e0
    } else {
        &&& s1.active
        &&& s1.page == page
        &&& s1.gen == s0.gen + 1
        &&& st1@ == searching_status(text::trim(bar.input@), page as nat)
        &&& page == 1 ==> r1.items@.len() == 0 && r1.selected is None && r1.idx == r0.idx
            && r1.has_more == r0.has_more && r1.detail_scroll == r0.detail_scroll
        &&& page != 1 ==> r1 == r0
        &&& e1.len() == e0.len() + 1
        &&& e1.take(e0.len() as int) == e0
        &&& e1.last() matches Effect::Search { query, page: p, gen } && query@ == text::trim(
            bar.input@,
        ) && p == page && gen == s1.gen
    }
}

/// Starts a search for the trimmed search text at a page, unless the text
/// is blank. A first page clears the results and the selection.
pub fn start_search(
    bar: &SearchBar,
    searching: &mut Searching,
    results: &mut Results,
    status: &mut String,
    page: u32,
    effects: &mut Vec<Effect>,
)
    requires
        old(searching).gen < u64::MAX,
    ensures
        search_started(
            *bar,
            *old(searching),
            *final(searching),
            *old(results),
            *final(results),
            *old(status),
            *final(status),
            page,
            old(effects)@,
            final(effects)@,
        ),
{
    let q = text::trim_chars(&bar.input);
    if q.len() == 0 {
        return;
    }
    searching.active = true;
    searching.page = page;
    searching.gen = searching.gen + 1;
    let mut st: Vec<char> = Vec::new();
    if page == 1 {
        results.items.clear();
        results.selected = None;
        push_str(&mut st, "Searching \"");
        text::extend_chars(&mut st, &q);
        push_str(&mut st, "\"…");
    } else {
        push_str(&mut st, "Loading page ");
        text::push_decimal(&mut st, page as u64);
        push_str(&mut st, "…");
    }
    *status = text::from_chars(&st);
    let ghost before = effects@;
    effects.push(Effect::Search { query: text::from_chars(&q), page, gen: searching.gen });
    assert(effects@.take(before.len() as int) =~= before);
}


// ── Selecting and playing ────────────────────────────────────────────────────

/// The maximum number of items whose details are cached.
pub const DETAIL_CACHE_MAX: usize = 50;

/// The maximum number of cover images cached.
pub const IMAGE_CACHE_MAX: usize = 30;

/// The episode list cached for an id, if one is.
pub open spec fn cached_episodes(cache: Seq<(Seq<char>, CachedDetail)>, id: Seq<char>) -> Option<
    Vec<String>,
> {
    match value_of(cache, id) {
        Some(d) => d.episode_list,
        None => None,
    }
}

/// How showing an item with this id changes the episode prompt: its episode
/// list comes from the cache when one is cached there; a cached entry
/// without a list leaves the list as it is; otherwise the list is cleared.
/// The text, cursor, mode, quality and grid width stay.
pub open spec fn prompt_after_detail(
    before: Prompt,
    after: Prompt,
    cache: Seq<(Seq<char>, CachedDetail)>,
    id: Seq<char>,
) -> bool {
    &&& match cached_episodes(cache, id) {
        Some(eps) => after.episodes@ == eps@ && after.idx == 0,
        None => if value_of(cache, id) is Some {
            after.episodes == before.episodes && after.idx == before.idx
        } else {
            after.episodes@.len() == 0 && after.idx == before.idx
        },
    }
    &&& after.input == before.input
    &&& after.cursor == before.cursor
    &&& after.mode == before.mode
    &&& after.quality == before.quality
    &&& after.cols == before.cols
}

/// The effects of showing the item at `idx` with this id, after `before`:
/// a fetch of its episode list when the cache has no entry for it, then
/// the detail load.
pub open spec fn effects_after_detail(
    before: Seq<Effect>,
    after: Seq<Effect>,
    cache: Seq<(Seq<char>, CachedDetail)>,
    id: Seq<char>,
    idx: usize,
) -> bool {
    &&& after.take(before.len() as int) == before
    &&& if value_of(cache, id) is Some {
        after.len() == before.len() + 1
    } else {
        &&& after.len() == before.len() + 2
        &&& after[before.len() as int] matches Effect::FetchEpisodeList(f) && f@ == id
    }
    &&& after.last() matches Effect::LoadDetail(i) && i == idx
}

/// Shows the result at `idx` in the detail pane: its episode list comes
/// from the cache when one is cached there, else it is cleared and fetched
/// (a cached entry without a list leaves the list as it is).
pub fn load_detail(
    results: &Results,
    idx: usize,
    prompt: &mut Prompt,
    cache: &Lru<CachedDetail>,
    effects: &mut Vec<Effect>,
)
    requires
        idx < results.items@.len(),
    ensures
        prompt_after_detail(*old(prompt), *final(prompt), cache@, results.items@[idx as int].anime().id@),
        effects_after_detail(
            old(effects)@,
            final(effects)@,
            cache@,
            results.items@[idx as int].anime().id@,
            idx,
        ),
{
    let id = results.items[idx].id();
    let ghost before = effects@;
    match cache.get(id) {
        Some(d) => match &d.episode_list {
            Some(eps) => {
                prompt.episodes = eps.clone();
                prompt.idx = 0;
            },
            None => {},
        },
        None => {
            prompt.episodes.clear();
            effects.push(Effect::FetchEpisodeList(id.to_owned()));
        },
    }
    effects.push(Effect::LoadDetail(idx));
    assert(effects@.take(before.len() as int) =~= before);
}

/// What opening the episode prompt does: with an item selected, the prompt
/// reads episode 1 and gets the keys; with none, a note says to select
/// something. The episode list, cursor position in it, mode, quality and
/// grid width stay.
pub open spec fn prompt_opened(
    selected: Option<ContentItem>,
    p0: Prompt,
    p1: Prompt,
    f0: Focus,
    f1: Focus,
    e0: Seq<Effect>,
    e1: Seq<Effect>,
) -> bool {
    &&& p1.episodes == p0.episodes
    &&& p1.idx == p0.idx
    &&& p1.mode == p0.mode
    &&& p1.quality == p0.quality
    &&& p1.cols == p0.cols
    &&& if selected is Some {
        p1.input@ == seq!['1'] && p1.cursor == 1 && f1 == Focus::EpisodePrompt && e1 == e0
    } else {
        &&& p1.input == p0.input && p1.cursor == p0.cursor && f1 == f0
        &&& e1.len() == e0.len() + 1 && e1.take(e0.len() as int) == e0
        &&& e1.last() matches Effect::Toast(ToastKind::Info, m) && m@ == "Select something first"@
    }
}

/// Opens the episode prompt at episode 1 for the selected item; with
/// nothing selected, says so.
pub fn resolve_and_play(
    selected: &Option<ContentItem>,
    prompt: &mut Prompt,
    focus: &mut Focus,
    effects: &mut Vec<Effect>,
)
    ensures
        prompt_opened(
            *selected,
            *old(prompt),
            *final(prompt),
            *old(focus),
            *final(focus),
            old(effects)@,
            final(effects)@,
        ),
{
    if selected.is_none() {
        let ghost before = effects@;
        effects.push(Effect::Toast(ToastKind::Info, "Select something first".to_owned()));
        assert(effects@.take(before.len() as int) =~= before);
        return;
    }
    let mut one: Vec<char> = Vec::new();
    one.push('1');
    prompt.input = one;
    prompt.cursor = 1;
    *focus = Focus::EpisodePrompt;
}


// ── Keys in the search bar ───────────────────────────────────────────────────

/// The status line when there is nothing to search for.
pub open spec fn idle_status() -> Seq<char> {
    "Type to search  •  press Enter"@
}

/// The prompt after its episode list is cleared: the rest stays.
pub open spec fn episodes_cleared(p0: Prompt, p1: Prompt) -> bool {
    &&& p1.episodes@.len() == 0
    &&& p1.input == p0.input
    &&& p1.cursor == p0.cursor
    &&& p1.mode == p0.mode
    &&& p1.quality == p0.quality
    &&& p1.idx == p0.idx
    &&& p1.cols == p0.cols
}

/// What a key does in the search bar: editing keys edit; Enter searches
/// for the trimmed text, or, when it is blank, clears the results, the
/// selection and the episode list and the cover; Down, Tab and Esc move to
/// the results when there are any. Nothing else changes.
pub open spec fn search_key_done(
    bar0: SearchBar,
    bar1: SearchBar,
    s0: Searching,
    s1: Searching,
    r0: Results,
    r1: Results,
    p0: Prompt,
    p1: Prompt,
    f0: Focus,
    f1: Focus,
    st0: String,
    st1: String,
    k: Key,
    e0: Seq<Effect>,
    e1: Seq<Effect>,
) -> bool {
    match k {
        Key::Char(_) | Key::Backspace | Key::Delete | Key::Left | Key::Right | Key::Home
        | Key::End => {
            &&& (bar1.input@, bar1.cursor as nat) == edited(bar0.input@, bar0.cursor as nat, k)
            &&& s1 == s0 && r1 == r0 && p1 == p0 && f1 == f0 && st1 == st0 && e1 == e0
        },
        Key::Enter => {
            &&& bar1 == bar0
            &&& f1 == f0
            &&& if text::trim(bar0.input@).len() == 0 {
                &&& r1.items@.len() == 0 && r1.selected is None
                &&& r1.idx == r0.idx && r1.has_more == r0.has_more && r1.detail_scroll
                    == r0.detail_scroll
                &&& episodes_cleared(p0, p1)
                &&& st1@ == idle_status()
                &&& s1 == s0
                &&& e1 == e0.push(Effect::ClearCover)
            } else {
                &&& search_started(bar0, s0, s1, r0, r1, st0, st1, 1, e0, e1)
                &&& p1 == p0
            }
        },
        Key::Down | Key::Tab | Key::Esc => {
            &&& f1 == if r0.items@.len() > 0 {
                Focus::Results
            } else {
                f0
            }
            &&& bar1 == bar0 && s1 == s0 && r1 == r0 && p1 == p0 && st1 == st0 && e1 == e0
        },
        _ => bar1 == bar0 && s1 == s0 && r1 == r0 && p1 == p0 && f1 == f0 && st1 == st0 && e1
            == e0,
    }
}

/// A key in the search bar: editing keys edit; Enter searches for the
/// trimmed text, or clears the results, selection and episode list when it
/// is blank; Down, Tab and Esc move to the results when there are any.
pub fn key_search(
    bar: &mut SearchBar,
    searching: &mut Searching,
    results: &mut Results,
    prompt: &mut Prompt,
    focus: &mut Focus,
    status: &mut String,
    k: Key,
    effects: &mut Vec<Effect>,
)
    requires
        old(bar).wf(),
        old(bar).input@.len() < usize::MAX,
        old(searching).gen < u64::MAX,
    ensures
        final(bar).wf(),
        search_key_done(
            *old(bar),
            *final(bar),
            *old(searching),
            *final(searching),
            *old(results),
            *final(results),
            *old(prompt),
            *final(prompt),
            *old(focus),
            *final(focus),
            *old(status),
            *final(status),
            k,
            old(effects)@,
            final(effects)@,
        ),
{
    match k {
        Key::Char(_) | Key::Backspace | Key::Delete | Key::Left | Key::Right | Key::Home
        | Key::End => {
            bar.edit(k);
        },
        Key::Enter => {
            let q = text::trim_chars(&bar.input);
            if q.len() == 0 {
                results.items.clear();
                results.selected = None;
                prompt.episodes.clear();
                *status = "Type to search  •  press Enter".to_owned();
                effects.push(Effect::ClearCover);
            } else {
                start_search(bar, searching, results, status, 1, effects);
            }
        },
        Key::Down | Key::Tab | Key::Esc => {
            if results.items.len() > 0 {
                *focus = Focus::Results;
            }
        },
        _ => {},
    }
}

// ── Keys in the results ──────────────────────────────────────────────────────

/// How many effects showing an item adds: the detail load, after a fetch
/// of its episode list when the cache has no entry for it.
pub open spec fn detail_effects_len(cache: Seq<(Seq<char>, CachedDetail)>, id: Seq<char>) -> nat {
    if value_of(cache, id) is Some {
        1
    } else {
        2
    }
}

/// The results, prompt and effects after moving the selection to `i` and
/// showing that item.
pub open spec fn moved_to(
    r0: Results,
    r1: Results,
    p0: Prompt,
    p1: Prompt,
    cache: Seq<(Seq<char>, CachedDetail)>,
    i: int,
    e0: Seq<Effect>,
    e1: Seq<Effect>,
) -> bool {
    let id = r0.items@[i].anime().id@;
    &&& r1 == Results { idx: i as usize, ..r0 }
    &&& prompt_after_detail(p0, p1, cache, id)
    &&& effects_after_detail(e0, e1, cache, id, i as usize)
}

/// What a key does in the results list. Up/`k` and Down/`j` move the
/// selection and show the item; Down past the last result asks for the
/// next page when there is one and no search runs, and reaching the
/// fifteenth result does too; Down also prefetches the next two covers.
/// `g` and `G` jump to the first and last. Enter/Right/`l` go to the detail
/// pane, Tab to the search bar, `p` opens the episode prompt, and Ctrl+`n`
/// asks for the next page. Nothing else changes.
pub open spec fn results_key_done(
    bar: SearchBar,
    s0: Searching,
    s1: Searching,
    r0: Results,
    r1: Results,
    p0: Prompt,
    p1: Prompt,
    cache: Seq<(Seq<char>, CachedDetail)>,
    f0: Focus,
    f1: Focus,
    st0: String,
    st1: String,
    kp: KeyPress,
    e0: Seq<Effect>,
    e1: Seq<Effect>,
) -> bool {
    let n = r0.items@.len();
    let i = r0.idx as int;
    let same = s1 == s0 && r1 == r0 && p1 == p0 && f1 == f0 && st1 == st0 && e1 == e0;
    let more = r0.has_more && !s0.active;
    match kp.key {
        Key::Up | Key::Char('k') => if i > 0 {
            &&& moved_to(r0, r1, p0, p1, cache, i - 1, e0, e1)
            &&& s1 == s0 && f1 == f0 && st1 == st0
        } else {
            same
        },
        Key::Down | Key::Char('j') => if i + 1 < n {
            let j = i + 1;
            let id = r0.items@[j].anime().id@;
            let rm = Results { idx: j as usize, ..r0 };
            let mid = e1.take((e0.len() + detail_effects_len(cache, id)) as int);
            let ahead_end = if j + 3 < n {
                j + 3
            } else {
                n as int
            };
            let mid2 = if j + 1 < ahead_end {
                mid.push(Effect::PrefetchImages { start: (j + 1) as usize, end: ahead_end as usize })
            } else {
                mid
            };
            &&& e1.len() >= mid.len()
            &&& moved_to(r0, rm, p0, p1, cache, j, e0, mid)
            &&& f1 == f0
            &&& if j == 14 && more {
                search_started(bar, s0, s1, rm, r1, st0, st1, (s0.page + 1) as u32, mid2, e1)
            } else {
                s1 == s0 && r1 == rm && st1 == st0 && e1 == mid2
            }
        } else if more {
            &&& search_started(bar, s0, s1, r0, r1, st0, st1, (s0.page + 1) as u32, e0, e1)
            &&& p1 == p0 && f1 == f0
        } else {
            same
        },
        Key::Char('g') => if n > 0 {
            moved_to(r0, r1, p0, p1, cache, 0, e0, e1) && s1 == s0 && f1 == f0 && st1 == st0
        } else {
            r1 == Results { idx: 0, ..r0 } && s1 == s0 && p1 == p0 && f1 == f0 && st1 == st0 && e1
                == e0
        },
        Key::Char('G') => if n > 0 {
            moved_to(r0, r1, p0, p1, cache, n - 1, e0, e1) && s1 == s0 && f1 == f0 && st1 == st0
        } else {
            same
        },
        Key::Enter | Key::Right | Key::Char('l') => f1 == Focus::Detail && s1 == s0 && r1 == r0
            && p1 == p0 && st1 == st0 && e1 == e0,
        Key::Tab => f1 == Focus::Search && s1 == s0 && r1 == r0 && p1 == p0 && st1 == st0 && e1
            == e0,
        Key::Char('p') => prompt_opened(r0.selected, p0, p1, f0, f1, e0, e1) && s1 == s0 && r1
            == r0 && st1 == st0,
        Key::Char('n') => if kp.ctrl && more {
            search_started(bar, s0, s1, r0, r1, st0, st1, (s0.page + 1) as u32, e0, e1) && p1
                == p0 && f1 == f0
        } else {
            same
        },
        _ => same,
    }
}

/// A key in the results list: Up/`k` and Down/`j` move the selection (past
/// the last result they ask for the next page when there is one), `g` and
/// `G` jump to the first and last, Enter/Right/`l` go to the detail pane,
/// Tab to the search bar, `p` opens the episode prompt, and Ctrl+`n` asks
/// for the next page.
pub fn key_results(
    bar: &SearchBar,
    searching: &mut Searching,
    results: &mut Results,
    prompt: &mut Prompt,
    cache: &Lru<CachedDetail>,
    focus: &mut Focus,
    status: &mut String,
    kp: KeyPress,
    effects: &mut Vec<Effect>,
)
    requires
        old(searching).gen < u64::MAX,
        old(searching).page < u32::MAX,
        old(results).idx < usize::MAX - 3,
        (kp.key == Key::Up || kp.key == Key::Char('k')) && old(results).idx > 0 ==> old(results).idx
            - 1 < old(results).items@.len(),
    ensures
        results_key_done(
            *bar,
            *old(searching),
            *final(searching),
            *old(results),
            *final(results),
            *old(prompt),
            *final(prompt),
            cache@,
            *old(focus),
            *final(focus),
            *old(status),
            *final(status),
            kp,
            old(effects)@,
            final(effects)@,
        ),
{
    match kp.key {
        Key::Up | Key::Char('k') => {
            if results.idx > 0 {
                results.idx = results.idx - 1;
                load_detail(results, results.idx, prompt, cache, effects);
            }
        },
        Key::Down | Key::Char('j') => {
            if results.idx + 1 < results.items.len() {
                let ghost e0 = effects@;
                results.idx = results.idx + 1;
                load_detail(results, results.idx, prompt, cache, effects);
                let ghost mid = effects@;
                let ghost id = results.items@[results.idx as int].anime().id@;
                assert(mid.len() == e0.len() + detail_effects_len(cache@, id));
                let ahead_start = results.idx + 1;
                let ahead_end = if results.idx + 3 < results.items.len() {
                    results.idx + 3
                } else {
                    results.items.len()
                };
                if ahead_start < ahead_end {
                    effects.push(Effect::PrefetchImages { start: ahead_start, end: ahead_end });
                }
                let ghost mid2 = effects@;
                if results.idx == 14 && results.has_more && !searching.active {
                    start_search(bar, searching, results, status, searching.page + 1, effects);
                }
                assert(effects@.take(mid.len() as int) =~= mid);
            } else if results.has_more && !searching.active {
                start_search(bar, searching, results, status, searching.page + 1, effects);
            }
        },
        Key::Char('g') => {
            results.idx = 0;
            if results.items.len() > 0 {
                load_detail(results, 0, prompt, cache, effects);
            }
        },
        Key::Char('G') => {
            if results.items.len() > 0 {
                results.idx = results.items.len() - 1;
                load_detail(results, results.idx, prompt, cache, effects);
            }
        },
        Key::Enter | Key::Right | Key::Char('l') => {
            *focus = Focus::Detail;
        },
        Key::Tab => {
            *focus = Focus::Search;
        },
        Key::Char('p') => {
            resolve_and_play(&results.selected, prompt, focus, effects);
        },
        Key::Char('n') => {
            if kp.ctrl && results.has_more && !searching.active {
                start_search(bar, searching, results, status, searching.page + 1, effects);
            }
        },
        _ => {},
    }
}

// ── Keys in the detail pane ──────────────────────────────────────────────────

/// The detail pane's scroll offset after a key: up and down by a line, by
/// ten with Ctrl+`u`/`d` and the page keys, never above the top.
pub open spec fn scrolled(scroll: u16, kp: KeyPress) -> int {
    match kp.key {
        Key::Up | Key::Char('k') => if scroll >= 1 {
            scroll - 1
        } else {
            0
        },
        Key::Down | Key::Char('j') => scroll + 1,
        Key::Char('u') if kp.ctrl => if scroll >= 10 {
            scroll - 10
        } else {
            0
        },
        Key::Char('d') if kp.ctrl => scroll + 10,
        Key::PageUp => if scroll >= 10 {
            scroll - 10
        } else {
            0
        },
        Key::PageDown => scroll + 10,
        _ => scroll as int,
    }
}

/// What a key does in the detail pane: `p` opens the episode prompt,
/// Left/Esc go back to the results, and any other key scrolls as
/// `scrolled` says. Nothing else changes.
pub open spec fn detail_key_done(
    r0: Results,
    r1: Results,
    p0: Prompt,
    p1: Prompt,
    f0: Focus,
    f1: Focus,
    kp: KeyPress,
    e0: Seq<Effect>,
    e1: Seq<Effect>,
) -> bool {
    match kp.key {
        Key::Char('p') => prompt_opened(r0.selected, p0, p1, f0, f1, e0, e1) && r1 == r0,
        Key::Left | Key::Esc => f1 == Focus::Results && r1 == r0 && p1 == p0 && e1 == e0,
        _ => r1 == Results { detail_scroll: scrolled(r0.detail_scroll, kp) as u16, ..r0 } && p1
            == p0 && f1 == f0 && e1 == e0,
    }
}

/// A key in the detail pane: scrolling, `p` for the episode prompt, and
/// Left/Esc back to the results.
pub fn key_detail(
    results: &mut Results,
    prompt: &mut Prompt,
    focus: &mut Focus,
    kp: KeyPress,
    effects: &mut Vec<Effect>,
)
    requires
        old(results).detail_scroll <= u16::MAX - 10,
    ensures
        detail_key_done(
            *old(results),
            *final(results),
            *old(prompt),
            *final(prompt),
            *old(focus),
            *final(focus),
            kp,
            old(effects)@,
            final(effects)@,
        ),
{
    match kp.key {
        Key::Up | Key::Char('k') => {
            results.detail_scroll = results.detail_scroll.saturating_sub(1);
        },
        Key::Down | Key::Char('j') => {
            results.detail_scroll = results.detail_scroll + 1;
        },
        Key::Char('u') if kp.ctrl => {
            results.detail_scroll = results.detail_scroll.saturating_sub(10);
        },
        Key::Char('d') if kp.ctrl => {
            results.detail_scroll = results.detail_scroll + 10;
        },
        Key::PageUp => {
            results.detail_scroll = results.detail_scroll.saturating_sub(10);
        },
        Key::PageDown => {
            results.detail_scroll = results.detail_scroll + 10;
        },
        Key::Char('p') => {
            resolve_and_play(&results.selected, prompt, focus, effects);
        },
        Key::Left | Key::Esc => {
            *focus = Focus::Results;
        },
        _ => {},
    }
}


// ── The history list ─────────────────────────────────────────────────────────

/// The indices below `n` of the entries whose lower-cased title contains
/// the lower-cased filter in order, ascending.
pub open spec fn matching(entries: Seq<HistoryItem>, filter: Seq<char>, n: int) -> Seq<usize>
    decreases n,
{
    if n <= 0 {
        Seq::empty()
    } else {
        let rest = matching(entries, filter, n - 1);
        if crate::app::is_subsequence(
            text::unicode_lowercase(filter),
            text::unicode_lowercase(entries[n - 1].title@),
        ) {
            rest.push((n - 1) as usize)
        } else {
            rest
        }
    }
}

/// The entries the filter shows: none are listed apart for an empty filter.
pub open spec fn filtered_for(entries: Seq<HistoryItem>, filter: Seq<char>) -> Seq<usize> {
    if filter.len() == 0 {
        Seq::empty()
    } else {
        matching(entries, filter, entries.len() as int)
    }
}

/// The entries listed under the filter are valid indices, ascending.
pub proof fn lemma_matching_ascending(entries: Seq<HistoryItem>, filter: Seq<char>, n: int)
    requires
        0 <= n <= entries.len(),
        entries.len() <= usize::MAX,
    ensures
        forall|i: int| 0 <= i < matching(entries, filter, n).len() ==> #[trigger] matching(
            entries,
            filter,
            n,
        )[i] < n,
        forall|i: int, j: int|
            0 <= i < j < matching(entries, filter, n).len() ==> #[trigger] matching(
                entries,
                filter,
                n,
            )[i] < #[trigger] matching(entries, filter, n)[j],
    decreases n,
{
    if n > 0 {
        lemma_matching_ascending(entries, filter, n - 1);
        let rest = matching(entries, filter, n - 1);
        let m = matching(entries, filter, n);
        assert forall|i: int| 0 <= i < m.len() implies #[trigger] m[i] < n by {
            if i < rest.len() {
                assert(m[i] == rest[i]);
            }
        }
        assert forall|i: int, j: int| 0 <= i < j < m.len() implies #[trigger] m[i] < #[trigger] m[j] by {
            if j < rest.len() {
                assert(m[i] == rest[i] && m[j] == rest[j]);
            } else {
                assert(m[i] == rest[i]);
                assert(rest[i] < n - 1);
                assert(m[j] == n - 1);
            }
        }
    }
}

impl HistoryPane {
    /// The number of entries the list shows.
    pub open spec fn visible_len(&self) -> nat {
        if self.filter@.len() == 0 {
            self.entries@.len()
        } else {
            self.filtered@.len()
        }
    }

    /// The index in `entries` of the selected entry, if there is one.
    pub open spec fn selected_index(&self) -> Option<int> {
        if self.filter@.len() == 0 {
            if self.idx < self.entries@.len() {
                Some(self.idx as int)
            } else {
                None
            }
        } else if self.idx < self.filtered@.len() && self.filtered@[self.idx as int]
            < self.entries@.len() {
            Some(self.filtered@[self.idx as int] as int)
        } else {
            None
        }
    }

    /// The filtered indices are those the filter matches.
    pub open spec fn wf(&self) -> bool {
        self.filtered@ == filtered_for(self.entries@, self.filter@)
    }

    /// The index in `entries` of the selected entry, respecting the filter.
    pub fn selected(&self) -> (r: Option<usize>)
        ensures
            r matches Some(i) ==> self.selected_index() == Some(i as int),
            r is None ==> self.selected_index() is None,
    {
        if self.filter.len() == 0 {
            if self.idx < self.entries.len() {
                Some(self.idx)
            } else {
                None
            }
        } else if self.idx < self.filtered.len() && self.filtered[self.idx] < self.entries.len() {
            Some(self.filtered[self.idx])
        } else {
            None
        }
    }

    /// Lists the entries that match the filter.
    pub fn rebuild_filter(&mut self)
        ensures
            final(self).wf(),
            final(self).entries == old(self).entries,
            final(self).filter == old(self).filter,
            final(self).idx == old(self).idx,
            final(self).episodes == old(self).episodes,
            final(self).episode_idx == old(self).episode_idx,
            final(self).episodes_loading == old(self).episodes_loading,
            final(self).window_start == old(self).window_start,
            final(self).window_end == old(self).window_end,
            final(self).cols == old(self).cols,
    {
        if self.filter.len() == 0 {
            self.filtered.clear();
            return;
        }
        let needle = text::to_chars(text::to_lowercase(text::from_chars(&self.filter).as_str()).as_str());
        let mut out: Vec<usize> = Vec::new();
        let mut i: usize = 0;
        while i < self.entries.len()
            invariant
                i <= self.entries@.len(),
                needle@ == text::unicode_lowercase(self.filter@),
                out@ == matching(self.entries@, self.filter@, i as int),
            decreases self.entries@.len() - i,
        {
            let lower = text::to_lowercase(self.entries[i].title.as_str());
            if crate::app::fuzzy_match(lower.as_str(), &needle) {
                out.push(i);
            }
            i += 1;
        }
        self.filtered = out;
    }
}

/// The episode fields of the history pane are the same.
pub open spec fn same_episodes(h0: HistoryPane, h1: HistoryPane) -> bool {
    &&& h1.episodes == h0.episodes
    &&& h1.episode_idx == h0.episode_idx
    &&& h1.episodes_loading == h0.episodes_loading
    &&& h1.window_start == h0.window_start
    &&& h1.window_end == h0.window_end
    &&& h1.cols == h0.cols
}

/// What removing the entry at `i` does: the entry goes, the filter is
/// re-applied, the episode list is forgotten, and the removal, a note naming
/// the entry, and the clearing of the cover and the episode records are
/// asked for.
pub open spec fn entry_removed(
    h0: HistoryPane,
    h1: HistoryPane,
    i: int,
    e0: Seq<Effect>,
    e1: Seq<Effect>,
) -> bool {
    &&& h1.wf()
    &&& h1.entries@ == h0.entries@.remove(i)
    &&& h1.filter == h0.filter
    &&& h1.episodes@.len() == 0
    &&& e1.len() == e0.len() + 4
    &&& e1.take(e0.len() as int) == e0
    &&& e1[e0.len() as int] == Effect::RemoveHistory(i as usize)
    &&& e1[e0.len() + 1int] matches Effect::Toast(ToastKind::Info, m) && m@ == "Removed \""@
        + h0.entries@[i].title@ + "\""@
    &&& e1[e0.len() + 2int] == Effect::ClearHistoryCover
    &&& e1[e0.len() + 3int] == Effect::ClearHistoryRecords
}

/// Removes the selected history entry, if there is one: the entry goes, the
/// filter is re-applied, and the entry's episode list is forgotten.
fn remove_selected(history: &mut HistoryPane, effects: &mut Vec<Effect>) -> (r: Option<usize>)
    requires
        old(history).wf(),
    ensures
        r matches Some(i) ==> old(history).selected_index() == Some(i as int) && entry_removed(
            *old(history),
            *final(history),
            i as int,
            old(effects)@,
            final(effects)@,
        ),
        r is None ==> old(history).selected_index() is None && *final(history) == *old(history)
            && final(effects)@ == old(effects)@,
        final(history).idx == old(history).idx,
        final(history).episode_idx == old(history).episode_idx,
        final(history).episodes_loading == old(history).episodes_loading,
        final(history).window_start == old(history).window_start,
        final(history).window_end == old(history).window_end,
        final(history).cols == old(history).cols,
{
    match history.selected() {
        Some(i) => {
            let ghost e0 = effects@;
            let mut msg: Vec<char> = Vec::new();
            push_str(&mut msg, "Removed \"");
            text::extend_chars(&mut msg, &text::to_chars(history.entries[i].title.as_str()));
            push_str(&mut msg, "\"");
            effects.push(Effect::RemoveHistory(i));
            effects.push(Effect::Toast(ToastKind::Info, text::from_chars(&msg)));
            history.entries.remove(i);
            effects.push(Effect::ClearHistoryCover);
            history.episodes.clear();
            effects.push(Effect::ClearHistoryRecords);
            history.rebuild_filter();
            assert(effects@.take(e0.len() as int) =~= e0);
            Some(i)
        },
        None => None,
    }
}

/// The history pane after its filter changed to one: the selection goes to
/// the top and the entries and episode fields stay (the filtered list is
/// whatever the pane's invariant makes it).
pub open spec fn refiltered(h0: HistoryPane, h1: HistoryPane, filter: Seq<char>) -> bool {
    &&& h1.wf()
    &&& h1.filter@ == filter
    &&& h1.idx == 0
    &&& h1.entries == h0.entries
    &&& same_episodes(h0, h1)
}

/// What a key does in the history list. With no filter, Up/`k` and
/// Down/`j` move the selection and Enter/Right/`l` open the entry; any
/// other character adds to the filter. With a filter, the arrows still
/// move, Backspace shortens it and Esc clears it. A move clears the cover.
/// Delete (and `d` with no filter) removes the selected entry, forgets its
/// episodes and keeps the selection within the list. Nothing else changes.
pub open spec fn history_key_done(
    h0: HistoryPane,
    h1: HistoryPane,
    f0: Focus,
    f1: Focus,
    k: Key,
    e0: Seq<Effect>,
    e1: Seq<Effect>,
) -> bool {
    let empty = h0.filter@.len() == 0;
    let same = h1 == h0 && f1 == f0 && e1 == e0;
    if k == Key::Up || (k == Key::Char('k') && empty) {
        if h0.idx > 0 {
            h1 == HistoryPane { idx: (h0.idx - 1) as usize, ..h0 } && f1 == f0 && e1 == e0.push(
                Effect::ClearHistoryCover,
            )
        } else {
            same
        }
    } else if k == Key::Down || (k == Key::Char('j') && empty) {
        if h0.idx + 1 < h0.visible_len() {
            h1 == HistoryPane { idx: (h0.idx + 1) as usize, ..h0 } && f1 == f0 && e1 == e0.push(
                Effect::ClearHistoryCover,
            )
        } else {
            same
        }
    } else if k == Key::Right || (empty && (k == Key::Enter || k == Key::Char('l'))) {
        f1 == Focus::HistoryDetail && h1 == h0 && e1 == e0
    } else if k == Key::Delete || (empty && k == Key::Char('d')) {
        match h0.selected_index() {
            Some(i) => {
                let n = h1.visible_len();
                &&& entry_removed(h0, h1, i, e0, e1)
                &&& h1.episode_idx == 0 && h1.window_start == 0 && h1.window_end == 0
                &&& !h1.episodes_loading && h1.cols == h0.cols
                &&& h1.idx == if h0.idx > 0 && h0.idx >= n {
                    if n > 0 {
                        (n - 1) as usize
                    } else {
                        0
                    }
                } else {
                    h0.idx
                }
                &&& f1 == f0
            },
            None => same,
        }
    } else {
        match k {
            Key::Esc => if !empty {
                refiltered(h0, h1, Seq::empty()) && f1 == f0 && e1 == e0.push(
                    Effect::ClearHistoryCover,
                )
            } else {
                same
            },
            Key::Backspace => if !empty {
                refiltered(h0, h1, h0.filter@.drop_last()) && f1 == f0 && e1 == e0.push(
                    Effect::ClearHistoryCover,
                )
            } else {
                same
            },
            Key::Char(c) => refiltered(h0, h1, h0.filter@.push(c)) && f1 == f0 && e1 == e0.push(
                Effect::ClearHistoryCover,
            ),
            _ => same,
        }
    }
}

/// A key in the history list. With no filter, Up/`k` and Down/`j` move,
/// and Enter/Right/`l` open the entry; any other character starts a filter.
/// With a filter, letters extend it, Backspace shortens it, Esc clears it,
/// and the arrows still move. Delete removes the selected entry.
pub fn key_history(history: &mut HistoryPane, focus: &mut Focus, k: Key, effects: &mut Vec<Effect>)
    requires
        old(history).wf(),
        old(history).filter@.len() < usize::MAX,
    ensures
        final(history).wf(),
        history_key_done(*old(history), *final(history), *old(focus), *final(focus), k, old(effects)@, final(effects)@),
{
    let filter_empty = history.filter.len() == 0;
    if k == Key::Up || (k == Key::Char('k') && filter_empty) {
        if history.idx > 0 {
            history.idx = history.idx - 1;
            effects.push(Effect::ClearHistoryCover);
        }
        return;
    }
    if k == Key::Down || (k == Key::Char('j') && filter_empty) {
        let len = if filter_empty {
            history.entries.len()
        } else {
            history.filtered.len()
        };
        if history.idx < len && history.idx + 1 < len {
            history.idx = history.idx + 1;
            effects.push(Effect::ClearHistoryCover);
        }
        return;
    }
    if k == Key::Right || (filter_empty && (k == Key::Enter || k == Key::Char('l'))) {
        *focus = Focus::HistoryDetail;
        return;
    }
    if k == Key::Delete || (filter_empty && k == Key::Char('d')) {
        {
            match remove_selected(history, effects) {
                Some(_) => {
                    history.episode_idx = 0;
                    history.window_start = 0;
                    history.window_end = 0;
                    history.episodes_loading = false;
                    let new_len = if history.filter.len() == 0 {
                        history.entries.len()
                    } else {
                        history.filtered.len()
                    };
                    if history.idx > 0 && history.idx >= new_len {
                        history.idx = if new_len > 0 {
                            new_len - 1
                        } else {
                            0
                        };
                    }
                },
                None => {},
            }
        }
        return;
    }
    match k {
        Key::Esc => {
            if !filter_empty {
                history.filter.clear();
                history.filtered.clear();
                history.idx = 0;
                effects.push(Effect::ClearHistoryCover);
            }
        },
        Key::Backspace => {
            if !filter_empty {
                history.filter.pop();
                history.idx = 0;
                effects.push(Effect::ClearHistoryCover);
                history.rebuild_filter();
            }
        },
        Key::Char(c) => {
            history.filter.push(c);
            history.idx = 0;
            effects.push(Effect::ClearHistoryCover);
            history.rebuild_filter();
        },
        _ => {},
    }
}

/// What a key does in the history detail pane: Left/Esc go back to the
/// list, Right/`l` into the episode list when it has episodes, and Delete
/// (or `d`) removes the selected entry and goes back to the list. Nothing else
/// changes.
pub open spec fn history_detail_key_done(
    h0: HistoryPane,
    h1: HistoryPane,
    f0: Focus,
    f1: Focus,
    k: Key,
    e0: Seq<Effect>,
    e1: Seq<Effect>,
) -> bool {
    match k {
        Key::Left | Key::Esc => f1 == Focus::History && h1 == h0 && e1 == e0,
        Key::Right | Key::Char('l') => f1 == (if h0.episodes@.len() > 0 {
            Focus::HistoryEpisodes
        } else {
            f0
        }) && h1 == h0 && e1 == e0,
        Key::Delete | Key::Char('d') => match h0.selected_index() {
            Some(i) => {
                &&& entry_removed(h0, h1, i, e0, e1)
                &&& h1.idx == h0.idx
                &&& h1.episode_idx == h0.episode_idx
                &&& h1.episodes_loading == h0.episodes_loading
                &&& h1.window_start == h0.window_start
                &&& h1.window_end == h0.window_end
                &&& h1.cols == h0.cols
                &&& f1 == Focus::History
            },
            None => h1 == h0 && f1 == f0 && e1 == e0,
        },
        _ => h1 == h0 && f1 == f0 && e1 == e0,
    }
}

/// A key in the history detail pane: Left/Esc back to the list, Right/`l`
/// into the episode list when it has episodes, Delete (or `d`) removes the
/// entry and returns to the list.
pub fn key_history_detail(
    history: &mut HistoryPane,
    focus: &mut Focus,
    k: Key,
    effects: &mut Vec<Effect>,
)
    requires
        old(history).wf(),
    ensures
        final(history).wf(),
        history_detail_key_done(
            *old(history),
            *final(history),
            *old(focus),
            *final(focus),
            k,
            old(effects)@,
            final(effects)@,
        ),
{
    match k {
        Key::Left | Key::Esc => {
            *focus = Focus::History;
        },
        Key::Right | Key::Char('l') => {
            if history.episodes.len() > 0 {
                *focus = Focus::HistoryEpisodes;
            }
        },
        Key::Delete | Key::Char('d') => {
            if remove_selected(history, effects).is_some() {
                *focus = Focus::History;
            }
        },
        _ => {},
    }
}


// ── Episode grids ────────────────────────────────────────────────────────────

/// The episode number a text gives: the number it spells, or `default`.
pub open spec fn episode_number(t: Seq<char>, default: u32) -> u32 {
    match text::parse_unsigned(t, 10, u32::MAX as nat) {
        Some(v) => v as u32,
        None => default,
    }
}

fn episode_number_exec(t: &[char], default: u32) -> (r: u32)
    ensures
        r == episode_number(t@, default),
{
    match text::parse_unsigned_chars(t, 10, 0xffff_ffff) {
        Some(v) => v as u32,
        None => default,
    }
}

/// The first entry with the given id.
pub open spec fn first_with_id(entries: Seq<HistoryItem>, id: Seq<char>) -> Option<int>
    decreases entries.len(),
{
    if entries.len() == 0 {
        None
    } else {
        match first_with_id(entries.drop_last(), id) {
            Some(i) => Some(i),
            None => if entries.last().id@ == id {
                Some(entries.len() - 1)
            } else {
                None
            },
        }
    }
}

fn first_with_id_exec(entries: &Vec<HistoryItem>, id: &String) -> (r: Option<usize>)
    ensures
        r matches Some(i) ==> i < entries@.len(),
        r matches Some(i) ==> first_with_id(entries@, id@) == Some(i as int),
        r is None ==> first_with_id(entries@, id@) is None,
{
    let mut i: usize = 0;
    while i < entries.len()
        invariant
            i <= entries@.len(),
            first_with_id(entries@.take(i as int), id@) is None,
        decreases entries@.len() - i,
    {
        assert(entries@.take(i + 1).drop_last() =~= entries@.take(i as int));
        if entries[i].id == *id {
            proof {
                lemma_first_with_id_prefix(entries@, id@, i + 1);
            }
            return Some(i);
        }
        i += 1;
    }
    assert(entries@.take(entries@.len() as int) =~= entries@);
    None
}

proof fn lemma_first_with_id_prefix(entries: Seq<HistoryItem>, id: Seq<char>, n: int)
    requires
        0 < n <= entries.len(),
        first_with_id(entries.take(n), id) is Some,
    ensures
        first_with_id(entries, id) == first_with_id(entries.take(n), id),
    decreases entries.len() - n,
{
    if n < entries.len() {
        assert(entries.take(n + 1).drop_last() =~= entries.take(n));
        lemma_first_with_id_prefix(entries, id, n + 1);
    } else {
        assert(entries.take(n) =~= entries);
    }
}

/// The entries after playing an episode of the entry at `entry` from the
/// history: when the episode is a positive number, the first entry with the
/// same id records it as its progress.
pub open spec fn progress_recorded(entries: Seq<HistoryItem>, entry: int, progress: u32) -> Seq<
    HistoryItem,
> {
    if progress > 0 {
        match first_with_id(entries, entries[entry].id@) {
            Some(pos) => entries.update(pos, HistoryItem { progress: Some(progress), ..entries[pos] }),
            None => entries,
        }
    } else {
        entries
    }
}

/// What a key does in the history episode grid, `cols` wide (at least one):
/// the arrows (and `h`/`j`/`k`/`l`) move by a cell or a row within the list,
/// Left in the first column and Esc go back to the detail pane, and
/// Enter/`p` plays the episode under the cursor of the selected entry,
/// with a note, recording it as the entry's progress when it is a number.
/// Nothing else changes.
pub open spec fn history_episodes_key_done(
    h0: HistoryPane,
    h1: HistoryPane,
    f0: Focus,
    f1: Focus,
    k: Key,
    e0: Seq<Effect>,
    e1: Seq<Effect>,
) -> bool {
    let cols: int = if h0.cols >= 1 {
        h0.cols as int
    } else {
        1
    };
    let i = h0.episode_idx as int;
    let n = h0.episodes@.len() as int;
    let same = h1 == h0 && f1 == f0 && e1 == e0;
    let at = |j: int| h1 == HistoryPane { episode_idx: j as usize, ..h0 } && f1 == f0 && e1 == e0;
    match k {
        Key::Left | Key::Char('h') => if i == 0 || i % cols == 0 {
            f1 == Focus::HistoryDetail && h1 == h0 && e1 == e0
        } else {
            at(i - 1)
        },
        Key::Esc => f1 == Focus::HistoryDetail && h1 == h0 && e1 == e0,
        Key::Right | Key::Char('l') => at(
            if i + 1 < n {
                i + 1
            } else {
                i
            },
        ),
        Key::Up | Key::Char('k') => at(
            if i >= cols {
                i - cols
            } else {
                0
            },
        ),
        Key::Down | Key::Char('j') => at(
            if i + cols < n {
                i + cols
            } else {
                i
            },
        ),
        Key::Enter | Key::Char('p') => match h0.selected_index() {
            Some(entry) => if i < n {
                let ep = h0.episodes@[i]@;
                let progress = episode_number(ep, 0);
                &&& e1.len() == e0.len() + 2
                &&& e1.take(e0.len() as int) == e0
                &&& e1[e0.len() as int] matches Effect::Toast(ToastKind::Info, m) && m@
                    == "Loading Ep "@ + ep + "…"@
                &&& e1[e0.len() + 1int] matches Effect::PlayFromHistory {
                    entry: en,
                    episode_key,
                    stream_episode,
                    progress: pr,
                } && en == entry && episode_key@ == ep && stream_episode == episode_number(ep, 1)
                    && pr == progress
                &&& h1.entries@ == progress_recorded(h0.entries@, entry, progress)
                &&& h1 == HistoryPane { entries: h1.entries, ..h0 }
                &&& f1 == f0
            } else {
                same
            },
            None => same,
        },
        _ => same,
    }
}

/// A key in the history episode grid keeps the cursor on an episode of an
/// unchanged list: whatever the key, a cursor within the list stays within
/// it.
pub proof fn lemma_history_episode_cursor_in_range(
    h0: HistoryPane,
    h1: HistoryPane,
    f0: Focus,
    f1: Focus,
    k: Key,
    e0: Seq<Effect>,
    e1: Seq<Effect>,
)
    requires
        history_episodes_key_done(h0, h1, f0, f1, k, e0, e1),
        h0.episode_idx < h0.episodes@.len(),
    ensures
        h1.episodes == h0.episodes,
        h1.episode_idx < h1.episodes@.len(),
{
}

/// A key in the history episode grid, `cols` wide: the arrows (and
/// `h`/`j`/`k`/`l`) move by a cell or a row, Left in the first column and
/// Esc go back to the detail pane, and Enter/`p` plays the episode under
/// the cursor, recording it as the entry's progress when it is a number.
pub fn key_history_episodes(
    history: &mut HistoryPane,
    focus: &mut Focus,
    k: Key,
    effects: &mut Vec<Effect>,
)
    requires
        old(history).wf(),
    ensures
        final(history).wf(),
        history_episodes_key_done(
            *old(history),
            *final(history),
            *old(focus),
            *final(focus),
            k,
            old(effects)@,
            final(effects)@,
        ),
{
    let cols = if history.cols >= 1 {
        history.cols
    } else {
        1
    };
    let n = history.episodes.len();
    match k {
        Key::Left | Key::Char('h') => {
            if history.episode_idx == 0 || history.episode_idx % cols == 0 {
                *focus = Focus::HistoryDetail;
            } else {
                history.episode_idx = history.episode_idx - 1;
            }
        },
        Key::Esc => {
            *focus = Focus::HistoryDetail;
        },
        Key::Right | Key::Char('l') => {
            if history.episode_idx < n && history.episode_idx + 1 < n {
                history.episode_idx = history.episode_idx + 1;
            }
        },
        Key::Up | Key::Char('k') => {
            history.episode_idx = history.episode_idx.saturating_sub(cols);
        },
        Key::Down | Key::Char('j') => {
            if history.episode_idx < n && cols < n - history.episode_idx {
                history.episode_idx = history.episode_idx + cols;
            }
        },
        Key::Enter | Key::Char('p') => {
            let entry = match history.selected() {
                Some(e) => e,
                None => {
                    return;
                },
            };
            if history.episode_idx >= n {
                return;
            }
            let ghost e0 = effects@;
            let ep = text::to_chars(history.episodes[history.episode_idx].as_str());
            let mut msg: Vec<char> = Vec::new();
            push_str(&mut msg, "Loading Ep ");
            text::extend_chars(&mut msg, &ep);
            push_str(&mut msg, "…");
            effects.push(Effect::Toast(ToastKind::Info, text::from_chars(&msg)));
            let progress = episode_number_exec(&ep, 0);
            effects.push(
                Effect::PlayFromHistory {
                    entry,
                    episode_key: text::from_chars(&ep),
                    stream_episode: episode_number_exec(&ep, 1),
                    progress,
                },
            );
            assert(effects@.take(e0.len() as int) =~= e0);
            if progress > 0 {
                let id = history.entries[entry].id.clone();
                match first_with_id_exec(&history.entries, &id) {
                    Some(pos) => {
                        let ghost before = history.entries@;
                        let mut e = history.entries.remove(pos);
                        e.progress = Some(progress);
                        history.entries.insert(pos, e);
                        proof {
                            assert(history.entries@ =~= before.update(
                                pos as int,
                                HistoryItem { progress: Some(progress), ..before[pos as int] },
                            ));
                            assert forall|m: int| 0 <= m < history.entries@.len() implies #[trigger] history.entries@[m].title
                                == before[m].title by {
                                if m != pos {
                                    assert(history.entries@[m] == before[m]);
                                }
                            }
                            assert forall|m: int| 0 <= m <= history.entries@.len() implies #[trigger] matching(history.entries@, history.filter@, m)
                                == matching(before, history.filter@, m) by {
                                lemma_matching_titles(history.entries@, before, history.filter@, m);
                            }
                        }
                    },
                    None => {},
                }
            }
        },
        _ => {},
    }
}

proof fn lemma_matching_titles(a: Seq<HistoryItem>, b: Seq<HistoryItem>, filter: Seq<char>, n: int)
    requires
        a.len() == b.len(),
        0 <= n <= a.len(),
        forall|m: int| 0 <= m < a.len() ==> #[trigger] a[m].title == b[m].title,
    ensures
        matching(a, filter, n) == matching(b, filter, n),
    decreases n,
{
    if n > 0 {
        lemma_matching_titles(a, b, filter, n - 1);
        assert(a[n - 1].title == b[n - 1].title);
    }
}

/// The quality setting after the current one: `best`, `1080`, `720`, `480`,
/// then `best` again (anything else also goes to `best`).
pub open spec fn next_quality(q: Seq<char>) -> Seq<char> {
    if q == "best"@ {
        "1080"@
    } else if q == "1080"@ {
        "720"@
    } else if q == "720"@ {
        "480"@
    } else {
        "best"@
    }
}

/// The stream mode after a toggle: `sub` becomes `dub`, anything else `sub`.
pub open spec fn toggled_mode(m: Seq<char>) -> Seq<char> {
    if m == "sub"@ {
        "dub"@
    } else {
        "sub"@
    }
}

/// Cycling the quality four times comes back to a standard setting.
pub proof fn lemma_quality_cycle(q: Seq<char>)
    requires
        q == "best"@ || q == "1080"@ || q == "720"@ || q == "480"@,
    ensures
        next_quality(next_quality(next_quality(next_quality(q)))) == q,
{
    reveal_strlit("best");
    reveal_strlit("1080");
    reveal_strlit("720");
    reveal_strlit("480");
    assert("1080"@[0] != "best"@[0]);
    assert("1080"@.len() != "720"@.len());
    assert("720"@[0] != "480"@[0]);
    assert("480"@.len() != "best"@.len());
    assert("720"@.len() != "best"@.len());
    assert("1080"@ != "best"@);
    assert("720"@ != "best"@ && "720"@ != "1080"@);
    assert("480"@ != "best"@ && "480"@ != "1080"@ && "480"@ != "720"@);
}

/// Toggling the stream mode twice from `sub` or `dub` comes back to it.
pub proof fn lemma_mode_toggle(m: Seq<char>)
    requires
        m == "sub"@ || m == "dub"@,
    ensures
        toggled_mode(toggled_mode(m)) == m,
{
    reveal_strlit("sub");
    reveal_strlit("dub");
}

/// Whether a key in the episode prompt edits the text at the cursor, which
/// must then lie within the text.
pub open spec fn edits_prompt(kp: KeyPress) -> bool {
    match kp.key {
        Key::Char(c) => '0' <= c <= '9',
        Key::Backspace => true,
        _ => false,
    }
}

/// The prompt after its cursor in the episode list moved to `j`: the
/// episode there becomes the text, when there is one.
pub open spec fn prompt_moved(p0: Prompt, p1: Prompt, j: int) -> bool {
    &&& p1.idx == j
    &&& if 0 <= j < p0.episodes@.len() {
        p1.input@ == p0.episodes@[j]@
    } else {
        p1.input == p0.input
    }
    &&& p1.cursor == p0.cursor
    &&& p1.mode == p0.mode
    &&& p1.quality == p0.quality
    &&& p1.episodes == p0.episodes
    &&& p1.cols == p0.cols
}

/// What a key does in the episode prompt, whose grid is `cols` wide (at
/// least one): the arrows (and `h`/`j`/`k`/`l`) move through the episode
/// list, putting the episode under the cursor into the text; digits and
/// Backspace edit the text at its cursor; Tab toggles sub/dub; Ctrl+`q`
/// cycles the quality; Enter plays the trimmed text's episode (1 when it is
/// not a number) when an item is selected and goes back to the detail pane,
/// as Esc does. Nothing else changes.
pub open spec fn prompt_key_done(
    p0: Prompt,
    p1: Prompt,
    selected: Option<ContentItem>,
    f0: Focus,
    f1: Focus,
    kp: KeyPress,
    e0: Seq<Effect>,
    e1: Seq<Effect>,
) -> bool {
    let cols: int = if p0.cols >= 1 {
        p0.cols as int
    } else {
        1
    };
    let i = p0.idx as int;
    let n = p0.episodes@.len() as int;
    let same = p1 == p0 && f1 == f0 && e1 == e0;
    let moved = |j: int| prompt_moved(p0, p1, j) && f1 == f0 && e1 == e0;
    match kp.key {
        Key::Up | Key::Char('k') => moved(
            if i >= cols {
                i - cols
            } else {
                0
            },
        ),
        Key::Down | Key::Char('j') => moved(
            if i + cols < n - 1 {
                i + cols
            } else if n >= 1 {
                n - 1
            } else {
                0
            },
        ),
        Key::Left | Key::Char('h') => if i > 0 {
            moved(i - 1)
        } else {
            same
        },
        Key::Right | Key::Char('l') => if i + 1 < n {
            moved(i + 1)
        } else {
            same
        },
        Key::Char(c) => if '0' <= c <= '9' {
            &&& p1.input@ == p0.input@.insert(p0.cursor as int, c)
            &&& p1.cursor == p0.cursor + 1
            &&& p1 == Prompt { input: p1.input, cursor: p1.cursor, ..p0 }
            &&& f1 == f0 && e1 == e0
        } else if c == 'q' && kp.ctrl {
            p1.quality@ == next_quality(p0.quality@) && p1 == Prompt { quality: p1.quality, ..p0 }
                && f1 == f0 && e1 == e0
        } else {
            same
        },
        Key::Backspace => if p0.cursor > 0 {
            &&& p1.input@ == p0.input@.remove(p0.cursor - 1)
            &&& p1.cursor == p0.cursor - 1
            &&& p1 == Prompt { input: p1.input, cursor: p1.cursor, ..p0 }
            &&& f1 == f0 && e1 == e0
        } else {
            same
        },
        Key::Tab => p1.mode@ == toggled_mode(p0.mode@) && p1 == Prompt { mode: p1.mode, ..p0 } && f1
            == f0 && e1 == e0,
        Key::Enter => {
            let key = text::trim(p0.input@);
            &&& p1 == p0
            &&& f1 == Focus::Detail
            &&& if selected is Some {
                &&& e1.len() == e0.len() + 1 && e1.take(e0.len() as int) == e0
                &&& e1.last() matches Effect::PlayEpisode { episode, key: k } && k@ == key
                    && episode == episode_number(key, 1)
            } else {
                e1 == e0
            }
        },
        Key::Esc => f1 == Focus::Detail && p1 == p0 && e1 == e0,
        _ => same,
    }
}

/// A key in the episode prompt, whose grid is `cols` wide: the arrows (and
/// `h`/`j`/`k`/`l`) move through the episode list, putting the episode under
/// the cursor into the prompt; digits and Backspace edit the prompt; Tab
/// toggles sub/dub; Ctrl+`q` cycles the quality; Enter plays the typed
/// episode (1 when it is not a number) and Esc leaves.
pub fn key_episode_prompt(
    prompt: &mut Prompt,
    selected: &Option<ContentItem>,
    focus: &mut Focus,
    kp: KeyPress,
    effects: &mut Vec<Effect>,
)
    requires
        old(prompt).idx + old(prompt).cols + 1 <= usize::MAX,
        old(prompt).input@.len() < usize::MAX,
        edits_prompt(kp) ==> old(prompt).cursor <= old(prompt).input@.len(),
    ensures
        prompt_key_done(
            *old(prompt),
            *final(prompt),
            *selected,
            *old(focus),
            *final(focus),
            kp,
            old(effects)@,
            final(effects)@,
        ),
{
    let cols = if prompt.cols >= 1 {
        prompt.cols
    } else {
        1
    };
    let n = prompt.episodes.len();
    match kp.key {
        Key::Up | Key::Char('k') => {
            prompt.idx = prompt.idx.saturating_sub(cols);
            if prompt.idx < n {
                prompt.input = text::to_chars(prompt.episodes[prompt.idx].as_str());
            }
        },
        Key::Down | Key::Char('j') => {
            let last = if n >= 1 {
                n - 1
            } else {
                0
            };
            let next = if prompt.idx + cols < last {
                prompt.idx + cols
            } else {
                last
            };
            prompt.idx = next;
            if prompt.idx < n {
                prompt.input = text::to_chars(prompt.episodes[prompt.idx].as_str());
            }
        },
        Key::Left | Key::Char('h') => {
            if prompt.idx > 0 {
                prompt.idx = prompt.idx - 1;
                if prompt.idx < n {
                    prompt.input = text::to_chars(prompt.episodes[prompt.idx].as_str());
                }
            }
        },
        Key::Right | Key::Char('l') => {
            if prompt.idx + 1 < n {
                prompt.idx = prompt.idx + 1;
                prompt.input = text::to_chars(prompt.episodes[prompt.idx].as_str());
            }
        },
        Key::Char(c) => {
            if '0' <= c && c <= '9' {
                let cur = prompt.cursor;
                let mut inp = text::sub_chars(&prompt.input, 0, prompt.input.len());
                assert(inp@ =~= prompt.input@);
                inp.insert(cur, c);
                prompt.input = inp;
                prompt.cursor = cur + 1;
            } else if c == 'q' && kp.ctrl {
                let q = text::to_chars(prompt.quality.as_str());
                prompt.quality = if text::eq_chars(&q, &text::to_chars("best")) {
                    "1080".to_owned()
                } else if text::eq_chars(&q, &text::to_chars("1080")) {
                    "720".to_owned()
                } else if text::eq_chars(&q, &text::to_chars("720")) {
                    "480".to_owned()
                } else {
                    "best".to_owned()
                };
            }
        },
        Key::Backspace => {
            if prompt.cursor > 0 {
                let cur = prompt.cursor - 1;
                let mut inp = text::sub_chars(&prompt.input, 0, prompt.input.len());
                assert(inp@ =~= prompt.input@);
                inp.remove(cur);
                prompt.input = inp;
                prompt.cursor = cur;
            }
        },
        Key::Tab => {
            prompt.mode = if text::eq_chars(&text::to_chars(prompt.mode.as_str()), &text::to_chars("sub")) {
                "dub".to_owned()
            } else {
                "sub".to_owned()
            };
        },
        Key::Enter => {
            let ep = text::trim_chars(&prompt.input);
            let number = episode_number_exec(&ep, 1);
            *focus = Focus::Detail;
            if selected.is_some() {
                let ghost e0 = effects@;
                effects.push(Effect::PlayEpisode { episode: number, key: text::from_chars(&ep) });
                assert(effects@.take(e0.len() as int) =~= e0);
            }
        },
        Key::Esc => {
            *focus = Focus::Detail;
        },
        _ => {},
    }
}


// ── The whole state ──────────────────────────────────────────────────────────

/// Everything the interface keeps besides the work in flight.
pub struct State {
    pub tab: Tab,
    pub focus: Focus,
    pub status: String,
    pub search: SearchBar,
    pub searching: Searching,
    pub results: Results,
    pub history: HistoryPane,
    pub prompt: Prompt,
    pub detail_cache: Lru<CachedDetail>,
    pub image_cache: Lru<Vec<u8>>,
    pub config: Config,
    pub settings: SettingsPane,
}

/// Whether a key quits: Ctrl+`c` always, `q` outside the search bar, the
/// episode prompt and the settings' rows.
pub open spec fn quits(focus: Focus, kp: KeyPress) -> bool {
    (kp.ctrl && kp.key == Key::Char('c')) || (kp.key == Key::Char('q') && focus != Focus::Search
        && focus != Focus::EpisodePrompt && focus != Focus::SettingsEdit)
}

/// The Ctrl+arrow direction of a key.
pub open spec fn arrow(k: Key) -> Option<Direction> {
    match k {
        Key::Up => Some(Direction::Up),
        Key::Down => Some(Direction::Down),
        Key::Left => Some(Direction::Left),
        Key::Right => Some(Direction::Right),
        _ => None,
    }
}

/// The tab a function key switches to: F1 anime, F2 history, F3 settings.
pub open spec fn tab_key(k: Key) -> Option<Tab> {
    match k {
        Key::F(1) => Some(Tab::Anime),
        Key::F(2) => Some(Tab::History),
        Key::F(3) => Some(Tab::Settings),
        _ => None,
    }
}

/// Whether `/` moves to the search bar: from anywhere but the search bar
/// itself, the history list and detail, where it is typed, and the
/// settings.
pub open spec fn goes_to_search(focus: Focus, kp: KeyPress) -> bool {
    kp.key == Key::Char('/') && focus != Focus::Search && focus != Focus::History && focus
        != Focus::HistoryDetail && !is_settings_pane(focus)
}

/// The panes of the settings tab.
pub open spec fn is_settings_pane(f: Focus) -> bool {
    f == Focus::SettingsList || f == Focus::SettingsEdit
}

/// The tab the settings return to after being left from the tab `from`.
pub open spec fn settings_return_tab(from: Tab, settings: SettingsPane) -> Tab {
    if from == Tab::Settings {
        settings.prev_tab
    } else {
        from
    }
}

/// What switching tabs does: the results, selection, search text, history
/// filter and both episode lists are cleared, the tab's first pane gets the
/// keys, and the covers and episode records are cleared.
pub open spec fn tab_switched(s0: State, s1: State, tab: Tab, e0: Seq<Effect>, e1: Seq<Effect>) -> bool {
    &&& s1.tab == tab
    &&& s1.focus == match tab {
        Tab::Anime => Focus::Search,
        Tab::History => Focus::History,
        Tab::Settings => Focus::SettingsList,
    }
    &&& s1.status@ == tab_status(tab)
    &&& s1.config == s0.config
    &&& if tab == Tab::Settings {
        &&& s1.settings.category == 0 && s1.settings.row == 0
        &&& !s1.settings.editing && s1.settings.input@.len() == 0 && s1.settings.error is None
        &&& s1.settings.accent_cursor == 0 && s1.settings.progress_cursor == 0
        &&& s1.settings.complete_cursor == 0
        &&& s1.settings.prev_tab == settings_return_tab(s0.tab, s0.settings)
    } else {
        s1.settings == s0.settings
    }
    &&& s1.search.input@.len() == 0 && s1.search.cursor == 0
    &&& s1.searching == Searching { page: 1, ..s0.searching }
    &&& s1.results.items@.len() == 0 && s1.results.selected is None && !s1.results.has_more
    &&& s1.results.idx == s0.results.idx && s1.results.detail_scroll == s0.results.detail_scroll
    &&& episodes_cleared(s0.prompt, s1.prompt)
    &&& s1.history.entries == s0.history.entries && s1.history.idx == s0.history.idx
    &&& s1.history.filter@.len() == 0 && s1.history.filtered@.len() == 0
    &&& s1.history.episodes@.len() == 0 && s1.history.episode_idx == 0
    &&& !s1.history.episodes_loading
    &&& s1.history.window_start == 0 && s1.history.window_end == 0
    &&& s1.history.cols == s0.history.cols
    &&& s1.detail_cache == s0.detail_cache && s1.image_cache == s0.image_cache
    &&& e1 == e0.push(Effect::ClearCover).push(Effect::ClearAnimeRecords).push(
        Effect::ClearHistoryCover,
    ).push(Effect::ClearHistoryRecords)
}

/// What a key does to the state, besides quitting: quitting keys change
/// nothing; `/` moves to the search bar with the cursor at the end of the
/// text; Ctrl+arrows move between panes; F1, F2 and F3 switch tabs; any
/// other key goes to the pane with the focus.
pub open spec fn key_handled(s0: State, s1: State, kp: KeyPress, e: Seq<Effect>) -> bool {
    if quits(s0.focus, kp) {
        s1 == s0 && e.len() == 0
    } else if goes_to_search(s0.focus, kp) {
        let bar = SearchBar { cursor: s0.search.input@.len() as usize, ..s0.search };
        s1 == State { focus: Focus::Search, search: bar, ..s0 } && e.len() == 0
    } else if kp.ctrl && arrow(kp.key) is Some && !is_settings_pane(s0.focus) {
        let f = pane_after(s0.focus, arrow(kp.key)->0, s0.results.items@.len() > 0, s0.results.selected is Some);
        s1 == State { focus: f, ..s0 } && e.len() == 0
    } else if tab_key(kp.key) is Some {
        tab_switched(s0, s1, tab_key(kp.key)->0, seq![], e)
    } else {
        key_dispatched(s0, s1, kp, e)
    }
}

/// What a key handed to the pane with the focus does to the state, as that
/// pane's key function says; the parts the pane does not own stay.
pub open spec fn key_dispatched(s0: State, s1: State, kp: KeyPress, e: Seq<Effect>) -> bool {
    match s0.focus {
        Focus::Search => {
            &&& search_key_done(
                s0.search,
                s1.search,
                s0.searching,
                s1.searching,
                s0.results,
                s1.results,
                s0.prompt,
                s1.prompt,
                s0.focus,
                s1.focus,
                s0.status,
                s1.status,
                kp.key,
                seq![],
                e,
            )
            &&& s1.tab == s0.tab && s1.history == s0.history
            &&& s1.detail_cache == s0.detail_cache && s1.image_cache == s0.image_cache
            &&& s1.config == s0.config && s1.settings == s0.settings
        },
        Focus::Results => {
            &&& results_key_done(
                s0.search,
                s0.searching,
                s1.searching,
                s0.results,
                s1.results,
                s0.prompt,
                s1.prompt,
                s0.detail_cache@,
                s0.focus,
                s1.focus,
                s0.status,
                s1.status,
                kp,
                seq![],
                e,
            )
            &&& s1.tab == s0.tab && s1.search == s0.search && s1.history == s0.history
            &&& s1.detail_cache == s0.detail_cache && s1.image_cache == s0.image_cache
            &&& s1.config == s0.config && s1.settings == s0.settings
        },
        Focus::Detail => {
            &&& detail_key_done(s0.results, s1.results, s0.prompt, s1.prompt, s0.focus, s1.focus, kp, seq![], e)
            &&& s1.tab == s0.tab && s1.status == s0.status && s1.search == s0.search
            &&& s1.searching == s0.searching && s1.history == s0.history
            &&& s1.detail_cache == s0.detail_cache && s1.image_cache == s0.image_cache
            &&& s1.config == s0.config && s1.settings == s0.settings
        },
        Focus::History | Focus::HistoryDetail | Focus::HistoryEpisodes => {
            &&& match s0.focus {
                Focus::History => history_key_done(s0.history, s1.history, s0.focus, s1.focus, kp.key, seq![], e),
                Focus::HistoryDetail => history_detail_key_done(
                    s0.history,
                    s1.history,
                    s0.focus,
                    s1.focus,
                    kp.key,
                    seq![],
                    e,
                ),
                _ => history_episodes_key_done(
                    s0.history,
                    s1.history,
                    s0.focus,
                    s1.focus,
                    kp.key,
                    seq![],
                    e,
                ),
            }
            &&& s1.tab == s0.tab && s1.status == s0.status && s1.search == s0.search
            &&& s1.searching == s0.searching && s1.results == s0.results && s1.prompt == s0.prompt
            &&& s1.detail_cache == s0.detail_cache && s1.image_cache == s0.image_cache
            &&& s1.config == s0.config && s1.settings == s0.settings
        },
        Focus::EpisodePrompt => {
            &&& prompt_key_done(s0.prompt, s1.prompt, s0.results.selected, s0.focus, s1.focus, kp, seq![], e)
            &&& s1.tab == s0.tab && s1.status == s0.status && s1.search == s0.search
            &&& s1.searching == s0.searching && s1.results == s0.results && s1.history == s0.history
            &&& s1.detail_cache == s0.detail_cache && s1.image_cache == s0.image_cache
            &&& s1.config == s0.config && s1.settings == s0.settings
        },
        Focus::SettingsList => if kp.key == Key::Esc {
            tab_switched(s0, s1, s0.settings.prev_tab, seq![], e)
        } else {
            &&& list_key_done(s0.settings, s1.settings, s0.config, s0.focus, s1.focus, kp)
            &&& e.len() == 0
            &&& s1.tab == s0.tab && s1.status == s0.status && s1.search == s0.search
            &&& s1.searching == s0.searching && s1.results == s0.results && s1.prompt == s0.prompt
            &&& s1.history == s0.history && s1.config == s0.config
            &&& s1.detail_cache == s0.detail_cache && s1.image_cache == s0.image_cache
        },
        Focus::SettingsEdit => {
            &&& rows_key_done(
                s0.settings,
                s1.settings,
                s0.config,
                s1.config,
                s0.focus,
                s1.focus,
                kp,
                seq![],
                e,
            )
            &&& s1.tab == s0.tab && s1.status == s0.status && s1.search == s0.search
            &&& s1.searching == s0.searching && s1.results == s0.results && s1.prompt == s0.prompt
            &&& s1.history == s0.history
            &&& s1.detail_cache == s0.detail_cache && s1.image_cache == s0.image_cache
        },
    }
}

/// The status line after switching to a tab.
pub open spec fn tab_status(t: Tab) -> Seq<char> {
    let name = match t {
        Tab::Anime => "Anime"@,
        Tab::History => "History"@,
        Tab::Settings => "Settings"@,
    };
    name + "  •  type to search"@
}

impl State {
    /// The invariants: the search cursor is within the search text, the
    /// history filter lists what it matches, and the caches are within their
    /// bounds.
    pub open spec fn wf(&self) -> bool {
        &&& self.search.wf()
        &&& self.history.wf()
        &&& self.detail_cache@.len() <= DETAIL_CACHE_MAX
        &&& self.image_cache@.len() <= IMAGE_CACHE_MAX
    }

    /// The state can take the key: the counters it may advance have room,
    /// and an edit of the episode prompt happens within its text (else the
    /// key has no defined outcome).
    pub open spec fn can_take(&self, kp: KeyPress) -> bool {
        &&& self.searching.gen < u64::MAX
        &&& self.searching.page < u32::MAX
        &&& self.results.detail_scroll <= u16::MAX - 10
        &&& self.results.idx < usize::MAX - 3
        &&& self.search.input@.len() < usize::MAX
        &&& self.history.filter@.len() < usize::MAX
        &&& self.prompt.input@.len() < usize::MAX
        &&& self.prompt.idx + self.prompt.cols + 1 <= usize::MAX
        &&& (self.focus == Focus::EpisodePrompt && edits_prompt(kp)) ==> self.prompt.cursor
            <= self.prompt.input@.len()
        &&& (self.focus == Focus::Results && (kp.key == Key::Up || kp.key == Key::Char('k'))
            && self.results.idx > 0) ==> self.results.idx - 1 < self.results.items@.len()
        &&& customs_fit(self.config)
        &&& self.settings.input@.len() < usize::MAX
        &&& self.settings.row < usize::MAX
    }

    /// Whether the state can take the key.
    pub fn accepts(&self, kp: KeyPress) -> (r: bool)
        ensures
            r == self.can_take(kp),
    {
        let edits = match kp.key {
            Key::Char(c) => '0' <= c && c <= '9',
            Key::Backspace => true,
            _ => false,
        };
        let up = kp.key == Key::Up || kp.key == Key::Char('k');
        self.searching.gen < u64::MAX && self.searching.page < u32::MAX
            && self.results.detail_scroll <= u16::MAX - 10 && self.results.idx < usize::MAX - 3
            && self.search.input.len() < usize::MAX && self.history.filter.len() < usize::MAX
            && self.prompt.input.len() < usize::MAX
            && self.prompt.cols < usize::MAX && self.prompt.idx < usize::MAX - self.prompt.cols
            && (!(self.focus == Focus::EpisodePrompt && edits) || self.prompt.cursor
            <= self.prompt.input.len()) && (!(self.focus == Focus::Results && up
            && self.results.idx > 0) || self.results.idx - 1 < self.results.items.len())
            && self.config.theme.accent_custom.len() <= usize::MAX - PRESET_COUNT - 2
            && self.config.theme.bar_progress_custom.len() <= usize::MAX - PRESET_COUNT - 2
            && self.config.theme.bar_complete_custom.len() <= usize::MAX - PRESET_COUNT - 2
            && self.settings.input.len() < usize::MAX && self.settings.row < usize::MAX
    }

    /// Switches tabs: the results, selection, search text and history
    /// filter are cleared, and the tab's first pane gets the keys.
    pub fn switch_tab(&mut self, tab: Tab, effects: &mut Vec<Effect>)
        requires
            old(self).wf(),
        ensures
            final(self).wf(),
            tab_switched(*old(self), *final(self), tab, old(effects)@, final(effects)@),
    {
        if tab == Tab::Settings {
            let back = if self.tab == Tab::Settings {
                self.settings.prev_tab
            } else {
                self.tab
            };
            self.settings = SettingsPane::new(back);
        }
        self.tab = tab;
        self.results.items.clear();
        self.results.selected = None;
        effects.push(Effect::ClearCover);
        self.prompt.episodes.clear();
        effects.push(Effect::ClearAnimeRecords);
        self.search.input.clear();
        self.search.cursor = 0;
        self.searching.page = 1;
        self.results.has_more = false;
        self.history.filter.clear();
        self.history.filtered.clear();
        effects.push(Effect::ClearHistoryCover);
        self.history.episodes.clear();
        effects.push(Effect::ClearHistoryRecords);
        self.history.episode_idx = 0;
        self.history.episodes_loading = false;
        self.history.window_start = 0;
        self.history.window_end = 0;
        self.focus = match tab {
            Tab::Anime => Focus::Search,
            Tab::History => Focus::History,
            Tab::Settings => Focus::SettingsList,
        };
        let mut st = text::to_chars(tab.name());
        push_str(&mut st, "  •  type to search");
        self.status = text::from_chars(&st);
    }

    /// What a key does, and whether it quits. Ctrl+`c` quits, and so does `q` outside the search
    /// bar and the episode prompt; `/` goes to the search bar (except from the
    /// history list and detail); Ctrl+arrows move between panes; F1, F2 and F3
    /// switch tabs; any other key goes to the pane that has the focus.
    pub fn handle_key(&mut self, kp: KeyPress) -> (r: (bool, Vec<Effect>))
        requires
            old(self).wf(),
            old(self).can_take(kp),
        ensures
            final(self).wf(),
            r.0 == quits(old(self).focus, kp),
            key_handled(*old(self), *final(self), kp, r.1@),
    {
        let mut effects: Vec<Effect> = Vec::new();
        if (kp.ctrl && kp.key == Key::Char('c')) || (kp.key == Key::Char('q') && self.focus
            != Focus::Search && self.focus != Focus::EpisodePrompt && self.focus
            != Focus::SettingsEdit) {
            return (true, effects);
        }
        if kp.key == Key::Char('/') && self.focus != Focus::Search && self.focus != Focus::History
            && self.focus != Focus::HistoryDetail && self.focus != Focus::SettingsList
            && self.focus != Focus::SettingsEdit {
            self.focus = Focus::Search;
            self.search.cursor = self.search.input.len();
            return (false, effects);
        }
        if kp.ctrl && self.focus != Focus::SettingsList && self.focus != Focus::SettingsEdit {
            let dir = match kp.key {
                Key::Up => Some(Direction::Up),
                Key::Down => Some(Direction::Down),
                Key::Left => Some(Direction::Left),
                Key::Right => Some(Direction::Right),
                _ => None,
            };
            match dir {
                Some(d) => {
                    self.focus = move_pane(
                        self.focus,
                        d,
                        self.results.items.len() > 0,
                        self.results.selected.is_some(),
                    );
                    return (false, effects);
                },
                None => {},
            }
        }
        match kp.key {
            Key::F(1) => {
                self.switch_tab(Tab::Anime, &mut effects);
                return (false, effects);
            },
            Key::F(2) => {
                self.switch_tab(Tab::History, &mut effects);
                return (false, effects);
            },
            Key::F(3) => {
                self.switch_tab(Tab::Settings, &mut effects);
                return (false, effects);
            },
            _ => {},
        }
        match self.focus {
            Focus::Search => key_search(
                &mut self.search,
                &mut self.searching,
                &mut self.results,
                &mut self.prompt,
                &mut self.focus,
                &mut self.status,
                kp.key,
                &mut effects,
            ),
            Focus::Results => key_results(
                &self.search,
                &mut self.searching,
                &mut self.results,
                &mut self.prompt,
                &self.detail_cache,
                &mut self.focus,
                &mut self.status,
                kp,
                &mut effects,
            ),
            Focus::Detail => key_detail(
                &mut self.results,
                &mut self.prompt,
                &mut self.focus,
                kp,
                &mut effects,
            ),
            Focus::History => key_history(&mut self.history, &mut self.focus, kp.key, &mut effects),
            Focus::HistoryDetail => key_history_detail(
                &mut self.history,
                &mut self.focus,
                kp.key,
                &mut effects,
            ),
            Focus::HistoryEpisodes => key_history_episodes(
                &mut self.history,
                &mut self.focus,
                kp.key,
                &mut effects,
            ),
            Focus::EpisodePrompt => key_episode_prompt(
                &mut self.prompt,
                &self.results.selected,
                &mut self.focus,
                kp,
                &mut effects,
            ),
            Focus::SettingsList => {
                if kp.key == Key::Esc {
                    let back = self.settings.prev_tab;
                    self.switch_tab(back, &mut effects);
                } else {
                    key_settings_list(&mut self.settings, &self.config, &mut self.focus, kp);
                }
            },
            Focus::SettingsEdit => key_settings_rows(
                &mut self.settings,
                &mut self.config,
                &mut self.focus,
                kp,
                &mut effects,
            ),
        }
        (false, effects)
    }
}


// ── Background results ───────────────────────────────────────────────────────

/// A result that arrived from background work.
pub enum Msg {
    /// The first page of a search, from the search of generation `gen`.
    SearchResults { items: Vec<ContentItem>, gen: u64 },
    /// A further page of the current search.
    MoreResults(Vec<ContentItem>),
    /// The item the detail pane shows.
    DetailLoaded(ContentItem),
    /// The episode list of an item.
    EpisodeList { id: String, eps: Vec<String> },
    /// A stream URL is ready and the player is being started.
    StreamUrl,
    /// The episode list of a history entry (already stored by the caller).
    HistoryEpisodeList { anime_id: String, eps: Vec<String> },
    /// Cover bytes fetched from `url` for the item `item_id`.
    ImageFetched { url: String, item_id: String, bytes: Vec<u8> },
    /// Background work failed.
    Error(String),
}

/// A full page of results: there may be more.
pub const PAGE_SIZE: usize = 25;

fn copy_strings(v: &Vec<String>) -> (r: Vec<String>)
    ensures
        r@ == v@,
{
    let mut out: Vec<String> = Vec::new();
    let mut i: usize = 0;
    while i < v.len()
        invariant
            i <= v@.len(),
            out@ == v@.take(i as int),
        decreases v@.len() - i,
    {
        out.push(v[i].clone());
        i += 1;
        assert(out@ =~= v@.take(i as int));
    }
    assert(v@.take(v@.len() as int) =~= v@);
    out
}

fn copy_bytes(v: &Vec<u8>) -> (r: Vec<u8>)
    ensures
        r@ == v@,
{
    let mut out: Vec<u8> = Vec::new();
    let mut i: usize = 0;
    while i < v.len()
        invariant
            i <= v@.len(),
            out@ == v@.take(i as int),
        decreases v@.len() - i,
    {
        out.push(v[i]);
        i += 1;
        assert(out@ =~= v@.take(i as int));
    }
    assert(v@.take(v@.len() as int) =~= v@);
    out
}

/// The status line after a page of results arrived.
pub open spec fn results_status(n: nat, added: Option<nat>) -> Seq<char> {
    match added {
        None => text::decimal(n) + " results"@,
        Some(a) => text::decimal(n) + " results  (+"@ + text::decimal(a) + " more)"@,
    }
}

/// The position of the last watched episode in a list, a grid row (`cols`
/// cells) back so that it is not at the very top: the first episode equal
/// to the progress number, or the start.
pub open spec fn last_watched_index(episodes: Seq<String>, progress: Option<u32>, cols: nat) -> nat {
    match progress {
        None => 0,
        Some(p) => {
            let raw = match first_equal(episodes, text::decimal(p as nat)) {
                Some(i) => i,
                None => 0,
            };
            if raw >= cols {
                (raw - cols) as nat
            } else {
                0
            }
        },
    }
}

/// The index of the first string with the given characters.
pub open spec fn first_equal(v: Seq<String>, t: Seq<char>) -> Option<nat>
    decreases v.len(),
{
    if v.len() == 0 {
        None
    } else {
        match first_equal(v.drop_last(), t) {
            Some(i) => Some(i),
            None => if v.last()@ == t {
                Some((v.len() - 1) as nat)
            } else {
                None
            },
        }
    }
}

fn first_equal_exec(v: &Vec<String>, t: &Vec<char>) -> (r: Option<usize>)
    ensures
        r matches Some(i) ==> first_equal(v@, t@) == Some(i as nat) && i < v@.len(),
        r is None ==> first_equal(v@, t@) is None,
{
    let mut i: usize = 0;
    while i < v.len()
        invariant
            i <= v@.len(),
            first_equal(v@.take(i as int), t@) is None,
        decreases v@.len() - i,
    {
        assert(v@.take(i + 1).drop_last() =~= v@.take(i as int));
        if text::eq_chars(&text::to_chars(v[i].as_str()), t) {
            proof {
                lemma_first_equal_prefix(v@, t@, i + 1);
            }
            return Some(i);
        }
        i += 1;
    }
    assert(v@.take(v@.len() as int) =~= v@);
    None
}

proof fn lemma_first_equal_prefix(v: Seq<String>, t: Seq<char>, n: int)
    requires
        0 < n <= v.len(),
        first_equal(v.take(n), t) is Some,
    ensures
        first_equal(v, t) == first_equal(v.take(n), t),
    decreases v.len() - n,
{
    if n < v.len() {
        assert(v.take(n + 1).drop_last() =~= v.take(n));
        lemma_first_equal_prefix(v, t, n + 1);
    } else {
        assert(v.take(n) =~= v);
    }
}

/// The episode window around an index: forty episodes on each side,
/// within the list.
pub open spec fn window_around(idx: nat, count: nat) -> (nat, nat) {
    (if idx >= 40 {
        (idx - 40) as nat
    } else {
        0
    }, if idx + 40 <= count {
        idx + 40
    } else {
        count
    })
}

fn window_around_exec(idx: usize, count: usize) -> (r: (usize, usize))
    ensures
        (r.0 as nat, r.1 as nat) == window_around(idx as nat, count as nat),
{
    let start = if idx >= 40 {
        idx - 40
    } else {
        0
    };
    let end = if idx <= count && count - idx >= 40 {
        idx + 40
    } else {
        count
    };
    (start, end)
}

/// What planning the selected entry's episode list does. With nothing
/// selected, a list shown is cleared with its records. With an entry
/// selected: its own fresh list stays; when the records loaded are another
/// entry's, the list and its records are cleared and a fresh cached list is
/// shown with the cursor at the last watched episode and the window around
/// it loaded at once; otherwise the list is fetched, unless a fetch is
/// already under way. The entries, filter, selection and grid width stay.
pub open spec fn episodes_planned(
    h0: HistoryPane,
    h1: HistoryPane,
    loaded: Option<Seq<char>>,
    cached: Option<Seq<String>>,
    stale: bool,
    e0: Seq<Effect>,
    e1: Seq<Effect>,
) -> bool {
    &&& h1.entries == h0.entries && h1.filter == h0.filter && h1.filtered == h0.filtered
    &&& h1.idx == h0.idx && h1.cols == h0.cols
    &&& match h0.selected_index() {
        None => if h0.episodes@.len() > 0 {
            &&& h1.episodes@.len() == 0 && h1.episode_idx == 0
            &&& h1.window_start == 0 && h1.window_end == 0
            &&& h1.episodes_loading == h0.episodes_loading
            &&& e1 == e0.push(Effect::ClearHistoryRecords)
        } else {
            h1 == h0 && e1 == e0
        },
        Some(e) => {
            let mine = loaded == Some(h0.entries@[e].id@);
            let fetch = if h0.episodes_loading {
                seq![]
            } else {
                seq![Effect::FetchHistoryEpisodes(e as usize)]
            };
            if h0.episodes@.len() > 0 && mine && !stale {
                h1 == h0 && e1 == e0
            } else if !mine {
                let cleared = e0.push(Effect::ClearHistoryRecords);
                if cached is Some && !stale {
                    let eps = cached->0;
                    let i = last_watched_index(eps, h0.entries@[e].progress, h0.cols as nat);
                    let (start, end) = window_around(i, eps.len());
                    &&& h1.episodes@ == eps && h1.episode_idx == i
                    &&& h1.window_start == 0 && h1.window_end == 0
                    &&& h1.episodes_loading == h0.episodes_loading
                    &&& e1 == cleared.push(
                        Effect::LoadEpisodeWindow {
                            entry: e as usize,
                            start: start as usize,
                            end: end as usize,
                            now: true,
                        },
                    )
                } else {
                    &&& h1.episodes@.len() == 0 && h1.episode_idx == 0
                    &&& h1.window_start == 0 && h1.window_end == 0
                    &&& h1.episodes_loading
                    &&& e1 == cleared + fetch
                }
            } else {
                h1 == HistoryPane { episodes_loading: true, ..h0 } && e1 == e0 + fetch
            }
        },
    }
}

impl HistoryPane {
    /// Where the episode cursor starts in the selected entry's list.
    pub fn last_watched_episode_idx(&self) -> (r: usize)
        ensures
            r as nat == match self.selected_index() {
                Some(e) => last_watched_index(self.episodes@, self.entries@[e].progress, self.cols as nat),
                None => 0,
            },
            r <= self.episodes@.len(),
    {
        let e = match self.selected() {
            Some(e) => e,
            None => {
                return 0;
            },
        };
        let p = match self.entries[e].progress {
            Some(p) => p,
            None => {
                return 0;
            },
        };
        let mut target: Vec<char> = Vec::new();
        text::push_decimal(&mut target, p as u64);
        assert(target@ =~= text::decimal(p as nat));
        let raw = match first_equal_exec(&self.episodes, &target) {
            Some(i) => i,
            None => 0,
        };
        if raw >= self.cols {
            raw - self.cols
        } else {
            0
        }
    }

    /// Takes a fetched episode list for the selected entry: the cursor goes
    /// to the last watched episode, and the window around it is loaded at
    /// once.
    fn take_episodes(&mut self, entry: usize, eps: Vec<String>, effects: &mut Vec<Effect>)
        requires
            old(self).wf(),
            old(self).selected_index() == Some(entry as int),
        ensures
            final(self).wf(),
            final(self).entries == old(self).entries,
            final(self).filter == old(self).filter,
            final(self).idx == old(self).idx,
            final(self).episodes@ == eps@,
            !final(self).episodes_loading,
            final(self).episode_idx as nat == last_watched_index(
                eps@,
                old(self).entries@[entry as int].progress,
                old(self).cols as nat,
            ),
            final(effects)@.last() matches Effect::LoadEpisodeWindow { entry: e, start, end, now }
                && e == entry && now && (start as nat, end as nat) == window_around(
                final(self).episode_idx as nat,
                eps@.len(),
            ),
    {
        self.episodes = eps;
        self.episodes_loading = false;
        self.window_start = 0;
        self.window_end = 0;
        effects.push(Effect::ClearHistoryRecords);
        self.episode_idx = self.last_watched_episode_idx();
        let (start, end) = window_around_exec(self.episode_idx, self.episodes.len());
        effects.push(Effect::LoadEpisodeWindow { entry, start, end, now: true });
    }

    /// The episode window to load for the selected entry, when the cursor
    /// has moved too close to the edge of the window loaded (or none is):
    /// forty episodes around the cursor.
    pub fn window_request(&self, records_empty: bool) -> (r: Option<(usize, usize, usize)>)
        requires
            self.window_end + 10 <= usize::MAX,
        ensures
            r matches Some((e, start, end)) ==> ({
                let (s, t) = window_around(self.episode_idx as nat, self.episodes@.len());
                &&& self.selected_index() == Some(e as int)
                &&& start == s && end == t && start < end
                &&& records_empty || start + 10 < self.window_start || end > self.window_end + 10
            }),
            r is None ==> self.episodes@.len() == 0 || self.selected_index() is None || ({
                let (s, t) = window_around(self.episode_idx as nat, self.episodes@.len());
                s >= t || !(records_empty || s + 10 < self.window_start || t > self.window_end
                    + 10)
            }),
    {
        let count = self.episodes.len();
        if count == 0 {
            return None;
        }
        let e = match self.selected() {
            Some(e) => e,
            None => {
                return None;
            },
        };
        let (start, end) = window_around_exec(self.episode_idx, count);
        let cur_start_slack = if self.window_start >= 10 {
            self.window_start - 10
        } else {
            0
        };
        let needs = records_empty || start < cur_start_slack || end > self.window_end + 10;
        if !needs || start >= end {
            return None;
        }
        Some((e, start, end))
    }

    /// What to do about the selected entry's episode list: clear it when
    /// nothing is selected; keep it when it is the entry's and fresh; switch
    /// to the entry's cached list when it is fresh; otherwise fetch it, unless
    /// a fetch is under way. `loaded` is the entry whose episode records are
    /// loaded, `cached` the stored list, `stale` whether it is a day old.
    pub fn plan_episodes(
        &mut self,
        loaded: Option<&str>,
        cached: Option<&Vec<String>>,
        stale: bool,
        effects: &mut Vec<Effect>,
    )
        requires
            old(self).wf(),
        ensures
            final(self).wf(),
            episodes_planned(
                *old(self),
                *final(self),
                match loaded {
                    Some(l) => Some(l@),
                    None => None,
                },
                match cached {
                    Some(c) => Some(c@),
                    None => None,
                },
                stale,
                old(effects)@,
                final(effects)@,
            ),
    {
        let e = match self.selected() {
            Some(e) => e,
            None => {
                if self.episodes.len() > 0 {
                    self.episodes.clear();
                    effects.push(Effect::ClearHistoryRecords);
                    self.episode_idx = 0;
                    self.window_start = 0;
                    self.window_end = 0;
                }
                return;
            },
        };
        let id = text::to_chars(self.entries[e].id.as_str());
        let mine = match loaded {
            Some(l) => text::eq_chars(&text::to_chars(l), &id),
            None => false,
        };
        if self.episodes.len() > 0 && mine && !stale {
            return;
        }
        if !mine {
            self.episodes.clear();
            effects.push(Effect::ClearHistoryRecords);
            self.episode_idx = 0;
            self.window_start = 0;
            self.window_end = 0;
            match cached {
                Some(c) => {
                    if !stale {
                        self.episodes = copy_strings(c);
                        self.episode_idx = self.last_watched_episode_idx();
                        let (start, end) = window_around_exec(self.episode_idx, self.episodes.len());
                        effects.push(Effect::LoadEpisodeWindow { entry: e, start, end, now: true });
                        return;
                    }
                },
                None => {},
            }
        }
        if self.episodes_loading {
            assert(effects@ =~= effects@ + Seq::<Effect>::empty());
            return;
        }
        self.episodes_loading = true;
        let ghost before = effects@;
        effects.push(Effect::FetchHistoryEpisodes(e));
        assert(effects@ =~= before + seq![Effect::FetchHistoryEpisodes(e)]);
    }
}

impl State {
    /// What a background result does.
    ///
    /// A first page of the current search replaces the results and, when it
    /// is not empty, moves to them and shows the first; a page of an older
    /// search changes nothing. A further page is appended. A loaded item is
    /// selected. An episode list is cached, and shown when its item is the
    /// selected one. A history entry's episode list is taken when the entry
    /// is still selected. Fetched cover bytes are cached and decoded. An
    /// error stops the spinner and is shown.
    pub fn handle_msg(&mut self, msg: Msg) -> (effects: Vec<Effect>)
        requires
            old(self).wf(),
        ensures
            final(self).wf(),
            final(self).tab == old(self).tab,
            final(self).search == old(self).search,
            final(self).config == old(self).config,
            final(self).settings == old(self).settings,
            match msg {
                Msg::SearchResults { items, gen } => if gen == old(self).searching.gen {
                    let n = items@.len();
                    &&& !final(self).searching.active
                    &&& final(self).searching.gen == old(self).searching.gen
                    &&& final(self).searching.page == old(self).searching.page
                    &&& final(self).results.items@ == items@
                    &&& final(self).results.idx == 0
                    &&& final(self).results.has_more == (n >= PAGE_SIZE)
                    &&& final(self).results.selected == old(self).results.selected
                    &&& final(self).results.detail_scroll == old(self).results.detail_scroll
                    &&& final(self).history == old(self).history
                    &&& final(self).detail_cache == old(self).detail_cache
                    &&& final(self).image_cache == old(self).image_cache
                    &&& if n > 0 {
                        let id = items@[0].anime().id@;
                        &&& final(self).focus == Focus::Results
                        &&& final(self).status@ == results_status(n, None)
                        &&& prompt_after_detail(old(self).prompt, final(self).prompt, old(self).detail_cache@, id)
                        &&& effects_after_detail(
                            seq![],
                            effects@.take(effects@.len() - 2),
                            old(self).detail_cache@,
                            id,
                            0,
                        )
                        &&& effects@.len() >= 2
                        &&& effects@[effects@.len() - 2] == Effect::PrefetchEpisodeLists {
                            start: 0,
                            end: n as usize,
                        }
                        &&& effects@.last() == Effect::PrefetchImages { start: 0, end: 5 }
                    } else {
                        &&& final(self).focus == old(self).focus
                        &&& final(self).status@ == "No results"@
                        &&& final(self).prompt == old(self).prompt
                        &&& effects@.len() == 1
                        &&& effects@[0] matches Effect::Toast(ToastKind::Info, m) && m@
                            == "No results found"@
                    }
                } else {
                    &&& *final(self) == *old(self)
                    &&& effects@.len() == 0
                },
                Msg::MoreResults(items) => {
                    let prev = old(self).results.items@.len();
                    let n = prev + items@.len();
                    &&& !final(self).searching.active
                    &&& final(self).searching.gen == old(self).searching.gen
                    &&& final(self).searching.page == old(self).searching.page
                    &&& final(self).results.items@ == old(self).results.items@ + items@
                    &&& final(self).results.has_more == (items@.len() >= PAGE_SIZE)
                    &&& final(self).results.idx == old(self).results.idx
                    &&& final(self).results.selected == old(self).results.selected
                    &&& final(self).results.detail_scroll == old(self).results.detail_scroll
                    &&& final(self).status@ == results_status(n, Some(items@.len()))
                    &&& final(self).focus == old(self).focus
                    &&& final(self).history == old(self).history
                    &&& final(self).prompt == old(self).prompt
                    &&& final(self).detail_cache == old(self).detail_cache
                    &&& final(self).image_cache == old(self).image_cache
                    &&& effects@ == seq![
                        Effect::PrefetchEpisodeLists { start: prev as usize, end: n as usize },
                        Effect::PrefetchImages {
                            start: prev as usize,
                            end: (if n > prev + 5 { prev + 5 } else { n }) as usize,
                        },
                    ]
                },
                Msg::DetailLoaded(item) => {
                    &&& final(self).results.selected == Some(item)
                    &&& final(self).results.detail_scroll == 0
                    &&& final(self).results.items == old(self).results.items
                    &&& final(self).results.idx == old(self).results.idx
                    &&& final(self).results.has_more == old(self).results.has_more
                    &&& final(self).searching == old(self).searching
                    &&& final(self).focus == old(self).focus
                    &&& final(self).status == old(self).status
                    &&& final(self).history == old(self).history
                    &&& final(self).prompt == old(self).prompt
                    &&& final(self).detail_cache == old(self).detail_cache
                    &&& final(self).image_cache == old(self).image_cache
                    &&& effects@.len() == 0
                },
                Msg::EpisodeList { id, eps } => {
                    let shown = old(self).results.selected matches Some(s) && s.anime().id@ == id@;
                    &&& exists|d: CachedDetail|
                        #![trigger after_put(old(self).detail_cache@, id@, d, DETAIL_CACHE_MAX as nat)]
                        d.episode_list matches Some(l) && l@ == eps@ && final(self).detail_cache@
                            == after_put(old(self).detail_cache@, id@, d, DETAIL_CACHE_MAX as nat)
                    &&& shown ==> final(self).prompt.episodes@ == eps@ && final(self).prompt.idx == 0
                    &&& !shown ==> final(self).prompt.episodes == old(self).prompt.episodes
                        && final(self).prompt.idx == old(self).prompt.idx
                    &&& final(self).prompt.input == old(self).prompt.input
                    &&& final(self).prompt.cursor == old(self).prompt.cursor
                    &&& final(self).prompt.mode == old(self).prompt.mode
                    &&& final(self).prompt.quality == old(self).prompt.quality
                    &&& final(self).prompt.cols == old(self).prompt.cols
                    &&& final(self).results == old(self).results
                    &&& final(self).searching == old(self).searching
                    &&& final(self).focus == old(self).focus
                    &&& final(self).status == old(self).status
                    &&& final(self).history == old(self).history
                    &&& final(self).image_cache == old(self).image_cache
                    &&& effects@.len() == 0
                },
                Msg::StreamUrl => {
                    &&& !final(self).searching.active
                    &&& final(self).searching.gen == old(self).searching.gen
                    &&& final(self).searching.page == old(self).searching.page
                    &&& final(self).status@ == "Playing"@
                    &&& final(self).results == old(self).results
                    &&& final(self).focus == old(self).focus
                    &&& final(self).history == old(self).history
                    &&& final(self).prompt == old(self).prompt
                    &&& final(self).detail_cache == old(self).detail_cache
                    &&& final(self).image_cache == old(self).image_cache
                    &&& effects@.len() == 1
                    &&& effects@[0] matches Effect::Toast(ToastKind::Success, m) && m@
                        == "Launching mpv…"@
                },
                Msg::HistoryEpisodeList { anime_id, eps } => {
                    let taken = old(self).history.selected_index() matches Some(e)
                        && old(self).history.entries@[e].id@ == anime_id@;
                    &&& taken ==> ({
                        let e = old(self).history.selected_index()->0;
                        &&& final(self).history.entries == old(self).history.entries
                        &&& final(self).history.filter == old(self).history.filter
                        &&& final(self).history.idx == old(self).history.idx
                        &&& final(self).history.episodes@ == eps@
                        &&& !final(self).history.episodes_loading
                        &&& final(self).history.episode_idx as nat == last_watched_index(
                            eps@,
                            old(self).history.entries@[e].progress,
                            old(self).history.cols as nat,
                        )
                        &&& effects@.last() matches Effect::LoadEpisodeWindow {
                            entry: w,
                            start,
                            end,
                            now,
                        } && w == e && now && (start as nat, end as nat) == window_around(
                            final(self).history.episode_idx as nat,
                            eps@.len(),
                        )
                    })
                    &&& !taken ==> final(self).history == old(self).history && effects@.len() == 0
                    &&& final(self).results == old(self).results
                    &&& final(self).searching == old(self).searching
                    &&& final(self).focus == old(self).focus
                    &&& final(self).status == old(self).status
                    &&& final(self).prompt == old(self).prompt
                    &&& final(self).detail_cache == old(self).detail_cache
                    &&& final(self).image_cache == old(self).image_cache
                },
                Msg::ImageFetched { url, item_id, bytes } => {
                    &&& final(self).image_cache@ == after_add(
                        old(self).image_cache@,
                        url@,
                        bytes,
                        IMAGE_CACHE_MAX as nat,
                    )
                    &&& effects@.len() == 1
                    &&& effects@[0] matches Effect::DecodeImage { item_id: i, bytes: b } && i
                        == item_id && b@ == bytes@
                    &&& final(self).results == old(self).results
                    &&& final(self).searching == old(self).searching
                    &&& final(self).focus == old(self).focus
                    &&& final(self).status == old(self).status
                    &&& final(self).history == old(self).history
                    &&& final(self).prompt == old(self).prompt
                    &&& final(self).detail_cache == old(self).detail_cache
                },
                Msg::Error(e) => {
                    &&& !final(self).searching.active
                    &&& final(self).searching.gen == old(self).searching.gen
                    &&& final(self).searching.page == old(self).searching.page
                    &&& final(self).results == old(self).results
                    &&& final(self).focus == old(self).focus
                    &&& final(self).status == old(self).status
                    &&& final(self).history == old(self).history
                    &&& final(self).prompt == old(self).prompt
                    &&& final(self).detail_cache == old(self).detail_cache
                    &&& final(self).image_cache == old(self).image_cache
                    &&& effects@ == seq![Effect::Toast(ToastKind::Error, e)]
                },
            },
    {
        let mut effects: Vec<Effect> = Vec::new();
        match msg {
            Msg::SearchResults { items, gen } => {
                if gen != self.searching.gen {
                    return effects;
                }
                self.searching.active = false;
                self.results.has_more = items.len() >= PAGE_SIZE;
                self.results.items = items;
                self.results.idx = 0;
                let n = self.results.items.len();
                if n == 0 {
                    effects.push(Effect::Toast(ToastKind::Info, "No results found".to_owned()));
                    self.status = "No results".to_owned();
                } else {
                    let mut st: Vec<char> = Vec::new();
                    text::push_decimal(&mut st, n as u64);
                    push_str(&mut st, " results");
                    self.status = text::from_chars(&st);
                    self.focus = Focus::Results;
                    load_detail(&self.results, 0, &mut self.prompt, &self.detail_cache, &mut effects);
                    let ghost shown = effects@;
                    effects.push(Effect::PrefetchEpisodeLists { start: 0, end: n });
                    effects.push(Effect::PrefetchImages { start: 0, end: 5 });
                    assert(effects@.take(effects@.len() - 2) =~= shown);
                }
            },
            Msg::MoreResults(items) => {
                self.searching.active = false;
                self.results.has_more = items.len() >= PAGE_SIZE;
                let added = items.len();
                let prev = self.results.items.len();
                let mut items = items;
                self.results.items.append(&mut items);
                let n = self.results.items.len();
                let mut st: Vec<char> = Vec::new();
                text::push_decimal(&mut st, n as u64);
                push_str(&mut st, " results  (+");
                text::push_decimal(&mut st, added as u64);
                push_str(&mut st, " more)");
                self.status = text::from_chars(&st);
                effects.push(Effect::PrefetchEpisodeLists { start: prev, end: n });
                let end = if n - prev > 5 {
                    prev + 5
                } else {
                    n
                };
                effects.push(Effect::PrefetchImages { start: prev, end });
            },
            Msg::DetailLoaded(item) => {
                self.results.selected = Some(item);
                self.results.detail_scroll = 0;
            },
            Msg::EpisodeList { id, eps } => {
                let keep = copy_strings(&eps);
                let ghost d = CachedDetail { episode_list: Some(keep) };
                self.detail_cache.put(id.clone(), CachedDetail { episode_list: Some(keep) }, DETAIL_CACHE_MAX);
                assert(self.detail_cache@ == after_put(old(self).detail_cache@, id@, d, DETAIL_CACHE_MAX as nat));
                let is_selected = match &self.results.selected {
                    Some(s) => text::eq_chars(&text::to_chars(s.id()), &text::to_chars(id.as_str())),
                    None => false,
                };
                if is_selected {
                    self.prompt.episodes = eps;
                    self.prompt.idx = 0;
                }
            },
            Msg::StreamUrl => {
                self.searching.active = false;
                self.status = "Playing".to_owned();
                effects.push(Effect::Toast(ToastKind::Success, "Launching mpv…".to_owned()));
            },
            Msg::HistoryEpisodeList { anime_id, eps } => {
                match self.history.selected() {
                    Some(e) => {
                        if self.history.entries[e].id == anime_id {
                            self.history.take_episodes(e, eps, &mut effects);
                        }
                    },
                    None => {},
                }
            },
            Msg::ImageFetched { url, item_id, bytes } => {
                let copy = copy_bytes(&bytes);
                self.image_cache.add(url, bytes, IMAGE_CACHE_MAX);
                effects.push(Effect::DecodeImage { item_id, bytes: copy });
            },
            Msg::Error(e) => {
                self.searching.active = false;
                effects.push(Effect::Toast(ToastKind::Error, e));
            },
        }
        effects
    }
}

} // verus!
