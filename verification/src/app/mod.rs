//! Application state: tabs and panes, the spinner, toasts, caches, and the
//! decisions that keys and background results lead to.

pub mod cache;
pub mod settings;
pub mod state;

use vstd::prelude::*;
use crate::text;

verus! {

// ── Tabs and panes ───────────────────────────────────────────────────────────

/// The top-level tabs.
#[derive(Debug, Clone, Copy, PartialEq, Eq, Structural)]
pub enum Tab {
    Anime,
    History,
    Settings,
}

impl Tab {
    /// The tab's name as shown in the header.
    pub fn name(&self) -> (r: &'static str)
        ensures
            r@ == match *self {
                Tab::Anime => "Anime"@,
                Tab::History => "History"@,
                Tab::Settings => "Settings"@,
            },
    {
        match self {
            Tab::Anime => "Anime",
            Tab::History => "History",
            Tab::Settings => "Settings",
        }
    }
}

/// The pane that receives keys.
#[derive(Debug, Clone, Copy, PartialEq, Eq, Structural)]
pub enum Focus {
    Search,
    Results,
    Detail,
    History,
    HistoryDetail,
    HistoryEpisodes,
    EpisodePrompt,
    /// The settings' category list.
    SettingsList,
    /// The settings' rows of the selected category.
    SettingsEdit,
}

/// A direction of Ctrl+arrow pane navigation.
#[derive(Debug, Clone, Copy, PartialEq, Eq, Structural)]
pub enum Direction {
    Up,
    Down,
    Left,
    Right,
}

/// The pane Ctrl+arrow moves to. The panes are laid out as the search bar
/// above the results, with detail above the episode prompt to their right;
/// the history panes run left to right. Moving down out of the search bar
/// needs results, and down to the episode prompt or right to the detail
/// pane needs a selected item.
pub open spec fn pane_after(f: Focus, d: Direction, has_results: bool, has_selected: bool) -> Focus {
    match d {
        Direction::Up => match f {
            Focus::EpisodePrompt => Focus::Detail,
            Focus::Results | Focus::Detail => Focus::Search,
            _ => f,
        },
        Direction::Down => match f {
            Focus::Search => if has_results {
                Focus::Results
            } else {
                f
            },
            Focus::Results | Focus::Detail => if has_selected {
                Focus::EpisodePrompt
            } else {
                f
            },
            Focus::HistoryDetail => Focus::HistoryEpisodes,
            _ => f,
        },
        Direction::Right => match f {
            Focus::Results => if has_selected {
                Focus::Detail
            } else {
                f
            },
            Focus::History => Focus::HistoryDetail,
            Focus::HistoryDetail => Focus::HistoryEpisodes,
            _ => f,
        },
        Direction::Left => match f {
            Focus::Detail | Focus::EpisodePrompt => Focus::Results,
            Focus::HistoryDetail => Focus::History,
            Focus::HistoryEpisodes => Focus::HistoryDetail,
            _ => f,
        },
    }
}

/// The pane Ctrl+arrow moves to.
pub fn move_pane(f: Focus, d: Direction, has_results: bool, has_selected: bool) -> (r: Focus)
    ensures
        r == pane_after(f, d, has_results, has_selected),
{
    match d {
        Direction::Up => match f {
            Focus::EpisodePrompt => Focus::Detail,
            Focus::Results | Focus::Detail => Focus::Search,
            _ => f,
        },
        Direction::Down => match f {
            Focus::Search => if has_results {
                Focus::Results
            } else {
                f
            },
            Focus::Results | Focus::Detail => if has_selected {
                Focus::EpisodePrompt
            } else {
                f
            },
            Focus::HistoryDetail => Focus::HistoryEpisodes,
            _ => f,
        },
        Direction::Right => match f {
            Focus::Results => if has_selected {
                Focus::Detail
            } else {
                f
            },
            Focus::History => Focus::HistoryDetail,
            Focus::HistoryDetail => Focus::HistoryEpisodes,
            _ => f,
        },
        Direction::Left => match f {
            Focus::Detail | Focus::EpisodePrompt => Focus::Results,
            Focus::HistoryDetail => Focus::History,
            Focus::HistoryEpisodes => Focus::HistoryDetail,
            _ => f,
        },
    }
}

/// Pane navigation never leaves the tab: the history panes lead only to
/// history panes, and the others only to others.
pub proof fn lemma_pane_stays_in_tab(f: Focus, d: Direction, has_results: bool, has_selected: bool)
    ensures
        is_history_pane(pane_after(f, d, has_results, has_selected)) == is_history_pane(f),
{
}

/// The panes of the history tab.
pub open spec fn is_history_pane(f: Focus) -> bool {
    f == Focus::History || f == Focus::HistoryDetail || f == Focus::HistoryEpisodes
}

// ── Time ─────────────────────────────────────────────────────────────────────

#[verifier::external_type_specification]
#[verifier::external_body]
pub struct ExInstant(std::time::Instant);

/// Calls `std::time::Instant::now`.
#[verifier::external_body]
fn now() -> std::time::Instant {
    std::time::Instant::now()
}

/// Calls `std::time::Instant::elapsed` and reads it in whole milliseconds.
/// Nothing is claimed of the result: it depends on the clock.
#[verifier::external_body]
fn elapsed_ms(t: &std::time::Instant) -> u128 {
    t.elapsed().as_millis()
}

// ── Spinner ──────────────────────────────────────────────────────────────────

/// The number of spinner frames.
pub const SPINNER_FRAMES: usize = 10;

/// The activity spinner: its current frame and when it last advanced.
pub struct Spinner {
    pub frame: usize,
    pub last: std::time::Instant,
}

/// Whether the spinner advances after this many milliseconds: every 80.
pub open spec fn spinner_due(elapsed: u128) -> bool {
    elapsed >= 80
}

/// The frame after `f`, wrapping around.
pub open spec fn next_frame(f: nat) -> nat {
    (f + 1) % (SPINNER_FRAMES as nat)
}

/// Whether the spinner is due to advance.
pub fn spinner_advances(elapsed: u128) -> (r: bool)
    ensures
        r == spinner_due(elapsed),
{
    elapsed >= 80
}

impl Spinner {
    /// A spinner at its first frame.
    pub fn new() -> (s: Self)
        ensures
            s.frame == 0,
    {
        Spinner { frame: 0, last: now() }
    }

    /// Advances the frame when 80 ms have passed since the last advance.
    /// How much time has passed is the clock's: the frame either stays, and
    /// so does the time of the last advance, or moves to the next.
    pub fn tick(&mut self)
        requires
            old(self).frame < SPINNER_FRAMES,
        ensures
            final(self).frame == old(self).frame ==> final(self).last == old(self).last,
            final(self).frame == old(self).frame || final(self).frame as nat == next_frame(
                old(self).frame as nat,
            ),
            final(self).frame < SPINNER_FRAMES,
    {
        let elapsed = elapsed_ms(&self.last);
        let stamp = now();
        self.advance(elapsed, stamp);
    }

    /// The spinner after `elapsed` milliseconds since its last advance, at
    /// the instant `stamp`: when 80 have passed, the next frame, advanced at
    /// `stamp`; otherwise unchanged.
    pub fn advance(&mut self, elapsed: u128, stamp: std::time::Instant)
        requires
            old(self).frame < SPINNER_FRAMES,
        ensures
            spinner_due(elapsed) ==> final(self).frame as nat == next_frame(old(self).frame as nat)
                && final(self).last == stamp,
            !spinner_due(elapsed) ==> final(self).frame == old(self).frame && final(self).last
                == old(self).last,
            final(self).frame < SPINNER_FRAMES,
    {
        if spinner_advances(elapsed) {
            self.frame = (self.frame + 1) % SPINNER_FRAMES;
            self.last = stamp;
        }
    }

    /// The frame's symbol.
    pub fn symbol(&self) -> (r: &'static str)
        requires
            self.frame < SPINNER_FRAMES,
        ensures
            r@ == spinner_symbol(self.frame as nat),
    {
        let symbols: [&'static str; 10] = ["⠋", "⠙", "⠹", "⠸", "⠼", "⠴", "⠦", "⠧", "⠇", "⠏"];
        symbols[self.frame]
    }
}

/// The symbol of a spinner frame.
pub open spec fn spinner_symbol(f: nat) -> Seq<char> {
    if f == 0 {
        "⠋"@
    } else if f == 1 {
        "⠙"@
    } else if f == 2 {
        "⠹"@
    } else if f == 3 {
        "⠸"@
    } else if f == 4 {
        "⠼"@
    } else if f == 5 {
        "⠴"@
    } else if f == 6 {
        "⠦"@
    } else if f == 7 {
        "⠧"@
    } else if f == 8 {
        "⠇"@
    } else {
        "⠏"@
    }
}

// ── Toasts ───────────────────────────────────────────────────────────────────

/// How a toast is styled.
#[derive(Debug, Clone, Copy, PartialEq, Eq, Structural)]
pub enum ToastKind {
    Info,
    Success,
    Error,
}

/// A short-lived notification.
pub struct Toast {
    pub message: String,
    pub kind: ToastKind,
    pub born: std::time::Instant,
}

/// How long a toast is shown, in milliseconds.
pub const TOAST_LIFETIME_MS: u128 = 5000;

/// Whether a toast of this age is still shown.
pub open spec fn toast_alive_at(age_ms: u128) -> bool {
    age_ms < TOAST_LIFETIME_MS
}

/// Whether a toast of this age is still shown.
pub fn alive_at(age_ms: u128) -> (r: bool)
    ensures
        r == toast_alive_at(age_ms),
{
    age_ms < TOAST_LIFETIME_MS
}

impl Toast {
    /// An informational toast, born now.
    pub fn info(msg: String) -> (t: Self)
        ensures
            t.message == msg,
            t.kind == ToastKind::Info,
    {
        Toast { message: msg, kind: ToastKind::Info, born: now() }
    }

    /// A success toast, born now.
    pub fn success(msg: String) -> (t: Self)
        ensures
            t.message == msg,
            t.kind == ToastKind::Success,
    {
        Toast { message: msg, kind: ToastKind::Success, born: now() }
    }

    /// An error toast, born now.
    pub fn error(msg: String) -> (t: Self)
        ensures
            t.message == msg,
            t.kind == ToastKind::Error,
    {
        Toast { message: msg, kind: ToastKind::Error, born: now() }
    }

    /// Whether the toast is still shown: for five seconds after its birth.
    pub fn alive(&self) -> bool {
        alive_at(elapsed_ms(&self.born))
    }
}

/// The most toasts shown at once.
pub const MAX_TOASTS: usize = 4;

/// Adds a toast; when that makes more than four, the oldest goes.
pub fn push_toast(toasts: &mut Vec<Toast>, t: Toast)
    requires
        old(toasts)@.len() <= MAX_TOASTS,
    ensures
        final(toasts)@ == if old(toasts)@.len() < MAX_TOASTS {
            old(toasts)@.push(t)
        } else {
            old(toasts)@.push(t).skip(1)
        },
        final(toasts)@.len() <= MAX_TOASTS,
{
    toasts.push(t);
    if toasts.len() > MAX_TOASTS {
        toasts.remove(0);
        assert(toasts@ =~= old(toasts)@.push(t).skip(1));
    }
}

/// The toasts marked to keep, in their order.
pub open spec fn kept(s: Seq<Toast>, keep: Seq<bool>) -> Seq<Toast>
    decreases s.len(),
{
    if s.len() == 0 {
        s
    } else {
        let rest = kept(s.drop_last(), keep.take(s.len() - 1));
        if keep[s.len() - 1] {
            rest.push(s.last())
        } else {
            rest
        }
    }
}

/// Keeps the toasts marked to keep, in order, and drops the others.
pub fn retain_marked(toasts: &mut Vec<Toast>, keep: &Vec<bool>)
    requires
        keep@.len() == old(toasts)@.len(),
    ensures
        final(toasts)@ == kept(old(toasts)@, keep@),
{
    let ghost orig = toasts@;
    let mut out: Vec<Toast> = Vec::new();
    let mut i: usize = 0;
    let n = toasts.len();
    assert(orig.take(0) =~= Seq::<Toast>::empty());
    assert(orig.skip(0) =~= orig);
    while i < n
        invariant
            n == orig.len(),
            keep@.len() == n,
            i <= n,
            toasts@ == orig.skip(i as int),
            out@ == kept(orig.take(i as int), keep@.take(i as int)),
        decreases n - i,
    {
        let t = toasts.remove(0);
        assert(toasts@ =~= orig.skip(i + 1));
        assert(orig.take(i + 1).drop_last() =~= orig.take(i as int));
        assert(keep@.take(i + 1).take(i as int) =~= keep@.take(i as int));
        if keep[i] {
            out.push(t);
        }
        i += 1;
    }
    assert(orig.take(n as int) =~= orig);
    assert(keep@.take(n as int) =~= keep@);
    *toasts = out;
}

/// Drops the toasts whose five seconds are over, keeping the others in
/// order. Which toasts are over is the clock's: what is left is the list
/// with some toasts dropped, the others in their order.
pub fn retain_alive(toasts: &mut Vec<Toast>)
    ensures
        exists|keep: Seq<bool>|
            keep.len() == old(toasts)@.len() && final(toasts)@ == #[trigger] kept(
                old(toasts)@,
                keep,
            ),
{
    let mut keep: Vec<bool> = Vec::new();
    let mut i: usize = 0;
    while i < toasts.len()
        invariant
            i <= toasts@.len(),
            keep@.len() == i,
        decreases toasts@.len() - i,
    {
        keep.push(toasts[i].alive());
        i += 1;
    }
    let ghost orig = toasts@;
    retain_marked(toasts, &keep);
    assert(keep@.len() == orig.len() && toasts@ == kept(orig, keep@));
}

// ── Image protocol ───────────────────────────────────────────────────────────

/// How cover images are drawn.
#[derive(Debug, Clone, Copy, PartialEq, Eq, Structural)]
pub enum ImageProtocol {
    Kitty,
    HalfBlock,
}

/// The protocol a terminal supports: Kitty graphics in Kitty (by its window
/// variable or its `TERM`), WezTerm and iTerm; half blocks elsewhere.
pub open spec fn protocol_for(term: Seq<char>, program: Seq<char>, kitty_window: bool) -> ImageProtocol {
    if kitty_window || text::contains(term, "kitty"@) || text::contains(program, "WezTerm"@)
        || text::contains(program, "iTerm"@) {
        ImageProtocol::Kitty
    } else {
        ImageProtocol::HalfBlock
    }
}

/// Kitty graphics are used exactly when the terminal is Kitty (its window
/// variable is set, or `TERM` mentions `kitty`) or `TERM_PROGRAM` mentions
/// `WezTerm` or `iTerm`; every other terminal gets half blocks.
pub proof fn lemma_terminal_protocols(term: Seq<char>, program: Seq<char>, kitty_window: bool)
    ensures
        kitty_window ==> protocol_for(term, program, kitty_window) == ImageProtocol::Kitty,
        (exists|i: int| text::occurs_at(term, "kitty"@, i)) ==> protocol_for(term, program, kitty_window)
            == ImageProtocol::Kitty,
        (exists|i: int| text::occurs_at(program, "WezTerm"@, i)) ==> protocol_for(
            term,
            program,
            kitty_window,
        ) == ImageProtocol::Kitty,
        (exists|i: int| text::occurs_at(program, "iTerm"@, i)) ==> protocol_for(term, program, kitty_window)
            == ImageProtocol::Kitty,
        !kitty_window && (forall|i: int| !text::occurs_at(term, "kitty"@, i)) && (forall|i: int|
            !text::occurs_at(program, "WezTerm"@, i)) && (forall|i: int|
            !text::occurs_at(program, "iTerm"@, i)) ==> protocol_for(term, program, kitty_window)
            == ImageProtocol::HalfBlock,
{
    text::lemma_find_from(term, "kitty"@, 0);
    text::lemma_find_from(program, "WezTerm"@, 0);
    text::lemma_find_from(program, "iTerm"@, 0);
}

/// The image protocol for the terminal's `TERM`, `TERM_PROGRAM`, and whether
/// `KITTY_WINDOW_ID` is set.
pub fn detect_image_protocol(term: &str, program: &str, kitty_window: bool) -> (r: ImageProtocol)
    ensures
        r == protocol_for(term@, program@, kitty_window),
        kitty_window ==> r == ImageProtocol::Kitty,
        (exists|i: int| text::occurs_at(term@, "kitty"@, i)) ==> r == ImageProtocol::Kitty,
        (exists|i: int| text::occurs_at(program@, "WezTerm"@, i)) ==> r == ImageProtocol::Kitty,
        (exists|i: int| text::occurs_at(program@, "iTerm"@, i)) ==> r == ImageProtocol::Kitty,
        !kitty_window && (forall|i: int| !text::occurs_at(term@, "kitty"@, i)) && (forall|i: int|
            !text::occurs_at(program@, "WezTerm"@, i)) && (forall|i: int|
            !text::occurs_at(program@, "iTerm"@, i)) ==> r == ImageProtocol::HalfBlock,
{
    proof {
        lemma_terminal_protocols(term@, program@, kitty_window);
    }
    let t = text::to_chars(term);
    let p = text::to_chars(program);
    if kitty_window || text::contains_chars(&t, &text::to_chars("kitty")) || text::contains_chars(
        &p,
        &text::to_chars("WezTerm"),
    ) || text::contains_chars(&p, &text::to_chars("iTerm")) {
        ImageProtocol::Kitty
    } else {
        ImageProtocol::HalfBlock
    }
}

// ── Detail cache entries ─────────────────────────────────────────────────────

/// What is kept of a visited item so that revisiting it is free.
#[derive(Clone)]
pub struct CachedDetail {
    pub episode_list: Option<Vec<String>>,
}

// ── Fuzzy matching ───────────────────────────────────────────────────────────

/// `needle` occurs in `haystack` in order, not necessarily contiguously.
pub open spec fn is_subsequence(needle: Seq<char>, haystack: Seq<char>) -> bool {
    exists|pos: Seq<int>|
        #![trigger pos.len()]
        pos.len() == needle.len() && (forall|i: int|
            0 <= i < pos.len() ==> 0 <= #[trigger] pos[i] < haystack.len() && haystack[pos[i]]
                == needle[i]) && (forall|i: int, j: int| 0 <= i < j < pos.len() ==> pos[i] < pos[j])
}

/// Greedy matching: how many leading characters of `needle` the first `k`
/// characters of `haystack` match.
pub open spec fn greedy(needle: Seq<char>, haystack: Seq<char>, k: int) -> nat
    decreases k,
{
    if k <= 0 {
        0
    } else {
        let m = greedy(needle, haystack, k - 1);
        if m < needle.len() && haystack[k - 1] == needle[m as int] {
            m + 1
        } else {
            m
        }
    }
}

proof fn lemma_greedy_bound(needle: Seq<char>, haystack: Seq<char>, k: int)
    ensures
        greedy(needle, haystack, k) <= needle.len(),
        k >= 0 ==> greedy(needle, haystack, k) <= k,
    decreases k,
{
    if k > 0 {
        lemma_greedy_bound(needle, haystack, k - 1);
    }
}

proof fn lemma_greedy_mono(needle: Seq<char>, haystack: Seq<char>, a: int, b: int)
    requires
        a <= b,
    ensures
        greedy(needle, haystack, a) <= greedy(needle, haystack, b),
    decreases b - a,
{
    if a < b {
        lemma_greedy_mono(needle, haystack, a, b - 1);
    }
}

/// Greedy matching finds a match of its prefix whenever one exists: if the
/// first `m` characters of `needle` occur in order within the first `k`
/// characters of `haystack`, greedy matching gets at least that far.
proof fn lemma_greedy_complete(needle: Seq<char>, haystack: Seq<char>, pos: Seq<int>, k: int)
    requires
        0 <= k <= haystack.len(),
        pos.len() <= needle.len(),
        forall|i: int| 0 <= i < pos.len() ==> 0 <= #[trigger] pos[i] < k && haystack[pos[i]] == needle[i],
        forall|i: int, j: int| 0 <= i < j < pos.len() ==> pos[i] < pos[j],
    ensures
        greedy(needle, haystack, k) >= pos.len(),
    decreases k,
{
    if pos.len() > 0 {
        let last = pos.len() - 1;
        let p = pos[last];
        let front = pos.drop_last();
        assert forall|i: int| 0 <= i < front.len() implies 0 <= #[trigger] front[i] < p && haystack[front[i]]
            == needle[i] by {
            assert(front[i] == pos[i]);
        }
        lemma_greedy_complete(needle, haystack, front, p);
        lemma_greedy_mono(needle, haystack, p, p);
        lemma_greedy_bound(needle, haystack, p);
        let m = greedy(needle, haystack, p);
        if m >= pos.len() {
            lemma_greedy_mono(needle, haystack, p, k);
        } else {
            assert(m == last);
            assert(greedy(needle, haystack, p + 1) == m + 1);
            lemma_greedy_mono(needle, haystack, p + 1, k);
        }
    }
}

/// Greedy matching is sound: the positions where it advanced spell out the
/// matched prefix of `needle` in order.
proof fn lemma_greedy_sound(needle: Seq<char>, haystack: Seq<char>, k: int) -> (pos: Seq<int>)
    requires
        0 <= k <= haystack.len(),
    ensures
        pos.len() == greedy(needle, haystack, k),
        forall|i: int| 0 <= i < pos.len() ==> 0 <= #[trigger] pos[i] < k && haystack[pos[i]] == needle[i],
        forall|i: int, j: int| 0 <= i < j < pos.len() ==> pos[i] < pos[j],
    decreases k,
{
    if k == 0 {
        Seq::empty()
    } else {
        let prev = lemma_greedy_sound(needle, haystack, k - 1);
        let m = greedy(needle, haystack, k - 1);
        if m < needle.len() && haystack[k - 1] == needle[m as int] {
            let pos = prev.push(k - 1);
            assert forall|i: int| 0 <= i < pos.len() implies 0 <= #[trigger] pos[i] < k
                && haystack[pos[i]] == needle[i] by {
                if i < prev.len() {
                    assert(pos[i] == prev[i]);
                }
            }
            assert forall|i: int, j: int| 0 <= i < j < pos.len() implies pos[i] < pos[j] by {
                if j < prev.len() {
                    assert(pos[i] == prev[i] && pos[j] == prev[j]);
                } else {
                    assert(pos[i] == prev[i]);
                }
            }
            pos
        } else {
            prev
        }
    }
}

/// `needle` is a subsequence of `haystack` exactly when greedy matching
/// over all of `haystack` matches all of `needle`.
pub proof fn lemma_greedy_decides_subsequence(needle: Seq<char>, haystack: Seq<char>)
    ensures
        is_subsequence(needle, haystack) <==> greedy(needle, haystack, haystack.len() as int)
            == needle.len(),
{
    lemma_greedy_bound(needle, haystack, haystack.len() as int);
    if is_subsequence(needle, haystack) {
        let pos = choose|pos: Seq<int>|
            #![trigger pos.len()]
            pos.len() == needle.len() && (forall|i: int|
                0 <= i < pos.len() ==> 0 <= #[trigger] pos[i] < haystack.len() && haystack[pos[i]]
                    == needle[i]) && (forall|i: int, j: int|
                0 <= i < j < pos.len() ==> pos[i] < pos[j]);
        lemma_greedy_complete(needle, haystack, pos, haystack.len() as int);
    }
    if greedy(needle, haystack, haystack.len() as int) == needle.len() {
        let pos = lemma_greedy_sound(needle, haystack, haystack.len() as int);
        assert(pos.len() == needle.len());
    }
}

/// Whether every character of `needle` appears in `haystack` in order.
pub fn fuzzy_match(haystack: &str, needle: &[char]) -> (r: bool)
    ensures
        r == is_subsequence(needle@, haystack@),
{
    proof {
        lemma_greedy_decides_subsequence(needle@, haystack@);
    }
    if needle.len() == 0 {
        proof {
            lemma_greedy_bound(needle@, haystack@, haystack@.len() as int);
        }
        return true;
    }
    let h = text::to_chars(haystack);
    let mut ni: usize = 0;
    let mut i: usize = 0;
    while i < h.len()
        invariant
            i <= h@.len(),
            h@ == haystack@,
            needle@.len() > 0,
            ni as nat == greedy(needle@, h@, i as int),
            ni < needle@.len(),
        decreases h@.len() - i,
    {
        if h[i] == needle[ni] {
            ni += 1;
            if ni == needle.len() {
                proof {
                    lemma_greedy_mono(needle@, h@, i + 1, h@.len() as int);
                    lemma_greedy_bound(needle@, h@, h@.len() as int);
                    lemma_greedy_decides_subsequence(needle@, haystack@);
                }
                return true;
            }
        }
        i += 1;
    }
    false
}

} // verus!
