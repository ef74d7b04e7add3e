//! What the screen shows, apart from drawing it: the theme palette, text
//! truncation, status markers, and the layout of the episode grids and the
//! color picker.

use vstd::prelude::*;
use crate::app::Tab;
use crate::text;

verus! {

// ── Palette ──────────────────────────────────────────────────────────────────

/// The colors the theme sets at run time.
#[derive(Debug, Clone, Copy)]
pub struct Palette {
    pub accent: (u8, u8, u8),
    pub bar_progress: (u8, u8, u8),
    pub bar_complete: (u8, u8, u8),
}

impl Palette {
    /// The starting palette: yellow accent and progress bars, teal complete
    /// bars.
    pub fn new() -> (p: Self)
        ensures
            p.accent == (255u8, 255u8, 0u8),
            p.bar_progress == (255u8, 255u8, 0u8),
            p.bar_complete == (0u8, 200u8, 150u8),
    {
        Palette { accent: (255, 255, 0), bar_progress: (255, 255, 0), bar_complete: (0, 200, 150) }
    }
}

/// Sets the accent color.
pub fn set_accent(p: &mut Palette, r: u8, g: u8, b: u8)
    ensures
        final(p).accent == (r, g, b),
        final(p).bar_progress == old(p).bar_progress,
        final(p).bar_complete == old(p).bar_complete,
{
    p.accent = (r, g, b);
}

/// Sets the colors of in-progress and complete episode bars.
pub fn set_bar_colors(p: &mut Palette, pr: u8, pg: u8, pb: u8, dr: u8, dg: u8, db: u8)
    ensures
        final(p).bar_progress == (pr, pg, pb),
        final(p).bar_complete == (dr, dg, db),
        final(p).accent == old(p).accent,
{
    p.bar_progress = (pr, pg, pb);
    p.bar_complete = (dr, dg, db);
}

/// A channel scaled down by `div`, at least `floor`.
pub open spec fn dimmed(c: u8, div: u8, floor: u8) -> u8 {
    if c / div >= floor {
        (c / div) as u8
    } else {
        floor
    }
}

/// A channel raised by 40, at most 255.
pub open spec fn brightened(c: u8) -> u8 {
    if c + 40 <= 255 {
        (c + 40) as u8
    } else {
        255
    }
}

fn dim_channel(c: u8, div: u8, floor: u8) -> (r: u8)
    requires
        div > 0,
    ensures
        r == dimmed(c, div, floor),
{
    if c / div >= floor {
        c / div
    } else {
        floor
    }
}

fn bright_channel(c: u8) -> (r: u8)
    ensures
        r == brightened(c),
{
    if c <= 215 {
        c + 40
    } else {
        255
    }
}

impl Palette {
    /// The accent at a quarter strength, each channel at least 20.
    pub fn accent_dim(&self) -> (r: (u8, u8, u8))
        ensures
            r == (dimmed(self.accent.0, 4, 20), dimmed(self.accent.1, 4, 20), dimmed(
                self.accent.2,
                4,
                20,
            )),
    {
        (
            dim_channel(self.accent.0, 4, 20),
            dim_channel(self.accent.1, 4, 20),
            dim_channel(self.accent.2, 4, 20),
        )
    }

    /// The in-progress bar color brightened for the selected cell.
    pub fn bar_progress_bright(&self) -> (r: (u8, u8, u8))
        ensures
            r == (brightened(self.bar_progress.0), brightened(self.bar_progress.1), brightened(
                self.bar_progress.2,
            )),
    {
        (
            bright_channel(self.bar_progress.0),
            bright_channel(self.bar_progress.1),
            bright_channel(self.bar_progress.2),
        )
    }

    /// The complete bar color at half strength, each channel at least 15.
    pub fn bar_complete_dim(&self) -> (r: (u8, u8, u8))
        ensures
            r == (dimmed(self.bar_complete.0, 2, 15), dimmed(self.bar_complete.1, 2, 15), dimmed(
                self.bar_complete.2,
                2,
                15,
            )),
    {
        (
            dim_channel(self.bar_complete.0, 2, 15),
            dim_channel(self.bar_complete.1, 2, 15),
            dim_channel(self.bar_complete.2, 2, 15),
        )
    }
}

/// A dimmed channel never exceeds the channel and its floor, and a
/// brightened one never falls below the channel.
pub proof fn lemma_dim_bright_bounds(c: u8, div: u8, floor: u8)
    requires
        div >= 1,
    ensures
        dimmed(c, div, floor) <= if c >= floor {
            c
        } else {
            floor
        },
        dimmed(c, div, floor) >= floor,
        brightened(c) >= c,
{
    assert(c / div <= c) by (nonlinear_arith)
        requires
            div >= 1,
    ;
}

// ── Small helpers ────────────────────────────────────────────────────────────

/// The position of a tab in the header.
pub fn tab_idx(tab: &Tab) -> (r: usize)
    ensures
        r == match *tab {
            Tab::Anime => 0usize,
            Tab::History => 1usize,
            Tab::Settings => 2usize,
        },
{
    match tab {
        Tab::Anime => 0,
        Tab::History => 1,
        Tab::Settings => 2,
    }
}

/// A text cut to `max` characters: unchanged when it fits, else its first
/// `max - 1` characters and an ellipsis.
pub open spec fn truncated(s: Seq<char>, max: nat) -> Seq<char> {
    if s.len() <= max {
        s
    } else {
        s.take(if max >= 1 {
            max - 1
        } else {
            0
        }) + seq!['…']
    }
}

/// Cuts a text to at most `max` characters.
pub fn trunc(s: &str, max: usize) -> (r: String)
    ensures
        r@ == truncated(s@, max as nat),
{
    let c = text::to_chars(s);
    if c.len() <= max {
        text::from_chars(&c)
    } else {
        let keep = if max >= 1 {
            max - 1
        } else {
            0
        };
        let mut out = text::sub_chars(&c, 0, keep);
        out.push('…');
        assert(out@ =~= truncated(s@, max as nat));
        text::from_chars(&out)
    }
}

/// A truncated text is never longer than the limit, when the limit is at
/// least one.
pub proof fn lemma_truncated_fits(s: Seq<char>, max: nat)
    requires
        max >= 1,
    ensures
        truncated(s, max).len() <= max,
{
}

/// How an airing status is marked.
#[derive(Debug, Clone, Copy, PartialEq, Eq, Structural)]
pub enum StatusMark {
    /// A green dot: finished or released.
    Finished,
    /// An accent dot: still airing.
    Airing,
    /// A red dot: cancelled.
    Cancelled,
    /// A hollow dim dot: anything else.
    Unknown,
}

/// The mark of a status, read from its lower-cased text.
pub open spec fn status_mark_of(s: Seq<char>) -> StatusMark {
    let l = text::unicode_lowercase(s);
    if text::contains(l, "finish"@) || text::contains(l, "complet"@) || text::contains(
        l,
        "released"@,
    ) {
        StatusMark::Finished
    } else if text::contains(l, "airing"@) || text::contains(l, "ongoing"@) || text::contains(
        l,
        "returning"@,
    ) {
        StatusMark::Airing
    } else if text::contains(l, "cancel"@) {
        StatusMark::Cancelled
    } else {
        StatusMark::Unknown
    }
}

/// The mark of an airing status.
pub fn status_mark(s: &str) -> (r: StatusMark)
    ensures
        r == status_mark_of(s@),
{
    let l = text::to_chars(text::to_lowercase(s).as_str());
    if text::contains_chars(&l, &text::to_chars("finish")) || text::contains_chars(
        &l,
        &text::to_chars("complet"),
    ) || text::contains_chars(&l, &text::to_chars("released")) {
        StatusMark::Finished
    } else if text::contains_chars(&l, &text::to_chars("airing")) || text::contains_chars(
        &l,
        &text::to_chars("ongoing"),
    ) || text::contains_chars(&l, &text::to_chars("returning")) {
        StatusMark::Airing
    } else if text::contains_chars(&l, &text::to_chars("cancel")) {
        StatusMark::Cancelled
    } else {
        StatusMark::Unknown
    }
}

// ── The anime episode grid ───────────────────────────────────────────────────

/// The layout of the anime episode grid: cells wide enough for the longest
/// episode label (at least three characters) plus padding, a gap after each,
/// as many per row as fit beside a two-column margin, at least one.
pub struct EpisodeGrid {
    pub label_w: usize,
    pub cell_w: usize,
    pub cols: usize,
}

pub open spec fn max_len(lens: Seq<usize>) -> nat
    decreases lens.len(),
{
    if lens.len() == 0 {
        0
    } else {
        let m = max_len(lens.drop_last());
        if lens.last() > m {
            lens.last() as nat
        } else {
            m
        }
    }
}

/// The grid layout for labels of these byte lengths in this width.
pub open spec fn episode_grid_of(lens: Seq<usize>, width: u16) -> (nat, nat, nat) {
    let longest = if lens.len() == 0 {
        1
    } else {
        max_len(lens)
    };
    let label_w = if longest >= 3 {
        longest
    } else {
        3
    };
    let cell_w = label_w + 2;
    let usable: int = if width >= 2 {
        width - 2
    } else {
        0
    };
    let cols = usable / (cell_w + 1) as int;
    (label_w, cell_w, if cols >= 1 {
        cols as nat
    } else {
        1
    })
}

/// Lays out the episode grid for labels of the given byte lengths.
pub fn episode_grid(lens: &[usize], width: u16) -> (g: EpisodeGrid)
    requires
        forall|i: int| 0 <= i < lens@.len() ==> lens@[i] <= usize::MAX - 3,
    ensures
        (g.label_w as nat, g.cell_w as nat, g.cols as nat) == episode_grid_of(lens@, width),
        g.cols >= 1,
{
    let mut m: usize = 0;
    let mut i: usize = 0;
    while i < lens.len()
        invariant
            i <= lens@.len(),
            m as nat == max_len(lens@.take(i as int)),
            m <= usize::MAX - 3,
            forall|j: int| 0 <= j < lens@.len() ==> lens@[j] <= usize::MAX - 3,
        decreases lens@.len() - i,
    {
        assert(lens@.take(i + 1).drop_last() =~= lens@.take(i as int));
        if lens[i] > m {
            m = lens[i];
        }
        i += 1;
    }
    assert(lens@.take(lens@.len() as int) =~= lens@);
    let longest = if lens.len() == 0 {
        1
    } else {
        m
    };
    let label_w = if longest >= 3 {
        longest
    } else {
        3
    };
    let cell_w = label_w + 2;
    let usable: usize = if width >= 2 {
        (width - 2) as usize
    } else {
        0
    };
    let cols = usable / (cell_w + 1);
    EpisodeGrid { label_w, cell_w, cols: if cols >= 1 {
        cols
    } else {
        1
    } }
}

/// The first grid row shown so that the selected cell's row is visible.
pub open spec fn grid_scroll_of(selected: nat, cols: nat, visible_rows: nat) -> nat {
    let row = selected / cols;
    if visible_rows > 0 && row >= visible_rows {
        (row - visible_rows + 1) as nat
    } else {
        0
    }
}

/// The scroll offset, in rows, of the anime episode grid.
pub fn grid_scroll(selected: usize, cols: usize, visible_rows: usize) -> (r: usize)
    requires
        cols >= 1,
    ensures
        r as nat == grid_scroll_of(selected as nat, cols as nat, visible_rows as nat),
{
    let row = selected / cols;
    if visible_rows > 0 && row >= visible_rows {
        row - visible_rows + 1
    } else {
        0
    }
}

/// Scrolling keeps the selected row on screen: it lies among the visible
/// rows below the first one shown.
pub proof fn lemma_grid_scroll_shows_selected(selected: nat, cols: nat, visible_rows: nat)
    requires
        cols >= 1,
        visible_rows >= 1,
    ensures
        grid_scroll_of(selected, cols, visible_rows) <= selected / cols < grid_scroll_of(
            selected,
            cols,
            visible_rows,
        ) + visible_rows,
{
}

// ── The history episode grid ─────────────────────────────────────────────────

/// The layout of the history episode grid in an area: two columns, three
/// from 120 cells wide; cells four rows tall; the rows scrolled so that the
/// selected episode's row is the last visible one when it is below the
/// first screen.
pub struct HistoryGrid {
    pub cols: usize,
    pub visible_rows: usize,
    pub col_w: u16,
    pub last_col_w: u16,
    pub start_idx: usize,
}

/// The history grid's columns for a width.
pub open spec fn history_cols(width: u16) -> nat {
    if width >= 120 {
        3
    } else {
        2
    }
}

/// The history grid's layout, if the area has room for a row.
pub fn history_grid(width: u16, height: u16, selected: usize) -> (r: Option<HistoryGrid>)
    ensures
        r is None <==> height / 4 == 0,
        r matches Some(g) ==> ({
            &&& g.cols as nat == history_cols(width)
            &&& g.visible_rows == height / 4
            &&& g.col_w == width / g.cols as u16
            &&& g.last_col_w == width - g.col_w * (g.cols - 1)
            &&& g.start_idx == grid_scroll_of(selected as nat, g.cols as nat, g.visible_rows as nat)
                * g.cols
        }),
{
    let cols: usize = if width >= 120 {
        3
    } else {
        2
    };
    let visible_rows = (height / 4) as usize;
    if visible_rows == 0 {
        return None;
    }
    let col_w = width / (cols as u16);
    assert(col_w * (cols - 1) <= width) by (nonlinear_arith)
        requires
            col_w == width / (cols as u16),
            cols == 2 || cols == 3,
    ;
    let last_col_w = width - col_w * ((cols - 1) as u16);
    let sel_row = selected / cols;
    let scroll_row = if sel_row >= visible_rows {
        sel_row - (visible_rows - 1)
    } else {
        0
    };
    assert(scroll_row * cols <= selected) by (nonlinear_arith)
        requires
            scroll_row <= sel_row,
            sel_row == selected / cols,
            cols == 2 || cols == 3,
    ;
    Some(HistoryGrid { cols, visible_rows, col_w, last_col_w, start_idx: scroll_row * cols })
}

// ── The color picker ─────────────────────────────────────────────────────────

/// The byte lengths of the preset names the picker shows (the presets less
/// the final `Custom`).
pub open spec fn preset_name_lens() -> Seq<nat> {
    seq![6, 4, 5, 4, 6, 4, 6, 3, 5]
}

/// The width of each picker cell in order: presets by name, saved custom
/// colors by their first seven bytes, and the add cell.
pub open spec fn picker_cell_widths(custom_lens: Seq<usize>) -> Seq<nat> {
    preset_name_lens().map_values(|l: nat| l + 4) + custom_lens.map_values(
        |l: usize| if l <= 7 {
            (l + 4) as nat
        } else {
            11nat
        },
    ) + seq![12nat]
}

/// The lines cells of these widths take in a row `w` wide, starting at
/// column `x` on line `lines`: a cell that does not fit starts a new line
/// unless it is the first on its line; each cell is followed by a one-column
/// gap.
pub open spec fn lines_for(widths: Seq<nat>, w: nat, x: nat, lines: nat) -> nat
    decreases widths.len(),
{
    if widths.len() == 0 {
        lines
    } else {
        let c = widths[0];
        if x + c > w && x > 0 {
            lines_for(widths.skip(1), w, c + 1, lines + 1)
        } else {
            lines_for(widths.skip(1), w, x + c + 1, lines)
        }
    }
}

/// The width of each picker cell, in order.
fn picker_widths(custom_lens: &[usize]) -> (widths: Vec<usize>)
    requires
        custom_lens@.len() + 12 <= usize::MAX,
    ensures
        widths@.map_values(|l: usize| l as nat) == picker_cell_widths(custom_lens@),
        widths@.len() == custom_lens@.len() + 10,
        forall|j: int| 0 <= j < widths@.len() ==> widths@[j] <= 12,
{
    let mut widths: Vec<usize> = Vec::new();
    widths.push(10);
    widths.push(8);
    widths.push(9);
    widths.push(8);
    widths.push(10);
    widths.push(8);
    widths.push(10);
    widths.push(7);
    widths.push(9);
    let mut i: usize = 0;
    while i < custom_lens.len()
        invariant
            i <= custom_lens@.len(),
            widths@.len() == 9 + i,
            forall|j: int| 0 <= j < widths@.len() ==> widths@[j] <= 12,
            widths@.map_values(|l: usize| l as nat) == preset_name_lens().map_values(
                |l: nat| l + 4,
            ) + custom_lens@.take(i as int).map_values(
                |l: usize| if l <= 7 {
                    (l + 4) as nat
                } else {
                    11nat
                },
            ),
        decreases custom_lens@.len() - i,
    {
        let c = custom_lens[i];
        let cw: usize = if c <= 7 {
            c + 4
        } else {
            11
        };
        let ghost before = widths@;
        widths.push(cw);
        proof {
            let f = |l: usize| if l <= 7 {
                (l + 4) as nat
            } else {
                11nat
            };
            assert(custom_lens@.take(i + 1).map_values(f) =~= custom_lens@.take(i as int).map_values(
                f,
            ).push(f(c)));
            assert(widths@.map_values(|l: usize| l as nat) =~= before.map_values(|l: usize| l as nat).push(
                cw as nat,
            ));
        }
        i += 1;
    }
    widths.push(12);
    proof {
        assert(custom_lens@.take(custom_lens@.len() as int) =~= custom_lens@);
        assert(widths@.map_values(|l: usize| l as nat) =~= picker_cell_widths(custom_lens@));
    }
    widths
}

/// How many lines the color picker's cells take in a row `w` wide.
pub fn measure_color_row_lines(custom_lens: &[usize], w: u16) -> (r: usize)
    requires
        custom_lens@.len() + 12 <= usize::MAX,
    ensures
        r as nat == lines_for(picker_cell_widths(custom_lens@), w as nat, 0, 1),
{
    let widths = picker_widths(custom_lens);
    let ghost all = picker_cell_widths(custom_lens@);
    let mut x: usize = 0;
    let mut lines: usize = 1;
    let mut k: usize = 0;
    assert(all.skip(0) =~= all);
    while k < widths.len()
        invariant
            k <= widths@.len(),
            all == widths@.map_values(|l: usize| l as nat),
            forall|j: int| 0 <= j < widths@.len() ==> widths@[j] <= 12,
            x <= w as nat + 13,
            lines <= 1 + k,
            widths@.len() + 2 <= usize::MAX,
            lines_for(all, w as nat, 0, 1) == lines_for(all.skip(k as int), w as nat, x as nat, lines as nat),
        decreases widths@.len() - k,
    {
        let c = widths[k];
        assert(all.skip(k as int)[0] == c as nat);
        assert(all.skip(k as int).skip(1) =~= all.skip(k + 1));
        if x + c > w as usize && x > 0 {
            lines = lines + 1;
            x = c + 1;
        } else {
            x = x + c + 1;
        }
        k += 1;
    }
    lines
}

/// Where picker cells of these widths go in a row `w` wide, from column
/// `x` of line `line`: for each cell its column, its line and its width.
/// A cell that does not fit starts a new line unless it is the first on its
/// line; each cell is followed by a one-column gap.
pub open spec fn layout_from(widths: Seq<nat>, w: nat, x: nat, line: nat) -> Seq<(nat, nat, nat)>
    decreases widths.len(),
{
    if widths.len() == 0 {
        Seq::empty()
    } else {
        let c = widths[0];
        if x + c > w && x > 0 {
            seq![(0nat, line + 1, c)] + layout_from(widths.skip(1), w, c + 1, line + 1)
        } else {
            seq![(x, line, c)] + layout_from(widths.skip(1), w, x + c + 1, line)
        }
    }
}

/// Where the color picker's cells go in a row `w` wide: the presets, the
/// custom colors (by their byte lengths) and the add cell.
pub open spec fn color_row_layout(custom_lens: Seq<usize>, w: nat) -> Seq<(nat, nat, nat)> {
    layout_from(picker_cell_widths(custom_lens), w, 0, 0)
}

/// Every cell is placed on one of the lines the picker is measured to
/// take, and there is one cell for each width.
pub proof fn lemma_layout_within_lines(widths: Seq<nat>, w: nat, x: nat, line: nat)
    ensures
        layout_from(widths, w, x, line).len() == widths.len(),
        forall|i: int|
            0 <= i < widths.len() ==> #[trigger] layout_from(widths, w, x, line)[i].1 < lines_for(
                widths,
                w,
                x,
                line + 1,
            ),
        lines_for(widths, w, x, line + 1) >= line + 1,
    decreases widths.len(),
{
    if widths.len() > 0 {
        let c = widths[0];
        let rest = widths.skip(1);
        if x + c > w && x > 0 {
            lemma_layout_within_lines(rest, w, c + 1, line + 1);
            let l = layout_from(widths, w, x, line);
            assert forall|i: int| 0 <= i < widths.len() implies #[trigger] l[i].1 < lines_for(
                widths,
                w,
                x,
                line + 1,
            ) by {
                if i > 0 {
                    assert(l[i] == layout_from(rest, w, c + 1, line + 1)[i - 1]);
                }
            }
        } else {
            lemma_layout_within_lines(rest, w, x + c + 1, line);
            let l = layout_from(widths, w, x, line);
            assert forall|i: int| 0 <= i < widths.len() implies #[trigger] l[i].1 < lines_for(
                widths,
                w,
                x,
                line + 1,
            ) by {
                if i > 0 {
                    assert(l[i] == layout_from(rest, w, x + c + 1, line)[i - 1]);
                }
            }
        }
    }
}

/// Where the color picker's cells go in a row `w` wide: for each cell, in
/// order, its column, its line and its width.
pub fn color_row_cells(custom_lens: &[usize], w: u16) -> (cells: Vec<(usize, usize, usize)>)
    requires
        custom_lens@.len() + 12 <= usize::MAX,
    ensures
        cells@.map_values(|t: (usize, usize, usize)| (t.0 as nat, t.1 as nat, t.2 as nat))
            == color_row_layout(custom_lens@, w as nat),
{
    let widths = picker_widths(custom_lens);
    let ghost all = picker_cell_widths(custom_lens@);
    let mut out: Vec<(usize, usize, usize)> = Vec::new();
    let mut x: usize = 0;
    let mut line: usize = 0;
    let mut k: usize = 0;
    assert(all.skip(0) =~= all);
    assert(out@.map_values(|t: (usize, usize, usize)| (t.0 as nat, t.1 as nat, t.2 as nat)) =~= Seq::<
        (nat, nat, nat),
    >::empty());
    while k < widths.len()
        invariant
            k <= widths@.len(),
            all == widths@.map_values(|l: usize| l as nat),
            forall|j: int| 0 <= j < widths@.len() ==> widths@[j] <= 12,
            x <= w as nat + 13,
            line <= k,
            widths@.len() + 2 <= usize::MAX,
            layout_from(all, w as nat, 0, 0) == out@.map_values(
                |t: (usize, usize, usize)| (t.0 as nat, t.1 as nat, t.2 as nat),
            ) + layout_from(all.skip(k as int), w as nat, x as nat, line as nat),
        decreases widths@.len() - k,
    {
        let c = widths[k];
        assert(all.skip(k as int)[0] == c as nat);
        assert(all.skip(k as int).skip(1) =~= all.skip(k + 1));
        let ghost before = out@;
        let ghost f = |t: (usize, usize, usize)| (t.0 as nat, t.1 as nat, t.2 as nat);
        if x + c > w as usize && x > 0 {
            line = line + 1;
            out.push((0, line, c));
            x = c + 1;
        } else {
            out.push((x, line, c));
            x = x + c + 1;
        }
        proof {
            assert(out@.map_values(f) =~= before.map_values(f).push(f(out@.last())));
            let tail = layout_from(all.skip(k + 1), w as nat, x as nat, line as nat);
            assert(before.map_values(f) + (seq![f(out@.last())] + tail) =~= out@.map_values(f)
                + tail);
        }
        k += 1;
    }
    assert(layout_from(all.skip(k as int), w as nat, x as nat, line as nat) =~= Seq::<
        (nat, nat, nat),
    >::empty());
    assert(out@.map_values(|t: (usize, usize, usize)| (t.0 as nat, t.1 as nat, t.2 as nat)) + Seq::<
        (nat, nat, nat),
    >::empty() =~= out@.map_values(|t: (usize, usize, usize)| (t.0 as nat, t.1 as nat, t.2 as nat)));
    out
}

} // verus!
