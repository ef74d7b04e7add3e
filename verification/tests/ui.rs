use nexus_tui::app::Tab;
use nexus_tui::ui::{
    color_row_cells, episode_grid, grid_scroll, history_grid, measure_color_row_lines, set_accent, set_bar_colors,
    status_mark, tab_idx, trunc, Palette, StatusMark,
};

#[test]
fn tabs_have_header_positions() {
    assert_eq!(tab_idx(&Tab::Anime), 0);
    assert_eq!(tab_idx(&Tab::History), 1);
    assert_eq!(tab_idx(&Tab::Settings), 2);
}

#[test]
fn trunc_cuts_long_text_with_an_ellipsis() {
    assert_eq!(trunc("hello", 5), "hello");
    assert_eq!(trunc("hello", 3), "he…");
    assert_eq!(trunc("héllo wörld", 4), "hél…");
    assert_eq!(trunc("ab", 0), "…");
}

#[test]
fn the_palette_derives_dim_and_bright_shades() {
    let mut p = Palette::new();
    assert_eq!(p.accent_dim(), (63, 63, 20));
    assert_eq!(p.bar_progress_bright(), (255, 255, 40));
    assert_eq!(p.bar_complete_dim(), (15, 100, 75));
    set_accent(&mut p, 40, 100, 200);
    assert_eq!(p.accent, (40, 100, 200));
    assert_eq!(p.accent_dim(), (20, 25, 50));
    set_bar_colors(&mut p, 10, 220, 215, 20, 30, 40);
    assert_eq!(p.bar_progress_bright(), (50, 255, 255));
    assert_eq!(p.bar_complete_dim(), (15, 15, 20));
}

#[test]
fn statuses_are_marked_by_their_wording() {
    assert_eq!(status_mark("Finished Airing"), StatusMark::Finished);
    assert_eq!(status_mark("RELEASING"), StatusMark::Unknown);
    assert_eq!(status_mark("Currently Airing"), StatusMark::Airing);
    assert_eq!(status_mark("Cancelled"), StatusMark::Cancelled);
    assert_eq!(status_mark("Released"), StatusMark::Finished);
    assert_eq!(status_mark(""), StatusMark::Unknown);
}

#[test]
fn the_anime_grid_fits_its_cells() {
    let g = episode_grid(&[1, 2, 4], 100);
    assert_eq!((g.label_w, g.cell_w, g.cols), (4, 6, 14));
    let g = episode_grid(&[], 10);
    assert_eq!((g.label_w, g.cell_w, g.cols), (3, 5, 1));
    let g = episode_grid(&[1], 0);
    assert_eq!(g.cols, 1);
}

#[test]
fn the_anime_grid_scrolls_to_the_selected_row() {
    assert_eq!(grid_scroll(5, 3, 4), 0);
    assert_eq!(grid_scroll(20, 3, 4), 3);
    assert_eq!(grid_scroll(20, 3, 0), 0);
}

#[test]
fn the_history_grid_lays_out_columns_and_scroll() {
    assert!(history_grid(100, 3, 0).is_none());
    let g = history_grid(100, 20, 11).unwrap();
    assert_eq!((g.cols, g.visible_rows, g.col_w, g.last_col_w), (2, 5, 50, 50));
    assert_eq!(g.start_idx, 2);
    let g = history_grid(125, 8, 0).unwrap();
    assert_eq!((g.cols, g.col_w, g.last_col_w, g.start_idx), (3, 41, 43, 0));
}

#[test]
fn the_color_picker_wraps_to_fit() {
    assert_eq!(measure_color_row_lines(&[], 200), 1);
    assert_eq!(measure_color_row_lines(&[], 50), 2);
    assert_eq!(measure_color_row_lines(&[7, 20], 60), 3);
}

#[test]
fn color_cells_are_placed_on_the_measured_lines() {
    let cells = color_row_cells(&[7, 20], 60);
    assert_eq!(cells.len(), 12);
    assert_eq!(cells[0], (0, 0, 10));
    assert_eq!(cells[1], (11, 0, 8));
    let lines = measure_color_row_lines(&[7, 20], 60);
    assert!(cells.iter().all(|c| c.1 < lines));
    assert_eq!(cells.last().map(|c| c.2), Some(12));
    assert_eq!(color_row_cells(&[], 200).iter().map(|c| c.1).max(), Some(0));
}

#[test]
fn the_episode_grid_takes_long_labels() {
    let g = episode_grid(&[2_000_000], 5_000);
    assert_eq!(g.label_w, 2_000_000);
    assert_eq!(g.cols, 1);
    let g = episode_grid(&[1, 4], 30);
    assert_eq!((g.label_w, g.cell_w, g.cols), (4, 6, 4));
}
