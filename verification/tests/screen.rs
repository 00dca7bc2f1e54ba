use matrix_screensaver::render::fonts::{find_monospace_font, font_candidates, FontError};
use matrix_screensaver::render::screen::{
    cell_origin, grid_columns, grid_rows, visible_trail, ExitTimer, InputKind,
};
use matrix_screensaver::render::windows::{screensaver_window_index, window_title};

#[test]
fn grid_counts_whole_cells() {
    assert_eq!(grid_columns(1920), 137);
    assert_eq!(grid_rows(1080), 60);
    assert_eq!(grid_columns(13), 0);
    assert_eq!(grid_rows(17), 0);
    assert_eq!(grid_rows(18), 1);
}

#[test]
fn cells_are_fourteen_by_eighteen_pixels() {
    assert_eq!(cell_origin(3, 4), (42, 72));
    assert_eq!(cell_origin(0, -2), (0, -36));
}

#[test]
fn trail_cells_are_clipped_to_the_screen() {
    assert_eq!(visible_trail(2, 5, 10), vec![(0, 2), (1, 1), (2, 0)]);
    assert_eq!(visible_trail(12, 5, 10), vec![(3, 9), (4, 8), (5, 7)]);
    assert_eq!(visible_trail(-1, 8, 10), vec![]);
    assert_eq!(visible_trail(4, 0, 10), vec![(0, 4)]);
}

#[test]
fn keys_and_clicks_request_exit_at_once() {
    let mut t = ExitTimer::new();
    assert!(!t.is_exiting());
    t.on_input(InputKind::Other, 10);
    assert!(!t.is_exiting());
    t.on_input(InputKind::KeyDown, 100);
    assert!(t.is_exiting());
    assert_eq!(t.requested_at_ns, Some(100));
    t.on_input(InputKind::MouseButtonDown, 200);
    assert_eq!(t.requested_at_ns, Some(100));
    assert!(!t.should_stop(600_000_100));
    assert!(t.should_stop(600_000_101));
}

#[test]
fn early_mouse_motion_is_ignored() {
    let mut t = ExitTimer::new();
    t.on_input(InputKind::MouseMotion, 500_000_000);
    assert!(!t.is_exiting());
    t.on_input(InputKind::MouseMotion, 500_000_001);
    assert_eq!(t.requested_at_ns, Some(500_000_001));
}

#[test]
fn quit_requests_exit_and_no_stop_before_a_request() {
    let mut t = ExitTimer::new();
    assert!(!t.should_stop(u64::MAX));
    t.on_input(InputKind::Quit, 7);
    assert!(t.is_exiting());
    assert!(!t.should_stop(3));
}

#[test]
fn window_titles_carry_the_display_number() {
    assert_eq!(window_title(0), "matrix-screensaver-0");
    assert_eq!(window_title(12), "matrix-screensaver-12");
}

#[test]
fn screensaver_windows_are_recognised_by_title() {
    assert_eq!(screensaver_window_index(b"matrix-screensaver-1", 2), Some(1));
    assert_eq!(screensaver_window_index(b"matrix-screensaver-+1", 2), Some(1));
    assert_eq!(screensaver_window_index(b"matrix-screensaver-01", 2), Some(1));
    assert_eq!(screensaver_window_index(b"matrix-screensaver-2", 2), None);
    assert_eq!(screensaver_window_index(b"matrix-screensaver-", 2), None);
    assert_eq!(screensaver_window_index(b"matrix-screensaver-+", 2), None);
    assert_eq!(screensaver_window_index(b"matrix-screensaver-1a", 2), None);
    assert_eq!(screensaver_window_index(b"matrix-screensaver--1", 2), None);
    assert_eq!(screensaver_window_index(b"Terminal", 2), None);
    assert_eq!(screensaver_window_index(b"matrix-screensaver-99999999999999999999999", usize::MAX), None);
    assert_eq!(screensaver_window_index(b"matrix-screensaver-\xff", 2), None);
}

#[test]
fn titles_round_trip_through_recognition() {
    for i in 0..25usize {
        let t = window_title(i);
        assert_eq!(screensaver_window_index(t.as_bytes(), 25), Some(i));
        assert_eq!(screensaver_window_index(t.as_bytes(), i), None);
    }
}

#[test]
fn the_first_existing_font_wins() {
    let c = font_candidates();
    assert_eq!(c.len(), 8);
    assert_eq!(c[0], ("/usr/share/fonts/opentype/noto/NotoSansCJK-Regular.ttc", 5));
    let mut present = [false; 8];
    present[3] = true;
    present[5] = true;
    assert_eq!(
        find_monospace_font(&present),
        Ok(("/usr/share/fonts/truetype/dejavu/DejaVuSansMono.ttf", 0))
    );
    present[1] = true;
    assert_eq!(
        find_monospace_font(&present),
        Ok(("/usr/share/fonts/noto-cjk/NotoSansCJK-Regular.ttc", 5))
    );
}

#[test]
fn no_font_is_an_error() {
    assert_eq!(find_monospace_font(&[false; 8]), Err(FontError::NotFound));
}
