use matrix_screensaver::render::clock::{shows_clock, clock_placement, glitch_text, random_glitch_text, ClockPlacement, ClockRenderer};

#[test]
fn a_new_clock_builds_its_texture_on_the_first_frame() {
    let r = ClockRenderer::new();
    for s in 0..60 {
        assert!(r.needs_rebuild(s, true));
        assert!(r.needs_rebuild(s, false));
    }
}

#[test]
fn the_texture_is_rebuilt_once_per_second() {
    let mut r = ClockRenderer::new();
    assert!(r.needs_rebuild(7, false));
    r.mark_rebuilt(7);
    assert!(!r.needs_rebuild(7, true));
    assert!(r.needs_rebuild(7, false));
    assert!(r.needs_rebuild(8, true));
    r.mark_rebuilt(8);
    assert!(!r.needs_rebuild(8, true));
}

#[test]
fn glitch_replaces_the_chosen_digit() {
    let text: Vec<char> = "12:34:56".chars().collect();
    let g: String = glitch_text(text.clone(), 2, 0).into_iter().collect();
    assert_eq!(g, "12:\u{FF66}4:56");
    let g: String = glitch_text(text.clone(), 0, 57).into_iter().collect();
    assert_eq!(g, "\u{FF9F}2:34:56");
    let g: String = glitch_text(text, 5, 1).into_iter().collect();
    assert_eq!(g, "12:34:5\u{FF67}");
}

#[test]
fn a_random_glitch_changes_exactly_one_digit() {
    let text: Vec<char> = "09:41:27".chars().collect();
    let digit_positions = [0usize, 1, 3, 4, 6, 7];
    for _ in 0..200 {
        let g = random_glitch_text(text.clone());
        assert_eq!(g.len(), 8);
        let changed: Vec<usize> = (0..8).filter(|&i| g[i] != text[i]).collect();
        assert_eq!(changed.len(), 1);
        assert!(digit_positions.contains(&changed[0]));
        let cp = g[changed[0]] as u32;
        assert!((0xFF66..=0xFF9F).contains(&cp));
    }
}

#[test]
fn the_clock_is_centred_with_ghosts_three_pixels_apart() {
    assert_eq!(
        clock_placement(1920, 1080, 300, 100),
        ClockPlacement { main_x: 810, red_x: 807, blue_x: 813, y: 490 }
    );
    assert_eq!(
        clock_placement(1921, 1081, 300, 100),
        ClockPlacement { main_x: 810, red_x: 807, blue_x: 813, y: 490 }
    );
}

#[test]
fn an_oversized_clock_is_centred_rounding_toward_zero() {
    assert_eq!(
        clock_placement(100, 50, 301, 101),
        ClockPlacement { main_x: -100, red_x: -103, blue_x: -97, y: -25 }
    );
}

#[test]
fn only_the_primary_display_shows_the_clock() {
    assert!(shows_clock(0));
    assert!(!shows_clock(1));
    assert!(!shows_clock(7));
}
