use chip::{
    awaited_key, box_outline, centre_column, centre_line, centre_text, grid_origin, shorten,
    split_nanos, time_left, Key, KeyState, Placed, NANOS_PER_FRAME,
};

fn pieces(ps: &[Placed]) -> Vec<(usize, usize, String)> {
    ps.iter().map(|p| (p.x, p.y, p.text.clone())).collect()
}

#[test]
fn grid_is_centred_or_absent() {
    assert_eq!(grid_origin(128, 32, 64, 32), Some((0, 0)));
    assert_eq!(grid_origin(131, 37, 64, 32), Some((1, 2)));
    assert_eq!(grid_origin(127, 40, 64, 32), None);
    assert_eq!(grid_origin(200, 31, 64, 32), None);
}

#[test]
fn columns_centre_between_borders() {
    // 10 columns, 2 of border, a 5-wide line: 3 spare, the odd one before.
    assert_eq!(centre_column(10, 5), Some(3));
    assert_eq!(centre_column(10, 8), Some(1));
    assert_eq!(centre_column(10, 9), None);
    assert_eq!(centre_column(1, 0), None);
}

#[test]
fn shortening_keeps_half_and_adds_ellipsis() {
    assert_eq!(shorten("abcdefg"), "abc…");
    assert_eq!(shorten("ab"), "…");
    assert_eq!(shorten("x"), "…");
}

#[test]
fn long_lines_are_shortened_until_they_fit() {
    assert_eq!(centre_line(20, "hello"), Some((8, "hello".to_string())));
    // 8 columns leave 6 inside the border: "abcdefghijklmnop" becomes
    // "abcdefg…" (8), then "abc…" (4).
    assert_eq!(centre_line(8, "abcdefghijklmnop"), Some((2, "abc…".to_string())));
    assert_eq!(centre_line(2, "abc"), None);
    assert_eq!(centre_line(3, "abc"), Some((1, "…".to_string())));
    assert_eq!(centre_line(1, ""), None);
}

#[test]
fn wide_characters_count_twice() {
    // Each full-width character takes two columns.
    assert_eq!(centre_line(8, "ＡＢＣ"), Some((1, "ＡＢＣ".to_string())));
    assert_eq!(centre_line(7, "ＡＢＣ"), Some((2, "Ａ…".to_string())));
}

#[test]
fn text_is_centred_vertically() {
    let lines = vec!["ab".to_string(), "cd".to_string()];
    assert_eq!(
        pieces(&centre_text(10, 10, &lines)),
        vec![(4, 4, "ab".to_string()), (4, 5, "cd".to_string())]
    );
}

#[test]
fn too_many_lines_keep_half_and_an_ellipsis() {
    let lines: Vec<String> = ["1", "2", "3", "4", "5", "6", "7"].iter().map(|s| s.to_string()).collect();
    // 6 rows leave 4: 7 lines become "1", "2", "3", "…".
    assert_eq!(
        pieces(&centre_text(5, 6, &lines)),
        vec![
            (2, 1, "1".to_string()),
            (2, 2, "2".to_string()),
            (2, 3, "3".to_string()),
            (2, 4, "…".to_string()),
        ]
    );
    let two = vec!["a".to_string(), "b".to_string()];
    assert_eq!(pieces(&centre_text(5, 3, &two)), vec![(2, 1, "…".to_string())]);
    assert!(centre_text(5, 2, &two).is_empty());
}

#[test]
fn box_outline_draws_edges_and_corners() {
    assert_eq!(
        pieces(&box_outline(1, 2, 4, 3)),
        vec![
            (2, 2, "──".to_string()),
            (2, 4, "──".to_string()),
            (1, 3, "│".to_string()),
            (4, 3, "│".to_string()),
            (1, 2, "┌".to_string()),
            (1, 4, "└".to_string()),
            (4, 2, "┐".to_string()),
            (4, 4, "┘".to_string()),
        ]
    );
    assert!(box_outline(0, 0, 1, 5).is_empty());
    assert!(box_outline(0, 0, 5, 1).is_empty());
}

#[test]
fn nanoseconds_split_into_seconds() {
    assert_eq!(split_nanos(2_500_000_000), (2, 500_000_000));
    assert_eq!(split_nanos(999), (0, 999));
    assert_eq!(NANOS_PER_FRAME, 1_000_000_000 / 60);
}

#[test]
fn waits_run_down() {
    assert_eq!(time_left(100, 30), Some(70));
    assert_eq!(time_left(100, 100), None);
    assert_eq!(time_left(100, 130), None);
}

#[test]
fn key_events_during_a_frame() {
    let mut k = KeyState::new();
    assert!(!k.handle(Key::Char('a')));
    assert!(k.keydown(7));
    assert!(!k.handle(Key::Other));
    assert!(!k.handle(Key::Char('!')));
    assert!(k.handle(Key::Esc));
}

#[test]
fn key_wait_answers() {
    assert_eq!(awaited_key(Key::Esc), Some(None));
    assert_eq!(awaited_key(Key::Char('v')), Some(Some(0xC)));
    assert_eq!(awaited_key(Key::Char('p')), None);
    assert_eq!(awaited_key(Key::Other), None);
}

#[test]
fn grid_origin_takes_any_size() {
    assert_eq!(grid_origin(10, 10, usize::MAX, 1), None);
    assert_eq!(grid_origin(usize::MAX, 3, usize::MAX / 2, 1), Some((0, 1)));
}
