use stamp_desk::{Cursor, Mouse, Vec2, Window};

const WINDOW: Window = Window { width: 800, height: 600 };

fn cursor(sx: i64, sy: i64, wx: i64, wy: i64) -> Option<Cursor> {
    Some(Cursor { screen: Vec2::new(sx, sy), world: Vec2::new(wx, wy) })
}

#[test]
fn the_pointer_starts_at_rest() {
    let mouse = Mouse::default();
    assert_eq!(mouse.position, Vec2 { x: 0, y: 0 });
    assert_eq!(mouse.screen_position, Vec2 { x: 0, y: 0 });
    assert_eq!(mouse.screen_pos_inverted, Vec2 { x: 0, y: 0 });
    assert_eq!(mouse.position_delta, Vec2 { x: 0, y: 0 });
    assert!(!mouse.out_of_bounds);
}

#[test]
fn a_sample_sets_every_field() {
    let mut mouse = Mouse::default();
    mouse.calc_mouse_pos(&WINDOW, cursor(410, 320, 10, 20));
    assert_eq!(
        mouse,
        Mouse {
            position: Vec2 { x: 10, y: 20 },
            screen_position: Vec2 { x: 410, y: 320 },
            screen_pos_inverted: Vec2 { x: 410, y: 280 },
            out_of_bounds: false,
            position_delta: Vec2 { x: 10, y: 20 },
        }
    );
}

#[test]
fn delta_is_the_difference_of_consecutive_samples() {
    let mut mouse = Mouse::default();
    mouse.calc_mouse_pos(&WINDOW, cursor(400, 300, 0, 0));
    mouse.calc_mouse_pos(&WINDOW, cursor(403, 296, 3, 4));
    assert_eq!(mouse.position_delta, Vec2 { x: 3, y: 4 });
    mouse.calc_mouse_pos(&WINDOW, cursor(393, 301, -7, -1));
    assert_eq!(mouse.position_delta, Vec2 { x: -10, y: -5 });
    mouse.calc_mouse_pos(&WINDOW, cursor(393, 301, -7, -1));
    assert_eq!(mouse.position_delta, Vec2 { x: 0, y: 0 });
}

#[test]
fn a_frame_without_a_sample_only_sets_the_flag() {
    let mut mouse = Mouse::default();
    mouse.calc_mouse_pos(&WINDOW, cursor(400, 300, 0, 0));
    mouse.calc_mouse_pos(&WINDOW, cursor(403, 296, 3, 4));
    let before = mouse;
    mouse.calc_mouse_pos(&WINDOW, None);
    assert_eq!(mouse, Mouse { out_of_bounds: true, ..before });
    mouse.calc_mouse_pos(&WINDOW, None);
    assert_eq!(mouse, Mouse { out_of_bounds: true, ..before });
}

#[test]
fn delta_after_a_gap_starts_at_the_last_sample() {
    let mut mouse = Mouse::default();
    mouse.calc_mouse_pos(&WINDOW, cursor(400, 300, 0, 0));
    mouse.calc_mouse_pos(&WINDOW, cursor(403, 296, 3, 4));
    mouse.calc_mouse_pos(&WINDOW, None);
    mouse.calc_mouse_pos(&WINDOW, None);
    mouse.calc_mouse_pos(&WINDOW, cursor(500, 300, 100, 0));
    assert_eq!(mouse.position, Vec2 { x: 100, y: 0 });
    assert_eq!(mouse.position_delta, Vec2 { x: 97, y: -4 });
    assert!(!mouse.out_of_bounds);
}

#[test]
fn a_sample_beyond_the_window_is_out_of_bounds() {
    for (sx, sy, out) in [
        (0, 0, false),
        (800, 600, false),
        (-1, 0, true),
        (801, 0, true),
        (0, -1, true),
        (0, 601, true),
    ] {
        let mut mouse = Mouse::default();
        mouse.calc_mouse_pos(&WINDOW, cursor(sx, sy, 1, 2));
        assert_eq!(mouse.out_of_bounds, out, "screen ({sx}, {sy})");
        // the sample counts all the same
        assert_eq!(mouse.position, Vec2 { x: 1, y: 2 });
        assert_eq!(mouse.position_delta, Vec2 { x: 1, y: 2 });
        assert_eq!(mouse.screen_pos_inverted, Vec2 { x: sx, y: 600 - sy });
    }
}

#[test]
fn can_track_tells_what_fits() {
    let mouse = Mouse::default();
    assert!(mouse.can_track(&WINDOW, None));
    assert!(mouse.can_track(&WINDOW, cursor(0, 0, i64::MAX, i64::MIN)));
    let far = Mouse { position: Vec2 { x: -1, y: 0 }, ..Mouse::default() };
    assert!(!far.can_track(&WINDOW, cursor(0, 0, i64::MAX, 0)));
    assert!(far.can_track(&WINDOW, cursor(0, 0, i64::MAX - 1, 0)));
    assert!(far.can_track(&WINDOW, None));
    // the flipped screen position must fit too
    assert!(!mouse.can_track(&WINDOW, cursor(0, i64::MIN, 0, 0)));
    assert!(mouse.can_track(&WINDOW, cursor(0, i64::MAX, 0, 0)));
}
