use stamp_desk::{
    Cursor, CursorIcon, Desk, FrameFault, FrameInput, Mouse, PointerInput, Size, Stamp,
    StampStatus,
    StampedMark, Vec2, Window,
};

const WINDOW: Window = Window { width: 800, height: 600 };
const TICK: u64 = 16_000_000;

/// A frame with the pointer at a point of the desk; the screen shows the desk
/// shifted by half the window.
fn at(x: i64, y: i64) -> FrameInput {
    FrameInput {
        pointer: Some(PointerInput {
            window: WINDOW,
            cursor: Some(Cursor { screen: Vec2::new(x + 400, y + 300), world: Vec2::new(x, y) }),
        }),
        just_pressed: false,
        just_released: false,
        nanos: TICK,
    }
}

fn far_view(x: i64, y: i64) -> Option<PointerInput> {
    Some(PointerInput {
        window: WINDOW,
        cursor: Some(Cursor { screen: Vec2::new(0, 0), world: Vec2::new(x, y) }),
    })
}

fn no_sample() -> Option<PointerInput> {
    Some(PointerInput { window: WINDOW, cursor: None })
}

fn press(x: i64, y: i64) -> FrameInput {
    FrameInput { just_pressed: true, ..at(x, y) }
}

fn release(x: i64, y: i64) -> FrameInput {
    FrameInput { just_released: true, ..at(x, y) }
}

fn scene() -> (Desk, usize, usize) {
    let mut desk = Desk::new();
    let dossier = desk.add_object(Vec2::new(0, 0), Some(40), Size::new(400, 400), None);
    desk.set_dossier(dossier).unwrap();
    let stamp = Stamp { offset: Vec2::new(0, -20), depth: Some(60), size: Size::new(150, 100) };
    let id = desk.add_object(Vec2::new(400, -200), Some(61), Size::new(150, 150), Some(stamp));
    (desk, dossier, id)
}

#[test]
fn a_quiet_frame_only_moves_the_pointer() {
    let (mut desk, _, stamp) = scene();
    let mut mouse = Mouse::default();
    let out = desk.frame(&mut mouse, &at(30, 40)).unwrap();
    assert_eq!(out.cursor_icon, None);
    assert!(out.marks.is_empty());
    assert!(!out.next_scene);
    assert_eq!(mouse.position, Vec2 { x: 30, y: 40 });
    assert_eq!(mouse.position_delta, Vec2 { x: 30, y: 40 });
    assert_eq!(desk.get(stamp).unwrap().position, Vec2 { x: 400, y: -200 });
}

#[test]
fn the_press_frame_picks_but_does_not_move() {
    let (mut desk, _, stamp) = scene();
    let mut mouse = Mouse::default();
    let out = desk.frame(&mut mouse, &press(400, -200)).unwrap();
    assert_eq!(out.cursor_icon, Some(CursorIcon::Grabbing));
    assert!(desk.get(stamp).unwrap().being_dragged);
    assert_eq!(desk.get(stamp).unwrap().position, Vec2 { x: 400, y: -200 });
}

#[test]
fn a_press_on_nothing_keeps_the_cursor() {
    let (mut desk, _, _) = scene();
    let mut mouse = Mouse::default();
    let out = desk.frame(&mut mouse, &press(-390, 290)).unwrap();
    assert_eq!(out.cursor_icon, None);
}

#[test]
fn drag_and_drop_from_press_to_release() {
    let (mut desk, dossier, stamp) = scene();
    let mut mouse = Mouse::default();
    desk.frame(&mut mouse, &at(400, -200)).unwrap();
    desk.frame(&mut mouse, &press(400, -200)).unwrap();
    let out = desk.frame(&mut mouse, &at(200, -100)).unwrap();
    assert_eq!(out.cursor_icon, None);
    assert_eq!(desk.get(stamp).unwrap().position, Vec2 { x: 200, y: -100 });
    // the release frame still follows the pointer, then lets go
    let out = desk.frame(&mut mouse, &release(10, 30)).unwrap();
    assert_eq!(out.cursor_icon, Some(CursorIcon::Default));
    assert_eq!(out.marks, vec![StampedMark { stamp, id: 2 }]);
    assert!(!out.next_scene);
    assert_eq!(desk.get(stamp).unwrap().position, Vec2 { x: 10, y: 30 });
    assert_eq!(desk.get(2).unwrap().position, Vec2 { x: 10, y: 10 });
    assert_eq!(desk.get(dossier).unwrap().hitbox.as_ref().unwrap().members, vec![2]);
    assert!(matches!(desk.stamp_status(), StampStatus::Dropped));
    // the next frame moves nothing
    desk.frame(&mut mouse, &at(300, 300)).unwrap();
    assert_eq!(desk.get(stamp).unwrap().position, Vec2 { x: 10, y: 30 });
}

#[test]
fn press_and_release_in_one_frame() {
    let (mut desk, _, stamp) = scene();
    let mut mouse = Mouse::default();
    let input = FrameInput { just_released: true, ..press(400, -200) };
    let out = desk.frame(&mut mouse, &input).unwrap();
    assert_eq!(out.cursor_icon, Some(CursorIcon::Default));
    assert!(out.marks.is_empty());
    assert!(!desk.get(stamp).unwrap().being_dragged);
}

#[test]
fn the_scene_ends_five_seconds_after_the_second_pick_up() {
    let (mut desk, _, _) = scene();
    let mut mouse = Mouse::default();
    desk.frame(&mut mouse, &press(400, -200)).unwrap();
    desk.frame(&mut mouse, &release(0, 0)).unwrap();
    assert!(matches!(desk.stamp_status(), StampStatus::Dropped));
    // time does not count before the stamp is picked up again
    let wait = FrameInput { nanos: 60_000_000_000, ..at(0, 0) };
    assert!(!desk.frame(&mut mouse, &wait).unwrap().next_scene);
    // the frame of the pick-up counts already
    let pick = FrameInput { nanos: 1_000_000_000, ..press(0, 0) };
    let out = desk.frame(&mut mouse, &pick).unwrap();
    assert_eq!(out.cursor_icon, Some(CursorIcon::Grabbing));
    assert!(!out.next_scene);
    let long = FrameInput { nanos: 3_999_999_999, ..at(0, 0) };
    assert!(!desk.frame(&mut mouse, &long).unwrap().next_scene);
    let last = FrameInput { nanos: 1, ..at(0, 0) };
    assert!(desk.frame(&mut mouse, &last).unwrap().next_scene);
    assert!(!desk.frame(&mut mouse, &wait).unwrap().next_scene);
}

#[test]
fn a_frame_without_a_sample_keeps_the_old_delta() {
    let (mut desk, _, stamp) = scene();
    let mut mouse = Mouse::default();
    desk.frame(&mut mouse, &press(400, -200)).unwrap();
    desk.frame(&mut mouse, &at(390, -190)).unwrap();
    assert_eq!(desk.get(stamp).unwrap().position, Vec2 { x: 390, y: -190 });
    let gone = FrameInput { pointer: no_sample(), ..at(0, 0) };
    desk.frame(&mut mouse, &gone).unwrap();
    assert!(mouse.out_of_bounds);
    assert_eq!(mouse.position, Vec2 { x: 390, y: -190 });
    assert_eq!(mouse.position_delta, Vec2 { x: -10, y: 10 });
    assert_eq!(desk.get(stamp).unwrap().position, Vec2 { x: 380, y: -180 });
}

#[test]
fn a_pointer_out_of_range_stops_the_frame() {
    let (mut desk, _, stamp) = scene();
    let mut mouse = Mouse { position: Vec2::new(-1, 0), ..Mouse::default() };
    let before = mouse;
    let input = FrameInput { pointer: far_view(i64::MAX, 0), ..press(0, 0) };
    assert_eq!(desk.frame(&mut mouse, &input).unwrap_err(), FrameFault::Pointer);
    assert_eq!(mouse, before);
    assert!(!desk.get(stamp).unwrap().being_dragged);
}

#[test]
fn a_drag_out_of_range_stops_the_frame() {
    let mut desk = Desk::new();
    let far = desk.add_object(Vec2::new(i64::MAX - 1, 0), Some(1), Size::new(10, 10), None);
    let mut mouse = Mouse::default();
    desk.frame(&mut mouse, &at(i64::MAX - 401, 0)).unwrap();
    desk.frame(&mut mouse, &press(i64::MAX - 401, 0)).unwrap();
    assert!(!desk.get(far).unwrap().being_dragged);
    let input = FrameInput { pointer: far_view(i64::MAX - 1, 0), ..press(0, 0) };
    desk.frame(&mut mouse, &input).unwrap();
    assert!(desk.get(far).unwrap().being_dragged);
    let input = FrameInput { pointer: far_view(i64::MAX, 0), ..at(0, 0) };
    desk.frame(&mut mouse, &input).unwrap();
    assert_eq!(desk.get(far).unwrap().position, Vec2 { x: i64::MAX, y: 0 });
    // the pointer stays, its delta too: one more step would pass the end
    let gone = FrameInput { pointer: no_sample(), ..at(0, 0) };
    assert_eq!(desk.frame(&mut mouse, &gone).unwrap_err(), FrameFault::Drag);
    assert!(mouse.out_of_bounds);
    assert_eq!(desk.get(far).unwrap().position, Vec2 { x: i64::MAX, y: 0 });
    assert!(desk.get(far).unwrap().being_dragged);
}

#[test]
fn a_drop_without_a_dossier_stops_the_frame() {
    let mut desk = Desk::new();
    let stamp = Stamp { offset: Vec2::new(0, -20), depth: Some(60), size: Size::new(150, 100) };
    let id = desk.add_object(Vec2::new(0, 0), Some(61), Size::new(150, 150), Some(stamp));
    let mut mouse = Mouse::default();
    desk.frame(&mut mouse, &press(0, 0)).unwrap();
    assert_eq!(desk.frame(&mut mouse, &release(5, 5)).unwrap_err(), FrameFault::Release);
    // the drag of this frame was done, the release was not
    assert_eq!(desk.get(id).unwrap().position, Vec2 { x: 5, y: 5 });
    assert!(desk.get(id).unwrap().being_dragged);
    assert_eq!(desk.len(), 1);
}

#[test]
fn without_a_camera_the_pointer_rests() {
    let (mut desk, _, stamp) = scene();
    let mut mouse = Mouse::default();
    desk.frame(&mut mouse, &press(400, -200)).unwrap();
    desk.frame(&mut mouse, &at(390, -190)).unwrap();
    let before = mouse;
    let blind = FrameInput { pointer: None, ..at(0, 0) };
    desk.frame(&mut mouse, &blind).unwrap();
    assert_eq!(mouse, before);
    // the rest of the frame goes on
    assert_eq!(desk.get(stamp).unwrap().position, Vec2 { x: 380, y: -180 });
    let blind_release = FrameInput { pointer: None, ..release(0, 0) };
    let out = desk.frame(&mut mouse, &blind_release).unwrap();
    assert_eq!(out.cursor_icon, Some(CursorIcon::Default));
    assert!(!desk.get(stamp).unwrap().being_dragged);
}
