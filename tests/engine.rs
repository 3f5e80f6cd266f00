use swout::commands::{disable_command, enable_command, position_command};
use swout::drag::{handle_overlap, nearest_neighbor, MouseTracker};
use swout::editor::{grab, toggle_target, Editor, Effect, Event, Viewport};
use swout::geometry::{check_inside, Bounds};
use swout::layout::update_output_position;
use swout::registry::{
    check_inactive_touched, check_touched, split_outputs, ActiveOutput, InactiveOutput,
    OutputRecord,
};
use swout::render::{center_offset, draw_list, Rgb};

fn out(id: u16, name: &str, x: i32, y: i32, width: u32, height: u32) -> ActiveOutput {
    ActiveOutput {
        id,
        name: name.to_string(),
        rect: Bounds { x, y, width, height },
    }
}

fn off(name: &str) -> InactiveOutput {
    InactiveOutput { name: name.to_string() }
}

fn tracker(id: u16, pos: (i32, i32), offset: (i32, i32), size: (u32, u32)) -> MouseTracker {
    MouseTracker { id, pos, offset, size }
}

fn unit_view() -> Viewport {
    Viewport { scale: 1, center_x: 0, center_y: 0, inactive_size: 80 }
}

#[test]
fn boundary_points_are_inside() {
    let b = Bounds { x: -10, y: 5, width: 100, height: 50 };
    for p in [(-10, 5), (90, 5), (-10, 55), (90, 55), (40, 5), (40, 55), (-10, 30), (90, 30)] {
        assert!(check_inside(p, &b), "{:?}", p);
    }
    assert!(check_inside((0, 20), &b));
    assert!(!check_inside((91, 20), &b));
    assert!(!check_inside((-11, 20), &b));
    assert!(!check_inside((0, 56), &b));
    assert!(!check_inside((0, 4), &b));
}

#[test]
fn inside_test_does_not_wrap_on_wide_bounds() {
    let b = Bounds { x: i32::MAX - 5, y: 0, width: u32::MAX, height: 1 };
    assert!(check_inside((i32::MAX, 0), &b));
    assert!(!check_inside((i32::MIN, 0), &b));
}

#[test]
fn first_hit_wins_in_order() {
    let outs = vec![out(1, "A", 0, 0, 100, 50), out(2, "B", 50, 0, 100, 50)];
    assert_eq!(check_touched((75, 10), &outs), Some(0));
    assert_eq!(check_touched((100, 10), &outs), Some(0));
    assert_eq!(check_touched((120, 10), &outs), Some(1));
    assert_eq!(check_touched((151, 10), &outs), None);
    assert_eq!(check_touched((0, 0), &[]), None);
}

#[test]
fn inactive_cells_are_a_row_of_squares() {
    let offs = vec![off("C"), off("D"), off("E")];
    assert_eq!(check_inactive_touched((0, 0), 80, &offs), Some(0));
    assert_eq!(check_inactive_touched((80, 80), 80, &offs), Some(0));
    assert_eq!(check_inactive_touched((81, 80), 80, &offs), Some(1));
    assert_eq!(check_inactive_touched((200, 10), 80, &offs), Some(2));
    assert_eq!(check_inactive_touched((241, 10), 80, &offs), None);
    assert_eq!(check_inactive_touched((10, 81), 80, &offs), None);
    assert_eq!(check_inactive_touched((10, -1), 80, &offs), None);
    assert_eq!(check_inactive_touched((10, 10), 80, &[]), None);
}

#[test]
fn inactive_cells_beyond_i32_are_never_hit() {
    let offs = vec![off("C"), off("D"), off("E")];
    let size = 1u32 << 31;
    assert_eq!(check_inactive_touched((i32::MAX, 0), size, &offs), Some(0));
    assert_eq!(check_inactive_touched((5, 5), size, &offs), Some(0));
}

#[test]
fn nearest_neighbour_skips_the_dragged_output_and_prefers_the_last_tie() {
    let outs = vec![
        out(1, "A", 0, 0, 100, 100),
        out(2, "B", 200, 0, 100, 100),
        out(3, "C", -200, 0, 100, 100),
    ];
    let m = tracker(1, (0, 0), (0, 0), (100, 100));
    assert_eq!(nearest_neighbor(&m, &outs), Some(2));
    let only = vec![out(1, "A", 0, 0, 100, 100)];
    assert_eq!(nearest_neighbor(&m, &only), None);
}

#[test]
fn drag_snaps_right_edge_to_neighbour() {
    let outs = vec![out(1, "A", 0, 0, 100, 50), out(2, "B", 120, 0, 100, 50)];
    // grabbed at (10, 10), moved by (+30, 0)
    let m = tracker(1, (40, 10), (-10, -10), (100, 50));
    let r = handle_overlap(m, &outs);
    assert_eq!(r.pos, (30, 10));
    assert_eq!(r.pos.0 + r.offset.0, 20);
    assert_eq!(r.offset, (-10, -10));
    assert_eq!(r.size, (100, 50));
    assert_eq!(r.id, 1);
}

#[test]
fn diagonal_separation_is_left_alone() {
    let outs = vec![out(1, "A", 0, 0, 100, 50), out(2, "B", 120, 0, 100, 50)];
    let m = tracker(1, (300, 200), (0, 0), (100, 50));
    let r = handle_overlap(m, &outs);
    assert_eq!(r, m);
}

#[test]
fn snap_settles_without_oscillating() {
    let outs = vec![out(1, "A", 0, 0, 100, 50), out(2, "B", 100, 0, 100, 50)];
    // A touches B; the pointer nudges it 7 units into B, then 7 away from it
    for nudge in [7, -7] {
        let m = tracker(1, (nudge, 0), (0, 0), (100, 50));
        let r = handle_overlap(m, &outs);
        assert_eq!(r.pos.0 + r.offset.0 + 100, 100);
        assert_eq!(r.pos.1, 0);
        let again = handle_overlap(r, &outs);
        assert_eq!(again, r);
    }
}

#[test]
fn vertical_overlap_pushes_along_y() {
    let outs = vec![out(1, "A", 0, 0, 100, 50), out(2, "B", 0, 50, 100, 50)];
    // A dragged 10 units down into B, which lies below it
    let m = tracker(1, (0, 10), (0, 0), (100, 50));
    let r = handle_overlap(m, &outs);
    assert_eq!(r.pos, (0, 0));
    // A dragged from below into B's lower half is pushed down
    let m = tracker(1, (0, 90), (0, 0), (100, 50));
    let r = handle_overlap(m, &outs);
    assert_eq!(r.pos, (0, 100));
}

#[test]
fn drag_without_neighbour_is_free() {
    let outs = vec![out(1, "A", 0, 0, 100, 50)];
    let m = tracker(1, (123, -45), (-3, -4), (100, 50));
    assert_eq!(handle_overlap(m, &outs), m);
}

#[test]
fn release_normalizes_to_origin() {
    let outs = vec![out(1, "A", 0, 0, 100, 50), out(2, "B", 120, 0, 100, 50)];
    let m = tracker(1, (30, 10), (-10, -10), (100, 50));
    let r = update_output_position(m, &outs).unwrap();
    assert_eq!(r.len(), 2);
    assert_eq!((r[0].rect.x, r[0].rect.y), (0, 0));
    assert_eq!((r[1].rect.x, r[1].rect.y), (100, 0));
    assert_eq!(r[0].name, "A");
    assert_eq!(r[1].name, "B");
    assert_eq!(r[1].rect.width, 100);
    assert_eq!(r[1].rect.height, 50);
}

#[test]
fn release_keeps_relative_positions() {
    let outs = vec![
        out(4, "X", 500, 300, 1920, 1080),
        out(5, "Y", -1000, 800, 1280, 1024),
        out(6, "Z", 40, -60, 800, 600),
    ];
    let m = tracker(4, (2500, 310), (-100, -10), (1920, 1080));
    let r = update_output_position(m, &outs).unwrap();
    let xs: Vec<i32> = r.iter().map(|o| o.rect.x).collect();
    let ys: Vec<i32> = r.iter().map(|o| o.rect.y).collect();
    assert_eq!(xs, vec![3400, 0, 1040]);
    assert_eq!(ys, vec![360, 860, 0]);
    assert_eq!(*xs.iter().min().unwrap(), 0);
    assert_eq!(*ys.iter().min().unwrap(), 0);
}

#[test]
fn release_of_unrepresentable_layout_is_refused() {
    let outs = vec![out(1, "A", i32::MIN, 0, 10, 10), out(2, "B", i32::MAX, 0, 10, 10)];
    let m = tracker(9, (0, 0), (0, 0), (10, 10));
    assert!(update_output_position(m, &outs).is_none());
    assert_eq!(update_output_position(m, &[]).unwrap().len(), 0);
}

#[test]
fn grab_keeps_pointer_offset() {
    let outs = vec![out(1, "A", 0, 0, 100, 50), out(2, "B", 120, 0, 100, 50)];
    let v = Viewport { scale: 10, center_x: 30, center_y: 40, inactive_size: 800 };
    let m = grab(&v, 15, 8, &outs).unwrap();
    assert_eq!(m.id, 2);
    assert_eq!(m.pos, (120, 40));
    assert_eq!(m.offset, (0, -40));
    assert_eq!(m.size, (100, 50));
    assert!(grab(&v, 30, 30, &outs).is_none());
}

#[test]
fn drag_then_release_commits_normalized_layout() {
    let outs = vec![out(1, "A", 0, 0, 100, 50), out(2, "B", 120, 0, 100, 50)];
    let v = unit_view();
    let mut ed = Editor::new();
    let offs: Vec<InactiveOutput> = Vec::new();
    assert!(matches!(ed.handle_event(Event::PointerDown(10, 10), &v, &outs, &offs), Effect::Nothing));
    assert_eq!(ed.selected.unwrap().offset, (-10, -10));
    assert!(matches!(ed.handle_event(Event::PointerMove(40, 10), &v, &outs, &offs), Effect::Nothing));
    let m = ed.selected.unwrap();
    assert_eq!(m.pos.0 + m.offset.0, 20);
    // a second press while dragging changes nothing
    assert!(matches!(ed.handle_event(Event::PointerDown(150, 10), &v, &outs, &offs), Effect::Nothing));
    assert_eq!(ed.selected.unwrap(), m);
    match ed.handle_event(Event::PointerUp, &v, &outs, &offs) {
        Effect::Commit(layout) => {
            assert_eq!((layout[0].rect.x, layout[1].rect.x), (0, 100));
            assert_eq!(
                position_command(&layout),
                "output A pos 0 0; output B pos 100 0;"
            );
        }
        other => panic!("unexpected {:?}", other),
    }
    assert!(ed.selected.is_none());
    assert!(matches!(ed.handle_event(Event::PointerUp, &v, &outs, &offs), Effect::Nothing));
}

#[test]
fn click_outside_outputs_starts_no_drag() {
    let outs = vec![out(1, "A", 0, 0, 100, 50)];
    let mut ed = Editor::new();
    ed.handle_event(Event::PointerDown(300, 300), &unit_view(), &outs, &[]);
    assert!(ed.selected.is_none());
    assert!(matches!(ed.handle_event(Event::PointerMove(5, 5), &unit_view(), &outs, &[]), Effect::Nothing));
    assert!(ed.selected.is_none());
}

#[test]
fn sole_active_output_cannot_be_disabled() {
    let outs = vec![out(1, "A", 0, 100, 100, 50)];
    let v = unit_view();
    assert!(matches!(toggle_target(&v, 10, 110, &outs, &[]), Effect::Nothing));
    let mut ed = Editor::new();
    ed.handle_event(Event::ModifierDown, &v, &outs, &[]);
    assert!(ed.ctrl_down);
    assert!(matches!(ed.handle_event(Event::PointerDown(10, 110), &v, &outs, &[]), Effect::Nothing));
    assert!(ed.selected.is_none());
}

#[test]
fn toggle_disables_hit_output_when_others_remain() {
    let outs = vec![out(1, "A", 0, 100, 100, 50), out(2, "B", 100, 100, 100, 50)];
    let v = unit_view();
    match toggle_target(&v, 150, 120, &outs, &[]) {
        Effect::Disable(name) => assert_eq!(name, "B"),
        other => panic!("unexpected {:?}", other),
    }
    assert!(matches!(toggle_target(&v, 150, 300, &outs, &[]), Effect::Nothing));
}

#[test]
fn toggle_enables_inactive_output_and_reload_activates_it() {
    let outs = vec![out(1, "A", 0, 0, 1920, 1080)];
    let offs = vec![off("C")];
    let v = Viewport { scale: 10, center_x: -500, center_y: -500, inactive_size: 800 };
    let mut ed = Editor::new();
    ed.handle_event(Event::ModifierDown, &v, &outs, &offs);
    let e = ed.handle_event(Event::PointerDown(40, 40), &v, &outs, &offs);
    let name = match e {
        Effect::Enable(name) => name,
        other => panic!("unexpected {:?}", other),
    };
    assert_eq!(name, "C");
    assert_eq!(enable_command(&name), "output C enable");
    ed.handle_event(Event::ModifierUp, &v, &outs, &offs);
    assert!(!ed.ctrl_down);
    // the compositor's listing after the change
    let listing = vec![
        OutputRecord { id: Some(1), name: "A".to_string(), rect: Bounds { x: 0, y: 0, width: 1280, height: 720 } },
        OutputRecord { id: Some(7), name: "C".to_string(), rect: Bounds { x: 1280, y: 0, width: 800, height: 600 } },
    ];
    let (active, inactive) = split_outputs(&listing);
    assert_eq!(active.len(), 2);
    assert!(inactive.is_empty());
    assert_eq!(active[0].name, "A");
    assert_eq!(active[0].rect.width, 1280);
    assert_eq!(active[1].name, "C");
    assert_eq!(active[1].id, 7);
}

#[test]
fn listing_splits_by_identifier() {
    let listing = vec![
        OutputRecord { id: None, name: "HDMI-1".to_string(), rect: Bounds { x: 0, y: 0, width: 0, height: 0 } },
        OutputRecord { id: Some(3), name: "eDP-1".to_string(), rect: Bounds { x: 0, y: 0, width: 1920, height: 1080 } },
        OutputRecord { id: None, name: "DP-2".to_string(), rect: Bounds { x: 0, y: 0, width: 0, height: 0 } },
    ];
    let (active, inactive) = split_outputs(&listing);
    assert_eq!(active.len(), 1);
    assert_eq!(active[0].id, 3);
    assert_eq!(active[0].name, "eDP-1");
    let names: Vec<&str> = inactive.iter().map(|o| o.name.as_str()).collect();
    assert_eq!(names, vec!["HDMI-1", "DP-2"]);
}

#[test]
fn quit_event_asks_to_quit() {
    let mut ed = Editor::new();
    assert!(matches!(ed.handle_event(Event::Quit, &unit_view(), &[], &[]), Effect::Quit));
}

#[test]
fn directives_are_formatted_exactly() {
    let outs = vec![out(1, "eDP-1", -1920, 0, 1920, 1080), out(2, "DP-2", 2147483647, -2147483648, 10, 10)];
    assert_eq!(
        position_command(&outs),
        "output eDP-1 pos -1920 0; output DP-2 pos 2147483647 -2147483648;"
    );
    assert_eq!(position_command(&[]), "");
    assert_eq!(disable_command(&"DP-2".to_string()), "output DP-2 disable");
}

#[test]
fn layout_is_centred_in_window() {
    let outs = vec![out(1, "A", 0, 0, 1920, 1080), out(2, "B", 1920, 0, 1280, 1024)];
    assert_eq!(center_offset((800, 600), 10, &outs), (2400, 2460));
    let neg = vec![out(1, "A", -1001, -3, 10, 2)];
    // extent (-1001, -3) .. (0, 0): halves round toward zero
    assert_eq!(center_offset((0, 0), 10, &neg), (500, 1));
    assert_eq!(center_offset((u32::MAX, 1), 10, &[]), (i32::MAX, 5));
}

#[test]
fn frame_draws_ghost_then_active_then_inactive() {
    let outs = vec![
        out(1, "A", 0, 0, 100, 50),
        out(2, "B", 100, 0, 100, 50),
        out(3, "C", 200, 0, 100, 50),
        out(4, "D", 300, 0, 100, 50),
    ];
    let offs = vec![off("E"), off("F")];
    let v = Viewport { scale: 10, center_x: 5, center_y: 7, inactive_size: 80 };
    let mut ed = Editor::new();
    let idle = draw_list(&v, &ed, &outs, &offs);
    assert_eq!(idle.len(), 6);
    assert_eq!(idle[0].color, Rgb { r: 255, g: 0, b: 0 });
    assert_eq!(idle[3].color, Rgb { r: 255, g: 0, b: 0 });
    assert_eq!(idle[2].color, Rgb { r: 0, g: 0, b: 255 });
    assert_eq!((idle[1].bounds.x, idle[1].bounds.y), (105, 7));
    assert_eq!((idle[5].bounds.x, idle[5].bounds.y, idle[5].bounds.width), (80, 0, 80));
    ed.selected = Some(tracker(2, (150, 10), (-50, -10), (100, 50)));
    let dragging = draw_list(&v, &ed, &outs, &offs);
    assert_eq!(dragging.len(), 7);
    assert_eq!(dragging[0].color, Rgb { r: 100, g: 100, b: 100 });
    assert_eq!((dragging[0].bounds.x, dragging[0].bounds.y), (105, 7));
    assert_eq!(dragging[2].color, Rgb { r: 200, g: 200, b: 200 });
    assert_eq!(dragging[1].color, Rgb { r: 255, g: 0, b: 0 });
}
