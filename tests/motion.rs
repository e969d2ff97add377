use git_logue::motion::{plan_cursor_path, push_cursor_motion, speed_tier, cursor_pause};
use git_logue::step::AnimationStep;

#[test]
fn no_motion_when_lines_equal() {
    assert!(plan_cursor_path(10, 10).is_empty());
    let mut steps = Vec::new();
    let end = push_cursor_motion(&mut steps, 10, 10, 30);
    assert_eq!(end, 10);
    assert!(steps.is_empty());
}

#[test]
fn eased_path_down_twenty_lines() {
    assert_eq!(plan_cursor_path(0, 20), vec![1, 2, 5, 10, 15, 18, 19, 20]);
}

#[test]
fn eased_path_up_mirrors_down() {
    assert_eq!(plan_cursor_path(20, 0), vec![19, 18, 15, 10, 5, 2, 1, 0]);
}

#[test]
fn waypoints_never_repeat_and_end_on_target() {
    for (from, to) in [(0usize, 1usize), (0, 3), (5, 50), (100, 7), (0, 1000), (3, 4)] {
        let path = plan_cursor_path(from, to);
        assert!(!path.is_empty());
        assert_ne!(path[0], from);
        assert_eq!(*path.last().unwrap(), to);
        for w in path.windows(2) {
            assert_ne!(w[0], w[1]);
        }
    }
}

#[test]
fn speed_tier_boundaries() {
    assert_eq!(speed_tier(3), 10);
    assert_eq!(speed_tier(5), 10);
    assert_eq!(speed_tier(6), 3);
    assert_eq!(speed_tier(15), 3);
    assert_eq!(speed_tier(20), 3);
    assert_eq!(speed_tier(21), 1);
    assert_eq!(speed_tier(50), 1);
}

#[test]
fn waypoint_pause_scales_with_tier() {
    assert_eq!(cursor_pause(100, 3), 50);
    assert_eq!(cursor_pause(100, 15), 15);
    assert_eq!(cursor_pause(100, 50), 5);
    assert_eq!(cursor_pause(1, 50), 1);
}

#[test]
fn motion_emits_move_and_pause_per_waypoint() {
    let mut steps = Vec::new();
    let end = push_cursor_motion(&mut steps, 0, 3, 100);
    assert_eq!(end, 3);
    let path = plan_cursor_path(0, 3);
    assert_eq!(steps.len(), 2 * path.len());
    for (k, line) in path.iter().enumerate() {
        match &steps[2 * k] {
            AnimationStep::MoveCursor { line: l, col } => {
                assert_eq!(l, line);
                assert_eq!(*col, 0);
            }
            other => panic!("unexpected step {:?}", other),
        }
        match &steps[2 * k + 1] {
            AnimationStep::Pause { duration_ms } => assert_eq!(*duration_ms, 50),
            other => panic!("unexpected step {:?}", other),
        }
    }
}
