use frame_loop::motion::{advance, advance_axis, velocity_of, Axis, Bounds, Position, Velocity};

#[test]
fn axis_steps_are_minus_one_zero_and_one() {
    assert_eq!(Axis::Negative.step(), -1);
    assert_eq!(Axis::Neutral.step(), 0);
    assert_eq!(Axis::Positive.step(), 1);
    assert_eq!(velocity_of(Axis::Positive, Axis::Negative), Velocity { dx: 1, dy: -1 });
    assert_eq!(velocity_of(Axis::Neutral, Axis::Neutral), Velocity { dx: 0, dy: 0 });
}

#[test]
fn axis_moves_by_the_step_inside_the_bound() {
    assert_eq!(advance_axis(10, 1, 224), 11);
    assert_eq!(advance_axis(10, -1, 224), 9);
    assert_eq!(advance_axis(10, 0, 224), 10);
    assert_eq!(advance_axis(10, 7, 224), 17);
    assert_eq!(advance_axis(223, 1, 224), 224);
}

#[test]
fn axis_stops_at_both_ends() {
    assert_eq!(advance_axis(0, -1, 224), 0);
    assert_eq!(advance_axis(3, -10, 224), 0);
    assert_eq!(advance_axis(224, 1, 224), 224);
    assert_eq!(advance_axis(220, 100, 224), 224);
    assert_eq!(advance_axis(0, 0, 0), 0);
    assert_eq!(advance_axis(0, 1, 0), 0);
}

#[test]
fn axis_outside_the_bound_is_brought_back() {
    assert_eq!(advance_axis(300, 0, 224), 224);
    assert_eq!(advance_axis(300, -1, 224), 224);
    assert_eq!(advance_axis(300, -100, 224), 200);
}

#[test]
fn axis_takes_the_largest_values() {
    assert_eq!(advance_axis(u32::MAX, i32::MAX, u32::MAX), u32::MAX);
    assert_eq!(advance_axis(u32::MAX, i32::MIN, u32::MAX), u32::MAX - (1u32 << 31));
    assert_eq!(advance_axis(0, i32::MIN, u32::MAX), 0);
    assert_eq!(advance_axis(0, i32::MAX, u32::MAX), i32::MAX as u32);
}

#[test]
fn bounds_leave_room_for_the_sprite() {
    assert_eq!(Bounds::for_sprite(240, 160, 16, 32), Some(Bounds { max_x: 224, max_y: 128 }));
    assert_eq!(Bounds::for_sprite(240, 160, 240, 160), Some(Bounds { max_x: 0, max_y: 0 }));
    assert_eq!(Bounds::for_sprite(240, 160, 241, 16), None);
    assert_eq!(Bounds::for_sprite(240, 160, 16, 161), None);
    let bounds = Bounds { max_x: 224, max_y: 128 };
    assert!(bounds.contains(Position { x: 224, y: 128 }));
    assert!(bounds.contains(Position { x: 0, y: 0 }));
    assert!(!bounds.contains(Position { x: 225, y: 0 }));
    assert!(!bounds.contains(Position { x: 0, y: 129 }));
}

#[test]
fn position_moves_on_both_axes() {
    let bounds = Bounds { max_x: 224, max_y: 144 };
    let next = advance(Position { x: 5, y: 144 }, Velocity { dx: -1, dy: 1 }, bounds);
    assert_eq!(next, Position { x: 4, y: 144 });
    let next = advance(Position { x: 0, y: 0 }, Velocity { dx: -1, dy: -1 }, bounds);
    assert_eq!(next, Position { x: 0, y: 0 });
}

#[test]
fn moving_right_for_the_width_of_the_display_rests_at_the_right_bound() {
    let display_width = 240u32;
    let sprite_width = 16u32;
    let bounds = Bounds::for_sprite(display_width, 160, sprite_width, 16).unwrap();
    let mut position = Position { x: 0, y: 24 };
    for _ in 0..display_width {
        position = advance(position, Velocity { dx: 1, dy: 0 }, bounds);
        assert!(position.x <= display_width - sprite_width);
    }
    assert_eq!(position, Position { x: display_width - sprite_width, y: 24 });
}

#[test]
fn moving_right_is_one_pixel_a_frame_until_the_bound() {
    let bounds = Bounds { max_x: 10, max_y: 10 };
    let mut position = Position { x: 0, y: 0 };
    for frame in 1u32..=30 {
        position = advance(position, Velocity { dx: 1, dy: 0 }, bounds);
        assert_eq!(position.x, frame.min(10));
    }
}

#[test]
fn any_run_of_directions_stays_on_the_display() {
    let bounds = Bounds::for_sprite(240, 160, 32, 32).unwrap();
    let axes = [Axis::Negative, Axis::Neutral, Axis::Positive];
    let mut position = Position { x: 100, y: 0 };
    let mut seed: u32 = 12345;
    for _ in 0..5000 {
        seed = seed.wrapping_mul(1664525).wrapping_add(1013904223);
        let horizontal = axes[((seed >> 16) % 3) as usize];
        let vertical = axes[((seed >> 24) % 3) as usize];
        position = advance(position, velocity_of(horizontal, vertical), bounds);
        assert!(position.x <= 208 && position.y <= 128);
        assert!(bounds.contains(position));
    }
}
