use connect_four::index_range::{Horizontal, IndexRange, Vertical};

#[test]
fn cursor_moves_inside_the_axis() {
    let mut range = IndexRange::new(7, false, 3);
    assert!(range.move_cursor(2, Horizontal::Right));
    assert_eq!(range.as_usize(), 5);
    assert!(range.move_cursor(5, Horizontal::Left));
    assert_eq!(range.as_usize(), 0);
}

#[test]
fn new_cursor_stands_where_it_was_put() {
    assert_eq!(IndexRange::new(9, true, 8).as_usize(), 8);
    assert_eq!(IndexRange::new(1, false, 0).as_usize(), 0);
}

#[test]
fn zero_distance_moves_nowhere() {
    for cyclic in [false, true] {
        for side in [Horizontal::Left, Horizontal::Right] {
            let mut range = IndexRange::new(4, cyclic, 3);
            assert!(range.move_cursor(0, side));
            assert_eq!(range.as_usize(), 3);
        }
    }
}

#[test]
fn line_blocks_at_its_right_end() {
    let mut range = IndexRange::new(4, false, 3);
    assert!(!range.move_cursor(1, Horizontal::Right));
    assert_eq!(range.as_usize(), 3);
    let mut range = IndexRange::new(4, false, 1);
    assert!(range.move_cursor(2, Horizontal::Right));
    assert_eq!(range.as_usize(), 3);
    let mut range = IndexRange::new(4, false, 1);
    assert!(!range.move_cursor(3, Horizontal::Right));
    assert_eq!(range.as_usize(), 1);
}

#[test]
fn line_blocks_at_its_left_end() {
    let mut range = IndexRange::new(4, false, 0);
    assert!(!range.move_cursor(1, Horizontal::Left));
    assert_eq!(range.as_usize(), 0);
    let mut range = IndexRange::new(4, false, 2);
    assert!(range.move_cursor(2, Horizontal::Left));
    assert_eq!(range.as_usize(), 0);
    let mut range = IndexRange::new(4, false, 2);
    assert!(!range.move_cursor(3, Horizontal::Left));
    assert_eq!(range.as_usize(), 2);
}

#[test]
fn line_is_blocked_exactly_when_the_target_is_outside() {
    for size in 1u16..=6 {
        for position in 0..size {
            for distance in 0u16..=13 {
                let reduced = (distance % size) as i32;
                let mut left = IndexRange::new(size, false, position);
                let target = position as i32 - reduced;
                assert_eq!(left.move_cursor(distance, Horizontal::Left), target >= 0);
                let expected = if target >= 0 { target } else { position as i32 };
                assert_eq!(left.as_usize(), expected as usize);
                let mut right = IndexRange::new(size, false, position);
                let target = position as i32 + reduced;
                assert_eq!(right.move_cursor(distance, Horizontal::Right), target < size as i32);
                let expected = if target < size as i32 { target } else { position as i32 };
                assert_eq!(right.as_usize(), expected as usize);
            }
        }
    }
}

#[test]
fn ring_wraps_to_the_right() {
    let mut range = IndexRange::new(5, true, 4);
    assert!(range.move_cursor(1, Horizontal::Right));
    assert_eq!(range.as_usize(), 0);
    let mut range = IndexRange::new(5, true, 3);
    assert!(range.move_cursor(4, Horizontal::Right));
    assert_eq!(range.as_usize(), 2);
}

#[test]
fn ring_wraps_to_the_left() {
    let mut range = IndexRange::new(5, true, 0);
    assert!(range.move_cursor(1, Horizontal::Left));
    assert_eq!(range.as_usize(), 4);
    let mut range = IndexRange::new(5, true, 1);
    assert!(range.move_cursor(3, Horizontal::Left));
    assert_eq!(range.as_usize(), 3);
}

#[test]
fn ring_lands_on_the_target_modulo_its_size() {
    for size in 1u16..=6 {
        for position in 0..size {
            for distance in 0u16..=13 {
                let mut left = IndexRange::new(size, true, position);
                assert!(left.move_cursor(distance, Horizontal::Left));
                let target = (position as i32 - (distance % size) as i32).rem_euclid(size as i32);
                assert_eq!(left.as_usize(), target as usize);
                let mut right = IndexRange::new(size, true, position);
                assert!(right.move_cursor(distance, Horizontal::Right));
                let target = (position as i32 + (distance % size) as i32).rem_euclid(size as i32);
                assert_eq!(right.as_usize(), target as usize);
            }
        }
    }
}

#[test]
fn distance_is_reduced_modulo_the_size() {
    let mut range = IndexRange::new(4, false, 1);
    assert!(range.move_cursor(9, Horizontal::Right));
    assert_eq!(range.as_usize(), 2);
    let mut range = IndexRange::new(4, false, 1);
    assert!(range.move_cursor(4, Horizontal::Left));
    assert_eq!(range.as_usize(), 1);
    let mut range = IndexRange::new(3, true, 2);
    assert!(range.move_cursor(u16::MAX, Horizontal::Right));
    assert_eq!(range.as_usize(), 2);
}

#[test]
fn full_turn_to_the_right_comes_back() {
    for size in 1u16..=9 {
        for start in 0..size {
            let mut range = IndexRange::new(size, true, start);
            for _ in 0..size {
                assert!(range.move_cursor(1, Horizontal::Right));
                assert!(range.as_usize() < size as usize);
            }
            assert_eq!(range.as_usize(), start as usize);
        }
    }
}

#[test]
fn ring_of_the_largest_size_wraps() {
    let mut range = IndexRange::new(u16::MAX, true, u16::MAX - 1);
    assert!(range.move_cursor(1, Horizontal::Right));
    assert_eq!(range.as_usize(), 0);
    assert!(range.move_cursor(2, Horizontal::Left));
    assert_eq!(range.as_usize(), u16::MAX as usize - 2);
}

#[test]
fn cursor_is_copied_not_shared() {
    let range = IndexRange::new(5, false, 2);
    let mut copy = range;
    assert!(copy.move_cursor(1, Horizontal::Left));
    assert_eq!(range.as_usize(), 2);
    assert_eq!(copy.as_usize(), 1);
    let up = Vertical::Up;
    let same = up;
    assert!(matches!(up, Vertical::Up) && matches!(same, Vertical::Up));
}
