use hyprland_easyfocus::config::Position;
use hyprland_easyfocus::geometry::{anchor_point, find_in_group, grouped_x, place_indicator};
use hyprland_easyfocus::window::{Address, Window};

fn addr(text: &str) -> Address {
    Address::new(text.to_string())
}

fn window_at(position: (i32, i32), size: (i32, i32), own: &str, group: &[&str]) -> Window {
    Window {
        workspace: 1,
        title: String::from("terminal"),
        grouped: group.iter().map(|a| addr(a)).collect(),
        address: addr(own),
        position,
        size,
        is_current: false,
    }
}

#[test]
fn top_right_anchor_subtracts_the_box_from_the_right_edge() {
    assert_eq!(anchor_point(Position::TopRight, (100, 100), (200, 100), 40), (260, 100));
}

#[test]
fn bottom_right_anchor_subtracts_the_box_on_both_axes() {
    assert_eq!(anchor_point(Position::BottomRight, (100, 100), (200, 100), 40), (260, 160));
}

#[test]
fn center_anchor_halves_window_and_box() {
    assert_eq!(anchor_point(Position::Center, (100, 100), (200, 100), 40), (180, 130));
}

#[test]
fn top_center_anchor_centers_horizontally_only() {
    assert_eq!(anchor_point(Position::TopCenter, (100, 100), (200, 100), 40), (180, 100));
}

#[test]
fn bottom_center_anchor_sits_on_the_bottom_edge() {
    assert_eq!(anchor_point(Position::BottomCenter, (100, 100), (200, 100), 40), (180, 160));
}

#[test]
fn top_left_anchor_is_the_window_origin() {
    assert_eq!(anchor_point(Position::TopLeft, (100, 100), (200, 100), 40), (100, 100));
}

#[test]
fn bottom_left_anchor_sits_on_the_bottom_edge() {
    assert_eq!(anchor_point(Position::BottomLeft, (100, 100), (200, 100), 40), (100, 160));
}

#[test]
fn halves_round_toward_zero_for_odd_sizes() {
    // 75 / 2 = 37 and 25 / 2 = 12
    assert_eq!(anchor_point(Position::Center, (0, 0), (75, 75), 25), (25, 25));
}

#[test]
fn halves_round_toward_zero_for_negative_sizes() {
    // -75 / 2 = -37, not -38
    assert_eq!(anchor_point(Position::Center, (0, 0), (-75, -75), 0), (-37, -37));
    // -25 / 2 = -12, not -13
    assert_eq!(anchor_point(Position::TopCenter, (10, 10), (0, 0), -25), (22, 10));
}

#[test]
fn anchors_do_not_overflow_at_the_limits_of_the_geometry() {
    let max = i32::MAX;
    assert_eq!(
        anchor_point(Position::BottomRight, (max, max), (max, max), i32::MIN),
        (3 * (max as i64) + 1, 3 * (max as i64) + 1)
    );
    assert_eq!(
        anchor_point(Position::TopRight, (i32::MIN, 0), (i32::MIN, 0), max),
        (2 * (i32::MIN as i64) - max as i64, 0)
    );
}

#[test]
fn grouped_top_left_steps_by_slot_width() {
    // three tabs share 300 pixels: slots of 100, the second starts at 200
    assert_eq!(grouped_x(Position::TopLeft, 100, 300, 40, 3, 1), 200);
    assert_eq!(grouped_x(Position::BottomLeft, 100, 300, 40, 3, 2), 300);
}

#[test]
fn grouped_center_sits_in_the_middle_of_the_slot() {
    assert_eq!(grouped_x(Position::TopCenter, 100, 300, 40, 3, 1), 250);
    assert_eq!(grouped_x(Position::Center, 100, 300, 40, 3, 0), 150);
    assert_eq!(grouped_x(Position::BottomCenter, 100, 300, 40, 3, 2), 350);
}

#[test]
fn grouped_right_sits_at_the_right_end_of_the_slot() {
    assert_eq!(grouped_x(Position::TopRight, 100, 300, 40, 3, 1), 260);
    assert_eq!(grouped_x(Position::BottomRight, 100, 300, 40, 3, 0), 160);
}

#[test]
fn slot_width_rounds_toward_zero() {
    // 100 / 3 = 33; 33 / 2 = 16
    assert_eq!(grouped_x(Position::TopLeft, 0, 100, 10, 3, 2), 66);
    assert_eq!(grouped_x(Position::Center, 0, 100, 10, 3, 2), 82);
    // -100 / 3 = -33; -33 / 2 = -16
    assert_eq!(grouped_x(Position::TopLeft, 0, -100, 10, 3, 2), -66);
    assert_eq!(grouped_x(Position::Center, 0, -100, 10, 3, 2), -82);
}

#[test]
fn a_group_larger_than_the_width_has_slots_of_no_width() {
    assert_eq!(grouped_x(Position::TopLeft, 7, 3, 40, 5, 4), 7);
    assert_eq!(grouped_x(Position::TopRight, 7, 3, 40, usize::MAX, usize::MAX - 1), -33);
}

#[test]
fn find_in_group_returns_the_first_match() {
    let group = vec![addr("0xa"), addr("0xb"), addr("0xa")];
    assert_eq!(find_in_group(&group, &addr("0xa")), Some(0));
    assert_eq!(find_in_group(&group, &addr("0xb")), Some(1));
    assert_eq!(find_in_group(&group, &addr("0xc")), None);
    assert_eq!(find_in_group(&Vec::new(), &addr("0xa")), None);
}

#[test]
fn ungrouped_window_is_placed_by_its_anchor() {
    let win = window_at((100, 100), (200, 100), "0xa", &["0xa"]);
    assert_eq!(place_indicator(&win, Position::TopRight, 40), (260, 100));
    let alone = window_at((100, 100), (200, 100), "0xa", &[]);
    assert_eq!(place_indicator(&alone, Position::Center, 40), (180, 130));
}

#[test]
fn grouped_window_keeps_the_vertical_place_of_its_anchor() {
    let win = window_at((100, 50), (300, 200), "0xb", &["0xa", "0xb", "0xc"]);
    assert_eq!(place_indicator(&win, Position::TopLeft, 40), (200, 50));
    assert_eq!(place_indicator(&win, Position::BottomRight, 40), (260, 210));
    assert_eq!(place_indicator(&win, Position::Center, 40), (250, 130));
    assert_eq!(place_indicator(&win, Position::BottomCenter, 40), (250, 210));
}

#[test]
fn window_missing_from_its_own_group_is_placed_as_ungrouped() {
    let win = window_at((100, 100), (200, 100), "0xz", &["0xa", "0xb"]);
    assert_eq!(place_indicator(&win, Position::TopRight, 40), (260, 100));
    assert_eq!(place_indicator(&win, Position::TopLeft, 40), (100, 100));
}

#[test]
fn a_box_that_fits_lies_inside_its_window() {
    let anchors = [
        Position::TopCenter,
        Position::BottomCenter,
        Position::TopLeft,
        Position::BottomLeft,
        Position::TopRight,
        Position::BottomRight,
        Position::Center,
    ];
    for anchor in anchors {
        for (w, h, b) in [(200, 100, 40), (41, 41, 41), (7, 9, 0), (101, 55, 54)] {
            let (x, y) = anchor_point(anchor, (-30, 12), (w, h), b);
            assert!(-30 <= x && x + b as i64 <= -30 + w as i64);
            assert!(12 <= y && y + b as i64 <= 12 + h as i64);
        }
    }
}

#[test]
fn neighbouring_tabs_stand_one_slot_apart() {
    for anchor in [Position::TopLeft, Position::Center, Position::BottomRight] {
        for index in 0..4 {
            let here = grouped_x(anchor, 10, 503, 40, 5, index);
            let next = grouped_x(anchor, 10, 503, 40, 5, index + 1);
            assert_eq!(next - here, 100);
        }
    }
}
