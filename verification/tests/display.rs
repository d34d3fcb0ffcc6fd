use rpaper::display::{calculate_width_height, displays_max_height, displays_max_width, Display};

#[test]
fn bounding_box_of_two_displays() {
    let displays = vec![
        Display::new("HDMI".to_string(), 1920, 1080, 0, 0),
        Display::new("DP".to_string(), 1080, 1920, 1920, 0),
    ];
    assert_eq!(displays_max_width(&displays), 3000);
    assert_eq!(displays_max_height(&displays), 1920);
}

#[test]
fn bounding_box_of_no_display_is_empty() {
    assert_eq!(displays_max_width(&vec![]), 0);
    assert_eq!(displays_max_height(&vec![]), 0);
}

#[test]
fn bounding_box_beyond_u32_is_the_largest_u32() {
    let displays = vec![Display::new("A".to_string(), u32::MAX, u32::MAX, 1, 2)];
    assert_eq!(displays_max_width(&displays), u32::MAX);
    assert_eq!(displays_max_height(&displays), u32::MAX);
}

#[test]
fn wide_image_covers_one_display() {
    assert_eq!(calculate_width_height(3840, 1080, 1920, 1080), (3840, 1080));
}

#[test]
fn scaled_image_keeps_its_proportions() {
    assert_eq!(calculate_width_height(1000, 750, 1920, 1080), (1920, 1440));
    assert_eq!(calculate_width_height(1920, 1080, 1920, 1080), (1920, 1080));
    assert_eq!(calculate_width_height(3, 2, 10, 1), (10, 6));
    assert_eq!(calculate_width_height(2, 3, 1, 10), (6, 10));
}

#[test]
fn image_without_area_stays_without_area() {
    assert_eq!(calculate_width_height(0, 5, 10, 10), (0, 0));
    assert_eq!(calculate_width_height(5, 0, 10, 10), (0, 0));
}

#[test]
fn scaled_side_beyond_u32_is_the_largest_u32() {
    assert_eq!(calculate_width_height(1, u32::MAX, u32::MAX, 1), (u32::MAX, u32::MAX));
}

#[test]
fn display_is_read_from_five_fields() {
    let d = Display::from_str("HDMI-A-1:1920:1080:0:10").unwrap();
    assert_eq!((d.name.as_str(), d.w, d.h, d.x, d.y), ("HDMI-A-1", 1920, 1080, 0, 10));
    let odd = Display::from_str(":x:-1:4294967296:7").unwrap();
    assert_eq!((odd.name.as_str(), odd.w, odd.h, odd.x, odd.y), ("", 0, 0, 0, 7));
}

#[test]
fn display_of_other_than_five_fields_is_an_error() {
    assert_eq!(Display::from_str("HDMI:1920:1080:0").err().unwrap(), "Unable to parse string");
    assert_eq!(Display::from_str("a:1:2:3:4:5").err().unwrap(), "Unable to parse string");
    assert_eq!(Display::from_str("").err().unwrap(), "Unable to parse string");
}
