use rpaper::colors::RGB;
use rpaper::palette::{
    add_missing_colors, cached_palette, get_palette, merge_rgb, order_palette, palette_lines,
    palette_text, prepare_colors, Centroid, UNIT,
};
use rpaper::rwal_params::OrderBy;

fn centroid(hue: u32, saturation: u32, value: u32, r: u8, g: u8, b: u8) -> Centroid {
    Centroid { hue: hue * UNIT, saturation: saturation * UNIT, value: value * UNIT, color: RGB::new(r, g, b) }
}

fn reds(p: &Vec<Centroid>) -> Vec<u8> {
    p.iter().map(|c| c.color.r).collect()
}

fn six() -> Vec<Centroid> {
    vec![
        centroid(10, 50, 60, 1, 0, 0),
        centroid(125, 40, 70, 2, 0, 0),
        centroid(55, 30, 80, 3, 0, 0),
        centroid(235, 20, 90, 4, 0, 0),
        centroid(305, 10, 50, 5, 0, 0),
        centroid(175, 60, 40, 6, 0, 0),
    ]
}

#[test]
fn palette_has_sixteen_entries_of_seven_characters() {
    for order in [OrderBy::Hue, OrderBy::Saturation, OrderBy::Brightness, OrderBy::Semantic] {
        for n in 0..8 {
            let centroids: Vec<Centroid> = six().into_iter().cycle().take(n).collect();
            let palette = get_palette(centroids, 4, order);
            assert_eq!(palette.len(), 16);
            for entry in &palette {
                assert_eq!(entry.len(), 7);
                assert!(entry.starts_with('#'));
                assert!(entry[1..].chars().all(|c| c.is_ascii_digit() || ('A'..='F').contains(&c)));
            }
            assert_eq!(palette[0..8], palette[8..16]);
        }
    }
}

#[test]
fn palette_of_three_colours_by_hue() {
    let centroids = vec![
        centroid(300, 0, 0, 1, 2, 3),
        centroid(10, 0, 0, 200, 100, 50),
        centroid(200, 0, 0, 9, 9, 9),
    ];
    let palette = get_palette(centroids, 4, OrderBy::Hue);
    let eight =
        vec!["#010101", "#FFFFFF", "#FFFFFF", "#FFFFFF", "#C86432", "#090909", "#010203", "#CDCDCD"];
    assert_eq!(palette[0..8], eight[..]);
    assert_eq!(palette[8..16], eight[..]);
}

#[test]
fn missing_colours_are_white() {
    let padded = add_missing_colors(vec![centroid(10, 1, 2, 7, 7, 7)]);
    assert_eq!(padded.len(), 6);
    assert_eq!(reds(&padded), vec![7, 255, 255, 255, 255, 255]);
    assert_eq!((padded[5].hue, padded[5].saturation, padded[5].value), (0, 0, 100 * UNIT));
    assert_eq!(add_missing_colors(six()).len(), 6);
    assert_eq!(add_missing_colors(six().into_iter().cycle().take(7).collect()).len(), 7);
}

#[test]
fn order_by_a_channel_is_ascending_and_stable() {
    assert_eq!(reds(&order_palette(six(), OrderBy::Hue)), vec![1, 3, 2, 6, 4, 5]);
    assert_eq!(reds(&order_palette(six(), OrderBy::Saturation)), vec![5, 4, 3, 2, 1, 6]);
    assert_eq!(reds(&order_palette(six(), OrderBy::Brightness)), vec![6, 5, 1, 2, 3, 4]);
    let ties = vec![
        centroid(5, 0, 0, 1, 0, 0),
        centroid(1, 0, 0, 2, 0, 0),
        centroid(5, 0, 0, 3, 0, 0),
        centroid(1, 0, 0, 4, 0, 0),
    ];
    assert_eq!(reds(&order_palette(ties, OrderBy::Hue)), vec![2, 4, 1, 3]);
}

#[test]
fn hues_of_a_palette_by_hue_never_fall() {
    let ordered = order_palette(add_missing_colors(six()), OrderBy::Hue);
    for pair in ordered.windows(2) {
        assert!(pair[0].hue <= pair[1].hue);
    }
}

#[test]
fn semantic_order_takes_the_closest_remaining_hue() {
    // Targets 360, 120, 60, 240, 300, 180 against hues 10, 125, 55, 235, 305, 175: on the
    // circle of hues 10 is ten degrees from 360, and 305 fifty-five.
    let ordered = order_palette(six(), OrderBy::Semantic);
    let hues: Vec<u32> = ordered.iter().map(|c| c.hue / UNIT).collect();
    assert_eq!(hues, vec![10, 125, 55, 235, 305, 175]);
}

#[test]
fn semantic_order_takes_the_first_of_equally_close_hues() {
    let p = vec![
        centroid(350, 0, 0, 1, 0, 0),
        centroid(10, 0, 0, 2, 0, 0),
        centroid(110, 0, 0, 3, 0, 0),
        centroid(130, 0, 0, 4, 0, 0),
        centroid(0, 0, 0, 5, 0, 0),
        centroid(0, 0, 0, 6, 0, 0),
    ];
    // 360: hue 0 is closest, the first of the two; 120: 110 and 130 are as close, 110 is
    // first; 60: 10 (50 apart); 240: 350 and 130 are as close, 350 is first; 300: the other
    // 0 (60 apart) before 130; 180: 130.
    assert_eq!(reds(&order_palette(p, OrderBy::Semantic)), vec![5, 3, 2, 1, 6, 4]);
}

#[test]
fn hue_distance_goes_round_the_circle() {
    let p = vec![centroid(359, 0, 0, 1, 0, 0), centroid(100, 0, 0, 2, 0, 0), centroid(1, 0, 0, 3, 0, 0)];
    // 360: 359 (1) then 120: 100 (20) then 60: 1 (59, against 359 used) ...
    assert_eq!(reds(&order_palette(p, OrderBy::Semantic))[0..3], [1, 2, 3]);
}

#[test]
fn semantic_order_of_few_colours_repeats_the_first() {
    let p = vec![centroid(100, 0, 0, 1, 0, 0), centroid(200, 0, 0, 2, 0, 0)];
    // 360: 100 is 100 apart, 200 is 160 apart
    assert_eq!(reds(&order_palette(p, OrderBy::Semantic)), vec![1, 2, 1, 1, 1, 1]);
    assert_eq!(order_palette(vec![], OrderBy::Semantic).len(), 0);
}

#[test]
fn accent_is_blended_into_black_and_white() {
    let black = RGB::new(0, 0, 0);
    let white = RGB::new(255, 255, 255);
    let accent = RGB::new(200, 100, 4);
    let bg = merge_rgb(&black, &accent);
    let fg = merge_rgb(&white, &accent);
    assert_eq!((bg.r, bg.g, bg.b), (40, 20, 0));
    assert_eq!((fg.r, fg.g, fg.b), (244, 224, 204));
}

#[test]
fn accent_index_above_five_is_five() {
    let p = six();
    let with_five = prepare_colors(six(), 5);
    let with_more = prepare_colors(p, 4_000_000_000);
    assert_eq!(with_five, with_more);
    // accent is the sixth colour, (6, 0, 0): 6 / 5 = 1 and (1020 + 6) / 5 = 205
    assert_eq!(with_five[0], "#010000");
    assert_eq!(with_five[7], "#CDCCCC");
    assert_eq!(with_five[1..7], ["#010000", "#020000", "#030000", "#040000", "#050000", "#060000"]);
    assert_eq!(prepare_colors(six(), 0)[0], "#000000");
    assert_eq!(prepare_colors(six(), 0)[7], "#CCCCCC");
}

#[test]
fn palette_file_holds_an_entry_a_line() {
    let palette = vec!["#000000".to_string(), "#FFFFFF".to_string()];
    let text = palette_text(&palette);
    assert_eq!(text, "#000000\n#FFFFFF");
    assert_eq!(palette_lines(&text), palette);
    assert_eq!(palette_lines("#000000\r\n#FFFFFF\n"), palette);
    assert_eq!(palette_lines(""), Vec::<String>::new());
}

#[test]
fn cache_file_is_read_where_there_is_one() {
    assert_eq!(cached_palette(Some("#000000\n#FFFFFF\n")), Some(vec!["#000000".to_string(), "#FFFFFF".to_string()]));
    assert_eq!(cached_palette(Some("")), Some(vec![]));
    assert_eq!(cached_palette(None), None);
}
