use rpaper::decimal::Decimal;
use rpaper::display::Display;
use rpaper::fingerprint::{
    cache_paths_for_displays, encode_string, get_cached_image_names, get_cached_image_paths,
    get_file_extension, get_image_name, palette_cache_path, wallpaper_cache_path,
};
use rpaper::image_ops::ImageOperations;
use rpaper::rwal_params::{OrderBy, RwalParams};

fn default_rwal() -> RwalParams {
    RwalParams::new(
        (200, 200),
        (Decimal::parse("140").unwrap(), Decimal::parse("170").unwrap()),
        4,
        7,
        OrderBy::Hue,
    )
}

fn hdmi() -> Display {
    Display::new("HDMI".to_string(), 1920, 1080, 0, 0)
}

#[test]
fn fingerprint_is_the_sha256_of_the_text_in_hex() {
    assert_eq!(
        encode_string("abc"),
        "ba7816bf8f01cfea414140de5dae2223b00361a396177a9cb410ff61f20015ad"
    );
    assert_eq!(
        encode_string(""),
        "e3b0c44298fc1c149afbf4c8996fb92427ae41e4649b934ca495991b7852b855"
    );
}

#[test]
fn image_name_is_what_follows_the_last_slash() {
    assert_eq!(get_image_name("/tmp/dir/x.png"), "x.png");
    assert_eq!(get_image_name("x.png"), "x.png");
    assert_eq!(get_image_name("/tmp/dir/"), "");
    assert_eq!(get_image_name(""), "");
}

#[test]
fn extension_is_what_follows_the_last_dot() {
    assert_eq!(get_file_extension("x.tar.png"), "png");
    assert_eq!(get_file_extension("x"), "");
    assert_eq!(get_file_extension(".hidden"), "");
    assert_eq!(get_file_extension("x."), "");
}

#[test]
fn wallpaper_cache_name_is_the_fingerprint_of_the_key_with_the_extension() {
    // key: 5:x.png 4:HDMI 4:1920 4:1080 1:0 1:0 1:0 1:0 1:0 1:0 5:false 5:false 5:false,
    // with nothing between the fields
    let names = get_cached_image_names(&vec![hdmi()], &ImageOperations::identity(), "/tmp/x.png");
    assert_eq!(
        names,
        vec!["78e0d234afe96f0233b14409380f73fb655a87900c9400dcdaf2114b6d3cd557.png"]
    );
}

#[test]
fn wallpaper_key_holds_every_field() {
    // key: 5:x.png 2:DP 4:1080 4:1920 4:1920 1:0 3:1.5 2:-3 2:90 1:2 4:true 5:false 4:true
    let ops = ImageOperations::new(
        Decimal::parse("1.5").unwrap(),
        -3,
        90,
        Decimal::parse("2").unwrap(),
        true,
        false,
        true,
    );
    let d = Display::new("DP".to_string(), 1080, 1920, 1920, 0);
    assert_eq!(
        wallpaper_cache_path(&d, &ops, "~/pics/x.png", "/cache/wallpapers"),
        "/cache/wallpapers/9e055c1a44dd477bd5c92d43b9b96451d318b091a13705ea63a291feec8f459f.png"
    );
}

#[test]
fn palette_cache_path_has_no_extension() {
    // key: 5:x.png 1:0 1:0 1:0 5:false 1:H 1:4 3:140 3:170 3:200 3:200 1:7
    assert_eq!(
        palette_cache_path(&ImageOperations::identity(), &default_rwal(), "/tmp/x.png", "/c/rwal"),
        "/c/rwal/5296d7ff62b19d8291b5b5910b39ded7124771439286510fbb2569d52c446c48"
    );
}

#[test]
fn cache_paths_keep_the_order_of_the_displays() {
    let displays = vec![hdmi(), Display::new("DP".to_string(), 1080, 1920, 1920, 0)];
    let ops = ImageOperations::identity();
    let paths = cache_paths_for_displays(&displays, &ops, "/tmp/x.png", "/w");
    assert_eq!(paths.len(), 2);
    assert_eq!(paths[0], wallpaper_cache_path(&displays[0], &ops, "/tmp/x.png", "/w"));
    assert_eq!(paths[1], wallpaper_cache_path(&displays[1], &ops, "/tmp/x.png", "/w"));
    assert_eq!(
        get_cached_image_paths(&vec!["a.png".to_string(), "b".to_string()], "/w"),
        vec!["/w/a.png", "/w/b"]
    );
    assert_eq!(cache_paths_for_displays(&vec![], &ops, "/tmp/x.png", "/w"), Vec::<String>::new());
}

#[test]
fn cache_paths_derived_twice_are_identical() {
    let ops = ImageOperations::identity();
    let first = wallpaper_cache_path(&hdmi(), &ops, "/tmp/x.png", "/w");
    let second = wallpaper_cache_path(&hdmi(), &ops, "/tmp/x.png", "/w");
    assert_eq!(first, second);
    let elsewhere = wallpaper_cache_path(&hdmi(), &ops, "/home/me/x.png", "/w");
    assert_eq!(first, elsewhere);
    assert_eq!(
        palette_cache_path(&ops, &default_rwal(), "/tmp/x.png", "/c"),
        palette_cache_path(&ops, &default_rwal(), "/other/x.png", "/c")
    );
}

#[test]
fn a_changed_field_changes_the_cache_path() {
    let ops = ImageOperations::identity();
    let base = wallpaper_cache_path(&hdmi(), &ops, "/tmp/x.png", "/w");
    let mut wider = hdmi();
    wider.w = 1921;
    assert_ne!(base, wallpaper_cache_path(&wider, &ops, "/tmp/x.png", "/w"));
    let mut flipped = ImageOperations::identity();
    flipped.flip_v = true;
    assert_ne!(base, wallpaper_cache_path(&hdmi(), &flipped, "/tmp/x.png", "/w"));
    assert_ne!(base, wallpaper_cache_path(&hdmi(), &ops, "/tmp/y.png", "/w"));
    let mut rwal = default_rwal();
    let palette = palette_cache_path(&ops, &rwal, "/tmp/x.png", "/c");
    rwal.order = OrderBy::Semantic;
    assert_ne!(palette, palette_cache_path(&ops, &rwal, "/tmp/x.png", "/c"));
}

#[test]
fn fields_that_would_run_together_have_different_keys() {
    let ops = ImageOperations::identity();
    let a = get_cached_image_names(&vec![Display::new("A1".to_string(), 920, 1080, 0, 0)], &ops, "/tmp/x.png");
    let b = get_cached_image_names(&vec![Display::new("A".to_string(), 1920, 1080, 0, 0)], &ops, "/tmp/x.png");
    assert_ne!(a[0], b[0]);
    let c = Display::new("D".to_string(), 19, 20, 0, 0);
    let d = Display::new("D".to_string(), 1, 920, 0, 0);
    assert_ne!(
        wallpaper_cache_path(&c, &ops, "/tmp/x.png", "/w"),
        wallpaper_cache_path(&d, &ops, "/tmp/x.png", "/w")
    );
    let mut brighter = ImageOperations::identity();
    brighter.brightness = 10;
    assert_ne!(
        palette_cache_path(&ops, &default_rwal(), "/tmp/a1", "/c"),
        palette_cache_path(&brighter, &default_rwal(), "/tmp/a", "/c")
    );
}

#[test]
fn cache_name_has_sixty_four_digits() {
    let name = encode_string("anything");
    assert_eq!(name.len(), 64);
    assert!(name.chars().all(|c| c.is_ascii_digit() || ('a'..='f').contains(&c)));
}

#[test]
fn decimals_of_one_value_give_one_key() {
    let mut by_hand = ImageOperations::identity();
    by_hand.contrast = Decimal { text: "0.0".to_string() };
    by_hand.blur = Decimal { text: "+00".to_string() };
    assert_eq!(
        wallpaper_cache_path(&hdmi(), &by_hand, "/tmp/x.png", "/w"),
        wallpaper_cache_path(&hdmi(), &ImageOperations::identity(), "/tmp/x.png", "/w")
    );
    assert!(by_hand.steps().is_empty());
    let mut rwal = default_rwal();
    rwal.clamp_range.0 = Decimal { text: "140.0".to_string() };
    assert_eq!(
        palette_cache_path(&by_hand, &rwal, "/tmp/x.png", "/c"),
        palette_cache_path(&ImageOperations::identity(), &default_rwal(), "/tmp/x.png", "/c")
    );
}
