use rpaper::config::Config;
use rpaper::decimal::Decimal;
use rpaper::display::{calculate_width_height, Display};
use rpaper::image_ops::{resize_algorithm, ImageOperations, ImageStep, ResizeAlgorithm};
use rpaper::rwal_params::OrderBy;
use rpaper::wallpaper::{must_render, plan_wallpaper, wallpaper_commands};

fn config() -> Config {
    let mut c = Config::new();
    c.displays = Some(vec![
        Display::new("HDMI".to_string(), 1920, 1080, 0, 0),
        Display::new("DP".to_string(), 1080, 1920, 1920, 0),
    ]);
    c.image_operations = Some(ImageOperations::identity());
    c.resize_algorithm = Some("Lanczos3".to_string());
    c.set_command = Some("swaybg -o {display} -i {image} # {default_image}".to_string());
    c
}

#[test]
fn one_display_gets_its_part_of_the_scaled_image() {
    let mut c = config();
    c.displays = Some(vec![Display::new("HDMI".to_string(), 1920, 1080, 0, 0)]);
    let plan = plan_wallpaper(&c, "/tmp/x.png", "/w").unwrap();
    assert_eq!((plan.width, plan.height), (1920, 1080));
    assert_eq!(calculate_width_height(3840, 1080, plan.width, plan.height), (3840, 1080));
    assert_eq!(plan.crops.len(), 1);
    let crop = &plan.crops[0];
    assert_eq!((crop.x, crop.y, crop.w, crop.h), (0, 0, 1920, 1080));
    assert_eq!(crop.path, "/w/78e0d234afe96f0233b14409380f73fb655a87900c9400dcdaf2114b6d3cd557.png");
    assert_eq!(plan.filter, ResizeAlgorithm::Lanczos3);
    assert!(plan.steps.is_empty());
}

#[test]
fn every_display_gets_a_part() {
    let plan = plan_wallpaper(&config(), "/tmp/x.png", "/w").unwrap();
    assert_eq!((plan.width, plan.height), (3000, 1920));
    assert_eq!(plan.crops.len(), 2);
    assert_eq!((plan.crops[1].x, plan.crops[1].y, plan.crops[1].w, plan.crops[1].h), (1920, 0, 1080, 1920));
    assert_ne!(plan.crops[0].path, plan.crops[1].path);
}

#[test]
fn rendering_needs_displays_operations_and_filter() {
    for missing in 0..3 {
        let mut c = config();
        match missing {
            0 => c.displays = None,
            1 => c.image_operations = None,
            _ => c.resize_algorithm = None,
        }
        assert!(plan_wallpaper(&c, "/tmp/x.png", "/w").is_none());
    }
    let mut c = config();
    c.set_command = None;
    assert!(plan_wallpaper(&c, "/tmp/x.png", "/w").is_some());
    assert!(wallpaper_commands(&c, "/tmp/x.png", "/w", "/home/me").is_none());
}

#[test]
fn each_display_gets_its_command() {
    let commands = wallpaper_commands(&config(), "/p/x.png", "~/.cache/w", "/home/me").unwrap();
    assert_eq!(commands.len(), 2);
    assert_eq!(
        commands[0],
        "swaybg -o HDMI -i /home/me/.cache/w/78e0d234afe96f0233b14409380f73fb655a87900c9400dcdaf2114b6d3cd557.png # /p/x.png"
    );
    assert!(commands[1].starts_with("swaybg -o DP -i /home/me/.cache/w/"));
    assert!(commands[1].ends_with(".png # /p/x.png"));
}

#[test]
fn operations_are_applied_in_their_order() {
    let d = |s: &str| Decimal::parse(s).unwrap();
    let all = ImageOperations::new(d("1.5"), -3, 90, d("2"), true, true, true);
    let names: Vec<String> = all
        .steps()
        .iter()
        .map(|s| match s {
            ImageStep::Contrast(c) => format!("contrast {}", c.text),
            ImageStep::Brighten(b) => format!("brighten {}", b),
            ImageStep::HueRotate(h) => format!("hue {}", h),
            ImageStep::Blur(b) => format!("blur {}", b.text),
            ImageStep::FlipHorizontal => "fliph".to_string(),
            ImageStep::FlipVertical => "flipv".to_string(),
            ImageStep::Invert => "invert".to_string(),
        })
        .collect();
    assert_eq!(names, vec!["contrast 1.5", "brighten -3", "hue 90", "blur 2", "fliph", "flipv", "invert"]);
    let some = ImageOperations::new(d("-0"), 0, 1, d("0.0"), true, false, false);
    assert_eq!(some.steps().len(), 2);
    assert!(ImageOperations::identity().steps().is_empty());
}

#[test]
fn filter_is_named_by_its_tag() {
    assert_eq!(resize_algorithm("Nearest"), ResizeAlgorithm::Nearest);
    assert_eq!(resize_algorithm("CatmullRom"), ResizeAlgorithm::CatmullRom);
    assert_eq!(resize_algorithm("Gaussian"), ResizeAlgorithm::Gaussian);
    assert_eq!(resize_algorithm("Lanczos3"), ResizeAlgorithm::Lanczos3);
    assert_eq!(resize_algorithm("Triangle"), ResizeAlgorithm::Triangle);
    assert_eq!(resize_algorithm("nearest"), ResizeAlgorithm::Triangle);
    assert_eq!(resize_algorithm(""), ResizeAlgorithm::Triangle);
}

#[test]
fn order_is_named_by_its_tag() {
    for (tag, order) in [
        ("h", OrderBy::Hue), ("H", OrderBy::Hue), ("hue", OrderBy::Hue),
        ("s", OrderBy::Saturation), ("S", OrderBy::Saturation), ("saturation", OrderBy::Saturation),
        ("v", OrderBy::Brightness), ("b", OrderBy::Brightness), ("V", OrderBy::Brightness),
        ("B", OrderBy::Brightness), ("brightness", OrderBy::Brightness),
        ("sem", OrderBy::Semantic), ("semantic", OrderBy::Semantic),
    ] {
        assert_eq!(OrderBy::from_str(tag), Ok(order), "{}", tag);
    }
    assert_eq!(OrderBy::from_str("Hue"), Err(String::new()));
    assert_eq!(OrderBy::from_str(""), Err(String::new()));
    assert_eq!(OrderBy::from_config("hue"), OrderBy::Hue);
    assert_eq!(OrderBy::from_config("saturation"), OrderBy::Hue);
    assert_eq!(OrderBy::from_config("S"), OrderBy::Saturation);
    assert_eq!(OrderBy::from_config("b"), OrderBy::Brightness);
    assert_eq!(OrderBy::from_config("semantic"), OrderBy::Semantic);
    assert_eq!(
        [OrderBy::Hue.tag(), OrderBy::Saturation.tag(), OrderBy::Brightness.tag(), OrderBy::Semantic.tag()],
        ["H", "S", "V", "sem"]
    );
}

#[test]
fn wallpapers_are_rendered_where_a_file_is_missing() {
    assert!(!must_render(&vec![]));
    assert!(!must_render(&vec![true, true]));
    assert!(must_render(&vec![true, false, true]));
    assert!(must_render(&vec![false]));
}
