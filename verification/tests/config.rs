use rpaper::config::{
    clamp_range_from_str, collect_config_from_request, get_range_from_str, thumb_range_from_str,
    Config,
};
use rpaper::decimal::Decimal;
use rpaper::display::Display;
use rpaper::image_ops::ImageOperations;
use rpaper::json::{Json, JsonNumber};
use rpaper::request::Request;
use rpaper::rwal_params::{OrderBy, RwalParams};

fn dec(s: &str) -> Decimal {
    Decimal::parse(s).unwrap()
}

fn args(v: &[&str]) -> Vec<String> {
    v.iter().map(|s| s.to_string()).collect()
}

fn live() -> Config {
    let mut c = Config::new();
    c.displays = Some(vec![Display::new("HDMI".to_string(), 1920, 1080, 0, 0)]);
    c.templates = Some(vec!["/t/a".to_string()]);
    c.set_command = Some("swaybg -i {image}".to_string());
    c.resize_algorithm = Some("Lanczos3".to_string());
    c.last_call_file = Some("/tmp/last".to_string());
    c.rwal_params = Some(RwalParams::new((200, 200), (dec("140"), dec("170")), 4, 7, OrderBy::Hue));
    c.image_operations = Some(ImageOperations::identity());
    c
}

#[test]
fn request_without_overrides_leaves_the_configuration() {
    let merged = collect_config_from_request(live(), &Request::from_args(args(&["-I", "/x.png"])));
    assert_eq!(merged.displays.unwrap()[0].name, "HDMI");
    assert_eq!(merged.templates.unwrap(), vec!["/t/a"]);
    assert_eq!(merged.set_command.unwrap(), "swaybg -i {image}");
    assert_eq!(merged.resize_algorithm.unwrap(), "Lanczos3");
    assert_eq!(merged.last_call_file.unwrap(), "/tmp/last");
    let rwal = merged.rwal_params.unwrap();
    assert_eq!(rwal.thumb_range, (200, 200));
    assert_eq!((rwal.clamp_range.0.text.as_str(), rwal.clamp_range.1.text.as_str()), ("140", "170"));
    assert_eq!((rwal.accent_color, rwal.colors, rwal.order), (4, 7, OrderBy::Hue));
    let ops = merged.image_operations.unwrap();
    assert_eq!((ops.contrast.text.as_str(), ops.brightness, ops.hue, ops.blur.text.as_str()), ("0", 0, 0, "0"));
    assert_eq!((ops.invert, ops.flip_h, ops.flip_v), (false, false, false));
}

#[test]
fn request_overrides_field_by_field() {
    let request = Request::from_args(args(&[
        "--displays", "DP:1:2:3:4", "--templates", "/t/b;/t/c", "--set-command", "feh {image}",
        "--resize-alg", "Nearest", "--thumb", "64X32", "--clamp", "100.0X200.50", "--accent", "2",
        "--order", "sem", "--contrast", "1.50", "--brightness", "-5", "--hue", "90", "--blur", "2",
        "--invert", "--flipv",
    ]));
    let merged = collect_config_from_request(live(), &request);
    let displays = merged.displays.unwrap();
    assert_eq!((displays.len(), displays[0].name.as_str(), displays[0].y), (1, "DP", 4));
    assert_eq!(merged.templates.unwrap(), vec!["/t/b", "/t/c"]);
    assert_eq!(merged.set_command.unwrap(), "feh {image}");
    assert_eq!(merged.resize_algorithm.unwrap(), "Nearest");
    assert_eq!(merged.last_call_file.unwrap(), "/tmp/last");
    let rwal = merged.rwal_params.unwrap();
    assert_eq!(rwal.thumb_range, (64, 32));
    assert_eq!((rwal.clamp_range.0.text.as_str(), rwal.clamp_range.1.text.as_str()), ("100", "200.5"));
    assert_eq!((rwal.accent_color, rwal.colors, rwal.order), (2, 7, OrderBy::Semantic));
    let ops = merged.image_operations.unwrap();
    assert_eq!((ops.contrast.text.as_str(), ops.brightness, ops.hue, ops.blur.text.as_str()), ("1.5", -5, 90, "2"));
    assert_eq!((ops.invert, ops.flip_h, ops.flip_v), (true, false, true));
}

#[test]
fn overrides_that_cannot_be_read_change_nothing_but_the_order() {
    let request = Request::from_args(args(&["--thumb", "64x32", "--clamp", "1X2X3", "--order", "rainbow"]));
    let rwal = collect_config_from_request(live(), &request).rwal_params.unwrap();
    assert_eq!(rwal.thumb_range, (200, 200));
    assert_eq!((rwal.clamp_range.0.text.as_str(), rwal.clamp_range.1.text.as_str()), ("140", "170"));
    assert_eq!(rwal.order, OrderBy::Hue);
    let mut by_value = live();
    by_value.rwal_params.as_mut().unwrap().order = OrderBy::Brightness;
    let rwal = collect_config_from_request(by_value, &request).rwal_params.unwrap();
    assert_eq!(rwal.order, OrderBy::Hue);
}

#[test]
fn absent_parts_are_not_made_up() {
    let request = Request::from_args(args(&["--contrast", "2", "--accent", "1", "--displays", "DP:1:2:3:4"]));
    let merged = collect_config_from_request(Config::new(), &request);
    assert!(merged.rwal_params.is_none());
    assert!(merged.image_operations.is_none());
    assert!(merged.templates.is_none());
    assert_eq!(merged.displays.unwrap().len(), 1);
}

#[test]
fn range_has_exactly_one_x() {
    let halves = get_range_from_str("aXb").unwrap();
    assert_eq!(halves, (vec!['a'], vec!['b']));
    assert_eq!(get_range_from_str("X").unwrap(), (vec![], vec![]));
    assert_eq!(get_range_from_str("ab"), Err(()));
    assert_eq!(get_range_from_str("aXbXc"), Err(()));
    assert_eq!(get_range_from_str("axb"), Err(()));
}

#[test]
fn ranges_are_two_numbers_about_an_x() {
    assert_eq!(thumb_range_from_str("64X32"), Some((64, 32)));
    assert_eq!(thumb_range_from_str("64X"), None);
    assert_eq!(thumb_range_from_str("64"), None);
    assert_eq!(thumb_range_from_str("1X2X3"), None);
    assert_eq!(thumb_range_from_str("4294967296X1"), None);
    let clamp = clamp_range_from_str("140X170.5").unwrap();
    assert_eq!((clamp.0.text.as_str(), clamp.1.text.as_str()), ("140", "170.5"));
    assert!(clamp_range_from_str("140X").is_none());
    assert!(clamp_range_from_str("aXb").is_none());
}

fn text(s: &str) -> Json {
    Json::Text(s.to_string())
}

fn whole(n: u64) -> Json {
    Json::Number(JsonNumber { unsigned: Some(n), signed: i64::try_from(n).ok(), real: dec(&n.to_string()) })
}

fn negative(n: i64) -> Json {
    Json::Number(JsonNumber { unsigned: None, signed: Some(n), real: dec(&n.to_string()) })
}

fn fraction(s: &str) -> Json {
    Json::Number(JsonNumber { unsigned: None, signed: None, real: dec(s) })
}

fn object(entries: Vec<(&str, Json)>) -> Json {
    Json::Object(entries.into_iter().map(|(k, v)| (k.to_string(), v)).collect())
}

fn display(name: &str, w: u64) -> Json {
    object(vec![("name", text(name)), ("w", whole(w)), ("h", whole(1080)), ("x", whole(0)), ("y", whole(0))])
}

#[test]
fn configuration_is_read_from_a_document() {
    let doc = object(vec![
        ("displays", Json::Array(vec![display("HDMI", 1920), display("DP", 4294967297)])),
        ("templates", Json::Array(vec![text("~/t/a"), whole(3), text("/t/gone"), text("/t/b")])),
        ("wall_command", text("swaybg -i {image}")),
        ("resize_algorithm", text("Gaussian")),
        ("last_call_file", text("~/last")),
        ("rwal", object(vec![
            ("thumb_w", whole(100)),
            ("clamp_min", whole(120)),
            ("clamp_max", fraction("180.5")),
            ("order_by", text("sem")),
        ])),
        ("impg", object(vec![
            ("contrast", fraction("1.5")),
            ("brightness", negative(-10)),
            ("huerotate", whole(4294967296 + 90)),
            ("invert", Json::Bool(true)),
            ("flip_h", text("true")),
        ])),
    ]);
    let mut config = Config::new();
    config.read_from_json(&doc, "/home/me", &vec!["/t/gone".to_string()]);
    let displays = config.displays.unwrap();
    assert_eq!((displays[0].name.as_str(), displays[0].w, displays[1].w), ("HDMI", 1920, 1));
    assert_eq!(config.templates.unwrap(), vec!["/home/me/t/a", "/t/b"]);
    assert_eq!(config.set_command.unwrap(), "swaybg -i {image}");
    assert_eq!(config.resize_algorithm.unwrap(), "Gaussian");
    assert_eq!(config.last_call_file.unwrap(), "/home/me/last");
    let rwal = config.rwal_params.unwrap();
    assert_eq!(rwal.thumb_range, (100, 200));
    assert_eq!((rwal.clamp_range.0.text.as_str(), rwal.clamp_range.1.text.as_str()), ("120", "180.5"));
    assert_eq!((rwal.accent_color, rwal.colors, rwal.order), (4, 7, OrderBy::Semantic));
    let ops = config.image_operations.unwrap();
    assert_eq!((ops.contrast.text.as_str(), ops.brightness, ops.hue, ops.blur.text.as_str()), ("1.5", -10, 90, "0"));
    assert_eq!((ops.invert, ops.flip_h, ops.flip_v), (true, false, false));
}

#[test]
fn key_that_a_document_lacks_changes_nothing() {
    let mut config = live();
    config.read_from_json(&object(vec![("wall_command", text("feh {image}"))]), "/home/me", &vec![]);
    assert_eq!(config.set_command.as_deref(), Some("feh {image}"));
    let displays = config.displays.unwrap();
    assert_eq!((displays.len(), displays[0].name.as_str(), displays[0].w), (1, "HDMI", 1920));
    assert_eq!(config.templates.unwrap(), vec!["/t/a"]);
    assert_eq!(config.resize_algorithm.as_deref(), Some("Lanczos3"));
    assert_eq!(config.last_call_file.as_deref(), Some("/tmp/last"));
    assert_eq!(config.rwal_params.unwrap().accent_color, 4);
    assert!(config.image_operations.unwrap().steps().is_empty());
}

#[test]
fn document_without_keys_changes_nothing() {
    for doc in [object(vec![]), Json::Null, whole(1)] {
        let mut config = live();
        config.read_from_json(&doc, "/home/me", &vec![]);
        assert_eq!(config.displays.unwrap()[0].name, "HDMI");
        assert_eq!(config.set_command.as_deref(), Some("swaybg -i {image}"));
        assert!(config.rwal_params.is_some() && config.image_operations.is_some());
    }
    let mut empty = Config::new();
    empty.read_from_json(&object(vec![]), "/home/me", &vec![]);
    assert!(empty.displays.is_none() && empty.rwal_params.is_none() && empty.image_operations.is_none());
}

#[test]
fn settings_that_a_member_lacks_stay_as_they_were() {
    let mut config = live();
    config.rwal_params.as_mut().unwrap().accent_color = 2;
    config.rwal_params.as_mut().unwrap().order = OrderBy::Brightness;
    config.image_operations.as_mut().unwrap().hue = 30;
    let doc = object(vec![
        ("rwal", object(vec![("thumb_w", whole(100)), ("clamp_max", fraction("180.5"))])),
        ("impg", object(vec![("invert", Json::Bool(true))])),
    ]);
    config.read_from_json(&doc, "/home/me", &vec![]);
    let rwal = config.rwal_params.unwrap();
    assert_eq!(rwal.thumb_range, (100, 200));
    assert_eq!((rwal.clamp_range.0.text.as_str(), rwal.clamp_range.1.text.as_str()), ("140", "180.5"));
    assert_eq!((rwal.accent_color, rwal.colors, rwal.order), (2, 7, OrderBy::Brightness));
    let ops = config.image_operations.unwrap();
    assert_eq!((ops.hue, ops.invert, ops.flip_h), (30, true, false));
}

#[test]
fn key_with_what_cannot_be_read_leaves_its_part_absent() {
    let mut config = live();
    let doc = object(vec![("displays", text("HDMI")), ("wall_command", whole(1)), ("templates", Json::Null)]);
    config.read_from_json(&doc, "/home/me", &vec![]);
    assert!(config.displays.is_none() && config.set_command.is_none() && config.templates.is_none());
    assert_eq!(config.resize_algorithm.as_deref(), Some("Lanczos3"));
}

#[test]
fn one_bad_display_leaves_no_displays() {
    let doc = object(vec![(
        "displays",
        Json::Array(vec![display("HDMI", 1920), object(vec![("name", text("DP")), ("w", negative(-1))])]),
    )]);
    let mut config = Config::new();
    config.read_from_json(&doc, "/home/me", &vec![]);
    assert!(config.displays.is_none());
}

#[test]
fn members_of_other_kinds_give_the_defaults() {
    let doc = object(vec![("rwal", whole(5)), ("impg", Json::Null), ("displays", Json::Array(vec![]))]);
    let mut config = Config::new();
    config.read_from_json(&doc, "/home/me", &vec![]);
    let rwal = config.rwal_params.unwrap();
    assert_eq!(rwal.thumb_range, (200, 200));
    assert_eq!((rwal.clamp_range.0.text.as_str(), rwal.clamp_range.1.text.as_str()), ("140", "170"));
    assert_eq!((rwal.accent_color, rwal.colors, rwal.order), (4, 7, OrderBy::Hue));
    assert!(config.image_operations.unwrap().steps().is_empty());
    assert_eq!(config.displays.unwrap().len(), 0);
}

#[test]
fn last_entry_of_a_key_is_the_member() {
    let doc = object(vec![("a", whole(1)), ("b", whole(2)), ("a", whole(3))]);
    assert_eq!(doc.get("a").unwrap().as_u64(), Some(3));
    assert_eq!(doc.get("b").unwrap().as_i64(), Some(2));
    assert!(doc.get("c").is_none());
    assert!(whole(1).get("a").is_none());
    assert_eq!(text("x").as_str(), Some("x"));
    assert_eq!(whole(1).as_str(), None);
    assert_eq!(Json::Bool(true).as_bool(), Some(true));
    assert_eq!(fraction("1.5").as_u64(), None);
    assert_eq!(fraction("1.5").as_real().unwrap().text, "1.5");
    assert_eq!(negative(-1).as_u64(), None);
    assert_eq!(Json::Array(vec![Json::Null]).as_array().unwrap().len(), 1);
    assert!(Json::Null.as_array().is_none());
}
