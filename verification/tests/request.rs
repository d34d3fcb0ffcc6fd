use rpaper::request::Request;
use rpaper::supervisor::take_argument_after;

fn args(v: &[&str]) -> Vec<String> {
    v.iter().map(|s| s.to_string()).collect()
}

#[test]
fn flags_of_a_request_are_read() {
    let r = Request::from_args(args(&["-A", "-W", "-C", "--get-config", "--get-w-cache", "--fliph"]));
    assert!(r.affect_all && r.w_cache && r.c_cache && r.get_config && r.get_w_cache);
    assert!(!r.w_set && !r.c_set && !r.get_c_cache && !r.get_current_colorscheme);
    assert!(!r.w_cache_on_miss && !r.c_cache_on_miss);
    assert_eq!((r.invert, r.flip_h, r.flip_v), (None, Some(true), None));
    assert!(r.image.is_none() && r.displays.is_none() && r.templates.is_none());
}

#[test]
fn setting_leaves_out_caching() {
    let r = Request::from_args(args(&["-S", "-W", "-T", "-C"]));
    assert!(r.w_set && r.c_set);
    assert!(!r.w_cache && !r.c_cache);
}

#[test]
fn values_follow_their_flags() {
    let r = Request::from_args(args(&[
        "-I", "/tmp/x.png", "--contrast", "1.50", "--brightness", "-7", "--hue", "x", "--blur", "1e3",
        "--accent", "3", "--thumb", "10X20", "--clamp", "1X2", "--order", "s", "--resize-alg", "Nearest",
        "--set-command", "feh {image}",
    ]));
    assert_eq!(r.image.unwrap(), "/tmp/x.png");
    assert_eq!(r.contrast.unwrap().text, "1.5");
    assert_eq!(r.brightness, Some(-7));
    assert_eq!(r.hue, None);
    assert!(r.blur.is_none());
    assert_eq!(r.rwal_accent, Some(3));
    assert_eq!(r.rwal_thumb.unwrap(), "10X20");
    assert_eq!(r.rwal_clamp.unwrap(), "1X2");
    assert_eq!(r.rwal_order.unwrap(), "s");
    assert_eq!(r.resize_alg.unwrap(), "Nearest");
    assert_eq!(r.set_command.unwrap(), "feh {image}");
}

#[test]
fn first_flag_with_a_value_counts() {
    let r = Request::from_args(args(&["--accent", "x", "--accent", "3", "-I", "a", "-I", "b", "--hue"]));
    assert_eq!(r.rwal_accent, None);
    assert_eq!(r.image.unwrap(), "a");
    assert_eq!(r.hue, None);
    let r = Request::from_args(args(&["-I", "-I", "x"]));
    assert_eq!(r.image.unwrap(), "-I");
}

#[test]
fn displays_and_templates_are_lists() {
    let r = Request::from_args(args(&[
        "--displays", "HDMI:1920:1080:0:0;bad;DP:a:2:3:4;", "--templates", "/t/a;;/t/b",
    ]));
    let d = r.displays.unwrap();
    assert_eq!(d.len(), 2);
    assert_eq!((d[0].name.as_str(), d[0].w, d[0].h, d[0].x, d[0].y), ("HDMI", 1920, 1080, 0, 0));
    assert_eq!((d[1].name.as_str(), d[1].w, d[1].h, d[1].x, d[1].y), ("DP", 0, 2, 3, 4));
    assert_eq!(r.templates.unwrap(), vec!["/t/a", "", "/t/b"]);
    let r = Request::from_args(args(&["--displays", "bad;worse", "--templates", ""]));
    assert!(r.displays.is_none());
    assert_eq!(r.templates.unwrap(), vec![""]);
}

#[test]
fn argument_after_a_flag_skips_the_program_name() {
    assert_eq!(take_argument_after("-i", &args(&["prog", "-d", "-i", "/init", "-i", "/other"])), Some("/init".to_string()));
    assert_eq!(take_argument_after("prog", &args(&["prog", "x"])), Some("x".to_string()));
    assert_eq!(take_argument_after("-i", &args(&["-i"])), None);
    assert_eq!(take_argument_after("-i", &args(&["prog", "-i"])), None);
    assert_eq!(take_argument_after("-i", &args(&[])), None);
}
