use rpaper::paths::{expand_user, parse_command, parse_set_command};

#[test]
fn home_takes_the_place_of_the_tilde() {
    assert_eq!(expand_user("~/.cache/rpaper", "/home/me"), "/home/me/.cache/rpaper");
    assert_eq!(expand_user("~/x", "/home/me/"), "/home/me/x");
    assert_eq!(expand_user("~/", "/home/me"), "/home/me/");
    assert_eq!(expand_user("~//etc", "/home/me"), "/etc");
    assert_eq!(expand_user("~", "/home/me"), "/home/me/~");
    assert_eq!(expand_user("~user/x", "/home/me"), "/home/me/~user/x");
    assert_eq!(expand_user("~/x", ""), "x");
}

#[test]
fn a_path_without_tilde_stays() {
    assert_eq!(expand_user("/tmp/x", "/home/me"), "/tmp/x");
    assert_eq!(expand_user("x/~/y", "/home/me"), "x/~/y");
    assert_eq!(expand_user("", "/home/me"), "");
    assert_eq!(expand_user("éa", "/home/me"), "éa");
}

#[test]
fn set_command_takes_image_original_and_display() {
    assert_eq!(
        parse_command("swaybg -o {display} -i {image} # {default_image} {image}", "/c/a.png", "/p/a.png", "DP-1"),
        "swaybg -o DP-1 -i /c/a.png # /p/a.png /c/a.png"
    );
    assert_eq!(
        parse_set_command("show {image} on {display}", "~/.cache/w/a.png", "/p/a.png", "DP-1", "/home/me"),
        "show /home/me/.cache/w/a.png on DP-1"
    );
}

#[test]
fn placeholders_are_replaced_one_after_the_other() {
    // What the image path brings in is open to the later replacements.
    assert_eq!(parse_command("{image}", "{display}", "o", "D"), "D");
    assert_eq!(parse_command("{display}", "i", "o", "{image}"), "{image}");
}
