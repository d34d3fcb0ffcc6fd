use rpaper::config::Config;
use rpaper::decimal::Decimal;
use rpaper::display::Display;
use rpaper::handler::{
    action_ready, batches, cached_palette_path, cached_wallpaper_paths, directory_images,
    image_work, is_file_image, process_request, reply_parts, select_random, Action, Reply, Target,
};
use rpaper::image_ops::ImageOperations;
use rpaper::request::Request;
use rpaper::rwal_params::{OrderBy, RwalParams};

fn args(v: &[&str]) -> Vec<String> {
    v.iter().map(|s| s.to_string()).collect()
}

fn images(n: usize) -> Vec<String> {
    (0..n).map(|i| format!("/tmp/dir/{}.png", i)).collect()
}

#[test]
fn actions_come_in_their_order() {
    let all = Request::from_args(args(&["-C", "-W", "-T", "-S"]));
    assert_eq!(process_request(&all), vec![Action::ApplyScheme, Action::SetWallpaper]);
    let caches = Request::from_args(args(&["-W", "-C"]));
    assert_eq!(process_request(&caches), vec![Action::CachePalette, Action::CacheWallpaper]);
    let mixed = Request::from_args(args(&["-S", "-C"]));
    assert_eq!(process_request(&mixed), vec![Action::CachePalette, Action::SetWallpaper]);
    assert_eq!(process_request(&Request::from_args(args(&["-I", "x"]))), vec![]);
}

#[test]
fn flags_of_a_request_document_are_taken_as_they_are() {
    let mut r = Request::from_args(args(&[]));
    r.w_cache = true;
    r.w_set = true;
    r.c_cache = true;
    r.c_set = true;
    assert_eq!(process_request(&r), vec![Action::ApplyScheme, Action::SetWallpaper]);
}

#[test]
fn action_without_its_parts_is_not_ready() {
    let mut c = Config::new();
    for a in [Action::CachePalette, Action::CacheWallpaper, Action::ApplyScheme, Action::SetWallpaper] {
        assert!(!action_ready(a, &c));
    }
    c.image_operations = Some(ImageOperations::identity());
    c.displays = Some(vec![]);
    c.set_command = Some("x".to_string());
    assert!(action_ready(Action::SetWallpaper, &c));
    assert!(!action_ready(Action::CacheWallpaper, &c));
    assert!(!action_ready(Action::ApplyScheme, &c));
    c.resize_algorithm = Some("Nearest".to_string());
    c.rwal_params = Some(RwalParams::new(
        (1, 1),
        (Decimal::zero(), Decimal::zero()),
        0,
        6,
        OrderBy::Hue,
    ));
    for a in [Action::CachePalette, Action::CacheWallpaper, Action::ApplyScheme, Action::SetWallpaper] {
        assert!(action_ready(a, &c));
    }
}

#[test]
fn images_are_known_by_their_extension() {
    for path in ["a.jpg", "/x/a.JPEG", "a.b.WebP", "a.png", "a.GIF", "a.bmp", "a.tiff", "png", ".png"] {
        assert!(is_file_image(path), "{}", path);
    }
    for path in ["a.txt", "a.jpg.txt", "a.tif", "a.jpg ", "", "a.", "a.pngx", "a.ΡNG", "jpg/a"] {
        assert!(!is_file_image(path), "{}", path);
    }
}

#[test]
fn nine_images_make_three_batches() {
    let b = batches(&images(9));
    assert_eq!(b.iter().map(|x| x.len()).collect::<Vec<_>>(), vec![4, 4, 1]);
    assert_eq!(b.concat(), images(9));
    assert_eq!(batches(&images(8)).iter().map(|x| x.len()).collect::<Vec<_>>(), vec![4, 4]);
    assert_eq!(batches(&images(3)).iter().map(|x| x.len()).collect::<Vec<_>>(), vec![3]);
    assert_eq!(batches(&images(0)).len(), 0);
}

#[test]
fn random_choice_is_one_of_the_strings() {
    let all = images(7);
    for _ in 0..50 {
        let one = select_random(all.clone()).unwrap();
        assert!(all.contains(&one));
    }
    assert_eq!(select_random(vec!["only".to_string()]), Some("only".to_string()));
    assert_eq!(select_random(vec![]), None);
}

#[test]
fn images_of_a_directory_are_the_files_with_the_extension_of_one() {
    let files = args(&[
        "/d/a.png", "/d/notes.txt", "/d/sub/b.JPG", "/d/.png", "/d/png", "/d/c.tar.gif", "/d.png/e",
        "/d/f.", "/d/.g.bmp",
    ]);
    assert_eq!(directory_images(&files), args(&["/d/a.png", "/d/sub/b.JPG", "/d/c.tar.gif", "/d/.g.bmp"]));
    assert_eq!(directory_images(&vec![]), Vec::<String>::new());
}

#[test]
fn request_for_a_directory_works_on_all_or_on_one() {
    let mut files = images(9);
    files.insert(3, "/tmp/dir/readme.md".to_string());
    files.push("/tmp/dir/.hidden".to_string());
    let all = Request::from_args(args(&["-A", "-W"]));
    let work = image_work(&all, Target::Directory, "/tmp/dir/", &files).ok().unwrap();
    assert_eq!(work.batches.concat(), images(9));
    assert_eq!(work.batches.len(), 3);
    assert_eq!(work.message, "processed 9 images");
    let none = image_work(&all, Target::Directory, "/tmp/dir/", &args(&["/tmp/dir/a.txt"])).ok().unwrap();
    assert_eq!((none.batches.len(), none.message.as_str()), (0, "processed 0 images"));
    let one = Request::from_args(args(&["-W"]));
    for _ in 0..20 {
        let work = image_work(&one, Target::Directory, "/tmp/dir/", &files).ok().unwrap();
        assert_eq!((work.batches.len(), work.batches[0].len()), (1, 1));
        assert!(images(9).contains(&work.batches[0][0]));
        assert_eq!(work.message, "processed 1 images");
    }
}

#[test]
fn request_for_a_file_works_on_that_file() {
    let r = Request::from_args(args(&["-W"]));
    let work = image_work(&r, Target::File, "/tmp/x.png", &vec![]).ok().unwrap();
    assert_eq!(work.batches, vec![vec!["/tmp/x.png".to_string()]]);
    assert_eq!(work.message, "request processed");
}

#[test]
fn requests_that_cannot_be_done_are_errors() {
    let r = Request::from_args(args(&["-W"]));
    assert_eq!(image_work(&r, Target::Missing, "/tmp/x.png", &vec![]).err().unwrap(), "path does not exists");
    assert_eq!(
        image_work(&r, Target::File, "/tmp/x.txt", &vec![]).err().unwrap(),
        "file is not an image or has unsuported format"
    );
    assert_eq!(image_work(&r, Target::Directory, "/tmp/d", &vec![]).err().unwrap(), "Directory is empty");
    assert_eq!(
        image_work(&r, Target::Directory, "/tmp/d", &args(&["/tmp/d/a.txt"])).err().unwrap(),
        "Directory is empty"
    );
}

#[test]
fn reply_to_a_malformed_request_has_both_times_and_the_error() {
    let r = Reply::malformed(1_700_000_000_000, 1_700_000_000_012);
    assert_eq!((r.start_time, r.end_time, r.time_elapsed), (1_700_000_000_000, 1_700_000_000_012, 12));
    assert_eq!(r.error.unwrap(), "error while deserializing request");
    assert!(r.message.is_none() && r.config.is_none() && r.w_cache.is_none() && r.c_cache.is_none());
}

#[test]
fn reply_takes_outcome_and_end() {
    let mut r = Reply::new(100);
    r.record(Ok("request processed".to_string()));
    r.finish(250);
    assert_eq!((r.start_time, r.end_time, r.time_elapsed), (100, 250, 150));
    assert_eq!(r.message.as_deref(), Some("request processed"));
    assert!(r.error.is_none());
    r.record(Err("path does not exists".to_string()));
    assert_eq!(r.error.as_deref(), Some("path does not exists"));
    r.finish(50);
    assert_eq!((r.end_time, r.time_elapsed), (50, 0));
}

#[test]
fn cache_paths_for_a_reply_need_their_parts() {
    let mut c = Config::new();
    assert_eq!(cached_wallpaper_paths(&c, "/tmp/x.png", "/w"), None);
    assert_eq!(cached_palette_path(&c, "/tmp/x.png", "/c"), None);
    c.displays = Some(vec![Display::new("HDMI".to_string(), 1920, 1080, 0, 0)]);
    assert_eq!(cached_wallpaper_paths(&c, "/tmp/x.png", "/w"), None);
    c.image_operations = Some(ImageOperations::identity());
    assert_eq!(
        cached_wallpaper_paths(&c, "/tmp/x.png", "/w"),
        Some(vec!["/w/78e0d234afe96f0233b14409380f73fb655a87900c9400dcdaf2114b6d3cd557.png".to_string()])
    );
    assert_eq!(cached_palette_path(&c, "/tmp/x.png", "/c"), None);
    c.rwal_params = Some(RwalParams::new(
        (200, 200),
        (Decimal::parse("140").unwrap(), Decimal::parse("170").unwrap()),
        4,
        7,
        OrderBy::Hue,
    ));
    assert_eq!(
        cached_palette_path(&c, "/tmp/x.png", "/c"),
        Some("/c/5296d7ff62b19d8291b5b5910b39ded7124771439286510fbb2569d52c446c48".to_string())
    );
}

#[test]
fn reply_holds_what_the_request_asks_for() {
    let all = Request::from_args(args(&["-I", "/x.png", "--get-config", "--get-c-cache", "--get-w-cache"]));
    let found = reply_parts(&all, true);
    assert!(found.config && found.palette && found.wallpapers);
    let missing = reply_parts(&all, false);
    assert!(missing.config && !missing.palette && !missing.wallpapers);
    let no_image = Request::from_args(args(&["--get-c-cache", "--get-w-cache"]));
    let parts = reply_parts(&no_image, true);
    assert!(!parts.config && !parts.palette && !parts.wallpapers);
    let one = reply_parts(&Request::from_args(args(&["-I", "/x.png", "--get-w-cache"])), true);
    assert!(!one.config && !one.palette && one.wallpapers);
}
