use rpaper::fingerprint::{get_file_extension, get_image_name};
use rpaper::handler::{directory_images, is_file_image};
use rpaper::paths::expand_user;
use rpaper::text::{is_whitespace, trim};
use std::path::{Path, PathBuf};

#[test]
fn white_space_is_that_of_the_standard_library() {
    for code in 0..=0x10FFFFu32 {
        if let Some(c) = char::from_u32(code) {
            assert_eq!(is_whitespace(c), c.is_whitespace(), "U+{:04X}", code);
        }
    }
}

#[test]
fn trim_is_that_of_the_standard_library() {
    for text in [" a ", "\t\n a b \r\n", "\u{2003}x\u{2003}y\u{2003}", "\u{200b}z\u{200b}", "", " ", "é "] {
        let mine: String = trim(&text.chars().collect()).iter().collect();
        assert_eq!(mine, text.trim(), "{:?}", text);
    }
}

fn std_says_image(extension: &str) -> bool {
    matches!(extension.to_lowercase().as_str(), "jpg" | "jpeg" | "webp" | "png" | "gif" | "bmp" | "tiff")
}

#[test]
fn case_of_letters_is_folded_as_the_standard_library_folds_it() {
    // Every character whose lower case holds a character of ASCII, in every
    // place of every extension.
    let candidates: Vec<char> = (0..=0x10FFFFu32)
        .filter_map(char::from_u32)
        .filter(|c| c.to_lowercase().any(|l| l.is_ascii()))
        .collect();
    assert!(candidates.contains(&'\u{212A}'));
    assert!(candidates.contains(&'\u{0130}'));
    for ext in ["jpg", "jpeg", "webp", "png", "gif", "bmp", "tiff"] {
        let letters: Vec<char> = ext.chars().collect();
        for place in 0..letters.len() {
            for c in &candidates {
                let mut changed = letters.clone();
                changed[place] = *c;
                let text: String = changed.iter().collect();
                assert_eq!(is_file_image(&text), std_says_image(&text), "{:?}", text);
            }
        }
    }
}

#[test]
fn extension_of_a_file_is_that_of_the_standard_library() {
    for path in ["/d/a.png", "/d/.png", "/d/png", "/d/c.tar.gif", "/d.png/e", "/d/f.", "/d/.g.bmp", "a.b", "a"] {
        let std = Path::new(path).extension().and_then(|e| e.to_str()).unwrap_or("");
        assert_eq!(get_file_extension(&get_image_name(path)), std, "{:?}", path);
        let listed = directory_images(&vec![path.to_string()]).len() == 1;
        assert_eq!(listed, std_says_image(std), "{:?}", path);
    }
}

#[test]
fn home_is_joined_as_the_standard_library_joins_it() {
    for home in ["/home/me", "/home/me/", "/", "", "rel"] {
        for rest in ["x", "", "/abs", "a/b/", "~", "x/../y"] {
            let path = format!("~/{}", rest);
            let std = PathBuf::from(home).join(rest).to_str().unwrap().to_string();
            assert_eq!(expand_user(&path, home), std, "{:?} {:?}", home, rest);
        }
    }
}
