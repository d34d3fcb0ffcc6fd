//! Paths and commands as text: the home directory in place of `~`, and the
//! command that sets a wallpaper.

use crate::text::{append, chars_of, replace, replaced, slice_of, string_of};
use vstd::prelude::*;

verus! {

/// `rel` under the directory `base`: `rel` itself where it starts at the
/// root, else `base`, a `/` unless `base` is empty or ends with one, and
/// `rel`.
pub open spec fn joined_path(base: Seq<char>, rel: Seq<char>) -> Seq<char> {
    if rel.len() > 0 && rel[0] == '/' {
        rel
    } else if base.len() > 0 && base.last() != '/' {
        base + seq!['/'] + rel
    } else {
        base + rel
    }
}

/// A path with the home directory in place of a leading `~/`. A path that
/// does not begin with `~` stays as it is; one that begins with `~` but not
/// with `~/` is taken whole as a name under the home directory.
pub open spec fn expanded(path: Seq<char>, home: Seq<char>) -> Seq<char> {
    if path.len() == 0 || path[0] != '~' {
        path
    } else if path.len() >= 2 && path[1] == '/' {
        joined_path(home, path.subrange(2, path.len() as int))
    } else {
        joined_path(home, path)
    }
}

/// The command of a template with the path of the image to show, the path
/// of the image it was made from, and the name of the display in place of
/// `{image}`, `{default_image}` and `{display}`, replaced in this order.
pub open spec fn command_for(
    command: Seq<char>,
    image_path: Seq<char>,
    original_image_path: Seq<char>,
    display: Seq<char>,
) -> Seq<char> {
    replaced(
        replaced(replaced(command, "{image}"@, image_path), "{default_image}"@, original_image_path),
        "{display}"@,
        display,
    )
}

/// `rel` under the directory `base`.
pub fn join_path(base: &Vec<char>, rel: &Vec<char>) -> (r: Vec<char>)
    ensures
        r@ == joined_path(base@, rel@),
{
    if rel.len() > 0 && rel[0] == '/' {
        proof {
            assert(rel@.subrange(0, rel.len() as int) == rel@);
        }
        return slice_of(rel, 0, rel.len());
    }
    let mut r = slice_of(base, 0, base.len());
    proof {
        assert(base@.subrange(0, base.len() as int) == base@);
    }
    if base.len() > 0 && base[base.len() - 1] != '/' {
        r.push('/');
    }
    append(&mut r, rel);
    r
}

/// A path with the home directory in place of a leading `~/`.
pub fn expand_user(path: &str, home: &str) -> (r: String)
    ensures
        r@ == expanded(path@, home@),
{
    let p = chars_of(path);
    if p.len() == 0 || p[0] != '~' {
        return string_of(&p);
    }
    let h = chars_of(home);
    if p.len() >= 2 && p[1] == '/' {
        let rest = slice_of(&p, 2, p.len());
        string_of(&join_path(&h, &rest))
    } else {
        string_of(&join_path(&h, &p))
    }
}

/// The command with its three placeholders replaced.
pub fn parse_command(command: &str, image_path: &str, original_image_path: &str, display: &str) -> (r:
    String)
    ensures
        r@ == command_for(command@, image_path@, original_image_path@, display@),
{
    let with_image = replace(&chars_of(command), &chars_of("{image}"), &chars_of(image_path));
    let with_original = replace(
        &with_image,
        &chars_of("{default_image}"),
        &chars_of(original_image_path),
    );
    let with_display = replace(&with_original, &chars_of("{display}"), &chars_of(display));
    string_of(&with_display)
}

/// The command that shows the cache file at `image_path`, with the home
/// directory in place of a leading `~/` of that path.
pub fn parse_set_command(
    command: &str,
    image_path: &str,
    original_image_path: &str,
    display: &str,
    home: &str,
) -> (r: String)
    ensures
        r@ == command_for(
            command@,
            expanded(image_path@, home@),
            original_image_path@,
            display@,
        ),
{
    let shown = expand_user(image_path, home);
    parse_command(command, shown.as_str(), original_image_path, display)
}

} // verus!
