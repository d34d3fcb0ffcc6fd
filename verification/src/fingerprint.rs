//! The keys under which rendered wallpapers and extracted palettes are
//! cached, and the paths of the cache files.

use crate::display::{Display, DisplayModel};
use crate::image_ops::{ImageOperations, OperationsModel};
use crate::number::{
    decimal_digits, decimal_text, lower_hex, lower_hex_text, signed_decimal, signed_decimal_text,
};
use crate::rwal_params::{order_tag, RwalModel, RwalParams};
use crate::text::{append, append_str, chars_of, last_index_of, rfind_char, slice_of, string_of};
use sha2::{Digest, Sha256};
use vstd::prelude::*;
use vstd::string::StringSliceAdditionalSpecFns;

verus! {

/// The SHA-256 digest of a sequence of bytes.
pub uninterp spec fn sha256(data: Seq<u8>) -> Seq<u8>;

/// The digest of `data` as `sha2` computes it: `Sha256::new`, one `update`
/// with all of `data`, and `finalize`. The contract names the result, which
/// depends on `data` alone, and says that it has the 32 bytes that are the
/// output size of `Sha256`.
#[verifier::external_body]
pub(crate) fn sha256_digest(data: &[u8]) -> (out: Vec<u8>)
    ensures
        out@ == sha256(data@),
        out@.len() == 32,
{
    let mut hasher = Sha256::new();
    hasher.update(data);
    hasher.finalize().to_vec()
}

/// The name that a text gets in a cache: the SHA-256 digest of its UTF-8
/// bytes in lower-case hexadecimal.
pub open spec fn fingerprint(text: Seq<char>) -> Seq<char> {
    lower_hex(sha256(vstd::utf8::encode_utf8(text)))
}

/// The text of a truth value.
pub open spec fn bool_text(b: bool) -> Seq<char> {
    if b {
        "true"@
    } else {
        "false"@
    }
}

/// What follows the last `/` of a path; the path itself if it has none.
pub open spec fn file_name_of(path: Seq<char>) -> Seq<char> {
    match last_index_of(path, '/') {
        Some(p) => path.subrange(p + 1, path.len() as int),
        None => path,
    }
}

/// What follows the last `.` of a file name; nothing if it has none, or
/// none but at its start.
pub open spec fn extension_of(name: Seq<char>) -> Seq<char> {
    match last_index_of(name, '.') {
        Some(p) => if p != 0 {
            name.subrange(p + 1, name.len() as int)
        } else {
            Seq::<char>::empty()
        },
        None => Seq::<char>::empty(),
    }
}

/// A field of a key: the number of its characters, a `:`, and the field.
/// Fields written so can be told apart again, whatever they hold.
pub open spec fn framed(field: Seq<char>) -> Seq<char> {
    decimal_digits(field.len()) + seq![':'] + field
}

/// The key of the rendering of an image for one display: the name of the
/// image, the display's name, size and position, and the operations, each
/// as a field.
pub open spec fn wallpaper_key(image_name: Seq<char>, display: DisplayModel, ops: OperationsModel) -> Seq<
    char,
> {
    framed(image_name) + framed(display.name) + framed(decimal_digits(display.w as nat)) + framed(
        decimal_digits(display.h as nat),
    ) + framed(decimal_digits(display.x as nat)) + framed(decimal_digits(display.y as nat))
        + framed(ops.contrast) + framed(signed_decimal(ops.brightness as int)) + framed(
        signed_decimal(ops.hue as int),
    ) + framed(ops.blur) + framed(bool_text(ops.invert)) + framed(bool_text(ops.flip_h)) + framed(
        bool_text(ops.flip_v),
    )
}

/// The key of the palette of an image: the name of the image, the
/// operations that change colours, and the settings of the extraction,
/// each as a field.
pub open spec fn palette_key(image_name: Seq<char>, ops: OperationsModel, rwal: RwalModel) -> Seq<
    char,
> {
    framed(image_name) + framed(signed_decimal(ops.brightness as int)) + framed(ops.contrast)
        + framed(signed_decimal(ops.hue as int)) + framed(bool_text(ops.invert)) + framed(
        order_tag(rwal.order),
    ) + framed(decimal_digits(rwal.accent_color as nat)) + framed(rwal.clamp_range.0) + framed(
        rwal.clamp_range.1,
    ) + framed(decimal_digits(rwal.thumb_range.0 as nat)) + framed(
        decimal_digits(rwal.thumb_range.1 as nat),
    ) + framed(decimal_digits(rwal.colors as nat))
}

/// The name of the cache file of an image rendered for a display: the
/// fingerprint of the key, a `.`, and the extension of the image.
pub open spec fn wallpaper_cache_name(
    image_path: Seq<char>,
    display: DisplayModel,
    ops: OperationsModel,
) -> Seq<char> {
    let name = file_name_of(image_path);
    fingerprint(wallpaper_key(name, display, ops)) + seq!['.'] + extension_of(name)
}

/// The name of the cache file of the palette of an image.
pub open spec fn palette_cache_name(image_path: Seq<char>, ops: OperationsModel, rwal: RwalModel) -> Seq<
    char,
> {
    fingerprint(palette_key(file_name_of(image_path), ops, rwal))
}

/// A file of the given name in a directory.
pub open spec fn in_directory(dir: Seq<char>, name: Seq<char>) -> Seq<char> {
    dir + seq!['/'] + name
}

/// What follows the last `/` of `input`.
pub fn file_name(input: &Vec<char>) -> (r: Vec<char>)
    ensures
        r@ == file_name_of(input@),
{
    match rfind_char(input, '/') {
        Some(p) => slice_of(input, p + 1, input.len()),
        None => {
            proof {
                assert(input@.subrange(0, input.len() as int) == input@);
            }
            slice_of(input, 0, input.len())
        },
    }
}

/// The name of the file that a path leads to.
pub fn get_image_name(input: &str) -> (r: String)
    ensures
        r@ == file_name_of(input@),
{
    let chars = chars_of(input);
    let name = file_name(&chars);
    string_of(&name)
}

/// The extension of a file name, without its `.`.
pub fn file_extension(name: &Vec<char>) -> (r: Vec<char>)
    ensures
        r@ == extension_of(name@),
{
    match rfind_char(name, '.') {
        Some(p) => if p != 0 {
            slice_of(name, p + 1, name.len())
        } else {
            Vec::new()
        },
        None => Vec::new(),
    }
}

/// The extension of a file name, without its `.`.
pub fn get_file_extension(file_name: &str) -> (r: String)
    ensures
        r@ == extension_of(file_name@),
{
    let chars = chars_of(file_name);
    let ext = file_extension(&chars);
    string_of(&ext)
}

/// The fingerprint of a text.
pub fn fingerprint_text(key: &Vec<char>) -> (r: Vec<char>)
    ensures
        r@ == fingerprint(key@),
        r@.len() == 64,
{
    let s = string_of(key);
    let digest = sha256_digest(s.as_str().as_bytes());
    proof {
        crate::fingerprint_laws::lemma_lower_hex_shape(digest@);
    }
    lower_hex_text(&digest)
}

/// The fingerprint of a string.
pub fn encode_string(string: &str) -> (r: String)
    ensures
        r@ == fingerprint(string@),
        r@.len() == 64,
{
    let digest = sha256_digest(string.as_bytes());
    proof {
        crate::fingerprint_laws::lemma_lower_hex_shape(digest@);
    }
    let hex = lower_hex_text(&digest);
    string_of(&hex)
}

/// Appends a field to a key.
pub fn append_field(out: &mut Vec<char>, field: &Vec<char>)
    ensures
        final(out)@ == old(out)@ + framed(field@),
{
    let ghost before = out@;
    let digits = decimal_text(field.len() as u64);
    append(out, &digits);
    out.push(':');
    append(out, field);
    proof {
        assert(out@ =~= before + framed(field@));
    }
}

/// The text of a truth value.
fn bool_chars(b: bool) -> (r: Vec<char>)
    ensures
        r@ == bool_text(b),
{
    if b {
        chars_of("true")
    } else {
        chars_of("false")
    }
}

/// The key of the rendering of an image for one display.
pub fn wallpaper_key_text(image_name: &Vec<char>, display: &Display, ops: &ImageOperations) -> (r:
    Vec<char>)
    ensures
        r@ == wallpaper_key(image_name@, display@, ops@),
{
    let mut key: Vec<char> = Vec::new();
    append_field(&mut key, image_name);
    assert(key@ =~= framed(image_name@));
    append_field(&mut key, &chars_of(display.name.as_str()));
    append_field(&mut key, &decimal_text(display.w as u64));
    append_field(&mut key, &decimal_text(display.h as u64));
    append_field(&mut key, &decimal_text(display.x as u64));
    append_field(&mut key, &decimal_text(display.y as u64));
    append_field(&mut key, &ops.contrast.shortest());
    append_field(&mut key, &signed_decimal_text(ops.brightness as i64));
    append_field(&mut key, &signed_decimal_text(ops.hue as i64));
    append_field(&mut key, &ops.blur.shortest());
    append_field(&mut key, &bool_chars(ops.invert));
    append_field(&mut key, &bool_chars(ops.flip_h));
    append_field(&mut key, &bool_chars(ops.flip_v));
    key
}

/// The key of the palette of an image.
pub fn palette_key_text(image_name: &Vec<char>, ops: &ImageOperations, rwal: &RwalParams) -> (r:
    Vec<char>)
    ensures
        r@ == palette_key(image_name@, ops@, rwal@),
{
    let mut key: Vec<char> = Vec::new();
    append_field(&mut key, image_name);
    assert(key@ =~= framed(image_name@));
    append_field(&mut key, &signed_decimal_text(ops.brightness as i64));
    append_field(&mut key, &ops.contrast.shortest());
    append_field(&mut key, &signed_decimal_text(ops.hue as i64));
    append_field(&mut key, &bool_chars(ops.invert));
    append_field(&mut key, &chars_of(rwal.order.tag()));
    append_field(&mut key, &decimal_text(rwal.accent_color as u64));
    append_field(&mut key, &rwal.clamp_range.0.shortest());
    append_field(&mut key, &rwal.clamp_range.1.shortest());
    append_field(&mut key, &decimal_text(rwal.thumb_range.0 as u64));
    append_field(&mut key, &decimal_text(rwal.thumb_range.1 as u64));
    append_field(&mut key, &decimal_text(rwal.colors as u64));
    key
}

/// The names of the cache files of an image, one for each display, in the
/// order of the displays.
pub fn get_cached_image_names(
    displays: &Vec<Display>,
    image_ops: &ImageOperations,
    image_path: &str,
) -> (names: Vec<String>)
    ensures
        names.len() == displays.len(),
        forall|i: int|
            0 <= i < displays.len() ==> (#[trigger] names[i])@ == wallpaper_cache_name(
                image_path@,
                displays[i]@,
                image_ops@,
            ),
{
    let path = chars_of(image_path);
    let image_name = file_name(&path);
    let image_extension = file_extension(&image_name);
    let mut names: Vec<String> = Vec::new();
    let mut i: usize = 0;
    while i < displays.len()
        invariant
            i <= displays.len(),
            names.len() == i,
            image_name@ == file_name_of(image_path@),
            image_extension@ == extension_of(image_name@),
            forall|k: int|
                0 <= k < i ==> (#[trigger] names[k])@ == wallpaper_cache_name(
                    image_path@,
                    displays[k]@,
                    image_ops@,
                ),
        decreases displays.len() - i,
    {
        let key = wallpaper_key_text(&image_name, &displays[i], image_ops);
        let mut name = fingerprint_text(&key);
        name.push('.');
        append(&mut name, &image_extension);
        names.push(string_of(&name));
        i += 1;
    }
    names
}

/// The path of each cache file in the cache directory, in the order given.
pub fn get_cached_image_paths(cache_images: &Vec<String>, cache_path: &str) -> (paths: Vec<String>)
    ensures
        paths.len() == cache_images.len(),
        forall|i: int|
            0 <= i < cache_images.len() ==> (#[trigger] paths[i])@ == in_directory(
                cache_path@,
                cache_images[i]@,
            ),
{
    let mut paths: Vec<String> = Vec::new();
    let mut i: usize = 0;
    while i < cache_images.len()
        invariant
            i <= cache_images.len(),
            paths.len() == i,
            forall|k: int|
                0 <= k < i ==> (#[trigger] paths[k])@ == in_directory(
                    cache_path@,
                    cache_images[k]@,
                ),
        decreases cache_images.len() - i,
    {
        let mut path = chars_of(cache_path);
        path.push('/');
        append_str(&mut path, cache_images[i].as_str());
        paths.push(string_of(&path));
        i += 1;
    }
    paths
}

/// The path of the cache file of an image rendered for a display.
pub fn wallpaper_cache_path(
    display: &Display,
    ops: &ImageOperations,
    image_path: &str,
    wallpapers_dir: &str,
) -> (path: String)
    ensures
        path@ == in_directory(wallpapers_dir@, wallpaper_cache_name(image_path@, display@, ops@)),
{
    let chars = chars_of(image_path);
    let image_name = file_name(&chars);
    let key = wallpaper_key_text(&image_name, display, ops);
    let mut path = chars_of(wallpapers_dir);
    path.push('/');
    append(&mut path, &fingerprint_text(&key));
    path.push('.');
    append(&mut path, &file_extension(&image_name));
    proof {
        let name = wallpaper_cache_name(image_path@, display@, ops@);
        assert(path@ =~= in_directory(wallpapers_dir@, name));
    }
    string_of(&path)
}

/// The paths of the cache files of an image, one for each display, in the
/// order of the displays.
pub fn cache_paths_for_displays(
    displays: &Vec<Display>,
    ops: &ImageOperations,
    image_path: &str,
    wallpapers_dir: &str,
) -> (paths: Vec<String>)
    ensures
        paths.len() == displays.len(),
        forall|i: int|
            0 <= i < displays.len() ==> (#[trigger] paths[i])@ == in_directory(
                wallpapers_dir@,
                wallpaper_cache_name(image_path@, displays[i]@, ops@),
            ),
{
    let names = get_cached_image_names(displays, ops, image_path);
    get_cached_image_paths(&names, wallpapers_dir)
}

/// The path of the cache file of the palette of an image.
pub fn palette_cache_path(
    ops: &ImageOperations,
    rwal: &RwalParams,
    image_path: &str,
    palettes_dir: &str,
) -> (path: String)
    ensures
        path@ == in_directory(palettes_dir@, palette_cache_name(image_path@, ops@, rwal@)),
{
    let chars = chars_of(image_path);
    let image_name = file_name(&chars);
    let key = palette_key_text(&image_name, ops, rwal);
    let mut path = chars_of(palettes_dir);
    path.push('/');
    append(&mut path, &fingerprint_text(&key));
    string_of(&path)
}

} // verus!
