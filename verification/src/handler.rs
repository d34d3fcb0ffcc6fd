//! What handling a request comes to, short of doing it: the actions on each
//! image and their order, the images of a directory in batches or one of
//! them at random, and the reply.

use crate::config::{Config, ConfigModel};
use crate::fingerprint::{
    extension_of, file_extension, file_name, file_name_of, get_cached_image_names,
    get_cached_image_paths, in_directory, palette_cache_name, palette_cache_path,
    wallpaper_cache_name,
};
use crate::request::{Request, RequestModel};
use crate::text::{append, append_str, chars_of, split, split_on, string_of, texts, views};
use crate::wallpaper::{can_render, can_set};
use rand::seq::IndexedRandom;
use vstd::prelude::*;

verus! {

/// The number of images of a directory that are worked on at a time.
pub const BATCH: usize = 4;

/// Something that can be done for an image.
#[derive(Clone, Copy, PartialEq, Eq, Structural, Debug)]
pub enum Action {
    CachePalette,
    CacheWallpaper,
    ApplyScheme,
    SetWallpaper,
}

/// `s` with `action` after it where `wanted`.
pub open spec fn with_action(s: Seq<Action>, wanted: bool, action: Action) -> Seq<Action> {
    if wanted {
        s.push(action)
    } else {
        s
    }
}

/// The actions that a request asks for, in the order in which they are
/// started: caching the palette unless it is applied, caching the
/// wallpapers unless they are set, applying the palette, setting the
/// wallpapers.
pub open spec fn actions_of(r: RequestModel) -> Seq<Action> {
    let a0 = Seq::<Action>::empty();
    let a1 = with_action(a0, r.c_cache && !r.c_set, Action::CachePalette);
    let a2 = with_action(a1, r.w_cache && !r.w_set, Action::CacheWallpaper);
    let a3 = with_action(a2, r.c_set, Action::ApplyScheme);
    with_action(a3, r.w_set, Action::SetWallpaper)
}

/// A palette can be extracted: the configuration has operations and the
/// settings of extraction.
pub open spec fn can_extract(c: ConfigModel) -> bool {
    c.image_operations is Some && c.rwal_params is Some
}

/// The configuration has what an action needs.
pub open spec fn can_run(action: Action, c: ConfigModel) -> bool {
    match action {
        Action::CachePalette => can_extract(c),
        Action::ApplyScheme => can_extract(c),
        Action::CacheWallpaper => can_render(c),
        Action::SetWallpaper => can_set(c),
    }
}

/// The code of a character with an upper-case letter of ASCII brought to
/// lower case.
pub open spec fn lowered(c: char) -> int {
    let n = c as u32 as int;
    if 65 <= n <= 90 {
        n + 32
    } else {
        n
    }
}

/// `s` is `t` but for the case of letters, `t` being in lower case.
pub open spec fn reads_as(s: Seq<char>, t: Seq<char>) -> bool {
    s.len() == t.len() && forall|i: int| 0 <= i < s.len() ==> lowered(s[i]) == t[i] as u32 as int
}

/// `ext` is the extension of an image in any case of letters.
pub open spec fn is_image_extension(ext: Seq<char>) -> bool {
    reads_as(ext, "jpg"@) || reads_as(ext, "jpeg"@) || reads_as(ext, "webp"@) || reads_as(
        ext,
        "png"@,
    ) || reads_as(ext, "gif"@) || reads_as(ext, "bmp"@) || reads_as(ext, "tiff"@)
}

/// What follows the last `.` of a path, or the path itself, is the
/// extension of an image.
pub open spec fn is_image_path(path: Seq<char>) -> bool {
    is_image_extension(split_on(path, '.').last())
}

/// The file of a directory is an image: its name has the extension of one.
pub open spec fn is_image_entry(path: Seq<char>) -> bool {
    is_image_extension(extension_of(file_name_of(path)))
}

/// The images among the files of a directory, in the order of the files.
pub open spec fn images_among(files: Seq<Seq<char>>) -> Seq<Seq<char>>
    decreases files.len(),
{
    if files.len() == 0 {
        files
    } else if is_image_entry(files.last()) {
        images_among(files.drop_last()).push(files.last())
    } else {
        images_among(files.drop_last())
    }
}

/// The images from `i` on, `BATCH` to a batch, the last batch with what is
/// left.
pub open spec fn batches_from(images: Seq<Seq<char>>, i: int) -> Seq<Seq<Seq<char>>>
    decreases images.len() - i,
{
    if i < 0 || i >= images.len() {
        Seq::<Seq<Seq<char>>>::empty()
    } else if i + BATCH >= images.len() {
        seq![images.subrange(i, images.len() as int)]
    } else {
        seq![images.subrange(i, i + BATCH)] + batches_from(images, i + BATCH)
    }
}

/// The texts of batches of strings.
pub open spec fn batch_texts(b: Seq<Vec<String>>) -> Seq<Seq<Seq<char>>> {
    Seq::new(b.len(), |i: int| texts(b[i]@))
}

/// The actions that a request asks for, in order.
pub fn process_request(request: &Request) -> (r: Vec<Action>)
    ensures
        r@ == actions_of(request@),
{
    let mut r: Vec<Action> = Vec::new();
    if request.c_cache && !request.c_set {
        r.push(Action::CachePalette);
    }
    if request.w_cache && !request.w_set {
        r.push(Action::CacheWallpaper);
    }
    if request.c_set {
        r.push(Action::ApplyScheme);
    }
    if request.w_set {
        r.push(Action::SetWallpaper);
    }
    r
}

/// Whether the configuration has what the action needs. An action that
/// lacks a part is left out; the others of the request are still done.
pub fn action_ready(action: Action, config: &Config) -> (b: bool)
    ensures
        b == can_run(action, config@),
{
    match action {
        Action::CachePalette => config.image_operations.is_some() && config.rwal_params.is_some(),
        Action::ApplyScheme => config.image_operations.is_some() && config.rwal_params.is_some(),
        Action::CacheWallpaper => config.displays.is_some() && config.image_operations.is_some()
            && config.resize_algorithm.is_some(),
        Action::SetWallpaper => config.displays.is_some() && config.image_operations.is_some()
            && config.set_command.is_some(),
    }
}

/// Whether `s` is `t` but for the case of letters.
fn reads(s: &Vec<char>, t: &str) -> (b: bool)
    ensures
        b == reads_as(s@, t@),
{
    let other = chars_of(t);
    if s.len() != other.len() {
        return false;
    }
    let mut i: usize = 0;
    while i < s.len()
        invariant
            i <= s.len(),
            s.len() == other.len(),
            other@ == t@,
            forall|k: int| 0 <= k < i ==> lowered(s@[k]) == other@[k] as u32 as int,
        decreases s.len() - i,
    {
        let n: u32 = s[i] as u32;
        let low: u32 = if 65 <= n && n <= 90 {
            n + 32
        } else {
            n
        };
        if low != other[i] as u32 {
            return false;
        }
        i += 1;
    }
    true
}

/// Whether `ext` is the extension of an image.
fn reads_as_image(ext: &Vec<char>) -> (b: bool)
    ensures
        b == is_image_extension(ext@),
{
    reads(ext, "jpg") || reads(ext, "jpeg") || reads(ext, "webp") || reads(ext, "png") || reads(
        ext,
        "gif",
    ) || reads(ext, "bmp") || reads(ext, "tiff")
}

/// Whether a path names an image by its extension: `jpg`, `jpeg`, `webp`,
/// `png`, `gif`, `bmp` or `tiff`, in any case of letters.
pub fn is_file_image(path: &str) -> (b: bool)
    ensures
        b == is_image_path(path@),
{
    let pieces = split(&chars_of(path), '.');
    let ext = &pieces[pieces.len() - 1];
    proof {
        assert(pieces.len() == views(pieces@).len());
        assert(views(pieces@).last() == ext@);
    }
    reads_as_image(ext)
}

/// The images among the files of a directory: the files whose names have
/// the extension of an image, in the order given.
pub fn directory_images(files: &Vec<String>) -> (r: Vec<String>)
    ensures
        texts(r@) == images_among(texts(files@)),
{
    let mut r: Vec<String> = Vec::new();
    let mut i: usize = 0;
    while i < files.len()
        invariant
            i <= files.len(),
            texts(r@) == images_among(texts(files@).subrange(0, i as int)),
        decreases files.len() - i,
    {
        proof {
            let next = texts(files@).subrange(0, i + 1);
            assert(next.drop_last() == texts(files@).subrange(0, i as int));
            assert(next.last() == files@[i as int]@);
        }
        let name = file_name(&chars_of(files[i].as_str()));
        if reads_as_image(&file_extension(&name)) {
            let ghost before = r@;
            r.push(files[i].clone());
            proof {
                assert(texts(r@) =~= texts(before).push(files@[i as int]@));
            }
        }
        i += 1;
    }
    proof {
        assert(texts(files@).subrange(0, files.len() as int) == texts(files@));
    }
    r
}

/// One of `strings`, as `IndexedRandom::choose` of `rand` picks it with
/// the generator of the thread: none of no strings, else one of them.
/// Which one it is differs from call to call.
#[verifier::external_body]
fn pick(strings: &Vec<String>) -> (r: Option<String>)
    ensures
        strings.len() == 0 ==> r is None,
        strings.len() > 0 ==> r is Some,
        r matches Some(s) ==> exists|i: int| 0 <= i < strings.len() && strings[i]@ == s@,
{
    strings.choose(&mut rand::rng()).cloned()
}

/// What random choice gave is one of the texts, and nothing only of no
/// texts.
pub open spec fn chosen_from(all: Seq<Seq<char>>, r: Option<String>) -> bool {
    match r {
        Some(s) => all.contains(s@),
        None => all.len() == 0,
    }
}

/// One of the strings, picked at random; none where there is none to pick.
pub fn select_random(strings: Vec<String>) -> (r: Option<String>)
    ensures
        chosen_from(texts(strings@), r),
{
    let r = pick(&strings);
    proof {
        if r is Some {
            let t = r->0@;
            let i = choose|i: int| 0 <= i < strings.len() && strings[i]@ == t;
            assert(texts(strings@)[i] == t);
        }
    }
    r
}

/// The images four to a batch, in order.
pub fn batches(images: &Vec<String>) -> (r: Vec<Vec<String>>)
    ensures
        batch_texts(r@) == batches_from(texts(images@), 0),
{
    let mut r: Vec<Vec<String>> = Vec::new();
    let mut i: usize = 0;
    let ghost all = batches_from(texts(images@), 0);
    proof {
        assert(batch_texts(r@) + batches_from(texts(images@), 0) =~= all);
    }
    while i < images.len()
        invariant
            i <= images.len(),
            all == batches_from(texts(images@), 0),
            all == batch_texts(r@) + batches_from(texts(images@), i as int),
        decreases images.len() - i,
    {
        let end: usize = if images.len() - i <= BATCH {
            images.len()
        } else {
            i + BATCH
        };
        let mut batch: Vec<String> = Vec::new();
        let mut k: usize = i;
        while k < end
            invariant
                i <= k <= end <= images.len(),
                texts(batch@) == texts(images@).subrange(i as int, k as int),
            decreases end - k,
        {
            let ghost before = batch@;
            batch.push(images[k].clone());
            proof {
                assert(texts(batch@) =~= texts(before).push(images@[k as int]@));
                assert(texts(images@).subrange(i as int, k + 1) =~= texts(images@).subrange(
                    i as int,
                    k as int,
                ).push(images@[k as int]@));
            }
            k += 1;
        }
        let ghost before = r@;
        let ghost bt = texts(batch@);
        r.push(batch);
        proof {
            assert(batch_texts(r@) =~= batch_texts(before).push(bt));
            let rest = batches_from(texts(images@), end as int);
            assert(batches_from(texts(images@), i as int) =~= seq![bt] + rest);
            assert(batch_texts(r@) + rest =~= batch_texts(before) + (seq![bt] + rest));
        }
        i = end;
    }
    proof {
        assert(batch_texts(r@) + Seq::<Seq<Seq<char>>>::empty() =~= batch_texts(r@));
    }
    r
}

/// What a path was found to be.
#[derive(Clone, Copy, PartialEq, Eq, Structural, Debug)]
pub enum Target {
    Missing,
    Directory,
    File,
}

/// The images to work on, in batches that are done one after the other,
/// and what the reply says of it.
pub struct ImageWork {
    pub batches: Vec<Vec<String>>,
    pub message: String,
}

/// The message for a number of images of a directory.
pub open spec fn processed_message(n: nat) -> Seq<char> {
    "processed "@ + crate::number::decimal_digits(n) + " images"@
}

/// What a request asks for an image path comes to, given what the path was
/// found to be and, for a directory, the files under it. A path that does
/// not exist, a file that is no image and a directory without an image to
/// pick are errors. For a directory the request is applied to every image
/// among its files, four at a time, where it asks for all, and else to one
/// of them picked at random.
pub open spec fn image_work_ok(
    request: RequestModel,
    target: Target,
    image_path: Seq<char>,
    files: Seq<Seq<char>>,
    r: Result<ImageWork, String>,
) -> bool {
    let images = images_among(files);
    match target {
        Target::Missing => r matches Err(e) && e@ == "path does not exists"@,
        Target::Directory => if request.affect_all {
            r matches Ok(w) && batch_texts(w.batches@) == batches_from(images, 0) && w.message@
                == processed_message(images.len())
        } else if images.len() == 0 {
            r matches Err(e) && e@ == "Directory is empty"@
        } else {
            r matches Ok(w) && w.batches.len() == 1 && w.batches[0].len() == 1 && chosen_from(
                images,
                Some(w.batches[0][0]),
            ) && w.message@ == processed_message(1)
        },
        Target::File => if is_image_path(image_path) {
            r matches Ok(w) && batch_texts(w.batches@) == seq![seq![image_path]] && w.message@
                == "request processed"@
        } else {
            r matches Err(e) && e@ == "file is not an image or has unsuported format"@
        },
    }
}

/// The message for a number of images of a directory.
fn message_for(n: usize) -> (r: String)
    ensures
        r@ == processed_message(n as nat),
{
    let mut t = chars_of("processed ");
    append(&mut t, &crate::number::decimal_text(n as u64));
    append_str(&mut t, " images");
    string_of(&t)
}

/// What a request asks for an image path comes to.
pub fn image_work(request: &Request, target: Target, image_path: &str, files: &Vec<String>) -> (r:
    Result<ImageWork, String>)
    ensures
        image_work_ok(request@, target, image_path@, texts(files@), r),
{
    match target {
        Target::Missing => Err(String::from_str("path does not exists")),
        Target::Directory => {
            let images = directory_images(files);
            proof {
                assert(images.len() == texts(images@).len());
            }
            if request.affect_all {
                Ok(ImageWork { batches: batches(&images), message: message_for(images.len()) })
            } else {
                match select_random(images) {
                    Some(wallpaper) => {
                        let mut batch: Vec<String> = Vec::new();
                        batch.push(wallpaper);
                        let mut all_batches: Vec<Vec<String>> = Vec::new();
                        all_batches.push(batch);
                        Ok(ImageWork { batches: all_batches, message: message_for(1) })
                    },
                    None => Err(String::from_str("Directory is empty")),
                }
            }
        },
        Target::File => {
            if !is_file_image(image_path) {
                Err(String::from_str("file is not an image or has unsuported format"))
            } else {
                let mut batch: Vec<String> = Vec::new();
                batch.push(String::from_str(image_path));
                let mut all_batches: Vec<Vec<String>> = Vec::new();
                all_batches.push(batch);
                proof {
                    assert(batch_texts(all_batches@) =~= seq![texts(all_batches@[0]@)]);
                    assert(texts(all_batches@[0]@) =~= seq![image_path@]);
                }
                Ok(
                    ImageWork {
                        batches: all_batches,
                        message: String::from_str("request processed"),
                    },
                )
            }
        },
    }
}

/// The paths of the cache files of the wallpapers of an image, for the
/// reply to a request that asks for them: one for each display, nothing
/// where the configuration lacks displays or operations.
pub fn cached_wallpaper_paths(config: &Config, image_path: &str, wallpapers_dir: &str) -> (r:
    Option<Vec<String>>)
    ensures
        r is Some <==> config.displays is Some && config.image_operations is Some,
        match r {
            Some(paths) => {
                &&& paths.len() == config.displays.unwrap().len()
                &&& forall|i: int|
                    0 <= i < paths.len() ==> (#[trigger] paths[i])@ == in_directory(
                        wallpapers_dir@,
                        wallpaper_cache_name(
                            image_path@,
                            config.displays.unwrap()[i]@,
                            config.image_operations.unwrap()@,
                        ),
                    )
            },
            None => true,
        },
{
    match (&config.displays, &config.image_operations) {
        (Some(displays), Some(img_ops)) => {
            let names = get_cached_image_names(displays, img_ops, image_path);
            Some(get_cached_image_paths(&names, wallpapers_dir))
        },
        _ => None,
    }
}

/// The path of the cache file of the palette of an image; nothing where
/// the configuration lacks operations or the settings of extraction.
pub fn cached_palette_path(config: &Config, image_path: &str, palettes_dir: &str) -> (r: Option<
    String,
>)
    ensures
        r is Some <==> can_extract(config@),
        match r {
            Some(path) => path@ == in_directory(
                palettes_dir@,
                palette_cache_name(
                    image_path@,
                    config.image_operations.unwrap()@,
                    config.rwal_params.unwrap()@,
                ),
            ),
            None => true,
        },
{
    match (&config.image_operations, &config.rwal_params) {
        (Some(image_ops), Some(rwal_params)) => Some(
            palette_cache_path(image_ops, rwal_params, image_path, palettes_dir),
        ),
        _ => None,
    }
}

/// What a reply holds besides its times and its message or error.
#[derive(Clone, Copy, PartialEq, Eq, Structural, Debug)]
pub struct ReplyParts {
    /// The live configuration.
    pub config: bool,
    /// The palette of the image.
    pub palette: bool,
    /// The paths of the cache files of the wallpapers of the image.
    pub wallpapers: bool,
}

/// What the reply to a request holds: the configuration where the request
/// asks for it, and the palette and the paths of the wallpapers where it
/// asks for them, names an image, and the image's path was found.
pub fn reply_parts(request: &Request, found: bool) -> (r: ReplyParts)
    ensures
        r.config == request.get_config,
        r.palette == (request.get_c_cache && request.image is Some && found),
        r.wallpapers == (request.get_w_cache && request.image is Some && found),
{
    let for_image = request.image.is_some() && found;
    ReplyParts {
        config: request.get_config,
        palette: request.get_c_cache && for_image,
        wallpapers: request.get_w_cache && for_image,
    }
}

/// The reply to a request.
pub struct Reply {
    pub start_time: u128,
    pub end_time: u128,
    pub time_elapsed: u128,
    pub message: Option<String>,
    pub error: Option<String>,
    pub config: Option<String>,
    pub w_cache: Option<Option<Vec<String>>>,
    pub c_cache: Option<Option<Vec<String>>>,
}

/// The time between two instants; nothing where the clock went back.
pub open spec fn elapsed(start: u128, end: u128) -> u128 {
    if end >= start {
        (end - start) as u128
    } else {
        0
    }
}

impl Reply {
    /// The reply to a request that began at `start_time`, before anything
    /// is known of it.
    pub fn new(start_time: u128) -> (r: Self)
        ensures
            r.start_time == start_time,
            r.end_time == start_time,
            r.time_elapsed == 0,
            r.message is None,
            r.error is None,
            r.config is None,
            r.w_cache is None,
            r.c_cache is None,
    {
        Reply {
            start_time,
            end_time: start_time,
            time_elapsed: 0,
            message: None,
            error: None,
            config: None,
            w_cache: None,
            c_cache: None,
        }
    }

    /// The reply to a request that cannot be read: both times, and the
    /// error.
    pub fn malformed(start_time: u128, end_time: u128) -> (r: Self)
        ensures
            r.start_time == start_time,
            r.end_time == end_time,
            r.time_elapsed == elapsed(start_time, end_time),
            r.message is None,
            r.error matches Some(e) && e@ == "error while deserializing request"@,
            r.config is None,
            r.w_cache is None,
            r.c_cache is None,
    {
        let mut r = Reply::new(start_time);
        r.error = Some(String::from_str("error while deserializing request"));
        r.finish(end_time);
        r
    }

    /// Takes the outcome of the work on an image: its message, or its
    /// error.
    pub fn record(&mut self, outcome: Result<String, String>)
        ensures
            final(self).start_time == old(self).start_time,
            final(self).end_time == old(self).end_time,
            final(self).time_elapsed == old(self).time_elapsed,
            final(self).config == old(self).config,
            final(self).w_cache == old(self).w_cache,
            final(self).c_cache == old(self).c_cache,
            match outcome {
                Ok(m) => final(self).message == Some(m) && final(self).error == old(self).error,
                Err(e) => final(self).error == Some(e) && final(self).message == old(self).message,
            },
    {
        match outcome {
            Ok(m) => {
                self.message = Some(m);
            },
            Err(e) => {
                self.error = Some(e);
            },
        }
    }

    /// Takes the time at which the request was done.
    pub fn finish(&mut self, end_time: u128)
        ensures
            final(self).start_time == old(self).start_time,
            final(self).end_time == end_time,
            final(self).time_elapsed == elapsed(old(self).start_time, end_time),
            final(self).message == old(self).message,
            final(self).error == old(self).error,
            final(self).config == old(self).config,
            final(self).w_cache == old(self).w_cache,
            final(self).c_cache == old(self).c_cache,
    {
        self.end_time = end_time;
        self.time_elapsed = if end_time >= self.start_time {
            end_time - self.start_time
        } else {
            0
        };
    }
}

} // verus!
