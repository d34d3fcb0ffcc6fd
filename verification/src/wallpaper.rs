//! What rendering the wallpapers of an image takes: the box to cover, the
//! filter, the operations, and for each display the part to cut out and
//! the cache file to write; and the commands that show them.

use crate::config::{Config, ConfigModel};
use crate::display::{
    bounding_height, bounding_width, displays_max_height, displays_max_width, saturated, Display,
};
use crate::fingerprint::{
    get_cached_image_names, get_cached_image_paths, in_directory, wallpaper_cache_name,
};
use crate::image_ops::{algorithm_of, resize_algorithm, steps_of, ImageStep, ResizeAlgorithm};
use crate::paths::{command_for, expanded, parse_set_command};
use vstd::prelude::*;

verus! {

/// The side of the blank image that stands for one that cannot be read.
pub const FALLBACK_SIDE: u32 = 1000;

/// The part of the scaled image that one display shows, and the cache file
/// it is written to.
pub struct Crop {
    pub x: u32,
    pub y: u32,
    pub w: u32,
    pub h: u32,
    pub path: String,
}

/// What rendering takes: the size of the box that the scaled image has to
/// cover, the filter of the scaling, the operations applied after it in
/// order, and a part for each display.
pub struct RenderPlan {
    pub width: u32,
    pub height: u32,
    pub filter: ResizeAlgorithm,
    pub steps: Vec<ImageStep>,
    pub crops: Vec<Crop>,
}

/// Rendering can be done: the configuration has displays, operations and a
/// filter.
pub open spec fn can_render(c: ConfigModel) -> bool {
    c.displays is Some && c.image_operations is Some && c.resize_algorithm is Some
}

/// Wallpapers can be set: the configuration has displays, operations and a
/// command.
pub open spec fn can_set(c: ConfigModel) -> bool {
    c.displays is Some && c.image_operations is Some && c.set_command is Some
}

/// The part for display `d` shows the display's rectangle and goes to the
/// display's cache file.
pub open spec fn crop_for(crop: Crop, d: Display, config: ConfigModel, image_path: Seq<char>, dir: Seq<char>) -> bool {
    &&& crop.x == d.x
    &&& crop.y == d.y
    &&& crop.w == d.w
    &&& crop.h == d.h
    &&& crop.path@ == in_directory(
        dir,
        wallpaper_cache_name(image_path, d@, config.image_operations.unwrap()),
    )
}

/// What rendering the wallpapers of an image takes; nothing where the
/// configuration lacks displays, operations or a filter.
pub fn plan_wallpaper(config: &Config, image_path: &str, wallpapers_dir: &str) -> (r: Option<
    RenderPlan,
>)
    ensures
        r is Some <==> can_render(config@),
        match r {
            Some(plan) => {
                &&& plan.width == saturated(bounding_width(config.displays.unwrap()@))
                &&& plan.height == saturated(bounding_height(config.displays.unwrap()@))
                &&& plan.filter == algorithm_of(config@.resize_algorithm.unwrap())
                &&& plan.steps@ == steps_of(config.image_operations.unwrap())
                &&& plan.crops.len() == config.displays.unwrap().len()
                &&& forall|i: int|
                    0 <= i < plan.crops.len() ==> crop_for(
                        #[trigger] plan.crops[i],
                        config.displays.unwrap()[i],
                        config@,
                        image_path@,
                        wallpapers_dir@,
                    )
            },
            None => true,
        },
{
    let displays = match &config.displays {
        Some(d) => d,
        None => { return None; },
    };
    let image_ops = match &config.image_operations {
        Some(o) => o,
        None => { return None; },
    };
    let algorithm = match &config.resize_algorithm {
        Some(a) => a,
        None => { return None; },
    };
    let names = get_cached_image_names(displays, image_ops, image_path);
    let paths = get_cached_image_paths(&names, wallpapers_dir);
    let mut crops: Vec<Crop> = Vec::new();
    let mut i: usize = 0;
    while i < displays.len()
        invariant
            i <= displays.len(),
            crops.len() == i,
            paths.len() == displays.len(),
            names.len() == displays.len(),
            config.image_operations == Some(*image_ops),
            forall|k: int|
                0 <= k < displays.len() ==> (#[trigger] names[k])@ == wallpaper_cache_name(
                    image_path@,
                    displays[k]@,
                    image_ops@,
                ),
            forall|k: int|
                0 <= k < displays.len() ==> (#[trigger] paths[k])@ == in_directory(
                    wallpapers_dir@,
                    names[k]@,
                ),
            forall|k: int|
                0 <= k < i ==> crop_for(
                    #[trigger] crops[k],
                    displays[k],
                    config@,
                    image_path@,
                    wallpapers_dir@,
                ),
        decreases displays.len() - i,
    {
        let d = &displays[i];
        crops.push(Crop { x: d.x, y: d.y, w: d.w, h: d.h, path: paths[i].clone() });
        i += 1;
    }
    Some(
        RenderPlan {
            width: displays_max_width(displays),
            height: displays_max_height(displays),
            filter: resize_algorithm(algorithm.as_str()),
            steps: image_ops.steps(),
            crops,
        },
    )
}

/// The commands that show the wallpapers of an image, one for each display
/// in order: the configured command with the display's cache file, the
/// image and the display's name in it. Nothing where the configuration
/// lacks displays, operations or a command.
pub fn wallpaper_commands(config: &Config, image_path: &str, wallpapers_dir: &str, home: &str) -> (r:
    Option<Vec<String>>)
    ensures
        r is Some <==> can_set(config@),
        match r {
            Some(commands) => {
                &&& commands.len() == config.displays.unwrap().len()
                &&& forall|i: int|
                    0 <= i < commands.len() ==> (#[trigger] commands[i])@ == command_for(
                        config@.set_command.unwrap(),
                        expanded(
                            in_directory(
                                wallpapers_dir@,
                                wallpaper_cache_name(
                                    image_path@,
                                    config.displays.unwrap()[i]@,
                                    config@.image_operations.unwrap(),
                                ),
                            ),
                            home@,
                        ),
                        image_path@,
                        config.displays.unwrap()[i].name@,
                    )
            },
            None => true,
        },
{
    let displays = match &config.displays {
        Some(d) => d,
        None => { return None; },
    };
    let image_ops = match &config.image_operations {
        Some(o) => o,
        None => { return None; },
    };
    let set_command = match &config.set_command {
        Some(c) => c,
        None => { return None; },
    };
    let names = get_cached_image_names(displays, image_ops, image_path);
    let paths = get_cached_image_paths(&names, wallpapers_dir);
    let mut commands: Vec<String> = Vec::new();
    let mut i: usize = 0;
    while i < displays.len()
        invariant
            i <= displays.len(),
            commands.len() == i,
            paths.len() == displays.len(),
            names.len() == displays.len(),
            forall|k: int|
                0 <= k < displays.len() ==> (#[trigger] names[k])@ == wallpaper_cache_name(
                    image_path@,
                    displays[k]@,
                    image_ops@,
                ),
            forall|k: int|
                0 <= k < displays.len() ==> (#[trigger] paths[k])@ == in_directory(
                    wallpapers_dir@,
                    names[k]@,
                ),
            forall|k: int|
                0 <= k < i ==> (#[trigger] commands[k])@ == command_for(
                    set_command@,
                    expanded(
                        in_directory(
                            wallpapers_dir@,
                            wallpaper_cache_name(image_path@, displays[k]@, image_ops@),
                        ),
                        home@,
                    ),
                    image_path@,
                    displays[k].name@,
                ),
        decreases displays.len() - i,
    {
        commands.push(
            parse_set_command(
                set_command.as_str(),
                paths[i].as_str(),
                image_path,
                displays[i].name.as_str(),
                home,
            ),
        );
        i += 1;
    }
    Some(commands)
}

/// Whether the wallpapers have to be rendered before they are shown: one
/// of their cache files is not there.
pub fn must_render(present: &Vec<bool>) -> (b: bool)
    ensures
        b == exists|i: int| 0 <= i < present.len() && !present[i],
{
    let mut i: usize = 0;
    while i < present.len()
        invariant
            i <= present.len(),
            forall|k: int| 0 <= k < i ==> present[k],
        decreases present.len() - i,
    {
        if !present[i] {
            return true;
        }
        i += 1;
    }
    false
}

} // verus!
