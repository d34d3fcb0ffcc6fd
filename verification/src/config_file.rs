//! The configuration that a JSON document makes of the one before it: a
//! key that the document has sets its part, a key that it lacks changes
//! nothing.

use crate::config::{Config, ConfigModel};
use crate::decimal::{lemma_whole_number_is_canonical, Decimal};
use crate::number::{all_digits, digit_value};
use crate::display::{display_views, Display, DisplayModel};
use crate::image_ops::{ImageOperations, OperationsModel};
use crate::json::{
    at, bool_value, elements, member, real_value, signed_value, text_value, unsigned_value, Json,
};
use crate::paths::{expand_user, expanded};
use crate::rwal_params::{configured_order_of, OrderBy, RwalModel, RwalParams};
use crate::text::{str_eq, texts};
use vstd::prelude::*;

verus! {

/// The low 32 bits of a number.
pub open spec fn low_u32(v: u64) -> u32 {
    (v % 0x1_0000_0000) as u32
}

/// The low 32 bits of a number, read with sign.
pub open spec fn low_i32(v: i64) -> i32 {
    (((v + 0x8000_0000) % 0x1_0000_0000) - 0x8000_0000) as i32
}

/// The display that an object with `name`, `w`, `h`, `x` and `y` gives.
pub open spec fn display_of_json(j: Json) -> Option<DisplayModel> {
    match (
        text_value(at(j, "name"@)),
        unsigned_value(at(j, "w"@)),
        unsigned_value(at(j, "h"@)),
        unsigned_value(at(j, "x"@)),
        unsigned_value(at(j, "y"@)),
    ) {
        (Some(name), Some(w), Some(h), Some(x), Some(y)) => Some(
            DisplayModel { name, w: low_u32(w), h: low_u32(h), x: low_u32(x), y: low_u32(y) },
        ),
        _ => None,
    }
}

/// The displays that the elements give, if each gives one.
pub open spec fn displays_of_elements(items: Seq<Json>) -> Option<Seq<DisplayModel>>
    decreases items.len(),
{
    if items.len() == 0 {
        Some(Seq::<DisplayModel>::empty())
    } else {
        match (displays_of_elements(items.drop_last()), display_of_json(items.last())) {
            (Some(before), Some(d)) => Some(before.push(d)),
            _ => None,
        }
    }
}

/// The displays of a document: those of the array under `displays`, if it
/// is an array of displays.
pub open spec fn displays_of_json(value: Json) -> Option<Seq<DisplayModel>> {
    match elements(at(value, "displays"@)) {
        Some(items) => displays_of_elements(items),
        None => None,
    }
}

/// The paths among the elements, each with the home directory in place of
/// a leading `~/`, but for those listed as missing.
pub open spec fn kept_templates(items: Seq<Json>, home: Seq<char>, missing: Seq<Seq<char>>) -> Seq<
    Seq<char>,
>
    decreases items.len(),
{
    if items.len() == 0 {
        Seq::<Seq<char>>::empty()
    } else {
        let before = kept_templates(items.drop_last(), home, missing);
        match text_value(items.last()) {
            Some(p) => if missing.contains(expanded(p, home)) {
                before
            } else {
                before.push(expanded(p, home))
            },
            None => before,
        }
    }
}

/// The templates of a document: the paths of the array under `templates`
/// that are not missing.
pub open spec fn templates_of_json(value: Json, home: Seq<char>, missing: Seq<Seq<char>>) -> Option<
    Seq<Seq<char>>,
> {
    match elements(at(value, "templates"@)) {
        Some(items) => Some(kept_templates(items, home, missing)),
        None => None,
    }
}

/// The low 32 bits of the whole number under `key`, or `default`.
pub open spec fn u32_at(j: Json, key: Seq<char>, default: u32) -> u32 {
    match unsigned_value(at(j, key)) {
        Some(v) => low_u32(v),
        None => default,
    }
}

/// The low 32 bits of the signed whole number under `key`, or `default`.
pub open spec fn i32_at(j: Json, key: Seq<char>, default: i32) -> i32 {
    match signed_value(at(j, key)) {
        Some(v) => low_i32(v),
        None => default,
    }
}

/// The decimal under `key`, or `default`.
pub open spec fn real_at(j: Json, key: Seq<char>, default: Seq<char>) -> Seq<char> {
    match real_value(at(j, key)) {
        Some(v) => v,
        None => default,
    }
}

/// The truth value under `key`, or `default`.
pub open spec fn bool_at(j: Json, key: Seq<char>, default: bool) -> bool {
    match bool_value(at(j, key)) {
        Some(v) => v,
        None => default,
    }
}

/// The settings of extraction where nothing says otherwise.
pub open spec fn default_rwal() -> RwalModel {
    RwalModel {
        thumb_range: (200, 200),
        clamp_range: ("140"@, "170"@),
        accent_color: 4,
        colors: 7,
        order: OrderBy::Hue,
    }
}

/// The operations where nothing says otherwise: none.
pub open spec fn default_operations() -> OperationsModel {
    OperationsModel {
        contrast: "0"@,
        brightness: 0,
        hue: 0,
        blur: "0"@,
        invert: false,
        flip_h: false,
        flip_v: false,
    }
}

/// The settings of extraction after a document: unchanged where the
/// document has no member `rwal`; else each setting as the member gives
/// it, and where the member does not give it, as it was before or, where
/// there were no settings before, its default.
pub open spec fn rwal_of_json(before: Option<RwalModel>, value: Json) -> Option<RwalModel> {
    match member(value, "rwal"@) {
        Some(rwal) => {
            let under = match before {
                Some(p) => p,
                None => default_rwal(),
            };
            Some(
                RwalModel {
                    thumb_range: (
                        u32_at(rwal, "thumb_w"@, under.thumb_range.0),
                        u32_at(rwal, "thumb_h"@, under.thumb_range.1),
                    ),
                    clamp_range: (
                        real_at(rwal, "clamp_min"@, under.clamp_range.0),
                        real_at(rwal, "clamp_max"@, under.clamp_range.1),
                    ),
                    accent_color: u32_at(rwal, "accent_color"@, under.accent_color),
                    colors: u32_at(rwal, "rwal_colors"@, under.colors),
                    order: match text_value(at(rwal, "order_by"@)) {
                        Some(tag) => configured_order_of(tag),
                        None => under.order,
                    },
                },
            )
        },
        None => before,
    }
}

/// The operations after a document: unchanged where the document has no
/// member `impg`; else each operation as the member gives it, and where
/// the member does not give it, as it was before or, where there were no
/// operations before, none.
pub open spec fn operations_of_json(before: Option<OperationsModel>, value: Json) -> Option<
    OperationsModel,
> {
    match member(value, "impg"@) {
        Some(impg) => {
            let under = match before {
                Some(o) => o,
                None => default_operations(),
            };
            Some(
                OperationsModel {
                    contrast: real_at(impg, "contrast"@, under.contrast),
                    brightness: i32_at(impg, "brightness"@, under.brightness),
                    hue: i32_at(impg, "huerotate"@, under.hue),
                    blur: real_at(impg, "blur"@, under.blur),
                    invert: bool_at(impg, "invert"@, under.invert),
                    flip_h: bool_at(impg, "flip_h"@, under.flip_h),
                    flip_v: bool_at(impg, "flip_v"@, under.flip_v),
                },
            )
        },
        None => before,
    }
}

/// What a key of a document makes of a part: what the document gives for
/// the key where it has the key, and the part as it was where it has not.
pub open spec fn part_after<T>(before: Option<T>, value: Json, key: Seq<char>, given: Option<T>) -> Option<
    T,
> {
    if member(value, key) is Some {
        given
    } else {
        before
    }
}

/// The configuration after a document. A key that the document lacks
/// changes nothing; a key that it has sets its part, to nothing where what
/// stands under the key cannot be read.
pub open spec fn config_of_json(
    before: ConfigModel,
    value: Json,
    home: Seq<char>,
    missing: Seq<Seq<char>>,
) -> ConfigModel {
    ConfigModel {
        displays: part_after(before.displays, value, "displays"@, displays_of_json(value)),
        templates: part_after(
            before.templates,
            value,
            "templates"@,
            templates_of_json(value, home, missing),
        ),
        set_command: part_after(
            before.set_command,
            value,
            "wall_command"@,
            text_value(at(value, "wall_command"@)),
        ),
        resize_algorithm: part_after(
            before.resize_algorithm,
            value,
            "resize_algorithm"@,
            text_value(at(value, "resize_algorithm"@)),
        ),
        last_call_file: part_after(
            before.last_call_file,
            value,
            "last_call_file"@,
            match text_value(at(value, "last_call_file"@)) {
                Some(p) => Some(expanded(p, home)),
                None => None,
            },
        ),
        rwal_params: rwal_of_json(before.rwal_params, value),
        image_operations: operations_of_json(before.image_operations, value),
    }
}

/// The member of `key`, and `Null` where there is none.
fn index<'a>(j: &'a Json, key: &str, null: &'a Json) -> (r: &'a Json)
    requires
        *null == Json::Null,
    ensures
        *r == at(*j, key@),
{
    match j.get(key) {
        Some(v) => v,
        None => null,
    }
}

/// The low 32 bits of a number.
fn truncate_u32(v: u64) -> (r: u32)
    ensures
        r == low_u32(v),
{
    (v % 0x1_0000_0000) as u32
}

/// The low 32 bits of a number, read with sign.
fn truncate_i32(v: i64) -> (r: i32)
    ensures
        r == low_i32(v),
{
    let shifted: i128 = v as i128 + 0x8000_0000;
    let rem: i128 = shifted % 0x1_0000_0000;
    let low: i128 = if rem < 0 {
        rem + 0x1_0000_0000
    } else {
        rem
    };
    (low - 0x8000_0000) as i32
}

/// The display that an object gives.
fn read_display(j: &Json) -> (r: Option<Display>)
    ensures
        match r {
            Some(d) => display_of_json(*j) == Some(d@),
            None => display_of_json(*j) is None,
        },
{
    let null = Json::Null;
    let name = match index(j, "name", &null).as_str() {
        Some(s) => String::from_str(s),
        None => { return None; },
    };
    let w = match index(j, "w", &null).as_u64() {
        Some(v) => truncate_u32(v),
        None => { return None; },
    };
    let h = match index(j, "h", &null).as_u64() {
        Some(v) => truncate_u32(v),
        None => { return None; },
    };
    let x = match index(j, "x", &null).as_u64() {
        Some(v) => truncate_u32(v),
        None => { return None; },
    };
    let y = match index(j, "y", &null).as_u64() {
        Some(v) => truncate_u32(v),
        None => { return None; },
    };
    Some(Display::new(name, w, h, x, y))
}

/// The displays of a document.
pub fn read_displays(value: &Json) -> (r: Option<Vec<Display>>)
    ensures
        crate::config::displays_of(r) == displays_of_json(*value),
{
    let null = Json::Null;
    let items = match index(value, "displays", &null).as_array() {
        Some(v) => v,
        None => { return None; },
    };
    let mut displays: Vec<Display> = Vec::new();
    let mut i: usize = 0;
    while i < items.len()
        invariant
            i <= items.len(),
            displays_of_json(*value) == displays_of_elements(items@),
            displays_of_elements(items@.subrange(0, i as int)) == Some(display_views(displays@)),
        decreases items.len() - i,
    {
        proof {
            let next = items@.subrange(0, i + 1);
            assert(next.drop_last() == items@.subrange(0, i as int));
            assert(next.last() == items@[i as int]);
            assert(items@.subrange(0, items.len() as int) == items@);
        }
        match read_display(&items[i]) {
            Some(d) => {
                let ghost before = displays@;
                let ghost dv = d@;
                displays.push(d);
                proof {
                    assert(display_views(displays@) =~= display_views(before).push(dv));
                }
            },
            None => {
                proof {
                    assert(displays_of_elements(items@.subrange(0, i + 1)) is None);
                    lemma_displays_fail(items@, i + 1);
                }
                return None;
            },
        }
        i += 1;
    }
    proof {
        assert(items@.subrange(0, items.len() as int) == items@);
    }
    Some(displays)
}

/// Where the first `k` elements do not all give displays, neither do all.
proof fn lemma_displays_fail(items: Seq<Json>, k: int)
    requires
        0 <= k <= items.len(),
        displays_of_elements(items.subrange(0, k)) is None,
    ensures
        displays_of_elements(items) is None,
    decreases items.len() - k,
{
    if k == items.len() {
        assert(items.subrange(0, k) == items);
    } else {
        let t = items.drop_last();
        assert(t.subrange(0, k) == items.subrange(0, k));
        lemma_displays_fail(t, k);
    }
}

/// Whether `path` is among `missing`.
fn is_missing(path: &String, missing: &Vec<String>) -> (b: bool)
    ensures
        b == texts(missing@).contains(path@),
{
    let mut i: usize = 0;
    while i < missing.len()
        invariant
            i <= missing.len(),
            forall|k: int| 0 <= k < i ==> texts(missing@)[k] != path@,
        decreases missing.len() - i,
    {
        proof {
            assert(texts(missing@)[i as int] == missing@[i as int]@);
        }
        if str_eq(missing[i].as_str(), path.as_str()) {
            return true;
        }
        i += 1;
    }
    false
}

/// The templates of a document: its paths, each with the home directory in
/// place of a leading `~/`, without those listed as missing.
pub fn read_templates(value: &Json, home: &str, missing: &Vec<String>) -> (r: Option<Vec<String>>)
    ensures
        crate::config::texts_of(r) == templates_of_json(*value, home@, texts(missing@)),
{
    let null = Json::Null;
    let items = match index(value, "templates", &null).as_array() {
        Some(v) => v,
        None => { return None; },
    };
    let mut templates: Vec<String> = Vec::new();
    let mut i: usize = 0;
    while i < items.len()
        invariant
            i <= items.len(),
            texts(templates@) == kept_templates(
                items@.subrange(0, i as int),
                home@,
                texts(missing@),
            ),
        decreases items.len() - i,
    {
        proof {
            let next = items@.subrange(0, i + 1);
            assert(next.drop_last() == items@.subrange(0, i as int));
            assert(next.last() == items@[i as int]);
        }
        match items[i].as_str() {
            Some(path) => {
                let full = expand_user(path, home);
                if !is_missing(&full, missing) {
                    let ghost before = templates@;
                    let ghost fv = full@;
                    templates.push(full);
                    proof {
                        assert(texts(templates@) =~= texts(before).push(fv));
                    }
                }
            },
            None => {},
        }
        i += 1;
    }
    proof {
        assert(items@.subrange(0, items.len() as int) == items@);
    }
    Some(templates)
}

/// The text under `key`, if there is text.
fn read_text(value: &Json, key: &str) -> (r: Option<String>)
    ensures
        crate::config::text_of(r) == text_value(at(*value, key@)),
{
    let null = Json::Null;
    match index(value, key, &null).as_str() {
        Some(s) => Some(String::from_str(s)),
        None => None,
    }
}

/// The low 32 bits of the whole number under `key`, or `default`.
fn read_u32(j: &Json, key: &str, default: u32) -> (r: u32)
    ensures
        r == u32_at(*j, key@, default),
{
    let null = Json::Null;
    match index(j, key, &null).as_u64() {
        Some(v) => truncate_u32(v),
        None => default,
    }
}

/// The low 32 bits of the signed whole number under `key`, or `default`.
fn read_i32(j: &Json, key: &str, default: i32) -> (r: i32)
    ensures
        r == i32_at(*j, key@, default),
{
    let null = Json::Null;
    match index(j, key, &null).as_i64() {
        Some(v) => truncate_i32(v),
        None => default,
    }
}

/// The decimal under `key`, or `default`.
fn read_real(j: &Json, key: &str, default: &Decimal) -> (r: Decimal)
    ensures
        r@ == real_at(*j, key@, default@),
{
    let null = Json::Null;
    match index(j, key, &null).as_real() {
        Some(v) => v,
        None => default.clone(),
    }
}

/// The truth value under `key`, or `default`.
fn read_bool(j: &Json, key: &str, default: bool) -> (r: bool)
    ensures
        r == bool_at(*j, key@, default),
{
    let null = Json::Null;
    match index(j, key, &null).as_bool() {
        Some(v) => v,
        None => default,
    }
}

/// The decimal that the digits of a whole number name.
fn whole(digits: &str) -> (r: Decimal)
    requires
        digits@.len() > 0,
        all_digits(digits@, 10),
        digits@[0] != '0' || digits@.len() == 1,
    ensures
        r@ == digits@,
{
    proof {
        lemma_whole_number_is_canonical(digits@);
    }
    Decimal { text: String::from_str(digits) }
}

/// The settings of extraction where nothing says otherwise.
pub fn rwal_defaults() -> (r: RwalParams)
    ensures
        r@ == default_rwal(),
{
    proof {
        reveal_strlit("140");
        reveal_strlit("170");
        assert(digit_value('1', 10) is Some && digit_value('4', 10) is Some && digit_value('7', 10)
            is Some && digit_value('0', 10) is Some);
        assert(all_digits("140"@, 10));
        assert(all_digits("170"@, 10));
    }
    RwalParams::new((200, 200), (whole("140"), whole("170")), 4, 7, OrderBy::Hue)
}

/// The operations where nothing says otherwise: none.
pub fn operations_defaults() -> (r: ImageOperations)
    ensures
        r@ == default_operations(),
{
    proof {
        reveal_strlit("0");
        assert(digit_value('0', 10) is Some);
        assert(all_digits("0"@, 10));
    }
    ImageOperations::new(whole("0"), 0, 0, whole("0"), false, false, false)
}

/// The settings of extraction after a document.
pub fn read_rwal_params(before: &Option<RwalParams>, value: &Json) -> (r: Option<RwalParams>)
    ensures
        crate::config::rwal_of(r) == rwal_of_json(crate::config::rwal_of(*before), *value),
{
    let rwal = match value.get("rwal") {
        Some(v) => v,
        None => {
            return match before {
                Some(p) => Some(p.clone()),
                None => None,
            };
        },
    };
    let under = match before {
        Some(p) => p.clone(),
        None => rwal_defaults(),
    };
    let null = Json::Null;
    let thumb_range = (
        read_u32(rwal, "thumb_w", under.thumb_range.0),
        read_u32(rwal, "thumb_h", under.thumb_range.1),
    );
    let clamp_range = (
        read_real(rwal, "clamp_min", &under.clamp_range.0),
        read_real(rwal, "clamp_max", &under.clamp_range.1),
    );
    let accent_color = read_u32(rwal, "accent_color", under.accent_color);
    let colors = read_u32(rwal, "rwal_colors", under.colors);
    let order = match index(rwal, "order_by", &null).as_str() {
        Some(tag) => OrderBy::from_config(tag),
        None => under.order,
    };
    Some(RwalParams::new(thumb_range, clamp_range, accent_color, colors, order))
}

/// The operations after a document.
pub fn read_image_operations(before: &Option<ImageOperations>, value: &Json) -> (r: Option<
    ImageOperations,
>)
    ensures
        crate::config::operations_of(r) == operations_of_json(
            crate::config::operations_of(*before),
            *value,
        ),
{
    let impg = match value.get("impg") {
        Some(v) => v,
        None => {
            return match before {
                Some(o) => Some(o.clone()),
                None => None,
            };
        },
    };
    let under = match before {
        Some(o) => o.clone(),
        None => operations_defaults(),
    };
    let contrast = read_real(impg, "contrast", &under.contrast);
    let brightness = read_i32(impg, "brightness", under.brightness);
    let hue = read_i32(impg, "huerotate", under.hue);
    let blur = read_real(impg, "blur", &under.blur);
    let invert = read_bool(impg, "invert", under.invert);
    let flip_h = read_bool(impg, "flip_h", under.flip_h);
    let flip_v = read_bool(impg, "flip_v", under.flip_v);
    Some(ImageOperations::new(contrast, brightness, hue, blur, invert, flip_h, flip_v))
}

impl Config {
    /// Takes what a document gives: a key that the document has sets its
    /// part, a key that it lacks changes nothing. `missing` lists the
    /// templates, by their full paths, that are left out.
    pub fn read_from_json(&mut self, value: &Json, home: &str, missing: &Vec<String>)
        ensures
            final(self)@ == config_of_json(old(self)@, *value, home@, texts(missing@)),
    {
        if value.get("displays").is_some() {
            self.displays = read_displays(value);
        }
        if value.get("templates").is_some() {
            self.templates = read_templates(value, home, missing);
        }
        if value.get("wall_command").is_some() {
            self.set_command = read_text(value, "wall_command");
        }
        if value.get("resize_algorithm").is_some() {
            self.resize_algorithm = read_text(value, "resize_algorithm");
        }
        if value.get("last_call_file").is_some() {
            self.last_call_file = match read_text(value, "last_call_file") {
                Some(p) => Some(expand_user(p.as_str(), home)),
                None => None,
            };
        }
        let rwal = read_rwal_params(&self.rwal_params, value);
        self.rwal_params = rwal;
        let ops = read_image_operations(&self.image_operations, value);
        self.image_operations = ops;
    }
}

/// A document that has none of the keys of a configuration changes
/// nothing.
pub proof fn lemma_absent_keys_change_nothing(
    before: ConfigModel,
    value: Json,
    home: Seq<char>,
    missing: Seq<Seq<char>>,
)
    requires
        member(value, "displays"@) is None,
        member(value, "templates"@) is None,
        member(value, "wall_command"@) is None,
        member(value, "resize_algorithm"@) is None,
        member(value, "last_call_file"@) is None,
        member(value, "rwal"@) is None,
        member(value, "impg"@) is None,
    ensures
        config_of_json(before, value, home, missing) == before,
{
}

/// A key that a document lacks leaves its part as it was, whatever the
/// document holds under its other keys.
pub proof fn lemma_absent_key_keeps_its_part(
    before: ConfigModel,
    value: Json,
    home: Seq<char>,
    missing: Seq<Seq<char>>,
)
    ensures
        ({
            let after = config_of_json(before, value, home, missing);
            &&& member(value, "displays"@) is None ==> after.displays == before.displays
            &&& member(value, "templates"@) is None ==> after.templates == before.templates
            &&& member(value, "wall_command"@) is None ==> after.set_command == before.set_command
            &&& member(value, "resize_algorithm"@) is None ==> after.resize_algorithm
                == before.resize_algorithm
            &&& member(value, "last_call_file"@) is None ==> after.last_call_file
                == before.last_call_file
            &&& member(value, "rwal"@) is None ==> after.rwal_params == before.rwal_params
            &&& member(value, "impg"@) is None ==> after.image_operations
                == before.image_operations
        }),
{
}

} // verus!
