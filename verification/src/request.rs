//! A request: the actions asked for, the image they are for, and what the
//! request puts over the live configuration.

use crate::config::{decimal_of, displays_of, text_of, texts_of};
use crate::decimal::{canonical_decimal, canonical_text, Decimal};
use crate::display::{
    display_of_fields, display_views, field_value, Display, DisplayModel,
};
use crate::number::{parsed_within, read_number};
use crate::text::{same, split, split_on, string_of, texts, to_strings, to_texts, views};
use vstd::prelude::*;

verus! {

/// A request.
pub struct Request {
    pub image: Option<String>,
    pub affect_all: bool,
    pub w_set: bool,
    pub w_cache: bool,
    pub c_set: bool,
    pub c_cache: bool,
    pub displays: Option<Vec<Display>>,
    pub templates: Option<Vec<String>>,
    pub resize_alg: Option<String>,
    pub set_command: Option<String>,
    pub contrast: Option<Decimal>,
    pub brightness: Option<i32>,
    pub hue: Option<i32>,
    pub blur: Option<Decimal>,
    pub invert: Option<bool>,
    pub flip_h: Option<bool>,
    pub flip_v: Option<bool>,
    pub rwal_thumb: Option<String>,
    pub rwal_clamp: Option<String>,
    pub rwal_accent: Option<u32>,
    pub rwal_order: Option<String>,
    pub get_current_colorscheme: bool,
    pub get_config: bool,
    pub get_w_cache: bool,
    pub get_c_cache: bool,
    pub w_cache_on_miss: bool,
    pub c_cache_on_miss: bool,
}

/// What a request holds.
pub struct RequestModel {
    pub image: Option<Seq<char>>,
    pub affect_all: bool,
    pub w_set: bool,
    pub w_cache: bool,
    pub c_set: bool,
    pub c_cache: bool,
    pub displays: Option<Seq<DisplayModel>>,
    pub templates: Option<Seq<Seq<char>>>,
    pub resize_alg: Option<Seq<char>>,
    pub set_command: Option<Seq<char>>,
    pub contrast: Option<Seq<char>>,
    pub brightness: Option<i32>,
    pub hue: Option<i32>,
    pub blur: Option<Seq<char>>,
    pub invert: Option<bool>,
    pub flip_h: Option<bool>,
    pub flip_v: Option<bool>,
    pub rwal_thumb: Option<Seq<char>>,
    pub rwal_clamp: Option<Seq<char>>,
    pub rwal_accent: Option<u32>,
    pub rwal_order: Option<Seq<char>>,
    pub get_current_colorscheme: bool,
    pub get_config: bool,
    pub get_w_cache: bool,
    pub get_c_cache: bool,
    pub w_cache_on_miss: bool,
    pub c_cache_on_miss: bool,
}

impl View for Request {
    type V = RequestModel;

    open spec fn view(&self) -> RequestModel {
        RequestModel {
            image: text_of(self.image),
            affect_all: self.affect_all,
            w_set: self.w_set,
            w_cache: self.w_cache,
            c_set: self.c_set,
            c_cache: self.c_cache,
            displays: displays_of(self.displays),
            templates: texts_of(self.templates),
            resize_alg: text_of(self.resize_alg),
            set_command: text_of(self.set_command),
            contrast: decimal_of(self.contrast),
            brightness: self.brightness,
            hue: self.hue,
            blur: decimal_of(self.blur),
            invert: self.invert,
            flip_h: self.flip_h,
            flip_v: self.flip_v,
            rwal_thumb: text_of(self.rwal_thumb),
            rwal_clamp: text_of(self.rwal_clamp),
            rwal_accent: self.rwal_accent,
            rwal_order: text_of(self.rwal_order),
            get_current_colorscheme: self.get_current_colorscheme,
            get_config: self.get_config,
            get_w_cache: self.get_w_cache,
            get_c_cache: self.get_c_cache,
            w_cache_on_miss: self.w_cache_on_miss,
            c_cache_on_miss: self.c_cache_on_miss,
        }
    }
}

/// The argument that follows the first occurrence of `flag` that has an
/// argument after it, looking from position `i` on.
pub open spec fn value_after(list: Seq<Seq<char>>, flag: Seq<char>, i: int) -> Option<Seq<char>>
    decreases list.len() - i,
{
    if i < 0 || i + 1 >= list.len() {
        None
    } else if list[i] == flag {
        Some(list[i + 1])
    } else {
        value_after(list, flag, i + 1)
    }
}

/// The number that follows `flag`, if what follows is a number of a type
/// that holds `lo..=hi`.
pub open spec fn number_after(list: Seq<Seq<char>>, flag: Seq<char>, signed: bool, lo: int, hi: int) -> Option<
    int,
> {
    match value_after(list, flag, 0) {
        Some(t) => parsed_within(t, 10, signed, lo, hi),
        None => None,
    }
}

/// The decimal that follows `flag`, in its shortest form.
pub open spec fn decimal_after(list: Seq<Seq<char>>, flag: Seq<char>) -> Option<Seq<char>> {
    match value_after(list, flag, 0) {
        Some(t) => canonical_decimal(t),
        None => None,
    }
}

/// The display that a description of five fields gives.
pub open spec fn described_display(description: Seq<char>) -> Option<DisplayModel> {
    let fields = split_on(description, ':');
    if fields.len() == 5 {
        Some(
            DisplayModel {
                name: fields[0],
                w: field_value(fields[1]) as u32,
                h: field_value(fields[2]) as u32,
                x: field_value(fields[3]) as u32,
                y: field_value(fields[4]) as u32,
            },
        )
    } else {
        None
    }
}

/// The displays that the descriptions give; one that has not five fields
/// gives none.
pub open spec fn described_displays(descriptions: Seq<Seq<char>>) -> Seq<DisplayModel>
    decreases descriptions.len(),
{
    if descriptions.len() == 0 {
        Seq::<DisplayModel>::empty()
    } else {
        let before = described_displays(descriptions.drop_last());
        match described_display(descriptions.last()) {
            Some(d) => before.push(d),
            None => before,
        }
    }
}

/// The displays that follow `flag`, written `name:w:h:x:y` with `;` between
/// them, if there is at least one.
pub open spec fn displays_after(list: Seq<Seq<char>>, flag: Seq<char>) -> Option<Seq<DisplayModel>> {
    match value_after(list, flag, 0) {
        Some(t) => {
            let found = described_displays(split_on(t, ';'));
            if found.len() > 0 {
                Some(found)
            } else {
                None
            }
        },
        None => None,
    }
}

/// The paths of templates that follow `flag`, with `;` between them.
pub open spec fn templates_after(list: Seq<Seq<char>>, flag: Seq<char>) -> Option<Seq<Seq<char>>> {
    match value_after(list, flag, 0) {
        Some(t) => Some(split_on(t, ';')),
        None => None,
    }
}

/// `Some(true)` for a flag that is given, nothing for one that is not.
pub open spec fn switched(given: bool) -> Option<bool> {
    if given {
        Some(true)
    } else {
        None
    }
}

/// The request that command-line arguments make.
pub open spec fn request_of(input: Seq<Seq<char>>) -> RequestModel {
    let w_set = input.contains("-S"@);
    let c_set = input.contains("-T"@);
    RequestModel {
        image: value_after(input, "-I"@, 0),
        affect_all: input.contains("-A"@),
        w_set,
        w_cache: input.contains("-W"@) && !w_set,
        c_set,
        c_cache: input.contains("-C"@) && !c_set,
        displays: displays_after(input, "--displays"@),
        templates: templates_after(input, "--templates"@),
        resize_alg: value_after(input, "--resize-alg"@, 0),
        set_command: value_after(input, "--set-command"@, 0),
        contrast: decimal_after(input, "--contrast"@),
        brightness: match number_after(
            input,
            "--brightness"@,
            true,
            i32::MIN as int,
            i32::MAX as int,
        ) {
            Some(v) => Some(v as i32),
            None => None,
        },
        hue: match number_after(input, "--hue"@, true, i32::MIN as int, i32::MAX as int) {
            Some(v) => Some(v as i32),
            None => None,
        },
        blur: decimal_after(input, "--blur"@),
        invert: switched(input.contains("--invert"@)),
        flip_h: switched(input.contains("--fliph"@)),
        flip_v: switched(input.contains("--flipv"@)),
        rwal_thumb: value_after(input, "--thumb"@, 0),
        rwal_clamp: value_after(input, "--clamp"@, 0),
        rwal_accent: match number_after(input, "--accent"@, false, 0, u32::MAX as int) {
            Some(v) => Some(v as u32),
            None => None,
        },
        rwal_order: value_after(input, "--order"@, 0),
        get_current_colorscheme: input.contains("--get-current-scheme"@),
        get_config: input.contains("--get-config"@),
        get_w_cache: input.contains("--get-w-cache"@),
        get_c_cache: input.contains("--get-c-cache"@),
        w_cache_on_miss: input.contains("--w-cache-on-miss"@),
        c_cache_on_miss: input.contains("--c-cache-on-miss"@),
    }
}

/// Whether `flag` is among the arguments.
pub fn has_flag(list: &Vec<Vec<char>>, flag: &str) -> (b: bool)
    ensures
        b == views(list@).contains(flag@),
{
    let mut i: usize = 0;
    while i < list.len()
        invariant
            i <= list.len(),
            forall|k: int| 0 <= k < i ==> views(list@)[k] != flag@,
        decreases list.len() - i,
    {
        proof {
            assert(views(list@)[i as int] == list@[i as int]@);
        }
        if same(&list[i], flag) {
            return true;
        }
        i += 1;
    }
    false
}

/// The argument that follows the first occurrence of `prev_element` that
/// has an argument after it.
pub fn get_value(list: &Vec<Vec<char>>, prev_element: &str) -> (r: Option<Vec<char>>)
    ensures
        match r {
            Some(v) => value_after(views(list@), prev_element@, 0) == Some(v@),
            None => value_after(views(list@), prev_element@, 0) is None,
        },
{
    let mut i: usize = 0;
    while i < list.len()
        invariant
            i <= list.len(),
            value_after(views(list@), prev_element@, 0) == value_after(
                views(list@),
                prev_element@,
                i as int,
            ),
        decreases list.len() - i,
    {
        proof {
            assert(views(list@)[i as int] == list@[i as int]@);
        }
        if i + 1 < list.len() && same(&list[i], prev_element) {
            proof {
                assert(views(list@)[i + 1] == list@[i + 1]@);
                assert(list@[i + 1]@.subrange(0, list@[i + 1]@.len() as int) == list@[i + 1]@);
            }
            return Some(crate::text::slice_of(&list[i + 1], 0, list[i + 1].len()));
        }
        i += 1;
    }
    None
}

/// The number that follows `prev_element`.
fn get_number(list: &Vec<Vec<char>>, prev_element: &str, signed: bool, below: u64, above: u64) -> (r:
    Option<(bool, u64)>)
    ensures
        match r {
            Some((negative, magnitude)) => number_after(
                views(list@),
                prev_element@,
                signed,
                -(below as int),
                above as int,
            ) == Some(
                if negative {
                    -(magnitude as int)
                } else {
                    magnitude as int
                },
            ),
            None => number_after(
                views(list@),
                prev_element@,
                signed,
                -(below as int),
                above as int,
            ) is None,
        },
{
    match get_value(list, prev_element) {
        Some(t) => read_number(&t, 10, signed, below, above),
        None => None,
    }
}

/// The signed number of 32 bits that follows `prev_element`.
pub fn get_i32(list: &Vec<Vec<char>>, prev_element: &str) -> (r: Option<i32>)
    ensures
        match r {
            Some(v) => number_after(
                views(list@),
                prev_element@,
                true,
                i32::MIN as int,
                i32::MAX as int,
            ) == Some(v as int),
            None => number_after(
                views(list@),
                prev_element@,
                true,
                i32::MIN as int,
                i32::MAX as int,
            ) is None,
        },
{
    match get_number(list, prev_element, true, 0x8000_0000, 0x7fff_ffff) {
        Some((negative, magnitude)) => Some(
            if negative {
                (-(magnitude as i64)) as i32
            } else {
                magnitude as i32
            },
        ),
        None => None,
    }
}

/// The unsigned number of 32 bits that follows `prev_element`.
pub fn get_u32(list: &Vec<Vec<char>>, prev_element: &str) -> (r: Option<u32>)
    ensures
        match r {
            Some(v) => number_after(views(list@), prev_element@, false, 0, u32::MAX as int)
                == Some(v as int),
            None => number_after(views(list@), prev_element@, false, 0, u32::MAX as int) is None,
        },
{
    match get_number(list, prev_element, false, 0, 0xffff_ffff) {
        Some((_, magnitude)) => Some(magnitude as u32),
        None => None,
    }
}

/// The decimal that follows `prev_element`.
pub fn get_decimal(list: &Vec<Vec<char>>, prev_element: &str) -> (r: Option<Decimal>)
    ensures
        decimal_of(r) == decimal_after(views(list@), prev_element@),
        r matches Some(d) ==> d.wf(),
{
    match get_value(list, prev_element) {
        Some(t) => match canonical_text(&t) {
            Some(c) => Some(Decimal { text: string_of(&c) }),
            None => None,
        },
        None => None,
    }
}

/// The text that follows `prev_element`.
pub fn get_string(list: &Vec<Vec<char>>, prev_element: &str) -> (r: Option<String>)
    ensures
        text_of(r) == value_after(views(list@), prev_element@, 0),
{
    match get_value(list, prev_element) {
        Some(t) => Some(string_of(&t)),
        None => None,
    }
}

/// The displays that follow `prev_element`.
pub fn get_displays_value(list: &Vec<Vec<char>>, prev_element: &str) -> (r: Option<Vec<Display>>)
    ensures
        displays_of(r) == displays_after(views(list@), prev_element@),
{
    let mut displays: Vec<Display> = Vec::new();
    match get_value(list, prev_element) {
        Some(raw_displays) => {
            let pieces = split(&raw_displays, ';');
            let mut i: usize = 0;
            while i < pieces.len()
                invariant
                    i <= pieces.len(),
                    display_views(displays@) == described_displays(
                        views(pieces@).subrange(0, i as int),
                    ),
                decreases pieces.len() - i,
            {
                proof {
                    let next = views(pieces@).subrange(0, i + 1);
                    assert(next.drop_last() == views(pieces@).subrange(0, i as int));
                    assert(next.last() == pieces@[i as int]@);
                }
                match display_of_fields(&pieces[i]) {
                    Some(d) => {
                        let ghost before = displays@;
                        let ghost dv = d@;
                        displays.push(d);
                        proof {
                            assert(display_views(displays@) =~= display_views(before).push(dv));
                        }
                    },
                    None => {},
                }
                i += 1;
            }
            proof {
                assert(views(pieces@).subrange(0, pieces.len() as int) == views(pieces@));
                assert(displays.len() == display_views(displays@).len());
            }
            if displays.len() > 0 {
                Some(displays)
            } else {
                None
            }
        },
        None => None,
    }
}

/// The paths of templates that follow `prev_element`.
pub fn get_templates_value(list: &Vec<Vec<char>>, prev_element: &str) -> (r: Option<Vec<String>>)
    ensures
        texts_of(r) == templates_after(views(list@), prev_element@),
{
    match get_value(list, prev_element) {
        Some(raw_templates) => {
            let pieces = split(&raw_templates, ';');
            Some(to_strings(&pieces))
        },
        None => None,
    }
}

impl Request {
    /// The request that command-line arguments make. A flag that asks to
    /// set something leaves out the flag that asks to cache the same.
    pub fn from_args(input: Vec<String>) -> (r: Self)
        ensures
            r@ == request_of(texts(input@)),
    {
        let list = to_texts(&input);
        let w_set = has_flag(&list, "-S");
        let c_set = has_flag(&list, "-T");
        let invert = if has_flag(&list, "--invert") {
            Some(true)
        } else {
            None
        };
        let flip_h = if has_flag(&list, "--fliph") {
            Some(true)
        } else {
            None
        };
        let flip_v = if has_flag(&list, "--flipv") {
            Some(true)
        } else {
            None
        };
        Request {
            image: get_string(&list, "-I"),
            affect_all: has_flag(&list, "-A"),
            w_set,
            w_cache: has_flag(&list, "-W") && !w_set,
            c_set,
            c_cache: has_flag(&list, "-C") && !c_set,
            displays: get_displays_value(&list, "--displays"),
            templates: get_templates_value(&list, "--templates"),
            resize_alg: get_string(&list, "--resize-alg"),
            set_command: get_string(&list, "--set-command"),
            contrast: get_decimal(&list, "--contrast"),
            brightness: get_i32(&list, "--brightness"),
            hue: get_i32(&list, "--hue"),
            blur: get_decimal(&list, "--blur"),
            invert,
            flip_h,
            flip_v,
            rwal_thumb: get_string(&list, "--thumb"),
            rwal_clamp: get_string(&list, "--clamp"),
            rwal_accent: get_u32(&list, "--accent"),
            rwal_order: get_string(&list, "--order"),
            get_current_colorscheme: has_flag(&list, "--get-current-scheme"),
            get_config: has_flag(&list, "--get-config"),
            get_w_cache: has_flag(&list, "--get-w-cache"),
            get_c_cache: has_flag(&list, "--get-c-cache"),
            w_cache_on_miss: has_flag(&list, "--w-cache-on-miss"),
            c_cache_on_miss: has_flag(&list, "--c-cache-on-miss"),
        }
    }
}

} // verus!
