//! The live configuration, and the configuration that one request works
//! with: the live one with the request's overrides put over it.

use crate::decimal::{canonical_decimal, canonical_text, Decimal};
use crate::display::{display_views, Display, DisplayModel};
use crate::image_ops::{ImageOperations, OperationsModel};
use crate::number::{parsed_within, read_number};
use crate::request::{Request, RequestModel};
use crate::rwal_params::{order_of, OrderBy, RwalModel, RwalParams};
use crate::text::{chars_of, split, split_on, string_of, texts, views};
use vstd::prelude::*;

verus! {

/// The configuration. A part that is absent is not made up: what needs it
/// is not done.
pub struct Config {
    pub displays: Option<Vec<Display>>,
    pub templates: Option<Vec<String>>,
    pub set_command: Option<String>,
    pub resize_algorithm: Option<String>,
    pub last_call_file: Option<String>,
    pub rwal_params: Option<RwalParams>,
    pub image_operations: Option<ImageOperations>,
}

/// What a configuration holds.
pub struct ConfigModel {
    pub displays: Option<Seq<DisplayModel>>,
    pub templates: Option<Seq<Seq<char>>>,
    pub set_command: Option<Seq<char>>,
    pub resize_algorithm: Option<Seq<char>>,
    pub last_call_file: Option<Seq<char>>,
    pub rwal_params: Option<RwalModel>,
    pub image_operations: Option<OperationsModel>,
}

/// The text of a string that may be absent.
pub open spec fn text_of(s: Option<String>) -> Option<Seq<char>> {
    match s {
        Some(t) => Some(t@),
        None => None,
    }
}

/// The text of a decimal that may be absent.
pub open spec fn decimal_of(s: Option<Decimal>) -> Option<Seq<char>> {
    match s {
        Some(t) => Some(t@),
        None => None,
    }
}

/// The texts of strings that may be absent.
pub open spec fn texts_of(s: Option<Vec<String>>) -> Option<Seq<Seq<char>>> {
    match s {
        Some(t) => Some(texts(t@)),
        None => None,
    }
}

/// The view of settings of extraction that may be absent.
pub open spec fn rwal_of(s: Option<RwalParams>) -> Option<RwalModel> {
    match s {
        Some(p) => Some(p@),
        None => None,
    }
}

/// The view of operations that may be absent.
pub open spec fn operations_of(s: Option<ImageOperations>) -> Option<OperationsModel> {
    match s {
        Some(o) => Some(o@),
        None => None,
    }
}

/// The views of displays that may be absent.
pub open spec fn displays_of(s: Option<Vec<Display>>) -> Option<Seq<DisplayModel>> {
    match s {
        Some(t) => Some(display_views(t@)),
        None => None,
    }
}

impl View for Config {
    type V = ConfigModel;

    open spec fn view(&self) -> ConfigModel {
        ConfigModel {
            displays: displays_of(self.displays),
            templates: texts_of(self.templates),
            set_command: text_of(self.set_command),
            resize_algorithm: text_of(self.resize_algorithm),
            last_call_file: text_of(self.last_call_file),
            rwal_params: rwal_of(self.rwal_params),
            image_operations: operations_of(self.image_operations),
        }
    }
}

/// A copy of the displays.
pub fn copy_displays(v: &Vec<Display>) -> (r: Vec<Display>)
    ensures
        display_views(r@) == display_views(v@),
{
    let mut r: Vec<Display> = Vec::new();
    let mut i: usize = 0;
    while i < v.len()
        invariant
            i <= v.len(),
            r.len() == i,
            forall|k: int| 0 <= k < i ==> (#[trigger] r[k])@ == v[k]@,
        decreases v.len() - i,
    {
        r.push(v[i].clone());
        i += 1;
    }
    proof {
        assert(display_views(r@) =~= display_views(v@));
    }
    r
}

/// A copy of the strings.
pub fn copy_strings(v: &Vec<String>) -> (r: Vec<String>)
    ensures
        texts(r@) == texts(v@),
{
    let mut r: Vec<String> = Vec::new();
    let mut i: usize = 0;
    while i < v.len()
        invariant
            i <= v.len(),
            r.len() == i,
            forall|k: int| 0 <= k < i ==> (#[trigger] r[k])@ == v[k]@,
        decreases v.len() - i,
    {
        r.push(v[i].clone());
        i += 1;
    }
    proof {
        assert(texts(r@) =~= texts(v@));
    }
    r
}

impl Clone for Config {
    fn clone(&self) -> (r: Self)
        ensures
            r@ == self@,
    {
        Config {
            displays: match &self.displays {
                Some(d) => Some(copy_displays(d)),
                None => None,
            },
            templates: match &self.templates {
                Some(t) => Some(copy_strings(t)),
                None => None,
            },
            set_command: match &self.set_command {
                Some(s) => Some(s.clone()),
                None => None,
            },
            resize_algorithm: match &self.resize_algorithm {
                Some(s) => Some(s.clone()),
                None => None,
            },
            last_call_file: match &self.last_call_file {
                Some(s) => Some(s.clone()),
                None => None,
            },
            rwal_params: match &self.rwal_params {
                Some(p) => Some(p.clone()),
                None => None,
            },
            image_operations: match &self.image_operations {
                Some(o) => Some(o.clone()),
                None => None,
            },
        }
    }
}

/// The two halves of a range written `firstXsecond`.
pub open spec fn range_parts(s: Seq<char>) -> Option<(Seq<char>, Seq<char>)> {
    let v = split_on(s, 'X');
    if v.len() == 2 {
        Some((v[0], v[1]))
    } else {
        None
    }
}

/// The size of a thumbnail written `widthXheight`, if both are numbers.
pub open spec fn thumb_of(s: Seq<char>) -> Option<(u32, u32)> {
    match range_parts(s) {
        Some((a, b)) => match (
            parsed_within(a, 10, false, 0, u32::MAX as int),
            parsed_within(b, 10, false, 0, u32::MAX as int),
        ) {
            (Some(w), Some(h)) => Some((w as u32, h as u32)),
            _ => None,
        },
        None => None,
    }
}

/// The band of brightness written `minXmax`, if both are decimals: each in
/// its shortest form.
pub open spec fn clamp_of(s: Seq<char>) -> Option<(Seq<char>, Seq<char>)> {
    match range_parts(s) {
        Some((a, b)) => match (canonical_decimal(a), canonical_decimal(b)) {
            (Some(lo), Some(hi)) => Some((lo, hi)),
            _ => None,
        },
        None => None,
    }
}

/// `over` where it is present, else `under`.
pub open spec fn over<T>(over: Option<T>, under: T) -> T {
    match over {
        Some(v) => v,
        None => under,
    }
}

/// `over` where it is present, else `under`, which may be absent too.
pub open spec fn over_option<T>(over: Option<T>, under: Option<T>) -> Option<T> {
    match over {
        Some(v) => Some(v),
        None => under,
    }
}

/// The settings of extraction with a request's overrides: a size or a band
/// that cannot be read changes nothing, and an order that names no rule
/// means the order by hue.
pub open spec fn merged_rwal(p: RwalModel, r: RequestModel) -> RwalModel {
    RwalModel {
        thumb_range: match r.rwal_thumb {
            Some(t) => over(thumb_of(t), p.thumb_range),
            None => p.thumb_range,
        },
        clamp_range: match r.rwal_clamp {
            Some(t) => over(clamp_of(t), p.clamp_range),
            None => p.clamp_range,
        },
        accent_color: over(r.rwal_accent, p.accent_color),
        colors: p.colors,
        order: match r.rwal_order {
            Some(t) => over(order_of(t), OrderBy::Hue),
            None => p.order,
        },
    }
}

/// The operations with a request's overrides.
pub open spec fn merged_operations(o: OperationsModel, r: RequestModel) -> OperationsModel {
    OperationsModel {
        contrast: over(r.contrast, o.contrast),
        brightness: over(r.brightness, o.brightness),
        hue: over(r.hue, o.hue),
        blur: over(r.blur, o.blur),
        invert: over(r.invert, o.invert),
        flip_h: over(r.flip_h, o.flip_h),
        flip_v: over(r.flip_v, o.flip_v),
    }
}

/// The configuration that a request works with: each part of the live
/// configuration, with what the request gives for it put over it. The
/// settings of extraction and the operations are merged field by field,
/// and stay absent where the live configuration has none.
pub open spec fn merged_config(c: ConfigModel, r: RequestModel) -> ConfigModel {
    ConfigModel {
        displays: over_option(r.displays, c.displays),
        templates: over_option(r.templates, c.templates),
        set_command: over_option(r.set_command, c.set_command),
        resize_algorithm: over_option(r.resize_alg, c.resize_algorithm),
        last_call_file: c.last_call_file,
        rwal_params: match c.rwal_params {
            Some(p) => Some(merged_rwal(p, r)),
            None => None,
        },
        image_operations: match c.image_operations {
            Some(o) => Some(merged_operations(o, r)),
            None => None,
        },
    }
}

/// The two halves of a range written `firstXsecond`; an error where the
/// text has not exactly one `X`.
pub fn get_range_from_str(s: &str) -> (r: Result<(Vec<char>, Vec<char>), ()>)
    ensures
        match r {
            Ok((a, b)) => range_parts(s@) == Some((a@, b@)),
            Err(_) => range_parts(s@) is None,
        },
{
    let values = split(&chars_of(s), 'X');
    proof {
        assert(values.len() == views(values@).len());
    }
    if values.len() != 2 {
        return Err(());
    }
    proof {
        assert(views(values@)[0] == values@[0]@);
        assert(views(values@)[1] == values@[1]@);
    }
    let first = crate::text::slice_of(&values[0], 0, values[0].len());
    let second = crate::text::slice_of(&values[1], 0, values[1].len());
    proof {
        assert(values@[0]@.subrange(0, values@[0]@.len() as int) == values@[0]@);
        assert(values@[1]@.subrange(0, values@[1]@.len() as int) == values@[1]@);
    }
    Ok((first, second))
}

/// The size of a thumbnail written `widthXheight`.
pub fn thumb_range_from_str(s: &str) -> (r: Option<(u32, u32)>)
    ensures
        r == thumb_of(s@),
{
    match get_range_from_str(s) {
        Ok((a, b)) => {
            let first = read_number(&a, 10, false, 0, 0xffff_ffff);
            let second = read_number(&b, 10, false, 0, 0xffff_ffff);
            match (first, second) {
                (Some((_, w)), Some((_, h))) => Some((w as u32, h as u32)),
                _ => None,
            }
        },
        Err(_) => None,
    }
}

/// The band of brightness written `minXmax`.
pub fn clamp_range_from_str(s: &str) -> (r: Option<(Decimal, Decimal)>)
    ensures
        match r {
            Some((lo, hi)) => clamp_of(s@) == Some((lo@, hi@)) && lo.wf() && hi.wf(),
            None => clamp_of(s@) is None,
        },
{
    match get_range_from_str(s) {
        Ok((a, b)) => {
            match (canonical_text(&a), canonical_text(&b)) {
                (Some(lo), Some(hi)) => Some(
                    (Decimal { text: string_of(&lo) }, Decimal { text: string_of(&hi) }),
                ),
                _ => None,
            }
        },
        Err(_) => None,
    }
}

/// The settings of extraction with a request's overrides.
pub fn merge_rwal_params(params: &RwalParams, request: &Request) -> (r: RwalParams)
    ensures
        r@ == merged_rwal(params@, request@),
{
    let mut thumb_range = params.thumb_range;
    let mut clamp_range = (params.clamp_range.0.clone(), params.clamp_range.1.clone());
    let mut accent_color = params.accent_color;
    let colors = params.colors;
    let mut order = params.order;
    match &request.rwal_thumb {
        Some(thumb) => {
            match thumb_range_from_str(thumb.as_str()) {
                Some(value) => {
                    thumb_range = value;
                },
                None => {},
            }
        },
        None => {},
    }
    match &request.rwal_clamp {
        Some(clamp) => {
            match clamp_range_from_str(clamp.as_str()) {
                Some(value) => {
                    clamp_range = value;
                },
                None => {},
            }
        },
        None => {},
    }
    match request.rwal_accent {
        Some(color) => {
            accent_color = color;
        },
        None => {},
    }
    match &request.rwal_order {
        Some(tag) => {
            order = match OrderBy::from_str(tag.as_str()) {
                Ok(value) => value,
                Err(_) => OrderBy::Hue,
            };
        },
        None => {},
    }
    RwalParams::new(thumb_range, clamp_range, accent_color, colors, order)
}

/// The operations with a request's overrides.
pub fn merge_image_operations(ops: &ImageOperations, request: &Request) -> (r: ImageOperations)
    ensures
        r@ == merged_operations(ops@, request@),
{
    let contrast = match &request.contrast {
        Some(v) => v.clone(),
        None => ops.contrast.clone(),
    };
    let brightness = match request.brightness {
        Some(v) => v,
        None => ops.brightness,
    };
    let hue = match request.hue {
        Some(v) => v,
        None => ops.hue,
    };
    let blur = match &request.blur {
        Some(v) => v.clone(),
        None => ops.blur.clone(),
    };
    let invert = match request.invert {
        Some(v) => v,
        None => ops.invert,
    };
    let flip_h = match request.flip_h {
        Some(v) => v,
        None => ops.flip_h,
    };
    let flip_v = match request.flip_v {
        Some(v) => v,
        None => ops.flip_v,
    };
    ImageOperations::new(contrast, brightness, hue, blur, invert, flip_h, flip_v)
}

/// The configuration that a request works with.
pub fn collect_config_from_request(config: Config, request: &Request) -> (r: Config)
    ensures
        r@ == merged_config(config@, request@),
{
    let mut config = config;
    match &request.displays {
        Some(displays) => {
            config.displays = Some(copy_displays(displays));
        },
        None => {},
    }
    match &request.templates {
        Some(templates) => {
            config.templates = Some(copy_strings(templates));
        },
        None => {},
    }
    match &request.set_command {
        Some(set_command) => {
            config.set_command = Some(set_command.clone());
        },
        None => {},
    }
    match &request.resize_alg {
        Some(resize_alg) => {
            config.resize_algorithm = Some(resize_alg.clone());
        },
        None => {},
    }
    let rwal_params = match &config.rwal_params {
        Some(params) => Some(merge_rwal_params(params, request)),
        None => None,
    };
    config.rwal_params = rwal_params;
    let image_ops = match &config.image_operations {
        Some(ops) => Some(merge_image_operations(ops, request)),
        None => None,
    };
    config.image_operations = image_ops;
    config
}

impl Config {
    /// The configuration with no part.
    pub fn new() -> (c: Self)
        ensures
            c@ == (ConfigModel {
                displays: None,
                templates: None,
                set_command: None,
                resize_algorithm: None,
                last_call_file: None,
                rwal_params: None,
                image_operations: None,
            }),
    {
        Config {
            displays: None,
            templates: None,
            set_command: None,
            resize_algorithm: None,
            last_call_file: None,
            rwal_params: None,
            image_operations: None,
        }
    }
}

/// A request overrides nothing: it gives no displays, templates, command
/// or filter, no setting of extraction and no operation.
pub open spec fn overrides_nothing(r: RequestModel) -> bool {
    &&& r.displays is None
    &&& r.templates is None
    &&& r.set_command is None
    &&& r.resize_alg is None
    &&& r.contrast is None
    &&& r.brightness is None
    &&& r.hue is None
    &&& r.blur is None
    &&& r.invert is None
    &&& r.flip_h is None
    &&& r.flip_v is None
    &&& r.rwal_thumb is None
    &&& r.rwal_clamp is None
    &&& r.rwal_accent is None
    &&& r.rwal_order is None
}

/// A request that overrides nothing works with the live configuration as
/// it is.
pub proof fn lemma_no_override_keeps_config(c: ConfigModel, r: RequestModel)
    requires
        overrides_nothing(r),
    ensures
        merged_config(c, r) == c,
{
}

/// A part that the live configuration lacks stays absent, whatever the
/// request gives for its fields.
pub proof fn lemma_absent_parts_stay_absent(c: ConfigModel, r: RequestModel)
    ensures
        c.rwal_params is None ==> merged_config(c, r).rwal_params is None,
        c.image_operations is None ==> merged_config(c, r).image_operations is None,
        merged_config(c, r).last_call_file == c.last_call_file,
{
}

} // verus!
