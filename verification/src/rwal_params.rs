//! The settings of palette extraction.

use crate::decimal::Decimal;
use crate::text::{chars_of, same};
use vstd::prelude::*;

verus! {

/// The rule by which the colours of a palette are ordered.
#[derive(Clone, Copy, PartialEq, Eq, Structural, Debug)]
pub enum OrderBy {
    Hue,
    Saturation,
    Brightness,
    Semantic,
}

/// The rule that a tag names, if it names one.
pub open spec fn order_of(tag: Seq<char>) -> Option<OrderBy> {
    if tag == "h"@ || tag == "H"@ || tag == "hue"@ {
        Some(OrderBy::Hue)
    } else if tag == "s"@ || tag == "S"@ || tag == "saturation"@ {
        Some(OrderBy::Saturation)
    } else if tag == "v"@ || tag == "b"@ || tag == "V"@ || tag == "B"@ || tag == "brightness"@ {
        Some(OrderBy::Brightness)
    } else if tag == "sem"@ || tag == "semantic"@ {
        Some(OrderBy::Semantic)
    } else {
        None
    }
}

/// The rule that the `order_by` key of a configuration names: by hue unless
/// the tag asks for another.
pub open spec fn configured_order_of(tag: Seq<char>) -> OrderBy {
    if tag == "s"@ || tag == "S"@ {
        OrderBy::Saturation
    } else if tag == "v"@ || tag == "V"@ || tag == "b"@ || tag == "B"@ {
        OrderBy::Brightness
    } else if tag == "sem"@ || tag == "semantic"@ {
        OrderBy::Semantic
    } else {
        OrderBy::Hue
    }
}

/// The tag under which a rule enters the key of a cached palette.
pub open spec fn order_tag(order: OrderBy) -> Seq<char> {
    match order {
        OrderBy::Hue => "H"@,
        OrderBy::Saturation => "S"@,
        OrderBy::Brightness => "V"@,
        OrderBy::Semantic => "sem"@,
    }
}

impl OrderBy {
    /// The rule that `s` names. No rule is an error with an empty message.
    pub fn from_str(s: &str) -> (r: Result<OrderBy, String>)
        ensures
            match r {
                Ok(o) => order_of(s@) == Some(o),
                Err(e) => order_of(s@) is None && e@.len() == 0,
            },
    {
        let t = chars_of(s);
        if same(&t, "h") || same(&t, "H") || same(&t, "hue") {
            Ok(OrderBy::Hue)
        } else if same(&t, "s") || same(&t, "S") || same(&t, "saturation") {
            Ok(OrderBy::Saturation)
        } else if same(&t, "v") || same(&t, "b") || same(&t, "V") || same(&t, "B") || same(
            &t,
            "brightness",
        ) {
            Ok(OrderBy::Brightness)
        } else if same(&t, "sem") || same(&t, "semantic") {
            Ok(OrderBy::Semantic)
        } else {
            Err(String::new())
        }
    }

    /// The rule that the `order_by` key of a configuration names.
    pub fn from_config(s: &str) -> (r: OrderBy)
        ensures
            r == configured_order_of(s@),
    {
        let t = chars_of(s);
        if same(&t, "s") || same(&t, "S") {
            OrderBy::Saturation
        } else if same(&t, "v") || same(&t, "V") || same(&t, "b") || same(&t, "B") {
            OrderBy::Brightness
        } else if same(&t, "sem") || same(&t, "semantic") {
            OrderBy::Semantic
        } else {
            OrderBy::Hue
        }
    }

    /// The tag under which the rule enters the key of a cached palette.
    pub fn tag(&self) -> (t: &'static str)
        ensures
            t@ == order_tag(*self),
    {
        match self {
            OrderBy::Hue => "H",
            OrderBy::Saturation => "S",
            OrderBy::Brightness => "V",
            OrderBy::Semantic => "sem",
        }
    }
}

/// The settings of palette extraction: the size of the thumbnail that is
/// sampled, the band in which the brightness of its pixels is kept, the
/// index of the accent among the six colours, the number of colours asked
/// for, and the order of the colours.
pub struct RwalParams {
    pub thumb_range: (u32, u32),
    pub clamp_range: (Decimal, Decimal),
    pub accent_color: u32,
    pub colors: u32,
    pub order: OrderBy,
}

/// What the settings hold, each bound of the band as its text.
pub struct RwalModel {
    pub thumb_range: (u32, u32),
    pub clamp_range: (Seq<char>, Seq<char>),
    pub accent_color: u32,
    pub colors: u32,
    pub order: OrderBy,
}

impl View for RwalParams {
    type V = RwalModel;

    open spec fn view(&self) -> RwalModel {
        RwalModel {
            thumb_range: self.thumb_range,
            clamp_range: (self.clamp_range.0@, self.clamp_range.1@),
            accent_color: self.accent_color,
            colors: self.colors,
            order: self.order,
        }
    }
}

impl Clone for RwalParams {
    fn clone(&self) -> (r: Self)
        ensures
            r == *self,
    {
        RwalParams {
            thumb_range: self.thumb_range,
            clamp_range: (self.clamp_range.0.clone(), self.clamp_range.1.clone()),
            accent_color: self.accent_color,
            colors: self.colors,
            order: self.order,
        }
    }
}

impl RwalParams {
    pub fn new(
        thumb_range: (u32, u32),
        clamp_range: (Decimal, Decimal),
        accent_color: u32,
        colors: u32,
        order: OrderBy,
    ) -> (p: Self)
        ensures
            p == (RwalParams { thumb_range, clamp_range, accent_color, colors, order }),
    {
        RwalParams { thumb_range, clamp_range, accent_color, colors, order }
    }
}

} // verus!
