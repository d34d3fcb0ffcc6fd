//! Reading a template: the lines of its parameters, the body that follows
//! the `[config]` mark, and the commands and colour variables that the
//! parameters declare.

use crate::colors::{Color, HEX, RGB};
use crate::number::{parsed_within, read_number};
use crate::text::{
    chars_of, ends_with, find_from, first_occurrence, has_prefix, has_suffix, has_utf8_length,
    lemma_first_occurrence, lines, same, slice_of, split, split_on, starts_with, string_of, texts,
    to_strings, to_texts, trim, trimmed, utf8_length, views,
};
use vstd::prelude::*;

verus! {

pub const INCLUDE_TAG: &'static str = "Include(";

pub const PATH_TAG: &'static str = "Path(";

pub const FORMAT_TAG: &'static str = "Format(";

pub const EXEC_BEFORE_TAG: &'static str = "ExecBefore(";

pub const EXEC_AFTER_TAG: &'static str = "ExecAfter(";

pub const COLOR_TAG: &'static str = "Color(";

pub const RGB_TAG: &'static str = "RGB(";

pub const HEX_TAG: &'static str = "HEX(";

pub const CONFIG_MARK: &'static str = "[config]";

/// A colour that a variable always has, whatever the palette.
pub enum ConstantModel {
    Hex(Seq<char>),
    Rgb(u8, u8, u8),
}

/// What a colour variable holds: the name that stands for it in the body,
/// the entry of the palette it takes, the amount added to each channel,
/// whether it is inverted, and the colour it has instead of the palette's.
pub struct VariableModel {
    pub name: Seq<char>,
    pub index: int,
    pub brightness: int,
    pub invert: bool,
    pub constant: Option<ConstantModel>,
}

/// A colour variable of a template.
pub struct ColorVariable {
    pub name: String,
    pub index: usize,
    pub brightness: i32,
    pub invert: bool,
    pub constant_value: Option<Color>,
}

impl View for ColorVariable {
    type V = VariableModel;

    open spec fn view(&self) -> VariableModel {
        VariableModel {
            name: self.name@,
            index: self.index as int,
            brightness: self.brightness as int,
            invert: self.invert,
            constant: match self.constant_value {
                Some(Color::HEX(h)) => Some(ConstantModel::Hex(h.value@)),
                Some(Color::RGB(c)) => Some(ConstantModel::Rgb(c.r, c.g, c.b)),
                None => None,
            },
        }
    }
}

impl Clone for ColorVariable {
    fn clone(&self) -> (r: Self)
        ensures
            r == *self,
    {
        ColorVariable {
            name: self.name.clone(),
            index: self.index,
            brightness: self.brightness,
            invert: self.invert,
            constant_value: match &self.constant_value {
                Some(c) => Some(c.clone()),
                None => None,
            },
        }
    }
}

impl ColorVariable {
    pub fn new(
        name: String,
        index: usize,
        brightness: i32,
        invert: bool,
        constant_value: Option<Color>,
    ) -> (v: Self)
        ensures
            v == (ColorVariable { name, index, brightness, invert, constant_value }),
    {
        ColorVariable { name, index, brightness, invert, constant_value }
    }
}

/// The views of the variables of a vector.
pub open spec fn variable_views(v: Seq<ColorVariable>) -> Seq<VariableModel> {
    Seq::new(v.len(), |i: int| v[i]@)
}

/// `s` up to its first `//`.
pub open spec fn without_comment(s: Seq<char>) -> Seq<char> {
    let p = first_occurrence(s, "//"@, 0);
    if p <= s.len() {
        s.subrange(0, p)
    } else {
        s
    }
}

/// `t` begins with one of the eight tags and ends with `)`.
pub open spec fn is_tag_line(t: Seq<char>) -> bool {
    has_suffix(t, ")"@) && (has_prefix(t, INCLUDE_TAG@) || has_prefix(t, PATH_TAG@) || has_prefix(
        t,
        FORMAT_TAG@,
    ) || has_prefix(t, EXEC_BEFORE_TAG@) || has_prefix(t, EXEC_AFTER_TAG@) || has_prefix(
        t,
        COLOR_TAG@,
    ) || has_prefix(t, RGB_TAG@) || has_prefix(t, HEX_TAG@))
}

/// What a line of the parameters declares: the line without its comment
/// and the white space around it, if that is a tag with its arguments.
pub open spec fn valid_line(s: Seq<char>) -> Option<Seq<char>> {
    let t = trimmed(without_comment(s));
    if is_tag_line(t) {
        Some(t)
    } else {
        None
    }
}

/// The line is the mark that opens the body.
pub open spec fn is_config_mark(line: Seq<char>) -> bool {
    trimmed(line) == CONFIG_MARK@
}

/// The end of the line that begins at `start`: the position of its line
/// feed, or the end of the text where no line feed follows.
pub open spec fn line_end(raw: Seq<char>, start: int) -> int
    decreases raw.len() - start,
{
    if start < 0 || start >= raw.len() {
        raw.len() as int
    } else if raw[start] == '\n' {
        start
    } else {
        line_end(raw, start + 1)
    }
}

/// What a line declares, as a list of one declaration or of none.
pub open spec fn declared_by(line: Seq<char>) -> Seq<Seq<char>> {
    match valid_line(line) {
        Some(t) => seq![t],
        None => Seq::<Seq<char>>::empty(),
    }
}

/// The declarations of the lines from `start` up to the first line that is
/// the mark.
pub open spec fn params_from(raw: Seq<char>, start: int) -> Seq<Seq<char>>
    decreases raw.len() - start,
{
    if start < 0 || start > raw.len() {
        Seq::<Seq<char>>::empty()
    } else {
        let e = line_end(raw, start);
        let line = raw.subrange(start, e);
        if is_config_mark(line) {
            Seq::<Seq<char>>::empty()
        } else if e < start || e >= raw.len() {
            declared_by(line)
        } else {
            declared_by(line) + params_from(raw, e + 1)
        }
    }
}

/// The body: the text behind the line feed of the first line, from `start`
/// on, that is the mark, as it stands to its end; nothing where no line is
/// the mark or nothing follows it.
pub open spec fn body_from(raw: Seq<char>, start: int) -> Seq<char>
    decreases raw.len() - start,
{
    if start < 0 || start > raw.len() {
        Seq::<char>::empty()
    } else {
        let e = line_end(raw, start);
        let line = raw.subrange(start, e);
        if e < start || e >= raw.len() {
            Seq::<char>::empty()
        } else if is_config_mark(line) {
            raw.subrange(e + 1, raw.len() as int)
        } else {
            body_from(raw, e + 1)
        }
    }
}

/// A line without a line feed up to `e`, where a line feed or the end of
/// the text stands, ends at `e`.
pub proof fn lemma_line_end_is(raw: Seq<char>, start: int, e: int)
    requires
        0 <= start <= e <= raw.len(),
        forall|j: int| start <= j < e ==> raw[j] != '\n',
        e < raw.len() ==> raw[e] == '\n',
    ensures
        line_end(raw, start) == e,
    decreases e - start,
{
    if start < e {
        lemma_line_end_is(raw, start + 1, e);
    }
}

/// What stands between `prefix` and `suffix` on a line that, without the
/// white space around it, begins with the one and ends with the other.
pub open spec fn command_content(line: Seq<char>, prefix: Seq<char>, suffix: Seq<char>) -> Option<
    Seq<char>,
> {
    let t = trimmed(line);
    if has_prefix(t, prefix) && has_suffix(t, suffix) && prefix.len() + suffix.len() <= t.len() {
        Some(t.subrange(prefix.len() as int, t.len() - suffix.len()))
    } else {
        None
    }
}

/// The contents of all lines of that form, in order.
pub open spec fn commands_of(caption: Seq<Seq<char>>, prefix: Seq<char>, suffix: Seq<char>) -> Seq<
    Seq<char>,
>
    decreases caption.len(),
{
    if caption.len() == 0 {
        caption
    } else {
        let before = commands_of(caption.drop_last(), prefix, suffix);
        match command_content(caption.last(), prefix, suffix) {
            Some(c) => before.push(c),
            None => before,
        }
    }
}

/// The content of the last line of that form; empty where there is none.
pub open spec fn command_of(caption: Seq<Seq<char>>, prefix: Seq<char>, suffix: Seq<char>) -> Seq<
    char,
> {
    let all = commands_of(caption, prefix, suffix);
    if all.len() == 0 {
        Seq::<char>::empty()
    } else {
        all.last()
    }
}

/// The number that an argument writes for a type that holds `lo..=hi`, and
/// 0 where it writes none.
pub open spec fn argument_value(arg: Seq<char>, signed: bool, lo: int, hi: int) -> int {
    match parsed_within(trimmed(arg), 10, signed, lo, hi) {
        Some(v) => v,
        None => 0,
    }
}

/// The variable that the arguments of a `Color` tag declare: a name and an
/// index, which is at most 15, then optionally an amount of brightness and
/// a mark of inversion. Without an index there is no variable.
pub open spec fn color_variable(command: Seq<char>) -> Option<VariableModel> {
    let a = split_on(command, ',');
    if a.len() < 2 {
        None
    } else {
        let index = argument_value(a[1], false, 0, usize::MAX as int);
        Some(
            VariableModel {
                name: trimmed(a[0]),
                index: if index > 15 {
                    15
                } else {
                    index
                },
                brightness: if a.len() > 2 {
                    argument_value(a[2], true, i32::MIN as int, i32::MAX as int)
                } else {
                    0
                },
                invert: a.len() > 3 && (trimmed(a[3]) == "1"@ || trimmed(a[3]) == "true"@
                    || trimmed(a[3]) == "True"@),
                constant: None,
            },
        )
    }
}

/// The variable that the arguments of a `HEX` tag declare: a name and a
/// colour of six bytes of text.
pub open spec fn hex_variable(command: Seq<char>) -> Option<VariableModel> {
    let a = split_on(command, ',');
    if a.len() != 2 || utf8_length(trimmed(a[1])) != 6 {
        None
    } else {
        Some(
            VariableModel {
                name: trimmed(a[0]),
                index: 0,
                brightness: 0,
                invert: false,
                constant: Some(ConstantModel::Hex(trimmed(a[1]))),
            },
        )
    }
}

/// The variable that the arguments of an `RGB` tag declare: a name and
/// three bytes.
pub open spec fn rgb_variable(command: Seq<char>) -> Option<VariableModel> {
    let a = split_on(command, ',');
    if a.len() != 4 {
        None
    } else {
        let r = parsed_within(trimmed(a[1]), 10, false, 0, 255);
        let g = parsed_within(trimmed(a[2]), 10, false, 0, 255);
        let b = parsed_within(trimmed(a[3]), 10, false, 0, 255);
        if r is None || g is None || b is None {
            None
        } else {
            Some(
                VariableModel {
                    name: trimmed(a[0]),
                    index: 0,
                    brightness: 0,
                    invert: false,
                    constant: Some(
                        ConstantModel::Rgb(r.unwrap() as u8, g.unwrap() as u8, b.unwrap() as u8),
                    ),
                },
            )
        }
    }
}

/// The variables that `declare` finds in the commands, in order.
pub open spec fn declared(
    commands: Seq<Seq<char>>,
    declare: spec_fn(Seq<char>) -> Option<VariableModel>,
) -> Seq<VariableModel>
    decreases commands.len(),
{
    if commands.len() == 0 {
        Seq::<VariableModel>::empty()
    } else {
        let before = declared(commands.drop_last(), declare);
        match declare(commands.last()) {
            Some(v) => before.push(v),
            None => before,
        }
    }
}

/// The variables that the parameters declare: those of the `Color` tags,
/// then those of the `HEX` tags, then those of the `RGB` tags.
pub open spec fn variables_of(caption: Seq<Seq<char>>) -> Seq<VariableModel> {
    declared(commands_of(caption, COLOR_TAG@, ")"@), |c: Seq<char>| color_variable(c)) + declared(
        commands_of(caption, HEX_TAG@, ")"@),
        |c: Seq<char>| hex_variable(c),
    ) + declared(commands_of(caption, RGB_TAG@, ")"@), |c: Seq<char>| rgb_variable(c))
}

/// `s` up to its first `//`.
pub fn remove_comment(s: &Vec<char>) -> (r: Vec<char>)
    ensures
        r@ == without_comment(s@),
{
    let mark = chars_of("//");
    proof {
        lemma_first_occurrence(s@, mark@, 0);
    }
    match find_from(s, &mark, 0) {
        Some(i) => slice_of(s, 0, i),
        None => {
            proof {
                assert(s@.subrange(0, s.len() as int) == s@);
            }
            slice_of(s, 0, s.len())
        },
    }
}

/// Whether `t` begins with `tag`.
fn begins(t: &Vec<char>, tag: &str) -> (b: bool)
    ensures
        b == has_prefix(t@, tag@),
{
    let p = chars_of(tag);
    starts_with(t, &p)
}

/// Whether `t` ends with `tail`.
fn ends(t: &Vec<char>, tail: &str) -> (b: bool)
    ensures
        b == has_suffix(t@, tail@),
{
    let p = chars_of(tail);
    ends_with(t, &p)
}

/// What a line of the parameters declares, if it declares anything.
pub fn validate_line(s: &Vec<char>) -> (r: Option<Vec<char>>)
    ensures
        match r {
            Some(t) => valid_line(s@) == Some(t@),
            None => valid_line(s@) is None,
        },
{
    let bare = remove_comment(s);
    let t = trim(&bare);
    if ends(&t, ")") && (begins(&t, INCLUDE_TAG) || begins(&t, PATH_TAG) || begins(&t, FORMAT_TAG)
        || begins(&t, EXEC_BEFORE_TAG) || begins(&t, EXEC_AFTER_TAG) || begins(&t, COLOR_TAG)
        || begins(&t, RGB_TAG) || begins(&t, HEX_TAG)) {
        Some(t)
    } else {
        None
    }
}

/// The declarations of a template and its body. The declarations are the
/// lines before the first line that reads `[config]` that hold a tag with
/// its arguments, each without comment and surrounding white space. The
/// body is the text behind that line, as it stands to the end.
pub fn parse_template(raw_template: String) -> (r: (Vec<String>, String))
    ensures
        texts(r.0@) == params_from(raw_template@, 0),
        r.1@ == body_from(raw_template@, 0),
{
    let raw = chars_of(raw_template.as_str());
    let mut params_caption: Vec<Vec<char>> = Vec::new();
    let mut body: Vec<char> = Vec::new();
    let mut start: usize = 0;
    let mut done = false;
    proof {
        assert(views(params_caption@) + params_from(raw@, 0) =~= params_from(raw@, 0));
    }
    while !done
        invariant
            start <= raw.len(),
            !done ==> params_from(raw@, 0) == views(params_caption@) + params_from(
                raw@,
                start as int,
            ),
            !done ==> body_from(raw@, 0) == body_from(raw@, start as int),
            !done ==> body@.len() == 0,
            done ==> params_from(raw@, 0) == views(params_caption@),
            done ==> body_from(raw@, 0) == body@,
        decreases raw.len() - start + (if done { 0int } else { 1int }),
    {
        let mut e: usize = start;
        while e < raw.len() && raw[e] != '\n'
            invariant
                start <= e <= raw.len(),
                forall|j: int| start <= j < e ==> raw@[j] != '\n',
            decreases raw.len() - e,
        {
            e += 1;
        }
        proof {
            lemma_line_end_is(raw@, start as int, e as int);
        }
        let line = slice_of(&raw, start, e);
        let ghost before = views(params_caption@);
        let ghost rest = params_from(raw@, start as int);
        if same(&trim(&line), CONFIG_MARK) {
            if e < raw.len() {
                body = slice_of(&raw, e + 1, raw.len());
            }
            proof {
                assert(before + rest =~= before);
            }
            done = true;
        } else {
            match validate_line(&line) {
                Some(valid) => {
                    let ghost v = valid@;
                    params_caption.push(valid);
                    proof {
                        assert(views(params_caption@) =~= before + seq![v]);
                    }
                },
                None => {
                    proof {
                        assert(before + Seq::<Seq<char>>::empty() =~= before);
                    }
                },
            }
            if e >= raw.len() {
                done = true;
            } else {
                proof {
                    let here = declared_by(line@);
                    let after = params_from(raw@, e + 1);
                    assert(before + (here + after) =~= (before + here) + after);
                }
                start = e + 1;
            }
        }
    }
    (to_strings(&params_caption), string_of(&body))
}

/// What stands between `prefix` and `suffix` on the line.
pub fn read_command(line: &Vec<char>, prefix: &Vec<char>, suffix: &Vec<char>) -> (r: Option<
    Vec<char>,
>)
    ensures
        match r {
            Some(c) => command_content(line@, prefix@, suffix@) == Some(c@),
            None => command_content(line@, prefix@, suffix@) is None,
        },
{
    let t = trim(line);
    if !starts_with(&t, prefix) || !ends_with(&t, suffix) {
        return None;
    }
    if prefix.len() > t.len() || suffix.len() > t.len() - prefix.len() {
        return None;
    }
    Some(slice_of(&t, prefix.len(), t.len() - suffix.len()))
}

/// The contents of the lines of that form.
pub fn read_commands(caption: &Vec<Vec<char>>, prefix: &Vec<char>, suffix: &Vec<char>) -> (r: Vec<
    Vec<char>,
>)
    ensures
        views(r@) == commands_of(views(caption@), prefix@, suffix@),
{
    let mut res: Vec<Vec<char>> = Vec::new();
    let mut i: usize = 0;
    while i < caption.len()
        invariant
            i <= caption.len(),
            views(res@) == commands_of(views(caption@).subrange(0, i as int), prefix@, suffix@),
        decreases caption.len() - i,
    {
        proof {
            let next = views(caption@).subrange(0, i + 1);
            assert(next.drop_last() == views(caption@).subrange(0, i as int));
            assert(next.last() == caption@[i as int]@);
        }
        match read_command(&caption[i], prefix, suffix) {
            Some(c) => {
                let ghost before = res@;
                res.push(c);
                proof {
                    assert(views(res@) =~= views(before).push(res@[before.len() as int]@));
                }
            },
            None => {},
        }
        i += 1;
    }
    proof {
        assert(views(caption@).subrange(0, caption.len() as int) == views(caption@));
    }
    res
}

/// The contents of the lines that, without the white space around them,
/// begin with `prefix` and end with `suffix`: what stands between the two,
/// for each such line in order.
pub fn collect_commands(caption: &Vec<String>, prefix: &str, suffix: &str) -> (r: Vec<String>)
    ensures
        texts(r@) == commands_of(texts(caption@), prefix@, suffix@),
{
    let lines = to_texts(caption);
    let res = read_commands(&lines, &chars_of(prefix), &chars_of(suffix));
    to_strings(&res)
}

/// The content of the last line of that form; empty where there is none.
pub fn collect_command(caption: &Vec<String>, prefix: &str, suffix: &str) -> (r: String)
    ensures
        r@ == command_of(texts(caption@), prefix@, suffix@),
{
    let lines = to_texts(caption);
    let res = read_commands(&lines, &chars_of(prefix), &chars_of(suffix));
    proof {
        assert(res.len() == views(res@).len());
    }
    if res.len() == 0 {
        String::new()
    } else {
        proof {
            assert(views(res@).last() == res@[res.len() - 1]@);
        }
        string_of(&res[res.len() - 1])
    }
}

/// The number that an argument writes, or 0.
fn read_argument(arg: &Vec<char>, signed: bool, below: u64, above: u64) -> (r: (bool, u64))
    ensures
        argument_value(arg@, signed, -(below as int), above as int) == (if r.0 {
            -(r.1 as int)
        } else {
            r.1 as int
        }),
        r.0 ==> r.1 <= below,
        !r.0 ==> r.1 <= above,
{
    let t = trim(arg);
    match read_number(&t, 10, signed, below, above) {
        Some(v) => v,
        None => (false, 0),
    }
}

/// The variable that the arguments of a `Color` tag declare.
pub fn read_color_variable(command: &Vec<char>) -> (r: Option<ColorVariable>)
    ensures
        match r {
            Some(v) => color_variable(command@) == Some(v@) && v.index <= 15,
            None => color_variable(command@) is None,
        },
{
    let arguments = split(command, ',');
    proof {
        assert(arguments.len() == views(arguments@).len());
    }
    if arguments.len() < 2 {
        return None;
    }
    proof {
        assert(views(arguments@)[0] == arguments@[0]@);
        assert(views(arguments@)[1] == arguments@[1]@);
    }
    let name = trim(&arguments[0]);
    let (_, raw_index) = read_argument(&arguments[1], false, 0, usize::MAX as u64);
    let index: usize = if raw_index > 15 {
        15
    } else {
        raw_index as usize
    };
    let mut brightness: i32 = 0;
    let mut invert = false;
    if arguments.len() > 2 {
        proof {
            assert(views(arguments@)[2] == arguments@[2]@);
        }
        let (negative, magnitude) = read_argument(&arguments[2], true, 0x8000_0000, 0x7fff_ffff);
        brightness = if negative {
            (-(magnitude as i64)) as i32
        } else {
            magnitude as i32
        };
    }
    if arguments.len() > 3 {
        proof {
            assert(views(arguments@)[3] == arguments@[3]@);
        }
        let flag = trim(&arguments[3]);
        invert = same(&flag, "1") || same(&flag, "true") || same(&flag, "True");
    }
    Some(ColorVariable { name: string_of(&name), index, brightness, invert, constant_value: None })
}

/// The variable that the arguments of a `HEX` tag declare.
pub fn read_hex_variable(command: &Vec<char>) -> (r: Option<ColorVariable>)
    ensures
        match r {
            Some(v) => hex_variable(command@) == Some(v@) && v.index <= 15,
            None => hex_variable(command@) is None,
        },
{
    let arguments = split(command, ',');
    proof {
        assert(arguments.len() == views(arguments@).len());
    }
    if arguments.len() != 2 {
        return None;
    }
    proof {
        assert(views(arguments@)[0] == arguments@[0]@);
        assert(views(arguments@)[1] == arguments@[1]@);
    }
    let name = trim(&arguments[0]);
    let value = trim(&arguments[1]);
    if !has_utf8_length(&value, 6) {
        return None;
    }
    Some(
        ColorVariable {
            name: string_of(&name),
            index: 0,
            brightness: 0,
            invert: false,
            constant_value: Some(Color::HEX(HEX { value: string_of(&value) })),
        },
    )
}

/// The byte that an argument writes, if it writes one.
fn read_byte(arg: &Vec<char>) -> (r: Option<u8>)
    ensures
        match r {
            Some(v) => parsed_within(trimmed(arg@), 10, false, 0, 255) == Some(v as int),
            None => parsed_within(trimmed(arg@), 10, false, 0, 255) is None,
        },
{
    let t = trim(arg);
    match read_number(&t, 10, false, 0, 255) {
        Some((_, v)) => Some(v as u8),
        None => None,
    }
}

/// The variable that the arguments of an `RGB` tag declare.
pub fn read_rgb_variable(command: &Vec<char>) -> (r: Option<ColorVariable>)
    ensures
        match r {
            Some(v) => rgb_variable(command@) == Some(v@) && v.index <= 15,
            None => rgb_variable(command@) is None,
        },
{
    let arguments = split(command, ',');
    proof {
        assert(arguments.len() == views(arguments@).len());
    }
    if arguments.len() != 4 {
        return None;
    }
    proof {
        assert(views(arguments@)[0] == arguments@[0]@);
        assert(views(arguments@)[1] == arguments@[1]@);
        assert(views(arguments@)[2] == arguments@[2]@);
        assert(views(arguments@)[3] == arguments@[3]@);
    }
    let name = trim(&arguments[0]);
    let r = match read_byte(&arguments[1]) {
        Some(v) => v,
        None => { return None; },
    };
    let g = match read_byte(&arguments[2]) {
        Some(v) => v,
        None => { return None; },
    };
    let b = match read_byte(&arguments[3]) {
        Some(v) => v,
        None => { return None; },
    };
    Some(
        ColorVariable {
            name: string_of(&name),
            index: 0,
            brightness: 0,
            invert: false,
            constant_value: Some(Color::RGB(RGB { r, g, b })),
        },
    )
}

/// The colour variables that the parameters declare: those of the `Color`
/// tags, then those of the `HEX` tags, then those of the `RGB` tags, each
/// group in the order of its lines. None has an index above 15.
pub fn collect_colors(caption: &Vec<String>) -> (res: Vec<ColorVariable>)
    ensures
        variable_views(res@) == variables_of(texts(caption@)),
        forall|i: int| 0 <= i < res.len() ==> (#[trigger] res[i]).index <= 15,
{
    let lines = to_texts(caption);
    let close = chars_of(")");
    let mut res: Vec<ColorVariable> = Vec::new();

    let colors = read_commands(&lines, &chars_of(COLOR_TAG), &close);
    let ghost declare_color = |c: Seq<char>| color_variable(c);
    let mut i: usize = 0;
    while i < colors.len()
        invariant
            i <= colors.len(),
            variable_views(res@) == declared(views(colors@).subrange(0, i as int), declare_color),
            declare_color == (|c: Seq<char>| color_variable(c)),
            forall|k: int| 0 <= k < res.len() ==> (#[trigger] res[k]).index <= 15,
        decreases colors.len() - i,
    {
        proof {
            let next = views(colors@).subrange(0, i + 1);
            assert(next.drop_last() == views(colors@).subrange(0, i as int));
            assert(next.last() == colors@[i as int]@);
        }
        match read_color_variable(&colors[i]) {
            Some(v) => {
                let ghost before = res@;
                res.push(v);
                proof {
                    assert(variable_views(res@) =~= variable_views(before).push(
                        res@[before.len() as int]@,
                    ));
                }
            },
            None => {},
        }
        i += 1;
    }
    proof {
        assert(views(colors@).subrange(0, colors.len() as int) == views(colors@));
    }
    let ghost first = variable_views(res@);

    let hexes = read_commands(&lines, &chars_of(HEX_TAG), &close);
    let ghost declare_hex = |c: Seq<char>| hex_variable(c);
    let mut i: usize = 0;
    while i < hexes.len()
        invariant
            i <= hexes.len(),
            variable_views(res@) == first + declared(
                views(hexes@).subrange(0, i as int),
                declare_hex,
            ),
            declare_hex == (|c: Seq<char>| hex_variable(c)),
            forall|k: int| 0 <= k < res.len() ==> (#[trigger] res[k]).index <= 15,
        decreases hexes.len() - i,
    {
        proof {
            let next = views(hexes@).subrange(0, i + 1);
            assert(next.drop_last() == views(hexes@).subrange(0, i as int));
            assert(next.last() == hexes@[i as int]@);
        }
        match read_hex_variable(&hexes[i]) {
            Some(v) => {
                let ghost before = res@;
                res.push(v);
                proof {
                    assert(variable_views(res@) =~= variable_views(before).push(
                        res@[before.len() as int]@,
                    ));
                }
            },
            None => {},
        }
        i += 1;
    }
    proof {
        assert(views(hexes@).subrange(0, hexes.len() as int) == views(hexes@));
    }
    let ghost second = variable_views(res@);

    let rgbs = read_commands(&lines, &chars_of(RGB_TAG), &close);
    let ghost declare_rgb = |c: Seq<char>| rgb_variable(c);
    let mut i: usize = 0;
    while i < rgbs.len()
        invariant
            i <= rgbs.len(),
            variable_views(res@) == second + declared(
                views(rgbs@).subrange(0, i as int),
                declare_rgb,
            ),
            declare_rgb == (|c: Seq<char>| rgb_variable(c)),
            forall|k: int| 0 <= k < res.len() ==> (#[trigger] res[k]).index <= 15,
        decreases rgbs.len() - i,
    {
        proof {
            let next = views(rgbs@).subrange(0, i + 1);
            assert(next.drop_last() == views(rgbs@).subrange(0, i as int));
            assert(next.last() == rgbs@[i as int]@);
        }
        match read_rgb_variable(&rgbs[i]) {
            Some(v) => {
                let ghost before = res@;
                res.push(v);
                proof {
                    assert(variable_views(res@) =~= variable_views(before).push(
                        res@[before.len() as int]@,
                    ));
                }
            },
            None => {},
        }
        i += 1;
    }
    proof {
        assert(views(rgbs@).subrange(0, rgbs.len() as int) == views(rgbs@));
    }
    res
}

} // verus!
