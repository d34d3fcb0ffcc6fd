//! A template: where its output goes, how a colour is written, the commands
//! around its application, its colour variables and its body; and the body
//! with every variable replaced by its colour.

use crate::colors::{channels_of_hex, hex_of_channels, shifted_channel, ColorValue, Color};
use crate::number::{decimal_digits, decimal_text};
use crate::template_parser::{
    collect_colors, collect_command, collect_commands, command_of, commands_of, variable_views,
    variables_of, ColorVariable, ConstantModel, VariableModel, EXEC_AFTER_TAG, EXEC_BEFORE_TAG,
    FORMAT_TAG, PATH_TAG,
};
use crate::text::{
    append, append_str, chars_of, contains, contains_text, replace, replaced, slice_of, string_of,
    texts,
};
use vstd::prelude::*;

verus! {

/// A template, read.
pub struct Template {
    pub self_path: String,
    pub conf_path: String,
    pub conf_caption: String,
    pub color_format: String,
    pub color_vars: Vec<ColorVariable>,
    pub commands_before: Vec<String>,
    pub commands_after: Vec<String>,
}

/// A colour under a name.
pub struct NamedColor {
    pub name: Seq<char>,
    pub r: u8,
    pub g: u8,
    pub b: u8,
}

impl View for ColorValue {
    type V = NamedColor;

    open spec fn view(&self) -> NamedColor {
        NamedColor { name: self.name@, r: self.r, g: self.g, b: self.b }
    }
}

/// The views of the colours of a vector.
pub open spec fn color_views(v: Seq<ColorValue>) -> Seq<NamedColor> {
    Seq::new(v.len(), |i: int| v[i]@)
}

/// The part of a name that stands for a step of brightness.
pub open spec fn step_mark() -> Seq<char> {
    "{br}"@
}

/// The colour that a variable starts from: its constant where it has one,
/// else the entry of the palette at its index.
pub open spec fn base_channels(v: VariableModel, palette: Seq<Seq<char>>) -> (u8, u8, u8) {
    match v.constant {
        Some(ConstantModel::Hex(h)) => channels_of_hex(h),
        Some(ConstantModel::Rgb(r, g, b)) => (r, g, b),
        None => channels_of_hex(palette[v.index]),
    }
}

/// A channel of a variable's colour: inverted where the variable asks for
/// it, then moved by `delta` and kept within a byte.
pub open spec fn finished_channel(c: u8, invert: bool, delta: int) -> u8 {
    shifted_channel(
        if invert {
            (255 - c) as u8
        } else {
            c
        },
        delta,
    )
}

/// The colour of a variable under `name`, with `extra` added to its
/// brightness.
pub open spec fn resolved(v: VariableModel, palette: Seq<Seq<char>>, name: Seq<char>, extra: int) -> NamedColor {
    let base = base_channels(v, palette);
    NamedColor {
        name,
        r: finished_channel(base.0, v.invert, v.brightness + extra),
        g: finished_channel(base.1, v.invert, v.brightness + extra),
        b: finished_channel(base.2, v.invert, v.brightness + extra),
    }
}

/// The name of a step of a variable: its name with the mark replaced by
/// `LR` or `DR` and the number of the step.
pub open spec fn step_name(name: Seq<char>, lighter: bool, n: int) -> Seq<char> {
    replaced(
        name,
        step_mark(),
        (if lighter {
            "LR"@
        } else {
            "DR"@
        }) + decimal_digits(n as nat),
    )
}

/// The first `n` steps of a variable: for each, the lighter colour, ten
/// times the step brighter, and then the darker one, as much darker.
pub open spec fn steps(v: VariableModel, palette: Seq<Seq<char>>, n: int) -> Seq<NamedColor>
    decreases n,
{
    if n <= 0 {
        Seq::<NamedColor>::empty()
    } else {
        steps(v, palette, n - 1).push(
            resolved(v, palette, step_name(v.name, true, n), 10 * n),
        ).push(resolved(v, palette, step_name(v.name, false, n), -10 * n))
    }
}

/// The colours of one variable: where its name holds the mark, its
/// nineteen steps; and last the variable itself, under its name without
/// the mark.
pub open spec fn colors_of_variable(v: VariableModel, palette: Seq<Seq<char>>) -> Seq<NamedColor> {
    (if contains_text(v.name, step_mark()) {
        steps(v, palette, 19)
    } else {
        Seq::<NamedColor>::empty()
    }).push(resolved(v, palette, replaced(v.name, step_mark(), Seq::<char>::empty()), 0))
}

/// The colours of all variables, in the order of the variables.
pub open spec fn colors_of(vars: Seq<VariableModel>, palette: Seq<Seq<char>>) -> Seq<NamedColor>
    decreases vars.len(),
{
    if vars.len() == 0 {
        Seq::<NamedColor>::empty()
    } else {
        colors_of(vars.drop_last(), palette) + colors_of_variable(vars.last(), palette)
    }
}

/// A colour written in a format: `{R}`, `{G}` and `{B}` replaced by the
/// decimal channels, then `{HEX}` by the six hexadecimal digits.
pub open spec fn formatted(format: Seq<char>, c: NamedColor) -> Seq<char> {
    replaced(
        replaced(
            replaced(
                replaced(format, "{R}"@, decimal_digits(c.r as nat)),
                "{G}"@,
                decimal_digits(c.g as nat),
            ),
            "{B}"@,
            decimal_digits(c.b as nat),
        ),
        "{HEX}"@,
        hex_of_channels(c.r, c.g, c.b),
    )
}

/// The body after each colour in turn has replaced every occurrence of its
/// name.
pub open spec fn substituted(body: Seq<char>, colors: Seq<NamedColor>, format: Seq<char>) -> Seq<
    char,
>
    decreases colors.len(),
{
    if colors.len() == 0 {
        body
    } else {
        replaced(
            substituted(body, colors.drop_last(), format),
            colors.last().name,
            formatted(format, colors.last()),
        )
    }
}

/// Every variable takes an entry that the palette has.
pub open spec fn within_palette(vars: Seq<VariableModel>, entries: int) -> bool {
    forall|i: int| 0 <= i < vars.len() ==> 0 <= (#[trigger] vars[i]).index < entries
}

/// The commands that are not empty, in order.
pub open spec fn runnable(commands: Seq<Seq<char>>) -> Seq<Seq<char>>
    decreases commands.len(),
{
    if commands.len() == 0 {
        commands
    } else if commands.last().len() == 0 {
        runnable(commands.drop_last())
    } else {
        runnable(commands.drop_last()).push(commands.last())
    }
}

/// The commands that are not empty.
fn keep_runnable(commands: &Vec<String>) -> (r: Vec<String>)
    ensures
        texts(r@) == runnable(texts(commands@)),
{
    let mut r: Vec<String> = Vec::new();
    let mut i: usize = 0;
    while i < commands.len()
        invariant
            i <= commands.len(),
            texts(r@) == runnable(texts(commands@).subrange(0, i as int)),
        decreases commands.len() - i,
    {
        proof {
            let next = texts(commands@).subrange(0, i + 1);
            assert(next.drop_last() == texts(commands@).subrange(0, i as int));
            assert(next.last() == commands@[i as int]@);
        }
        if commands[i].as_str().unicode_len() != 0 {
            let ghost before = r@;
            r.push(commands[i].clone());
            proof {
                assert(texts(r@) =~= texts(before).push(commands@[i as int]@));
            }
        }
        i += 1;
    }
    proof {
        assert(texts(commands@).subrange(0, commands.len() as int) == texts(commands@));
    }
    r
}

/// A channel inverted where asked, then moved by `delta`.
fn finish_channel(c: u8, invert: bool, delta: i64) -> (r: u8)
    requires
        -0x1_0000_0000 <= delta <= 0x1_0000_0000,
    ensures
        r == finished_channel(c, invert, delta as int),
{
    let start: i64 = if invert {
        255 - c as i64
    } else {
        c as i64
    };
    let moved: i64 = start + delta;
    if moved < 0 {
        0
    } else if moved > 255 {
        255
    } else {
        moved as u8
    }
}

/// The colour of a variable under `name`, with `extra` added to its
/// brightness.
fn resolve(var: &ColorVariable, hex_colors: &Vec<String>, name: Vec<char>, extra: i64) -> (r:
    ColorValue)
    requires
        var.index < hex_colors.len(),
        -1000 <= extra <= 1000,
    ensures
        r@ == resolved(var@, texts(hex_colors@), name@, extra as int),
{
    let base: (u8, u8, u8) = match &var.constant_value {
        Some(Color::HEX(h)) => ColorValue::hex_to_rgb(h.value.as_str()),
        Some(Color::RGB(c)) => (c.r, c.g, c.b),
        None => ColorValue::hex_to_rgb(hex_colors[var.index].as_str()),
    };
    let delta: i64 = var.brightness as i64 + extra;
    ColorValue {
        name: string_of(&name),
        r: finish_channel(base.0, var.invert, delta),
        g: finish_channel(base.1, var.invert, delta),
        b: finish_channel(base.2, var.invert, delta),
    }
}

/// The name of a step of a variable.
fn name_of_step(name: &Vec<char>, lighter: bool, n: u64) -> (r: Vec<char>)
    ensures
        r@ == step_name(name@, lighter, n as int),
{
    let mut to: Vec<char> = Vec::new();
    if lighter {
        append_str(&mut to, "LR");
    } else {
        append_str(&mut to, "DR");
    }
    append(&mut to, &decimal_text(n));
    proof {
        assert(to@ =~= (if lighter {
            "LR"@
        } else {
            "DR"@
        }) + decimal_digits(n as nat));
    }
    replace(name, &chars_of("{br}"), &to)
}

/// Appends the colours of one variable to `out`.
fn push_colors_of_variable(out: &mut Vec<ColorValue>, var: &ColorVariable, hex_colors: &Vec<String>)
    requires
        var.index < hex_colors.len(),
    ensures
        color_views(final(out)@) == color_views(old(out)@) + colors_of_variable(
            var@,
            texts(hex_colors@),
        ),
{
    let name = chars_of(var.name.as_str());
    let mark = chars_of("{br}");
    let ghost start = color_views(out@);
    let ghost palette = texts(hex_colors@);
    if contains(&name, &mark) {
        let mut i: u64 = 1;
        proof {
            assert(start + steps(var@, palette, 0) =~= start);
        }
        while i < 20
            invariant
                1 <= i <= 20,
                var.index < hex_colors.len(),
                name@ == var.name@,
                palette == texts(hex_colors@),
                color_views(out@) == start + steps(var@, palette, i - 1),
            decreases 20 - i,
        {
            let step: i64 = 10 * (i as i64);
            let lighter = resolve(var, hex_colors, name_of_step(&name, true, i), step);
            let darker = resolve(var, hex_colors, name_of_step(&name, false, i), -step);
            let ghost before = out@;
            let ghost l = lighter@;
            let ghost d = darker@;
            out.push(lighter);
            out.push(darker);
            proof {
                assert(color_views(out@) =~= color_views(before).push(l).push(d));
                assert(start + steps(var@, palette, i as int) =~= (start + steps(
                    var@,
                    palette,
                    i - 1,
                )).push(l).push(d));
            }
            i += 1;
        }
    }
    let ghost before = out@;
    let main = resolve(var, hex_colors, replace(&name, &mark, &Vec::new()), 0);
    let ghost m = main@;
    out.push(main);
    proof {
        assert(color_views(out@) =~= color_views(before).push(m));
        assert(color_views(out@) =~= start + colors_of_variable(var@, palette));
    }
}

/// The colours of all variables.
pub fn color_values(vars: &Vec<ColorVariable>, hex_colors: &Vec<String>) -> (r: Vec<ColorValue>)
    requires
        within_palette(variable_views(vars@), hex_colors.len() as int),
    ensures
        color_views(r@) == colors_of(variable_views(vars@), texts(hex_colors@)),
{
    let mut r: Vec<ColorValue> = Vec::new();
    let mut i: usize = 0;
    while i < vars.len()
        invariant
            i <= vars.len(),
            within_palette(variable_views(vars@), hex_colors.len() as int),
            color_views(r@) == colors_of(
                variable_views(vars@).subrange(0, i as int),
                texts(hex_colors@),
            ),
        decreases vars.len() - i,
    {
        proof {
            let next = variable_views(vars@).subrange(0, i + 1);
            assert(next.drop_last() == variable_views(vars@).subrange(0, i as int));
            assert(next.last() == vars@[i as int]@);
            assert(variable_views(vars@)[i as int].index < hex_colors.len());
        }
        push_colors_of_variable(&mut r, &vars[i], hex_colors);
        i += 1;
    }
    proof {
        assert(variable_views(vars@).subrange(0, vars.len() as int) == variable_views(vars@));
    }
    r
}

/// A colour written in a format.
pub fn format_color(format: &Vec<char>, c: &ColorValue) -> (r: Vec<char>)
    ensures
        r@ == formatted(format@, c@),
{
    let with_r = replace(format, &chars_of("{R}"), &decimal_text(c.r as u64));
    let with_g = replace(&with_r, &chars_of("{G}"), &decimal_text(c.g as u64));
    let with_b = replace(&with_g, &chars_of("{B}"), &decimal_text(c.b as u64));
    let hex = chars_of(c.hex().as_str());
    replace(&with_b, &chars_of("{HEX}"), &hex)
}

/// The body with each colour in turn put in the place of its name.
pub fn substitute(body: &Vec<char>, colors: &Vec<ColorValue>, format: &Vec<char>) -> (r: Vec<char>)
    ensures
        r@ == substituted(body@, color_views(colors@), format@),
{
    let mut config = slice_of(body, 0, body.len());
    proof {
        assert(body@.subrange(0, body@.len() as int) == body@);
    }
    let mut i: usize = 0;
    while i < colors.len()
        invariant
            i <= colors.len(),
            config@ == substituted(body@, color_views(colors@).subrange(0, i as int), format@),
        decreases colors.len() - i,
    {
        proof {
            let next = color_views(colors@).subrange(0, i + 1);
            assert(next.drop_last() == color_views(colors@).subrange(0, i as int));
            assert(next.last() == colors@[i as int]@);
        }
        let written = format_color(format, &colors[i]);
        let name = chars_of(colors[i].name.as_str());
        config = replace(&config, &name, &written);
        i += 1;
    }
    proof {
        assert(color_views(colors@).subrange(0, colors.len() as int) == color_views(colors@));
    }
    config
}

impl Template {
    /// The template that the declarations and the body make: the last
    /// `Path` and `Format`, every `ExecBefore` and `ExecAfter`, and the
    /// colour variables.
    pub fn from_parts(path: &str, params_caption: &Vec<String>, config_caption: String) -> (t: Self)
        ensures
            t.self_path@ == path@,
            t.conf_caption == config_caption,
            t.conf_path@ == command_of(texts(params_caption@), PATH_TAG@, ")"@),
            t.color_format@ == command_of(texts(params_caption@), FORMAT_TAG@, ")"@),
            texts(t.commands_before@) == commands_of(
                texts(params_caption@),
                EXEC_BEFORE_TAG@,
                ")"@,
            ),
            texts(t.commands_after@) == commands_of(texts(params_caption@), EXEC_AFTER_TAG@, ")"@),
            variable_views(t.color_vars@) == variables_of(texts(params_caption@)),
            t.wf(),
    {
        let conf_path = collect_command(params_caption, PATH_TAG, ")");
        let color_format = collect_command(params_caption, FORMAT_TAG, ")");
        let commands_before = collect_commands(params_caption, EXEC_BEFORE_TAG, ")");
        let commands_after = collect_commands(params_caption, EXEC_AFTER_TAG, ")");
        let color_vars = collect_colors(params_caption);
        proof {
            assert forall|i: int| 0 <= i < color_vars.len() implies 0 <= (
            #[trigger] variable_views(color_vars@)[i]).index < 16 by {
                assert(color_vars[i].index <= 15);
            }
        }
        Template {
            self_path: String::from_str(path),
            conf_path,
            conf_caption: config_caption,
            color_format,
            commands_before,
            commands_after,
            color_vars,
        }
    }

    /// Every variable takes one of the sixteen entries of a palette.
    pub open spec fn wf(&self) -> bool {
        within_palette(variable_views(self.color_vars@), 16)
    }

    /// The commands to run, each to its end, before the body is written:
    /// those declared that are not empty, in order.
    pub fn exec_before(&self) -> (r: Vec<String>)
        ensures
            texts(r@) == runnable(texts(self.commands_before@)),
    {
        keep_runnable(&self.commands_before)
    }

    /// The commands to start once the body is written: those declared that
    /// are not empty, in order.
    pub fn exec_after(&self) -> (r: Vec<String>)
        ensures
            texts(r@) == runnable(texts(self.commands_after@)),
    {
        keep_runnable(&self.commands_after)
    }

    /// The body with every colour variable replaced by its colour from the
    /// palette, written in the template's format. There is none if a
    /// variable takes an entry that the palette does not have.
    pub fn render(&self, hex_colors: &Vec<String>) -> (r: Option<String>)
        ensures
            match r {
                Some(out) => within_palette(
                    variable_views(self.color_vars@),
                    hex_colors.len() as int,
                ) && out@ == substituted(
                    self.conf_caption@,
                    colors_of(variable_views(self.color_vars@), texts(hex_colors@)),
                    self.color_format@,
                ),
                None => !within_palette(variable_views(self.color_vars@), hex_colors.len() as int),
            },
    {
        let mut i: usize = 0;
        while i < self.color_vars.len()
            invariant
                i <= self.color_vars.len(),
                forall|k: int| 0 <= k < i ==> (#[trigger] self.color_vars[k]).index < hex_colors.len(),
            decreases self.color_vars.len() - i,
        {
            if self.color_vars[i].index >= hex_colors.len() {
                proof {
                    assert(variable_views(self.color_vars@)[i as int].index >= hex_colors.len());
                }
                return None;
            }
            i += 1;
        }
        proof {
            assert forall|k: int| 0 <= k < self.color_vars.len() implies 0 <= (
            #[trigger] variable_views(self.color_vars@)[k]).index < hex_colors.len() by {
                assert(self.color_vars[k].index < hex_colors.len());
            }
        }
        let colors = color_values(&self.color_vars, hex_colors);
        let body = chars_of(self.conf_caption.as_str());
        let format = chars_of(self.color_format.as_str());
        let out = substitute(&body, &colors, &format);
        Some(string_of(&out))
    }
}

} // verus!
