use rpaper::colors::Color;
use rpaper::inclusion::{expand_includes, IncludedFile, InclusionError};
use rpaper::template::Template;
use rpaper::template_parser::{
    collect_colors, collect_command, collect_commands, parse_template, remove_comment,
    validate_line, ColorVariable,
};

fn strings(v: &[&str]) -> Vec<String> {
    v.iter().map(|s| s.to_string()).collect()
}

fn chars(s: &str) -> Vec<char> {
    s.chars().collect()
}

fn palette() -> Vec<String> {
    let mut p = strings(&[
        "#646464", "#111111", "#222222", "#123456", "#444444", "#555555", "#666666", "#777777",
    ]);
    p.extend(p.clone());
    p
}

fn template(params: &[&str], body: &str) -> Template {
    Template::from_parts("/t/a.template", &strings(params), body.to_string())
}

#[test]
fn comment_is_cut_at_the_first_double_slash() {
    assert_eq!(remove_comment(&chars("Path(/a) // out")), chars("Path(/a) "));
    assert_eq!(remove_comment(&chars("Path(http://x)")), chars("Path(http:"));
    assert_eq!(remove_comment(&chars("Path(/a)")), chars("Path(/a)"));
}

#[test]
fn only_lines_with_a_tag_are_declarations() {
    assert_eq!(validate_line(&chars("  Color(a, 1)  // accent")), Some(chars("Color(a, 1)")));
    assert_eq!(validate_line(&chars("HEX(x, 112233)")), Some(chars("HEX(x, 112233)")));
    assert_eq!(validate_line(&chars("Include(~/colors)")), Some(chars("Include(~/colors)")));
    assert_eq!(validate_line(&chars("# comment")), None);
    assert_eq!(validate_line(&chars("")), None);
    assert_eq!(validate_line(&chars("Colour(a, 1)")), None);
    assert_eq!(validate_line(&chars("Color(a, 1")), None);
    assert_eq!(validate_line(&chars("color(a, 1)")), None);
}

#[test]
fn template_is_parted_at_the_first_config_mark() {
    let raw = "# a template\n\nPath(~/.config/app/colors)\nFormat(#{HEX})\nnoise\n \
               Color(@@ACCENT@@, 3) // the accent\n  [config]  \n  first line \n\nColor(x, 1)\n[config]\nlast";
    let (params, body) = parse_template(raw.to_string());
    assert_eq!(params, strings(&["Path(~/.config/app/colors)", "Format(#{HEX})", "Color(@@ACCENT@@, 3)"]));
    assert_eq!(body, "  first line \n\nColor(x, 1)\n[config]\nlast");
}

#[test]
fn body_of_a_template_is_verbatim() {
    let (params, body) = parse_template("junk\nPath(/o)\n[config]\na\n[config]\n  b".to_string());
    assert_eq!(params, strings(&["Path(/o)"]));
    assert_eq!(body, "a\n[config]\n  b");
    let (params, body) = parse_template("Path(/o)\r\n[config]\r\na\r\n\r\nb\r\n\n".to_string());
    assert_eq!(params, strings(&["Path(/o)"]));
    assert_eq!(body, "a\r\n\r\nb\r\n\n");
    assert_eq!(parse_template("[config]".to_string()).1, "");
    assert_eq!(parse_template("[config]\n".to_string()).1, "");
    assert_eq!(parse_template("[config]\n\n".to_string()).1, "\n");
}

#[test]
fn template_without_mark_has_no_body() {
    let (params, body) = parse_template("Path(/a)\nrest".to_string());
    assert_eq!(params, strings(&["Path(/a)"]));
    assert_eq!(body, "");
    let (params, body) = parse_template("".to_string());
    assert_eq!(params, Vec::<String>::new());
    assert_eq!(body, "");
    let (params, _) = parse_template("Path(/a)\r\nFormat(x)\n".to_string());
    assert_eq!(params, strings(&["Path(/a)", "Format(x)"]));
}

#[test]
fn commands_are_the_contents_of_their_tags() {
    let caption = strings(&["ExecBefore(a)", "Path(/x)", " ExecBefore() ", "ExecBefore(b (c))", "ExecBefore(d"]);
    assert_eq!(collect_commands(&caption, "ExecBefore(", ")"), strings(&["a", "", "b (c)"]));
    assert_eq!(collect_command(&caption, "Path(", ")"), "/x");
    assert_eq!(collect_command(&caption, "Format(", ")"), "");
    assert_eq!(collect_command(&strings(&["Path(/a)", "Path(/b)"]), "Path(", ")"), "/b");
    assert_eq!(collect_commands(&strings(&["aba"]), "ab", "ba"), Vec::<String>::new());
}

fn describe(v: &ColorVariable) -> (String, usize, i32, bool, Option<String>) {
    let constant = match &v.constant_value {
        Some(Color::HEX(h)) => Some(format!("hex {}", h.value)),
        Some(Color::RGB(c)) => Some(format!("rgb {} {} {}", c.r, c.g, c.b)),
        None => None,
    };
    (v.name.clone(), v.index, v.brightness, v.invert, constant)
}

#[test]
fn colour_variables_are_read_in_groups() {
    let caption = strings(&[
        "RGB(r, 1, 2, 3)",
        "Color( a , 3 )",
        "HEX(h, 1A2b3C)",
        "Color(b, 99, -20, true)",
        "Color(c, x, y, 1, more)",
        "Color(d, 2, 5, yes)",
        "Color(e, 99999999999999999999999)",
        "Color(lonely)",
        "HEX(short, 12345)",
        "HEX(three, a, b)",
        "HEX(bytes, ééé)",
        "RGB(big, 256, 0, 0)",
        "RGB(few, 1, 2)",
        "RGB( s , 255 , 0 , +7 )",
    ]);
    let vars: Vec<_> = collect_colors(&caption).iter().map(describe).collect();
    let n = |s: &str| s.to_string();
    assert_eq!(
        vars,
        vec![
            (n("a"), 3, 0, false, None),
            (n("b"), 15, -20, true, None),
            (n("c"), 0, 0, true, None),
            (n("d"), 2, 5, false, None),
            (n("e"), 0, 0, false, None),
            (n("h"), 0, 0, false, Some(n("hex 1A2b3C"))),
            (n("bytes"), 0, 0, false, Some(n("hex ééé"))),
            (n("r"), 0, 0, false, Some(n("rgb 1 2 3"))),
            (n("s"), 0, 0, false, Some(n("rgb 255 0 7"))),
        ]
    );
}

#[test]
fn template_takes_the_last_path_and_every_command() {
    let t = template(
        &["Path(/a)", "ExecBefore(one)", "ExecBefore()", "Path(/b)", "ExecAfter(two)", "ExecAfter()", "ExecAfter(three)"],
        "",
    );
    assert_eq!(t.self_path, "/t/a.template");
    assert_eq!(t.conf_path, "/b");
    assert_eq!(t.color_format, "");
    assert_eq!(t.commands_before, strings(&["one", ""]));
    assert_eq!(t.exec_before(), strings(&["one"]));
    assert_eq!(t.exec_after(), strings(&["two", "three"]));
}

#[test]
fn accent_is_written_where_its_name_stands_and_nowhere_else() {
    let t = template(&["Format(#{HEX})", "Color(@@ACCENT@@, 3)"], "a = @@ACCENT@@\nb = @ACCENT@ @@ACCENT@@");
    assert_eq!(t.render(&palette()).unwrap(), "a = #123456\nb = @ACCENT@ #123456");
}

#[test]
fn colour_is_written_in_the_format() {
    let t = template(&["Format(rgb({R}, {G}, {B}) /* {HEX} {R} */)", "Color($c, 3, 10, 1)"], "x: $c;");
    // #123456 inverted is (237, 203, 169), ten brighter (247, 213, 179)
    assert_eq!(t.render(&palette()).unwrap(), "x: rgb(247, 213, 179) /* F7D5B3 247 */;");
}

#[test]
fn constant_takes_the_place_of_the_palette() {
    let t = template(&["Format({HEX})", "HEX(@h@, 0a0B0c)", "RGB(@r@, 1, 2, 255)", "HEX(@bad@, zzzzzz)"], "@h@ @r@ @bad@");
    assert_eq!(t.render(&palette()).unwrap(), "0A0B0C 0102FF 000000");
}

#[test]
fn steps_of_brightness_are_ten_apart() {
    let t = template(&["Format({R})", "Color(@c{br}@, 0, 5)"], "@cLR1@ @cDR1@ @cLR19@ @cDR19@ @c@ @cLR20@ @c{br}@");
    // #646464 is 100; with brightness 5: 115, 95, 255, 0, 105
    assert_eq!(t.render(&palette()).unwrap(), "115 95 255 0 105 @cLR20@ @c{br}@");
}

#[test]
fn variables_are_replaced_one_after_the_other() {
    // The colour written for the first variable holds the name of the second.
    let t = template(&["Format(<{R}>)", "Color(A, 1)", "Color(17, 2)"], "A");
    assert_eq!(t.render(&palette()).unwrap(), "<<34>>");
}

#[test]
fn palette_that_lacks_an_entry_gives_no_output() {
    let t = template(&["Format({HEX})", "Color(a, 15)"], "a");
    assert!(t.render(&palette()).is_some());
    let short: Vec<String> = palette().into_iter().take(15).collect();
    assert_eq!(t.render(&short), None);
    assert_eq!(template(&["Format({HEX})"], "a").render(&vec![]), Some("a".to_string()));
}

#[test]
fn no_name_is_left_in_the_output() {
    let t = template(
        &["Format(#{HEX})", "Color(@@A@@, 1)", "Color(@@B{br}@@, 2)", "HEX(@@C@@, 112233)"],
        "@@A@@ @@BLR3@@ @@B@@ @@C@@ @@A@@@@C@@ @@BDR19@@",
    );
    let out = t.render(&palette()).unwrap();
    for name in ["@@A@@", "@@B@@", "@@C@@", "@@BLR3@@", "@@BDR19@@"] {
        assert!(!out.contains(name));
    }
}

#[test]
fn name_that_shares_characters_with_a_colour_is_replaced_too() {
    let t = template(&["Format(#{HEX})", "Color(color1, 3)", "Color(color2, 1)"], "a: color1; b: color2; c: color11");
    let out = t.render(&palette()).unwrap();
    assert_eq!(out, "a: #123456; b: #111111; c: #1234561");
    assert!(!out.contains("color1") && !out.contains("color2"));
}

fn file(path: &str, content: Option<&str>) -> IncludedFile {
    IncludedFile { path: path.to_string(), content: content.map(|c| c.to_string()) }
}

fn expanded(caption: &[&str], table: &Vec<IncludedFile>) -> Result<Vec<String>, String> {
    match expand_includes(&strings(caption), table) {
        Ok(lines) => Ok(lines),
        Err(InclusionError::Unknown(p)) => Err(format!("unknown {}", p)),
        Err(InclusionError::TooDeep(p)) => Err(format!("too deep {}", p)),
    }
}

#[test]
fn inclusion_asks_for_the_files_it_needs() {
    let caption = ["Include(colors.inc)", "Path(/x)"];
    assert_eq!(expanded(&caption, &vec![]), Err("unknown colors.inc".to_string()));
    let one = vec![file("colors.inc", Some("Color(a, 1)\n  Color(b, 2) // c\nnoise\nInclude(~/nested.inc)\n Include(deep)"))];
    assert_eq!(expanded(&caption, &one), Err("unknown ~/nested.inc".to_string()));
    let two = vec![one.into_iter().next().unwrap(), file("~/nested.inc", None)];
    assert_eq!(
        expanded(&caption, &two),
        Ok(strings(&["Color(a, 1)", "Color(b, 2)", "Include(deep)", "Path(/x)"]))
    );
    let three = vec![
        file("colors.inc", Some("Include(~/nested.inc)\nFormat(f)")),
        file("~/nested.inc", Some("HEX(n, 000000)")),
    ];
    assert_eq!(expanded(&caption, &three), Ok(strings(&["HEX(n, 000000)", "Format(f)", "Path(/x)"])));
}

#[test]
fn files_that_name_one_another_without_end_are_an_error() {
    let table = vec![file("self", Some("Color(a, 1)\nInclude(self)"))];
    assert_eq!(expanded(&["Include(self)"], &table), Err("too deep self".to_string()));
    let pair = vec![file("a", Some("Include(b)")), file("b", Some("Include(a)"))];
    assert_eq!(expanded(&["Path(/x)", "Include(a)"], &pair), Err("too deep a".to_string()));
}

#[test]
fn sixteen_files_in_a_row_are_not_too_deep() {
    let mut table: Vec<IncludedFile> = Vec::new();
    for i in 0..16 {
        let content = format!("Color(c{}, 1)\nInclude(f{})", i, i + 1);
        table.push(IncludedFile { path: format!("f{}", i), content: Some(content) });
    }
    table.push(file("f16", None));
    assert_eq!(expanded(&["Include(f0)"], &table), Err("too deep f16".to_string()));
    table[15].content = Some("Color(last, 1)".to_string());
    let lines = expanded(&["Include(f0)"], &table).unwrap();
    assert_eq!(lines.len(), 16);
    assert_eq!(lines[15], "Color(last, 1)");
}
