//! Templates that take declarations from other files: the lines of each
//! `Include(path)` are put in its place, and theirs in turn. More than
//! sixteen files that name one another in a row are an error.

use crate::template_parser::{valid_line, validate_line, INCLUDE_TAG};
use crate::text::{
    chars_of, ends_with, has_prefix, has_suffix, lines, lines_of, same, slice_of, starts_with,
    string_of, texts, to_strings, to_texts, views,
};
use vstd::prelude::*;

verus! {

/// The number of files that may name one another in a row.
pub const MAX_DEPTH: u32 = 16;

/// A file that a template may name, as it was found: its path as the
/// template writes it, and its content, or none where it cannot be read.
pub struct IncludedFile {
    pub path: String,
    pub content: Option<String>,
}

/// What was found at a path.
pub enum Found {
    /// The file with this content.
    Content(Seq<char>),
    /// No file that can be read.
    Unreadable,
    /// Nobody has looked yet.
    Unknown,
}

/// What the table says of a path: the entry of that path, the last of
/// several.
pub open spec fn found(table: Seq<IncludedFile>, path: Seq<char>) -> Found
    decreases table.len(),
{
    if table.len() == 0 {
        Found::Unknown
    } else if table.last().path@ == path {
        match table.last().content {
            Some(c) => Found::Content(c@),
            None => Found::Unreadable,
        }
    } else {
        found(table.drop_last(), path)
    }
}

/// The path that a line includes, if the line is an inclusion: what stands
/// between `Include(` and the `)` at the line's end.
pub open spec fn included_path(line: Seq<char>) -> Option<Seq<char>> {
    if has_prefix(line, INCLUDE_TAG@) && has_suffix(line, ")"@) && INCLUDE_TAG@.len() + ")"@.len()
        <= line.len() {
        Some(line.subrange(INCLUDE_TAG@.len() as int, line.len() - ")"@.len()))
    } else {
        None
    }
}

/// Why declarations cannot be given.
pub enum Failure {
    /// The table does not know the file of this path.
    Unknown(Seq<char>),
    /// The file of this path is named by the sixteenth file in a row.
    TooDeep(Seq<char>),
}

/// Why declarations cannot be given.
pub enum InclusionError {
    /// The table does not know the file of this path: it has to be looked
    /// for, and the table told what was found.
    Unknown(String),
    /// The file of this path is named by the sixteenth file in a row.
    TooDeep(String),
}

impl View for InclusionError {
    type V = Failure;

    open spec fn view(&self) -> Failure {
        match self {
            InclusionError::Unknown(p) => Failure::Unknown(p@),
            InclusionError::TooDeep(p) => Failure::TooDeep(p@),
        }
    }
}

/// Two results in a row: the first failure, or both lists joined.
pub open spec fn both(
    a: Result<Seq<Seq<char>>, Failure>,
    b: Result<Seq<Seq<char>>, Failure>,
) -> Result<Seq<Seq<char>>, Failure> {
    match a {
        Err(p) => Err(p),
        Ok(x) => match b {
            Err(p) => Err(p),
            Ok(y) => Ok(x + y),
        },
    }
}

/// The declarations that the lines from `i` on give once each inclusion is
/// replaced by the declarations of its file: a line that is no inclusion
/// gives what it declares, if anything; an inclusion gives what the lines
/// of its file give, and nothing where the file cannot be read. The result
/// is the first failure met: a file that the table does not know, or a
/// file named when `depth` is used up.
pub open spec fn expansion(lines: Seq<Seq<char>>, i: int, table: Seq<IncludedFile>, depth: nat) -> Result<
    Seq<Seq<char>>,
    Failure,
>
    decreases depth, lines.len() - i,
{
    if i < 0 || i >= lines.len() {
        Ok(Seq::<Seq<char>>::empty())
    } else {
        let here = match included_path(lines[i]) {
            None => Ok(
                match valid_line(lines[i]) {
                    Some(t) => seq![t],
                    None => Seq::<Seq<char>>::empty(),
                },
            ),
            Some(path) => if depth == 0 {
                Err(Failure::TooDeep(path))
            } else {
                match found(table, path) {
                    Found::Unknown => Err(Failure::Unknown(path)),
                    Found::Unreadable => Ok(Seq::<Seq<char>>::empty()),
                    Found::Content(c) => expansion(lines_of(c), 0, table, (depth - 1) as nat),
                }
            },
        };
        both(here, expansion(lines, i + 1, table, depth))
    }
}

/// What the table says of a path.
fn look_up<'a>(table: &'a Vec<IncludedFile>, path: &Vec<char>) -> (r: Option<&'a Option<String>>)
    ensures
        match r {
            Some(Some(c)) => found(table@, path@) == Found::Content(c@),
            Some(None) => found(table@, path@) == Found::Unreadable,
            None => found(table@, path@) == Found::Unknown,
        },
{
    let mut i: usize = table.len();
    assert(table@.subrange(0, table.len() as int) == table@);
    while i > 0
        invariant
            i <= table.len(),
            found(table@, path@) == found(table@.subrange(0, i as int), path@),
        decreases i,
    {
        proof {
            let head = table@.subrange(0, i as int);
            assert(head.last() == table@[i - 1]);
            assert(head.drop_last() == table@.subrange(0, i - 1));
        }
        if same(path, table[i - 1].path.as_str()) {
            return Some(&table[i - 1].content);
        }
        i -= 1;
    }
    None
}

/// The path that a line includes, if the line is an inclusion.
pub fn inclusion_path(line: &Vec<char>) -> (r: Option<Vec<char>>)
    ensures
        match r {
            Some(p) => included_path(line@) == Some(p@),
            None => included_path(line@) is None,
        },
{
    let open = chars_of(INCLUDE_TAG);
    let close = chars_of(")");
    if !starts_with(line, &open) || !ends_with(line, &close) {
        return None;
    }
    if open.len() > line.len() || close.len() > line.len() - open.len() {
        return None;
    }
    Some(slice_of(line, open.len(), line.len() - close.len()))
}

/// The declarations that the lines from `start` on give.
fn expand(lines: &Vec<Vec<char>>, table: &Vec<IncludedFile>, depth: u32) -> (r: Result<
    Vec<Vec<char>>,
    InclusionError,
>)
    ensures
        match r {
            Ok(out) => expansion(views(lines@), 0, table@, depth as nat) == Ok::<
                Seq<Seq<char>>,
                Failure,
            >(views(out@)),
            Err(e) => expansion(views(lines@), 0, table@, depth as nat) == Err::<
                Seq<Seq<char>>,
                Failure,
            >(e@),
        },
    decreases depth,
{
    let mut out: Vec<Vec<char>> = Vec::new();
    let mut i: usize = 0;
    let ghost nothing = Seq::<Seq<char>>::empty();
    proof {
        assert(views(out@) =~= nothing);
        lemma_both_after(nothing, expansion(views(lines@), 0, table@, depth as nat));
    }
    while i < lines.len()
        invariant
            i <= lines.len(),
            nothing == Seq::<Seq<char>>::empty(),
            expansion(views(lines@), 0, table@, depth as nat) == both(
                Ok(views(out@)),
                expansion(views(lines@), i as int, table@, depth as nat),
            ),
        decreases lines.len() - i,
    {
        let ghost rest = expansion(views(lines@), i + 1, table@, depth as nat);
        let ghost before = views(out@);
        proof {
            assert(views(lines@)[i as int] == lines@[i as int]@);
        }
        match inclusion_path(&lines[i]) {
            None => {
                match validate_line(&lines[i]) {
                    Some(t) => {
                        let ghost tv = t@;
                        out.push(t);
                        proof {
                            assert(views(out@) =~= before + seq![tv]);
                            lemma_both_joined(before, seq![tv], rest);
                        }
                    },
                    None => {
                        proof {
                            lemma_both_joined(before, nothing, rest);
                            assert(before + nothing =~= before);
                        }
                    },
                }
            },
            Some(path) => {
                if depth == 0 {
                    return Err(InclusionError::TooDeep(string_of(&path)));
                } else {
                    match look_up(table, &path) {
                        None => {
                            return Err(InclusionError::Unknown(string_of(&path)));
                        },
                        Some(None) => {
                            proof {
                                lemma_both_joined(before, nothing, rest);
                                assert(before + nothing =~= before);
                            }
                        },
                        Some(Some(content)) => {
                            let inner_lines = crate::text::lines(&chars_of(content.as_str()));
                            match expand(&inner_lines, table, depth - 1) {
                                Err(p) => {
                                    return Err(p);
                                },
                                Ok(inner) => {
                                    let ghost iv = views(inner@);
                                    let mut k: usize = 0;
                                    while k < inner.len()
                                        invariant
                                            k <= inner.len(),
                                            iv == views(inner@),
                                            views(out@) == before + iv.subrange(0, k as int),
                                        decreases inner.len() - k,
                                    {
                                        let ghost o = views(out@);
                                        out.push(slice_of(&inner[k], 0, inner[k].len()));
                                        proof {
                                            assert(inner@[k as int]@.subrange(
                                                0,
                                                inner@[k as int]@.len() as int,
                                            ) == inner@[k as int]@);
                                            assert(views(out@) =~= o.push(iv[k as int]));
                                        }
                                        k += 1;
                                    }
                                    proof {
                                        assert(iv.subrange(0, inner.len() as int) == iv);
                                        lemma_both_joined(before, iv, rest);
                                    }
                                },
                            }
                        },
                    }
                }
            },
        }
        i += 1;
    }
    proof {
        assert(views(out@) + nothing =~= views(out@));
    }
    Ok(out)
}

/// A list of declarations in front of a result is that result with the
/// list in front, and an empty list changes nothing.
proof fn lemma_both_after(x: Seq<Seq<char>>, r: Result<Seq<Seq<char>>, Failure>)
    requires
        x.len() == 0,
    ensures
        both(Ok(x), r) == r,
{
    match r {
        Ok(y) => {
            assert(x + y =~= y);
        },
        Err(_) => {},
    }
}

/// Declarations in front of declarations in front of a result.
proof fn lemma_both_joined(
    x: Seq<Seq<char>>,
    y: Seq<Seq<char>>,
    r: Result<Seq<Seq<char>>, Failure>,
)
    ensures
        both(Ok(x), both(Ok(y), r)) == both(Ok(x + y), r),
{
    match r {
        Ok(z) => {
            assert(x + (y + z) =~= (x + y) + z);
        },
        Err(_) => {},
    }
}

/// The declarations of a template once each inclusion is replaced by the
/// declarations of its file; or the path of a file that the table must
/// know first; or the path of a file that lies too deep.
pub fn expand_includes(caption: &Vec<String>, table: &Vec<IncludedFile>) -> (r: Result<
    Vec<String>,
    InclusionError,
>)
    ensures
        match r {
            Ok(out) => expansion(texts(caption@), 0, table@, MAX_DEPTH as nat) == Ok::<
                Seq<Seq<char>>,
                Failure,
            >(texts(out@)),
            Err(e) => expansion(texts(caption@), 0, table@, MAX_DEPTH as nat) == Err::<
                Seq<Seq<char>>,
                Failure,
            >(e@),
        },
{
    let lines = to_texts(caption);
    match expand(&lines, table, MAX_DEPTH) {
        Ok(out) => Ok(to_strings(&out)),
        Err(e) => Err(e),
    }
}

} // verus!
