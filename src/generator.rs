use vstd::prelude::*;
use vstd::string::*;

use crate::text::{indent, push_indent};

verus! {

/// Lines of text as character sequences.
pub open spec fn lines_view(lines: Seq<String>) -> Seq<Seq<char>> {
    lines.map_values(|s: String| s@)
}

/// A line of text at an indentation level.
pub open spec fn at(level: nat, text: Seq<char>) -> Seq<char> {
    indent(level) + text
}

/// A new string that starts with `level` indentation steps and then `text`.
pub fn indented(level: usize, text: &str) -> (r: String)
    ensures
        r@ == at(level as nat, text@),
{
    let mut s = String::new();
    push_indent(&mut s, level);
    s.append(text);
    s
}

/// Appends a line.
pub fn push_line(out: &mut Vec<String>, line: String)
    ensures
        lines_view(final(out)@) == lines_view(old(out)@).push(line@),
{
    let ghost before = lines_view(out@);
    let ghost l = line@;
    out.push(line);
    assert(lines_view(out@) =~= before.push(l));
}

/// Appends lines.
pub fn push_lines(out: &mut Vec<String>, lines: Vec<String>)
    ensures
        lines_view(final(out)@) == lines_view(old(out)@) + lines_view(lines@),
{
    let ghost start = lines_view(out@);
    let mut i: usize = 0;
    while i < lines.len()
        invariant
            i <= lines.len(),
            lines_view(out@) == start + lines_view(lines@).take(i as int),
        decreases lines.len() - i,
    {
        let ghost before = lines_view(out@);
        push_line(out, lines[i].clone());
        assert(lines_view(lines@).take(i + 1) =~= lines_view(lines@).take(i as int).push(
            lines@[i as int]@,
        ));
        assert(lines_view(out@) =~= start + lines_view(lines@).take(i + 1));
        i = i + 1;
    }
    assert(lines_view(lines@).take(lines.len() as int) =~= lines_view(lines@));
}

/// The opening lines of a schema implementation for the type `name` of a package.
pub open spec fn head_lines(package_name: Seq<char>, name: Seq<char>) -> Seq<Seq<char>> {
    seq![
        at(0, "impl<'__s> utoipa::ToSchema<'__s> for "@ + name + " {"@),
        at(
            1,
            "fn schema() -> (&'__s str, utoipa::openapi::RefOr<utoipa::openapi::schema::Schema>) {"@,
        ),
        at(2, "("@),
        at(3, "\""@ + package_name + "::"@ + name + "\","@),
        at(3, "utoipa::openapi::ObjectBuilder::new()"@),
    ]
}

/// The closing lines of a schema implementation.
pub open spec fn tail_lines() -> Seq<Seq<char>> {
    seq![at(4, ".into()"@), at(2, ")"@), at(1, "}"@), at(0, "}"@)]
}

/// Appends the opening lines of a schema implementation.
pub fn write_head(out: &mut Vec<String>, package_name: &String, name: &String)
    ensures
        lines_view(final(out)@) == lines_view(old(out)@) + head_lines(package_name@, name@),
{
    let ghost start = lines_view(out@);
    let mut l0 = indented(0, "impl<'__s> utoipa::ToSchema<'__s> for ");
    l0.append(name.as_str());
    l0.append(" {");
    assert(l0@ =~= at(0, "impl<'__s> utoipa::ToSchema<'__s> for "@ + name@ + " {"@));
    push_line(out, l0);
    push_line(
        out,
        indented(
            1,
            "fn schema() -> (&'__s str, utoipa::openapi::RefOr<utoipa::openapi::schema::Schema>) {",
        ),
    );
    push_line(out, indented(2, "("));
    let mut l3 = indented(3, "\"");
    l3.append(package_name.as_str());
    l3.append("::");
    l3.append(name.as_str());
    l3.append("\",");
    assert(l3@ =~= at(3, "\""@ + package_name@ + "::"@ + name@ + "\","@));
    push_line(out, l3);
    push_line(out, indented(3, "utoipa::openapi::ObjectBuilder::new()"));
    assert(lines_view(out@) =~= start + head_lines(package_name@, name@));
}

/// Appends the closing lines of a schema implementation.
pub fn write_tail(out: &mut Vec<String>)
    ensures
        lines_view(final(out)@) == lines_view(old(out)@) + tail_lines(),
{
    let ghost start = lines_view(out@);
    push_line(out, indented(4, ".into()"));
    push_line(out, indented(2, ")"));
    push_line(out, indented(1, "}"));
    push_line(out, indented(0, "}"));
    assert(lines_view(out@) =~= start + tail_lines());
}

} // verus!
