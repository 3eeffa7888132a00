use vstd::prelude::*;
use vstd::string::*;

use crate::enum_descriptor::{EnumDescriptor, EnumValue};
use crate::generator::{at, head_lines, indented, lines_view, push_line, tail_lines, write_tail};
use crate::text::{decimal_of, indent, push_decimal};

verus! {

/// The opening lines of the schema implementation of an enum: an integer schema.
pub open spec fn enum_head_lines(package_name: Seq<char>, name: Seq<char>) -> Seq<Seq<char>> {
    head_lines(package_name, name) + seq![
        at(4, ".schema_type(utoipa::openapi::SchemaType::Integer)"@),
        at(4, ".format(Some(utoipa::openapi::SchemaFormat::KnownFormat("@),
        at(5, "utoipa::openapi::KnownFormat::Int32"@),
        at(4, ")))"@),
    ]
}

/// One `number = name` entry of the description for each value, in order,
/// each after an escaped blank line.
pub open spec fn values_text(vs: Seq<(Seq<char>, i32)>) -> Seq<char>
    decreases vs.len(),
{
    if vs.len() == 0 {
        Seq::empty()
    } else {
        values_text(vs.drop_last()) + "\\n\\n"@ + decimal_of(vs.last().1 as int) + " = "@
            + vs.last().0
    }
}

/// The description line that lists the values of an enum.
pub open spec fn description_line(vs: Seq<(Seq<char>, i32)>) -> Seq<char> {
    at(4, ".description(Some(\"Values:"@ + values_text(vs) + "\"))"@)
}

/// One line with the quoted number of each value, in order.
pub open spec fn value_number_lines(vs: Seq<(Seq<char>, i32)>) -> Seq<Seq<char>>
    decreases vs.len(),
{
    if vs.len() == 0 {
        Seq::empty()
    } else {
        value_number_lines(vs.drop_last()).push(
            at(5, "\""@ + decimal_of(vs.last().1 as int) + "\","@),
        )
    }
}

/// The lines that follow the head: the description, then the legal values
/// when they are asked for.
pub open spec fn values_lines(vs: Seq<(Seq<char>, i32)>, generate_enum_values: bool) -> Seq<
    Seq<char>,
> {
    seq![description_line(vs)] + if generate_enum_values {
        seq![at(4, ".enum_values(Some(vec!["@)] + value_number_lines(vs) + seq![at(4, "]))"@)]
    } else {
        Seq::empty()
    }
}

/// The schema implementation of an enum.
pub open spec fn enum_lines(
    package_name: Seq<char>,
    name: Seq<char>,
    vs: Seq<(Seq<char>, i32)>,
    generate_enum_values: bool,
) -> Seq<Seq<char>> {
    enum_head_lines(package_name, name) + values_lines(vs, generate_enum_values) + tail_lines()
}

/// The schema implementation of an enum type, as lines.
pub fn generate_enum(
    package_name: String,
    name: String,
    enum_descriptor: EnumDescriptor,
    generate_enum_values: bool,
) -> (r: Vec<String>)
    ensures
        lines_view(r@) == enum_lines(
            package_name@,
            name@,
            enum_descriptor@,
            generate_enum_values,
        ),
{
    let mut out: Vec<String> = Vec::new();
    write_head(&mut out, &package_name, &name);
    let ghost head = lines_view(out@);
    let values = enum_descriptor.get_values();
    write_values(&mut out, &values, generate_enum_values);
    let ghost body = lines_view(out@);
    write_tail(&mut out);
    assert(lines_view(out@) =~= enum_lines(
        package_name@,
        name@,
        enum_descriptor@,
        generate_enum_values,
    ));
    out
}

/// Appends the opening lines of the schema implementation of an enum.
fn write_head(out: &mut Vec<String>, package_name: &String, name: &String)
    ensures
        lines_view(final(out)@) == lines_view(old(out)@) + enum_head_lines(package_name@, name@),
{
    let ghost start = lines_view(out@);
    crate::generator::write_head(out, package_name, name);
    push_line(out, indented(4, ".schema_type(utoipa::openapi::SchemaType::Integer)"));
    push_line(out, indented(4, ".format(Some(utoipa::openapi::SchemaFormat::KnownFormat("));
    push_line(out, indented(5, "utoipa::openapi::KnownFormat::Int32"));
    push_line(out, indented(4, ")))"));
    assert(lines_view(out@) =~= start + enum_head_lines(package_name@, name@));
}

/// Appends the description of the values, then the list of legal values when asked for.
fn write_values(out: &mut Vec<String>, enum_values: &Vec<EnumValue>, generate_enum_values: bool)
    ensures
        lines_view(final(out)@) == lines_view(old(out)@) + values_lines(
            enum_values@.map_values(|v: EnumValue| v@),
            generate_enum_values,
        ),
{
    let ghost start = lines_view(out@);
    let ghost vs = enum_values@.map_values(|v: EnumValue| v@);
    let ghost prefix = ".description(Some(\"Values:"@;
    let mut description = indented(4, ".description(Some(\"Values:");
    let mut i: usize = 0;
    assert(vs.take(0) =~= Seq::<(Seq<char>, i32)>::empty());
    assert(description@ =~= indent(4) + prefix + values_text(vs.take(0)));
    while i < enum_values.len()
        invariant
            i <= enum_values.len(),
            vs == enum_values@.map_values(|v: EnumValue| v@),
            prefix == ".description(Some(\"Values:"@,
            description@ == indent(4) + prefix + values_text(vs.take(i as int)),
        decreases enum_values.len() - i,
    {
        let ghost before = description@;
        description.append("\\n\\n");
        push_decimal(&mut description, enum_values[i].number);
        description.append(" = ");
        description.append(enum_values[i].name.as_str());
        assert(vs.take(i + 1).drop_last() =~= vs.take(i as int));
        assert(vs.take(i + 1).last() == enum_values@[i as int]@);
        assert(description@ =~= indent(4) + prefix + values_text(vs.take(i + 1)));
        i = i + 1;
    }
    description.append("\"))");
    assert(vs.take(enum_values.len() as int) =~= vs);
    assert(description@ =~= description_line(vs));
    push_line(out, description);
    if generate_enum_values {
        push_line(out, indented(4, ".enum_values(Some(vec!["));
        let ghost opened = lines_view(out@);
        let mut j: usize = 0;
        assert(value_number_lines(vs.take(0)) =~= Seq::<Seq<char>>::empty());
        assert(lines_view(out@) =~= opened + value_number_lines(vs.take(0)));
        while j < enum_values.len()
            invariant
                j <= enum_values.len(),
                vs == enum_values@.map_values(|v: EnumValue| v@),
                lines_view(out@) == opened + value_number_lines(vs.take(j as int)),
            decreases enum_values.len() - j,
        {
            let mut line = indented(5, "\"");
            push_decimal(&mut line, enum_values[j].number);
            line.append("\",");
            assert(vs.take(j + 1).drop_last() =~= vs.take(j as int));
            assert(vs.take(j + 1).last() == enum_values@[j as int]@);
            assert(line@ =~= at(5, "\""@ + decimal_of(vs[j as int].1 as int) + "\","@));
            push_line(out, line);
            assert(lines_view(out@) =~= opened + value_number_lines(vs.take(j + 1)));
            j = j + 1;
        }
        assert(vs.take(enum_values.len() as int) =~= vs);
        push_line(out, indented(4, "]))"));
    }
    assert(lines_view(out@) =~= start + values_lines(vs, generate_enum_values));
}

} // verus!
