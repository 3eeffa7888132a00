use vstd::prelude::*;
use vstd::string::*;

use crate::error::{BuildErrorView, PrutoipaBuildError, view_result};
use crate::field::{
    Field,
    FieldModifier,
    FieldType,
    FieldTypeView,
    FieldView,
    ScalarType,
    utoipa_format_of,
    utoipa_type_of,
};
use crate::generator::{
    at,
    head_lines,
    indented,
    lines_view,
    push_line,
    push_lines,
    tail_lines,
    write_head,
    write_tail,
};
use crate::message_descriptor::MessageDescriptor;
use crate::naming::snake_case_of;
use crate::text::indent;

verus! {

pub open spec fn array_open() -> Seq<char> {
    "utoipa::openapi::ArrayBuilder::from(utoipa::openapi::Array::new("@
}

/// The schema lines of a scalar, starting at indentation level `base`.
pub open spec fn scalar_component_lines(base: nat, t: ScalarType) -> Seq<Seq<char>> {
    seq![
        at(base, "utoipa::openapi::ObjectBuilder::new()"@),
        at(base + 1, ".schema_type(utoipa::openapi::SchemaType::"@ + utoipa_type_of(t) + ")"@),
    ] + match utoipa_format_of(t) {
        Some(f) => seq![
            at(base + 1, ".format(Some(utoipa::openapi::SchemaFormat::KnownFormat("@),
            at(base + 2, "utoipa::openapi::KnownFormat::"@ + f),
            at(base + 1, ")))"@),
        ],
        None => Seq::empty(),
    }
}

/// The reference to the schema of a named type: direct within the current
/// package, through the target package's module otherwise.
pub open spec fn object_component_line(
    level: nat,
    current_package: Seq<char>,
    field_package: Seq<char>,
    field_descriptor: Seq<char>,
) -> Seq<char> {
    if current_package == field_package {
        at(level, field_descriptor + "::schema()"@)
    } else {
        at(level, "super::"@ + field_package + "::"@ + field_descriptor + "::schema()"@)
    }
}

/// The inner schema lines of a field of type `t`.
pub open spec fn inner_lines(current_package: Seq<char>, t: FieldTypeView, level: nat) -> Seq<
    Seq<char>,
> {
    match t {
        FieldTypeView::Scalar(s) => scalar_component_lines(level, s),
        FieldTypeView::Object { package, descriptor } => seq![
            object_component_line(level, current_package, package, descriptor),
        ],
    }
}

/// The line that marks the property `name` as required.
pub open spec fn required_line(name: Seq<char>) -> Seq<char> {
    at(4, ".required(\""@ + name + "\")"@)
}

/// The lines that declare one field as a property: its inner schema, wrapped
/// in an array when repeated, then a required mark when required.
pub open spec fn property_lines(current_package: Seq<char>, f: FieldView) -> Seq<Seq<char>> {
    let name = snake_case_of(f.name);
    seq![at(4, ".property("@), at(5, "\""@ + name + "\","@)] + (if f.field_modifier
        == FieldModifier::Repeated {
        seq![at(5, array_open())] + inner_lines(current_package, f.field_type, 6) + seq![
            at(5, "))"@),
        ]
    } else {
        inner_lines(current_package, f.field_type, 5)
    }) + seq![at(4, ")"@)] + (if f.field_modifier == FieldModifier::Required {
        seq![required_line(name)]
    } else {
        Seq::empty()
    })
}

/// Whether a field can be emitted: byte fields have no schema mapping yet.
pub open spec fn is_emittable(f: FieldView) -> bool {
    f.field_type != FieldTypeView::Scalar(ScalarType::Bytes)
}

/// The property lines of the fields, in order.
pub open spec fn fields_lines(current_package: Seq<char>, fs: Seq<FieldView>) -> Seq<Seq<char>>
    decreases fs.len(),
{
    if fs.len() == 0 {
        Seq::empty()
    } else {
        fields_lines(current_package, fs.drop_last()) + property_lines(current_package, fs.last())
    }
}

/// The schema implementation of a message, or the error for its first field
/// that cannot be emitted.
pub open spec fn message_output(
    package_name: Seq<char>,
    name: Seq<char>,
    fs: Seq<FieldView>,
) -> Result<Seq<Seq<char>>, BuildErrorView> {
    if forall|i: int| 0 <= i < fs.len() ==> is_emittable(#[trigger] fs[i]) {
        Ok(head_lines(package_name, name) + fields_lines(package_name, fs) + tail_lines())
    } else {
        Err(BuildErrorView::NotImplementedYet("Bytes"@))
    }
}

/// Whether a line marks some property as required.
pub open spec fn marks_required(l: Seq<char>) -> bool {
    exists|n: Seq<char>| l == required_line(n)
}

/// Whether no line marks a property as required.
pub open spec fn unmarked(lines: Seq<Seq<char>>) -> bool {
    forall|i: int| 0 <= i < lines.len() ==> !marks_required(#[trigger] lines[i])
}

proof fn lemma_indent(k: nat)
    ensures
        indent(k).len() == 4 * k,
        forall|i: int| 0 <= i < 4 * k ==> #[trigger] indent(k)[i] == ' ',
    decreases k,
{
    if k > 0 {
        lemma_indent((k - 1) as nat);
        reveal_strlit("    ");
    }
}

proof fn lemma_required_line_chars(n: Seq<char>)
    ensures
        required_line(n).len() == 29 + n.len(),
        required_line(n)[12] == ' ',
        required_line(n)[16] == '.',
        required_line(n)[17] == 'r',
        required_line(n).subrange(27, 27 + n.len() as int) == n,
{
    lemma_indent(4);
    reveal_strlit(".required(\"");
    reveal_strlit("\")");
    assert(required_line(n)[16] == ".required(\""@[0]);
    assert(required_line(n)[17] == ".required(\""@[1]);
    assert(required_line(n).subrange(27, 27 + n.len() as int) =~= n);
}

proof fn lemma_required_line_injective(a: Seq<char>, b: Seq<char>)
    requires
        required_line(a) == required_line(b),
    ensures
        a == b,
{
    lemma_required_line_chars(a);
    lemma_required_line_chars(b);
}

/// A line indented five or more levels marks nothing as required.
proof fn lemma_deep_line_unmarked(k: nat, t: Seq<char>)
    requires
        k >= 5,
    ensures
        !marks_required(at(k, t)),
{
    lemma_indent(k);
    if marks_required(at(k, t)) {
        let n = choose|n: Seq<char>| at(k, t) == required_line(n);
        lemma_required_line_chars(n);
        assert(at(k, t)[16] == indent(k)[16]);
    }
}

proof fn lemma_inner_lines_unmarked(current_package: Seq<char>, t: FieldTypeView, level: nat)
    requires
        level >= 5,
    ensures
        unmarked(inner_lines(current_package, t, level)),
{
    let lines = inner_lines(current_package, t, level);
    match t {
        FieldTypeView::Scalar(st) => {
            lemma_deep_line_unmarked(level, "utoipa::openapi::ObjectBuilder::new()"@);
            lemma_deep_line_unmarked(
                level + 1,
                ".schema_type(utoipa::openapi::SchemaType::"@ + utoipa_type_of(st) + ")"@,
            );
            match utoipa_format_of(st) {
                Some(f) => {
                    lemma_deep_line_unmarked(
                        level + 1,
                        ".format(Some(utoipa::openapi::SchemaFormat::KnownFormat("@,
                    );
                    lemma_deep_line_unmarked(level + 2, "utoipa::openapi::KnownFormat::"@ + f);
                    lemma_deep_line_unmarked(level + 1, ")))"@);
                },
                None => {},
            }
        },
        FieldTypeView::Object { package, descriptor } => {
            if current_package == package {
                lemma_deep_line_unmarked(level, descriptor + "::schema()"@);
            } else {
                lemma_deep_line_unmarked(
                    level,
                    "super::"@ + package + "::"@ + descriptor + "::schema()"@,
                );
            }
        },
    }
}

/// A repeated field is emitted with its inner schema wrapped in an array and
/// with no required mark; a required field is marked required exactly once,
/// on its last line.
pub proof fn lemma_property_required_marks(current_package: Seq<char>, f: FieldView)
    ensures
        ({
            let lines = property_lines(current_package, f);
            &&& f.field_modifier == FieldModifier::Repeated ==> {
                &&& lines[2] == at(5, array_open())
                &&& lines.subrange(3, lines.len() - 2) == inner_lines(
                    current_package,
                    f.field_type,
                    6,
                )
                &&& lines[lines.len() - 2] == at(5, "))"@)
                &&& unmarked(lines)
            }
            &&& f.field_modifier == FieldModifier::Required ==> {
                &&& lines.last() == required_line(snake_case_of(f.name))
                &&& marks_required(lines.last())
                &&& unmarked(lines.drop_last())
            }
            &&& f.field_modifier != FieldModifier::Required ==> unmarked(lines)
        }),
{
    let name = snake_case_of(f.name);
    let lines = property_lines(current_package, f);
    lemma_indent(4);
    reveal_strlit(".property(");
    reveal_strlit(")");
    let open_line = at(4, ".property("@);
    let close_line = at(4, ")"@);
    if marks_required(open_line) {
        let n = choose|n: Seq<char>| open_line == required_line(n);
        lemma_required_line_chars(n);
        assert(open_line[17] == ".property("@[1]);
    }
    if marks_required(close_line) {
        let n = choose|n: Seq<char>| close_line == required_line(n);
        lemma_required_line_chars(n);
        assert(close_line[16] == ")"@[0]);
    }
    lemma_deep_line_unmarked(5, "\""@ + name + "\","@);
    lemma_deep_line_unmarked(5, array_open());
    lemma_deep_line_unmarked(5, "))"@);
    lemma_inner_lines_unmarked(current_package, f.field_type, 5);
    lemma_inner_lines_unmarked(current_package, f.field_type, 6);
    let head = seq![open_line, at(5, "\""@ + name + "\","@)];
    let middle = if f.field_modifier == FieldModifier::Repeated {
        seq![at(5, array_open())] + inner_lines(current_package, f.field_type, 6) + seq![
            at(5, "))"@),
        ]
    } else {
        inner_lines(current_package, f.field_type, 5)
    };
    let body = head + middle + seq![close_line];
    assert(unmarked(body)) by {
        let inner = if f.field_modifier == FieldModifier::Repeated {
            inner_lines(current_package, f.field_type, 6)
        } else {
            inner_lines(current_package, f.field_type, 5)
        };
        assert forall|i: int| 0 <= i < body.len() implies !marks_required(#[trigger] body[i]) by {
            if f.field_modifier == FieldModifier::Repeated {
                if 3 <= i < body.len() - 2 {
                    assert(body[i] == inner[i - 3]);
                }
            } else {
                if 2 <= i < body.len() - 1 {
                    assert(body[i] == inner[i - 2]);
                }
            }
        }
    }
    if f.field_modifier == FieldModifier::Required {
        assert(lines == body.push(required_line(name)));
        assert(lines.drop_last() == body);
        assert(marks_required(lines.last()));
    } else {
        assert(lines =~= body);
    }
    if f.field_modifier == FieldModifier::Repeated {
        assert(lines.subrange(3, lines.len() - 2) =~= inner_lines(current_package, f.field_type, 6));
    }
}

/// How many of the lines equal `l`.
pub open spec fn occurrences(lines: Seq<Seq<char>>, l: Seq<char>) -> nat
    decreases lines.len(),
{
    if lines.len() == 0 {
        0
    } else {
        occurrences(lines.drop_last(), l) + if lines.last() == l {
            1nat
        } else {
            0nat
        }
    }
}

/// How many of the fields are required and emitted under the name `n`.
pub open spec fn required_count(fs: Seq<FieldView>, n: Seq<char>) -> nat
    decreases fs.len(),
{
    if fs.len() == 0 {
        0
    } else {
        required_count(fs.drop_last(), n) + if fs.last().field_modifier == FieldModifier::Required
            && snake_case_of(fs.last().name) == n {
            1nat
        } else {
            0nat
        }
    }
}

proof fn lemma_occurrences_concat(a: Seq<Seq<char>>, b: Seq<Seq<char>>, l: Seq<char>)
    ensures
        occurrences(a + b, l) == occurrences(a, l) + occurrences(b, l),
    decreases b.len(),
{
    if b.len() == 0 {
        assert(a + b =~= a);
    } else {
        assert((a + b).drop_last() =~= a + b.drop_last());
        lemma_occurrences_concat(a, b.drop_last(), l);
    }
}

proof fn lemma_unmarked_occurrences(lines: Seq<Seq<char>>, n: Seq<char>)
    requires
        unmarked(lines),
    ensures
        occurrences(lines, required_line(n)) == 0,
    decreases lines.len(),
{
    if lines.len() > 0 {
        let p = lines.drop_last();
        assert(unmarked(p)) by {
            assert forall|i: int| 0 <= i < p.len() implies !marks_required(#[trigger] p[i]) by {
                assert(p[i] == lines[i]);
            }
        }
        lemma_unmarked_occurrences(p, n);
        assert(!marks_required(lines[lines.len() - 1]));
        if lines.last() == required_line(n) {
            assert(marks_required(lines.last()));
        }
    }
}

proof fn lemma_short_line_unmarked(l: Seq<char>)
    requires
        l.len() < 29,
    ensures
        !marks_required(l),
{
    if marks_required(l) {
        let n = choose|n: Seq<char>| l == required_line(n);
        lemma_required_line_chars(n);
    }
}

/// The opening and closing lines of a schema implementation mark nothing as required.
proof fn lemma_head_tail_unmarked(package_name: Seq<char>, name: Seq<char>)
    ensures
        unmarked(head_lines(package_name, name)),
        unmarked(tail_lines()),
{
    lemma_indent(0);
    lemma_indent(1);
    lemma_indent(2);
    lemma_indent(3);
    lemma_indent(4);
    reveal_strlit("impl<'__s> utoipa::ToSchema<'__s> for ");
    reveal_strlit(
        "fn schema() -> (&'__s str, utoipa::openapi::RefOr<utoipa::openapi::schema::Schema>) {",
    );
    reveal_strlit("(");
    reveal_strlit("\"");
    reveal_strlit("utoipa::openapi::ObjectBuilder::new()");
    reveal_strlit(".into()");
    reveal_strlit(")");
    reveal_strlit("}");
    let h = head_lines(package_name, name);
    let t = tail_lines();
    assert forall|i: int| 0 <= i < h.len() implies !marks_required(#[trigger] h[i]) by {
        if marks_required(h[i]) {
            let n = choose|n: Seq<char>| h[i] == required_line(n);
            lemma_required_line_chars(n);
            if i == 0 {
                assert(h[i][16] == "impl<'__s> utoipa::ToSchema<'__s> for "@[16]);
            } else if i == 1 {
                assert(h[i][16]
                    == "fn schema() -> (&'__s str, utoipa::openapi::RefOr<utoipa::openapi::schema::Schema>) {"@[12]);
            } else if i == 3 {
                assert(h[i][12] == "\""@[0]);
            } else if i == 4 {
                assert(h[i][12] == "utoipa::openapi::ObjectBuilder::new()"@[0]);
            }
        }
    }
    assert forall|i: int| 0 <= i < t.len() implies !marks_required(#[trigger] t[i]) by {
        if marks_required(t[i]) {
            let n = choose|n: Seq<char>| t[i] == required_line(n);
            lemma_required_line_chars(n);
            if i == 0 {
                assert(t[i][17] == ".into()"@[1]);
            }
        }
    }
}

proof fn lemma_property_occurrences(current_package: Seq<char>, f: FieldView, n: Seq<char>)
    ensures
        occurrences(property_lines(current_package, f), required_line(n)) == if f.field_modifier
            == FieldModifier::Required && snake_case_of(f.name) == n {
            1nat
        } else {
            0nat
        },
{
    let lines = property_lines(current_package, f);
    lemma_property_required_marks(current_package, f);
    if f.field_modifier == FieldModifier::Required {
        lemma_unmarked_occurrences(lines.drop_last(), n);
        if snake_case_of(f.name) != n {
            if required_line(snake_case_of(f.name)) == required_line(n) {
                lemma_required_line_injective(snake_case_of(f.name), n);
            }
        }
    } else {
        lemma_unmarked_occurrences(lines, n);
    }
}

proof fn lemma_fields_occurrences(current_package: Seq<char>, fs: Seq<FieldView>, n: Seq<char>)
    ensures
        occurrences(fields_lines(current_package, fs), required_line(n)) == required_count(fs, n),
    decreases fs.len(),
{
    if fs.len() > 0 {
        lemma_fields_occurrences(current_package, fs.drop_last(), n);
        lemma_occurrences_concat(
            fields_lines(current_package, fs.drop_last()),
            property_lines(current_package, fs.last()),
            required_line(n),
        );
        lemma_property_occurrences(current_package, fs.last(), n);
    }
}

proof fn lemma_required_count_absent(fs: Seq<FieldView>, n: Seq<char>)
    requires
        forall|i: int| 0 <= i < fs.len() ==> snake_case_of(#[trigger] fs[i].name) != n,
    ensures
        required_count(fs, n) == 0,
    decreases fs.len(),
{
    if fs.len() > 0 {
        let p = fs.drop_last();
        assert forall|i: int| 0 <= i < p.len() implies snake_case_of(#[trigger] p[i].name) != n by {
            assert(p[i] == fs[i]);
        }
        lemma_required_count_absent(p, n);
        assert(snake_case_of(fs[fs.len() - 1].name) != n);
    }
}

proof fn lemma_required_count_distinct(fs: Seq<FieldView>, k: int)
    requires
        0 <= k < fs.len(),
        forall|i: int, j: int|
            0 <= i < j < fs.len() ==> snake_case_of(#[trigger] fs[i].name) != snake_case_of(
                #[trigger] fs[j].name,
            ),
    ensures
        required_count(fs, snake_case_of(fs[k].name)) == if fs[k].field_modifier
            == FieldModifier::Required {
            1nat
        } else {
            0nat
        },
    decreases fs.len(),
{
    let n = snake_case_of(fs[k].name);
    let p = fs.drop_last();
    let last = fs.len() - 1;
    if k == last {
        assert forall|i: int| 0 <= i < p.len() implies snake_case_of(#[trigger] p[i].name) != n by {
            assert(p[i] == fs[i]);
            assert(snake_case_of(fs[i].name) != snake_case_of(fs[last].name));
        }
        lemma_required_count_absent(p, n);
    } else {
        assert forall|i: int, j: int| 0 <= i < j < p.len() implies snake_case_of(
            #[trigger] p[i].name,
        ) != snake_case_of(#[trigger] p[j].name) by {
            assert(p[i] == fs[i] && p[j] == fs[j]);
        }
        assert(p[k] == fs[k]);
        lemma_required_count_distinct(p, k);
        assert(snake_case_of(fs[k].name) != snake_case_of(fs[last].name));
    }
}

/// In the schema of a message whose fields are emitted under distinct
/// names, a required field is marked required exactly once, and an optional
/// or repeated field not at all.
pub proof fn lemma_message_required_marks(
    package_name: Seq<char>,
    name: Seq<char>,
    fs: Seq<FieldView>,
    k: int,
)
    requires
        0 <= k < fs.len(),
        message_output(package_name, name, fs) is Ok,
        forall|i: int, j: int|
            0 <= i < j < fs.len() ==> snake_case_of(#[trigger] fs[i].name) != snake_case_of(
                #[trigger] fs[j].name,
            ),
    ensures
        occurrences(
            message_output(package_name, name, fs)->Ok_0,
            required_line(snake_case_of(fs[k].name)),
        ) == if fs[k].field_modifier == FieldModifier::Required {
            1nat
        } else {
            0nat
        },
{
    let n = snake_case_of(fs[k].name);
    let h = head_lines(package_name, name);
    let b = fields_lines(package_name, fs);
    let t = tail_lines();
    lemma_head_tail_unmarked(package_name, name);
    lemma_unmarked_occurrences(h, n);
    lemma_unmarked_occurrences(t, n);
    lemma_occurrences_concat(h, b, required_line(n));
    lemma_occurrences_concat(h + b, t, required_line(n));
    lemma_fields_occurrences(package_name, fs, n);
    lemma_required_count_distinct(fs, k);
}

/// The schema implementation of a message type, as lines.
pub fn generate_message(package_name: String, name: String, message: MessageDescriptor) -> (r:
    Result<Vec<String>, PrutoipaBuildError>)
    ensures
        match (r, message_output(package_name@, name@, message@)) {
            (Ok(lines), Ok(expected)) => lines_view(lines@) == expected,
            (Err(e), Err(expected)) => e@ == expected,
            _ => false,
        },
{
    let mut out: Vec<String> = Vec::new();
    write_head(&mut out, &package_name, &name);
    let fields = message.get_fields();
    let ghost fs = message@;
    let ghost head = lines_view(out@);
    assert(head =~= head_lines(package_name@, name@));
    let mut i: usize = 0;
    while i < fields.len()
        invariant
            i <= fields.len(),
            fields@.map_values(|f: Field| f@) == fs,
            fs == message@,
            forall|k: int| 0 <= k < i ==> is_emittable(#[trigger] fs[k]),
            lines_view(out@) == head + fields_lines(package_name@, fs.take(i as int)),
        decreases fields.len() - i,
    {
        let ghost before = lines_view(out@);
        assert(fs[i as int] == fields@[i as int]@);
        match write_field(&mut out, &package_name, &fields[i]) {
            Ok(()) => {},
            Err(e) => {
                assert(!is_emittable(fs[i as int]));
                return Err(e);
            },
        }
        assert(fs.take(i + 1).drop_last() =~= fs.take(i as int));
        assert(lines_view(out@) =~= head + fields_lines(package_name@, fs.take(i + 1)));
        i = i + 1;
    }
    assert(fs.take(fields.len() as int) =~= fs);
    write_tail(&mut out);
    Ok(out)
}

/// Appends the property lines of one field.
fn write_field(out: &mut Vec<String>, package_name: &String, field: &Field) -> (r: Result<
    (),
    PrutoipaBuildError,
>)
    ensures
        is_emittable(field@) ==> r is Ok && lines_view(final(out)@) == lines_view(old(out)@)
            + property_lines(package_name@, field@),
        !is_emittable(field@) ==> view_result(r) == Err::<(), BuildErrorView>(
            BuildErrorView::NotImplementedYet("Bytes"@),
        ),
{
    match field.get_field_type() {
        FieldType::Scalar(scalar_type) => {
            assert(property_lines(package_name@, field@) == property_lines(Seq::empty(), field@));
            write_field_scalar(out, field, scalar_type)
        },
        FieldType::Object { package, descriptor } => {
            write_field_object(out, field, package_name, &package, &descriptor);
            Ok(())
        },
    }
}

/// Appends the name line that opens a property.
fn write_property_open(out: &mut Vec<String>, field_name: &String)
    ensures
        lines_view(final(out)@) == lines_view(old(out)@) + seq![
            at(4, ".property("@),
            at(5, "\""@ + field_name@ + "\","@),
        ],
{
    let ghost start = lines_view(out@);
    push_line(out, indented(4, ".property("));
    let mut name_line = indented(5, "\"");
    name_line.append(field_name.as_str());
    name_line.append("\",");
    assert(name_line@ =~= at(5, "\""@ + field_name@ + "\","@));
    push_line(out, name_line);
    assert(lines_view(out@) =~= start + seq![
        at(4, ".property("@),
        at(5, "\""@ + field_name@ + "\","@),
    ]);
}

/// Appends the lines that close a property, and its required mark when required.
fn write_property_close(out: &mut Vec<String>, field_name: &String, field_modifier: FieldModifier)
    ensures
        lines_view(final(out)@) == lines_view(old(out)@) + seq![at(4, ")"@)] + (if field_modifier
            == FieldModifier::Required {
            seq![required_line(field_name@)]
        } else {
            Seq::empty()
        }),
{
    let ghost start = lines_view(out@);
    push_line(out, indented(4, ")"));
    if field_modifier == FieldModifier::Required {
        let mut required_str = indented(4, ".required(\"");
        required_str.append(field_name.as_str());
        required_str.append("\")");
        assert(required_str@ =~= required_line(field_name@));
        push_line(out, required_str);
        assert(lines_view(out@) =~= start + seq![at(4, ")"@)] + seq![required_line(field_name@)]);
    } else {
        assert(lines_view(out@) =~= start + seq![at(4, ")"@)] + Seq::<Seq<char>>::empty());
    }
}

/// Appends the property lines of a scalar field.
fn write_field_scalar(out: &mut Vec<String>, field: &Field, scalar_type: ScalarType) -> (r: Result<
    (),
    PrutoipaBuildError,
>)
    requires
        field@.field_type == FieldTypeView::Scalar(scalar_type),
    ensures
        scalar_type != ScalarType::Bytes ==> r is Ok && lines_view(final(out)@) == lines_view(
            old(out)@,
        ) + property_lines(Seq::empty(), field@),
        scalar_type == ScalarType::Bytes ==> view_result(r) == Err::<(), BuildErrorView>(
            BuildErrorView::NotImplementedYet("Bytes"@),
        ),
{
    if scalar_type == ScalarType::Bytes {
        return Err(PrutoipaBuildError::NotImplementedYet(String::from_str("Bytes")));
    }
    let field_modifier = field.get_field_modifier();
    let field_name = field.get_name();
    let ghost start = lines_view(out@);
    write_property_open(out, &field_name);
    if field_modifier == FieldModifier::Repeated {
        push_line(out, indented(5, "utoipa::openapi::ArrayBuilder::from(utoipa::openapi::Array::new("));
        push_lines(out, get_field_scalar_component(6, scalar_type));
        push_line(out, indented(5, "))"));
    } else {
        push_lines(out, get_field_scalar_component(5, scalar_type));
    }
    write_property_close(out, &field_name, field_modifier);
    assert(lines_view(out@) =~= start + property_lines(Seq::empty(), field@));
    Ok(())
}

/// The schema lines of a scalar type, starting at indentation level `base_indent`.
fn get_field_scalar_component(base_indent: usize, scalar_type: ScalarType) -> (r: Vec<String>)
    requires
        scalar_type != ScalarType::Bytes,
        base_indent <= usize::MAX - 2,
    ensures
        lines_view(r@) == scalar_component_lines(base_indent as nat, scalar_type),
{
    let mut property_str: Vec<String> = Vec::new();
    let schema_type = scalar_type.get_utoipa_type();
    let schema_format = scalar_type.get_utoipa_format();
    push_line(&mut property_str, indented(base_indent, "utoipa::openapi::ObjectBuilder::new()"));
    let mut type_line = indented(base_indent + 1, ".schema_type(utoipa::openapi::SchemaType::");
    type_line.append(schema_type);
    type_line.append(")");
    assert(type_line@ =~= at(
        (base_indent + 1) as nat,
        ".schema_type(utoipa::openapi::SchemaType::"@ + utoipa_type_of(scalar_type) + ")"@,
    ));
    push_line(&mut property_str, type_line);
    let ghost two = lines_view(property_str@);
    match schema_format {
        Some(known_format) => {
            push_line(
                &mut property_str,
                indented(base_indent + 1, ".format(Some(utoipa::openapi::SchemaFormat::KnownFormat("),
            );
            let mut format_line = indented(base_indent + 2, "utoipa::openapi::KnownFormat::");
            format_line.append(known_format);
            push_line(&mut property_str, format_line);
            push_line(&mut property_str, indented(base_indent + 1, ")))"));
            let ghost f = utoipa_format_of(scalar_type)->0;
            assert(format_line@ =~= at((base_indent + 2) as nat, "utoipa::openapi::KnownFormat::"@ + f));
            assert(lines_view(property_str@) =~= two + seq![
                at((base_indent + 1) as nat, ".format(Some(utoipa::openapi::SchemaFormat::KnownFormat("@),
                at((base_indent + 2) as nat, "utoipa::openapi::KnownFormat::"@ + f),
                at((base_indent + 1) as nat, ")))"@),
            ]);
        },
        None => {
            assert(lines_view(property_str@) =~= two + Seq::<Seq<char>>::empty());
        },
    }
    assert(lines_view(property_str@) =~= scalar_component_lines(base_indent as nat, scalar_type));
    property_str
}

/// Appends the property lines of a field that refers to a message or enum.
fn write_field_object(
    out: &mut Vec<String>,
    field: &Field,
    current_package: &String,
    field_package: &String,
    field_descriptor: &String,
)
    requires
        field@.field_type == (FieldTypeView::Object {
            package: field_package@,
            descriptor: field_descriptor@,
        }),
    ensures
        lines_view(final(out)@) == lines_view(old(out)@) + property_lines(current_package@, field@),
{
    let field_modifier = field.get_field_modifier();
    let field_name = field.get_name();
    let ghost start = lines_view(out@);
    write_property_open(out, &field_name);
    if field_modifier == FieldModifier::Repeated {
        push_line(out, indented(5, "utoipa::openapi::ArrayBuilder::from(utoipa::openapi::Array::new("));
        push_line(out, get_field_object_component(6, current_package, field_package, field_descriptor));
        push_line(out, indented(5, "))"));
    } else {
        push_line(out, get_field_object_component(5, current_package, field_package, field_descriptor));
    }
    write_property_close(out, &field_name, field_modifier);
    assert(lines_view(out@) =~= start + property_lines(current_package@, field@));
}

/// The line that refers to the schema of a named type.
fn get_field_object_component(
    indent: usize,
    current_package: &String,
    field_package: &String,
    field_descriptor: &String,
) -> (r: String)
    ensures
        r@ == object_component_line(
            indent as nat,
            current_package@,
            field_package@,
            field_descriptor@,
        ),
{
    if *current_package == *field_package {
        let mut line = indented(indent, "");
        line.append(field_descriptor.as_str());
        line.append("::schema()");
        proof {
            reveal_strlit("");
        }
        assert(line@ =~= at(indent as nat, field_descriptor@ + "::schema()"@));
        line
    } else {
        let mut line = indented(indent, "super::");
        line.append(field_package.as_str());
        line.append("::");
        line.append(field_descriptor.as_str());
        line.append("::schema()");
        assert(line@ =~= at(
            indent as nat,
            "super::"@ + field_package@ + "::"@ + field_descriptor@ + "::schema()"@,
        ));
        line
    }
}

} // verus!
