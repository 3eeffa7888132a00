use vstd::prelude::*;
use vstd::string::*;

use crate::error::{BuildErrorView, PrutoipaBuildError, invalid_data, view_result};
use crate::naming::{snake_case_of, to_snake_case};
use crate::proto::{FieldProto, ProtoLabel, ProtoType, proto_label_of, proto_type_of};
use crate::syntax::Syntax;

verus! {

/// The primitive value types a field can hold.
#[derive(Debug, Clone, Copy, PartialEq, Eq, Structural)]
pub enum ScalarType {
    F64,
    F32,
    I32,
    I64,
    U32,
    U64,
    Bool,
    String,
    Bytes,
}

/// Presence and cardinality of a field.
#[derive(Debug, Clone, Copy, PartialEq, Eq, Structural)]
pub enum FieldModifier {
    Required,
    Optional,
    Repeated,
}

impl View for ScalarType {
    type V = ScalarType;

    open spec fn view(&self) -> ScalarType {
        *self
    }
}

impl View for FieldModifier {
    type V = FieldModifier;

    open spec fn view(&self) -> FieldModifier {
        *self
    }
}

/// What a field holds: a scalar, or a reference to a message or enum of some package.
#[derive(Debug)]
pub enum FieldType {
    Scalar(ScalarType),
    Object { package: String, descriptor: String },
}

/// A field type with its names as character sequences.
pub enum FieldTypeView {
    Scalar(ScalarType),
    Object { package: Seq<char>, descriptor: Seq<char> },
}

impl View for FieldType {
    type V = FieldTypeView;

    open spec fn view(&self) -> FieldTypeView {
        match self {
            FieldType::Scalar(s) => FieldTypeView::Scalar(*s),
            FieldType::Object { package, descriptor } => FieldTypeView::Object {
                package: package@,
                descriptor: descriptor@,
            },
        }
    }
}

impl PartialEq for FieldType {
    fn eq(&self, other: &FieldType) -> (r: bool) {
        match (self, other) {
            (FieldType::Scalar(a), FieldType::Scalar(b)) => *a == *b,
            (
                FieldType::Object { package: p1, descriptor: d1 },
                FieldType::Object { package: p2, descriptor: d2 },
            ) => *p1 == *p2 && *d1 == *d2,
            _ => false,
        }
    }
}

impl vstd::std_specs::cmp::PartialEqSpecImpl for FieldType {
    open spec fn obeys_eq_spec() -> bool {
        true
    }

    open spec fn eq_spec(&self, other: &FieldType) -> bool {
        self@ == other@
    }
}

impl Clone for FieldType {
    fn clone(&self) -> (r: Self)
        ensures
            r == *self,
    {
        match self {
            FieldType::Scalar(s) => FieldType::Scalar(*s),
            FieldType::Object { package, descriptor } => FieldType::Object {
                package: package.clone(),
                descriptor: descriptor.clone(),
            },
        }
    }
}

/// A resolved field of a message.
#[derive(Debug)]
pub struct Field {
    name: String,
    field_modifier: FieldModifier,
    field_type: FieldType,
}

/// A resolved field, with its name as declared (before any case conversion).
pub struct FieldView {
    pub name: Seq<char>,
    pub field_modifier: FieldModifier,
    pub field_type: FieldTypeView,
}

impl View for Field {
    type V = FieldView;

    closed spec fn view(&self) -> FieldView {
        FieldView {
            name: self.name@,
            field_modifier: self.field_modifier,
            field_type: self.field_type@,
        }
    }
}

impl Clone for Field {
    fn clone(&self) -> (r: Self)
        ensures
            r == *self,
    {
        Field {
            name: self.name.clone(),
            field_modifier: self.field_modifier,
            field_type: self.field_type.clone(),
        }
    }
}

/// The segments of `s` between dots, as `str::split('.')` yields them.
pub open spec fn split_dots(s: Seq<char>) -> Seq<Seq<char>>
    decreases s.len(),
{
    if s.len() == 0 {
        seq![Seq::empty()]
    } else {
        let prev = split_dots(s.drop_last());
        if s.last() == '.' {
            prev.push(Seq::empty())
        } else {
            prev.update(prev.len() - 1, prev.last().push(s.last()))
        }
    }
}

/// The scalar type that a wire type stands for; none for message, enum and group.
pub open spec fn scalar_of(t: ProtoType) -> Option<ScalarType> {
    match t {
        ProtoType::Double => Some(ScalarType::F64),
        ProtoType::Float => Some(ScalarType::F32),
        ProtoType::Int64 | ProtoType::Sfixed64 | ProtoType::Sint64 => Some(ScalarType::I64),
        ProtoType::Int32 | ProtoType::Sfixed32 | ProtoType::Sint32 => Some(ScalarType::I32),
        ProtoType::Uint64 | ProtoType::Fixed64 => Some(ScalarType::U64),
        ProtoType::Uint32 | ProtoType::Fixed32 => Some(ScalarType::U32),
        ProtoType::Bool => Some(ScalarType::Bool),
        ProtoType::String => Some(ScalarType::String),
        ProtoType::Bytes => Some(ScalarType::Bytes),
        ProtoType::Message | ProtoType::Enum | ProtoType::Group => None,
    }
}

/// The type of a raw field: an object reference when it names a type,
/// otherwise the scalar of its wire type. A message, enum or group field
/// always names its type; one that does not is a defect of the descriptor
/// (see `field_has_defect`), and its value here is left unspecified.
pub open spec fn type_of(f: FieldProto) -> Result<FieldTypeView, BuildErrorView> {
    match f.referenced_type {
        Some(t) => {
            let parts = split_dots(t@);
            if parts.len() == 3 {
                Ok(FieldTypeView::Object { package: parts[1], descriptor: parts[2] })
            } else {
                Err(BuildErrorView::InvalidData("The object "@ + t@ + " is not valid."@))
            }
        },
        None => match f.proto_type {
            None => Err(BuildErrorView::InvalidData("Expected type"@)),
            Some(code) => match proto_type_of(code) {
                None => Err(BuildErrorView::InvalidData("Expected valid type."@)),
                Some(t) => match scalar_of(t) {
                    Some(s) => Ok(FieldTypeView::Scalar(s)),
                    None => arbitrary(),
                },
            },
        },
    }
}

/// Whether a raw field has explicit presence (a proto3 `optional`) or is a member of a one-of.
pub open spec fn is_optional_marked(f: FieldProto) -> bool {
    f.proto3_optional == Some(true) || f.oneof_index is Some
}

/// Whether a raw field names no type although its wire type is message, enum or group.
pub open spec fn lacks_type_name(f: FieldProto) -> bool {
    &&& f.referenced_type is None
    &&& f.proto_type matches Some(code)
    &&& proto_type_of(code) matches Some(t)
    &&& scalar_of(t) is None
}

/// Whether a raw field with explicit presence or one-of membership carries a
/// label other than optional.
pub open spec fn mislabeled_optional(f: FieldProto) -> bool {
    &&& is_optional_marked(f)
    &&& f.label matches Some(code)
    &&& proto_label_of(code) matches Some(l)
    &&& l != ProtoLabel::Optional
}

/// Whether resolving a raw field would reach a defect of the descriptor
/// rather than a result: a message, enum or group without a type name, or a
/// field with explicit presence or one-of membership that is not labelled
/// optional. No well-formed descriptor has one.
pub open spec fn field_has_defect(f: FieldProto) -> bool {
    &&& f.name is Some
    &&& (lacks_type_name(f) || (type_of(f) is Ok && mislabeled_optional(f)))
}

/// The modifier of a raw field whose type has been resolved to `t`. A field
/// with explicit presence or one-of membership is optional: its label is
/// optional in every well-formed descriptor (see `field_has_defect`).
pub open spec fn modifier_of(syntax: Syntax, f: FieldProto, t: FieldTypeView) -> Result<
    FieldModifier,
    BuildErrorView,
> {
    match f.label {
        None => Err(BuildErrorView::InvalidData("Expected label."@)),
        Some(code) => match proto_label_of(code) {
            None => Err(BuildErrorView::InvalidData("Expected valid label."@)),
            Some(label) => if is_optional_marked(f) {
                Ok(FieldModifier::Optional)
            } else {
                match label {
                    ProtoLabel::Repeated => Ok(FieldModifier::Repeated),
                    ProtoLabel::Required => Ok(FieldModifier::Required),
                    ProtoLabel::Optional => match syntax {
                        Syntax::Proto2 => Ok(FieldModifier::Optional),
                        Syntax::Proto3 => match t {
                            FieldTypeView::Scalar(_) => Ok(FieldModifier::Required),
                            FieldTypeView::Object { .. } => Ok(FieldModifier::Optional),
                        },
                    },
                }
            },
        },
    }
}

/// The field that a raw field resolves to under the given dialect.
pub open spec fn resolve_field(syntax: Syntax, f: FieldProto) -> Result<FieldView, BuildErrorView> {
    match f.name {
        None => Err(BuildErrorView::InvalidData("Expected field to have name"@)),
        Some(n) => match type_of(f) {
            Err(e) => Err(e),
            Ok(t) => match modifier_of(syntax, f, t) {
                Err(e) => Err(e),
                Ok(m) => Ok(FieldView { name: n@, field_modifier: m, field_type: t }),
            },
        },
    }
}

/// Splits a fully qualified type name into its package and local name,
/// when it has exactly three dot-separated segments.
fn split_type_name(t: &String) -> (r: Option<(String, String)>)
    ensures
        r is Some <==> split_dots(t@).len() == 3,
        r matches Some((p, d)) ==> p@ == split_dots(t@)[1] && d@ == split_dots(t@)[2],
{
    let s = t.as_str();
    let n = s.unicode_len();
    let mut parts: Vec<String> = Vec::new();
    let mut cur = String::new();
    let mut i: usize = 0;
    assert(s@.take(0) == Seq::<char>::empty());
    while i < n
        invariant
            s@ == t@,
            n == t@.len(),
            i <= n,
            parts@.map_values(|p: String| p@).push(cur@) == split_dots(t@.take(i as int)),
        decreases n - i,
    {
        let c = s.get_char(i);
        let ghost before = parts@.map_values(|p: String| p@);
        let ghost cur_before = cur@;
        assert(t@.take(i + 1).drop_last() == t@.take(i as int));
        assert(t@.take(i + 1).last() == c);
        if c == '.' {
            let done = cur;
            parts.push(done);
            cur = String::new();
            assert(parts@.map_values(|p: String| p@) =~= before.push(cur_before));
        } else {
            let piece = s.substring_char(i, i + 1);
            assert(piece@ =~= seq![c]);
            cur.append(piece);
            assert(cur@ =~= cur_before.push(c));
            assert(before.push(cur_before).update(before.len() as int, cur_before.push(c))
                =~= before.push(cur@));
        }
        i = i + 1;
    }
    assert(t@.take(n as int) == t@);
    if parts.len() == 2 {
        let package = parts[1].clone();
        assert(split_dots(t@)[1] == parts@[1]@);
        Some((package, cur))
    } else {
        None
    }
}

/// The documentation type name of a scalar; bytes have none.
pub open spec fn utoipa_type_of(t: ScalarType) -> Seq<char> {
    match t {
        ScalarType::String => "String"@,
        ScalarType::I32 | ScalarType::I64 | ScalarType::U32 | ScalarType::U64 => "Integer"@,
        ScalarType::F64 | ScalarType::F32 => "Number"@,
        ScalarType::Bool => "Boolean"@,
        ScalarType::Bytes => Seq::empty(),
    }
}

/// The format qualifier of a numeric scalar: its width, or float against double.
pub open spec fn utoipa_format_of(t: ScalarType) -> Option<Seq<char>> {
    match t {
        ScalarType::I32 | ScalarType::U32 => Some("Int32"@),
        ScalarType::I64 | ScalarType::U64 => Some("Int64"@),
        ScalarType::F32 => Some("Float"@),
        ScalarType::F64 => Some("Double"@),
        _ => None,
    }
}

/// Under proto3, a valid field labelled optional that neither has explicit
/// presence nor belongs to a one-of is required when it holds a scalar and
/// optional when it refers to a message or enum.
pub proof fn lemma_proto3_optional_label(f: FieldProto)
    requires
        f.label == Some(1i32),
        !is_optional_marked(f),
        resolve_field(Syntax::Proto3, f) is Ok,
    ensures
        match resolve_field(Syntax::Proto3, f) {
            Ok(v) => {
                &&& v.field_type is Scalar ==> v.field_modifier == FieldModifier::Required
                &&& v.field_type is Object ==> v.field_modifier == FieldModifier::Optional
            },
            Err(_) => false,
        },
{
}

/// Under proto2, a valid field labelled optional is optional, whatever its type.
pub proof fn lemma_proto2_optional_label(f: FieldProto)
    requires
        f.label == Some(1i32),
        resolve_field(Syntax::Proto2, f) is Ok,
    ensures
        match resolve_field(Syntax::Proto2, f) {
            Ok(v) => v.field_modifier == FieldModifier::Optional,
            Err(_) => false,
        },
{
}

/// A field with explicit presence or one-of membership resolves to optional,
/// and in a well-formed descriptor its label is optional: any other label
/// makes the field a defect.
pub proof fn lemma_optional_marked_field(syntax: Syntax, f: FieldProto)
    requires
        is_optional_marked(f),
        !field_has_defect(f),
    ensures
        match resolve_field(syntax, f) {
            Ok(v) => v.field_modifier == FieldModifier::Optional && f.label == Some(1i32),
            Err(_) => true,
        },
        f.name is Some && type_of(f) is Ok && f.label is Some && proto_label_of(f.label->0)
            is Some ==> f.label == Some(1i32),
{
}

/// A type reference that does not split into exactly three dot-separated
/// segments is rejected as invalid data.
pub proof fn lemma_type_reference_segments(syntax: Syntax, f: FieldProto)
    requires
        f.referenced_type matches Some(t) && split_dots(t@).len() != 3,
    ensures
        resolve_field(syntax, f) matches Err(BuildErrorView::InvalidData(_)),
{
}

/// Whether a raw field can be resolved without reaching a defect.
pub fn field_is_well_formed(f: &FieldProto) -> (r: bool)
    ensures
        r == !field_has_defect(*f),
{
    if f.name.is_none() {
        return true;
    }
    let lacks = f.referenced_type.is_none() && match f.proto_type {
        Some(code) => match ProtoType::from_code(code) {
            Some(t) => ScalarType::from_proto_type(t).is_none(),
            None => false,
        },
        None => false,
    };
    if lacks {
        return false;
    }
    let marked = match f.proto3_optional {
        Some(b) => b,
        None => false,
    } || f.oneof_index.is_some();
    let mislabeled = marked && match f.label {
        Some(code) => match ProtoLabel::from_code(code) {
            Some(l) => l != ProtoLabel::Optional,
            None => false,
        },
        None => false,
    };
    if !mislabeled {
        return true;
    }
    match Field::get_type(f) {
        Ok(_) => false,
        Err(_) => true,
    }
}

impl ScalarType {
    /// The documentation type name; bytes have no such type.
    pub fn get_utoipa_type(&self) -> (r: &'static str)
        requires
            *self != ScalarType::Bytes,
        ensures
            r@ == utoipa_type_of(*self),
    {
        match self {
            ScalarType::String => "String",
            ScalarType::I32 | ScalarType::I64 | ScalarType::U32 | ScalarType::U64 => "Integer",
            ScalarType::F64 | ScalarType::F32 => "Number",
            _ => "Boolean",
        }
    }

    pub fn get_utoipa_format(&self) -> (r: Option<&'static str>)
        ensures
            match (r, utoipa_format_of(*self)) {
                (Some(a), Some(b)) => a@ == b,
                (None, None) => true,
                _ => false,
            },
    {
        match self {
            ScalarType::I32 | ScalarType::U32 => Some("Int32"),
            ScalarType::I64 | ScalarType::U64 => Some("Int64"),
            ScalarType::F32 => Some("Float"),
            ScalarType::F64 => Some("Double"),
            _ => None,
        }
    }

    /// The scalar that a wire type stands for; none for message, enum and group.
    pub fn from_proto_type(t: ProtoType) -> (r: Option<ScalarType>)
        ensures
            r == scalar_of(t),
    {
        match t {
            ProtoType::Double => Some(ScalarType::F64),
            ProtoType::Float => Some(ScalarType::F32),
            ProtoType::Int64 | ProtoType::Sfixed64 | ProtoType::Sint64 => Some(ScalarType::I64),
            ProtoType::Int32 | ProtoType::Sfixed32 | ProtoType::Sint32 => Some(ScalarType::I32),
            ProtoType::Uint64 | ProtoType::Fixed64 => Some(ScalarType::U64),
            ProtoType::Uint32 | ProtoType::Fixed32 => Some(ScalarType::U32),
            ProtoType::Bool => Some(ScalarType::Bool),
            ProtoType::String => Some(ScalarType::String),
            ProtoType::Bytes => Some(ScalarType::Bytes),
            ProtoType::Message | ProtoType::Enum | ProtoType::Group => None,
        }
    }
}

impl Field {
    /// Resolves a raw field under the given dialect.
    pub fn new(syntax: &Syntax, field_descriptor_proto: &FieldProto) -> (r: Result<
        Self,
        PrutoipaBuildError,
    >)
        requires
            !field_has_defect(*field_descriptor_proto),
        ensures
            view_result(r) == resolve_field(*syntax, *field_descriptor_proto),
    {
        let name = match &field_descriptor_proto.name {
            Some(n) => n.clone(),
            None => {
                return Err(invalid_data("Expected field to have name"));
            },
        };
        let field_type = match Self::get_type(field_descriptor_proto) {
            Ok(t) => t,
            Err(e) => {
                return Err(e);
            },
        };
        let field_modifier = match Self::get_modifier(syntax, field_descriptor_proto, &field_type) {
            Ok(m) => m,
            Err(e) => {
                return Err(e);
            },
        };
        Ok(Field { name, field_modifier, field_type })
    }

    /// The field's name converted to lower snake case, as it is emitted.
    pub fn get_name(&self) -> (r: String)
        ensures
            r@ == snake_case_of(self@.name),
    {
        to_snake_case(&self.name)
    }

    /// The field's name as declared.
    pub fn get_declared_name(&self) -> (r: String)
        ensures
            r@ == self@.name,
    {
        self.name.clone()
    }

    pub fn get_field_modifier(&self) -> (r: FieldModifier)
        ensures
            r == self@.field_modifier,
    {
        self.field_modifier
    }

    pub fn get_field_type(&self) -> (r: FieldType)
        ensures
            r@ == self@.field_type,
    {
        self.field_type.clone()
    }

    fn get_type(field: &FieldProto) -> (r: Result<FieldType, PrutoipaBuildError>)
        requires
            !lacks_type_name(*field),
        ensures
            view_result(r) == type_of(*field),
    {
        match &field.referenced_type {
            Some(reference) => match split_type_name(reference) {
                Some((package, descriptor)) => Ok(FieldType::Object { package, descriptor }),
                None => {
                    let mut msg = String::from_str("The object ");
                    msg.append(reference.as_str());
                    msg.append(" is not valid.");
                    Err(PrutoipaBuildError::InvalidData(msg))
                },
            },
            None => {
                let code = match field.proto_type {
                    Some(c) => c,
                    None => {
                        return Err(invalid_data("Expected type"));
                    },
                };
                let proto_type = match ProtoType::from_code(code) {
                    Some(t) => t,
                    None => {
                        return Err(invalid_data("Expected valid type."));
                    },
                };
                match ScalarType::from_proto_type(proto_type) {
                    Some(s) => Ok(FieldType::Scalar(s)),
                    None => unreached(),
                }
            },
        }
    }

    fn get_modifier(syntax: &Syntax, field: &FieldProto, field_type: &FieldType) -> (r: Result<
        FieldModifier,
        PrutoipaBuildError,
    >)
        requires
            !mislabeled_optional(*field),
        ensures
            view_result(r) == modifier_of(*syntax, *field, field_type@),
    {
        let code = match field.label {
            Some(c) => c,
            None => {
                return Err(invalid_data("Expected label."));
            },
        };
        let label = match ProtoLabel::from_code(code) {
            Some(l) => l,
            None => {
                return Err(invalid_data("Expected valid label."));
            },
        };
        let explicit_presence = match field.proto3_optional {
            Some(b) => b,
            None => false,
        };
        if explicit_presence || field.oneof_index.is_some() {
            Ok(FieldModifier::Optional)
        } else {
            match label {
                ProtoLabel::Repeated => Ok(FieldModifier::Repeated),
                ProtoLabel::Required => Ok(FieldModifier::Required),
                ProtoLabel::Optional => match syntax {
                    Syntax::Proto2 => Ok(FieldModifier::Optional),
                    Syntax::Proto3 => match field_type {
                        FieldType::Scalar(_) => Ok(FieldModifier::Required),
                        FieldType::Object { .. } => Ok(FieldModifier::Optional),
                    },
                },
            }
        }
    }
}

} // verus!
