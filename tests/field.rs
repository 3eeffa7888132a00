use prost_types::field_descriptor_proto::{Label, Type};
use prutoipa_build::error::PrutoipaBuildError;
use prutoipa_build::field::{field_is_well_formed, Field, FieldModifier, FieldType, ScalarType};
use prutoipa_build::message_descriptor::{fields_are_well_formed, MessageDescriptor};
use prutoipa_build::proto::{FieldProto, MessageProto, ProtoLabel, ProtoType};
use prutoipa_build::syntax::Syntax;

fn scalar(name: &str, proto_type: Type, label: Label) -> FieldProto {
    FieldProto {
        name: Some(name.to_string()),
        referenced_type: None,
        proto_type: Some(proto_type as i32),
        label: Some(label as i32),
        oneof_index: None,
        proto3_optional: None,
    }
}

fn object(name: &str, reference: &str, label: Label) -> FieldProto {
    FieldProto {
        name: Some(name.to_string()),
        referenced_type: Some(reference.to_string()),
        proto_type: Some(Type::Message as i32),
        label: Some(label as i32),
        oneof_index: None,
        proto3_optional: None,
    }
}

fn invalid(msg: &str) -> String {
    format!("{:?}", PrutoipaBuildError::InvalidData(msg.to_string()))
}

fn error_of(syntax: Syntax, f: &FieldProto) -> String {
    format!("{:?}", Field::new(&syntax, f).err().unwrap())
}

#[test]
fn syntax_from_declared_string() {
    assert_eq!(Syntax::get(None).unwrap(), Syntax::Proto2);
    assert_eq!(Syntax::get(Some("proto2")).unwrap(), Syntax::Proto2);
    assert_eq!(Syntax::get(Some("proto3")).unwrap(), Syntax::Proto3);
    assert_eq!(
        format!("{:?}", Syntax::get(Some("proto")).err().unwrap()),
        invalid("Unknown syntax: proto")
    );
    assert_eq!(
        format!("{:?}", Syntax::get(Some("")).err().unwrap()),
        invalid("Unknown syntax: ")
    );
}

#[test]
fn proto3_optional_scalar_is_required() {
    let f = Field::new(&Syntax::Proto3, &scalar("id", Type::Int32, Label::Optional)).unwrap();
    assert_eq!(f.get_field_modifier(), FieldModifier::Required);
    assert_eq!(f.get_field_type(), FieldType::Scalar(ScalarType::I32));
}

#[test]
fn proto3_optional_object_is_optional() {
    let f = Field::new(&Syntax::Proto3, &object("owner", ".people.Person", Label::Optional)).unwrap();
    assert_eq!(f.get_field_modifier(), FieldModifier::Optional);
    assert_eq!(
        f.get_field_type(),
        FieldType::Object {
            package: "people".to_string(),
            descriptor: "Person".to_string()
        }
    );
}

#[test]
fn proto2_optional_is_optional_for_any_type() {
    let s = Field::new(&Syntax::Proto2, &scalar("id", Type::Sint64, Label::Optional)).unwrap();
    assert_eq!(s.get_field_modifier(), FieldModifier::Optional);
    assert_eq!(s.get_field_type(), FieldType::Scalar(ScalarType::I64));
    let o = Field::new(&Syntax::Proto2, &object("owner", ".people.Person", Label::Optional)).unwrap();
    assert_eq!(o.get_field_modifier(), FieldModifier::Optional);
}

#[test]
fn repeated_and_required_labels() {
    let r = Field::new(&Syntax::Proto3, &scalar("tags", Type::String, Label::Repeated)).unwrap();
    assert_eq!(r.get_field_modifier(), FieldModifier::Repeated);
    let q = Field::new(&Syntax::Proto2, &scalar("id", Type::Fixed32, Label::Required)).unwrap();
    assert_eq!(q.get_field_modifier(), FieldModifier::Required);
    assert_eq!(q.get_field_type(), FieldType::Scalar(ScalarType::U32));
}

#[test]
fn explicit_presence_and_one_of_are_optional() {
    let mut synthetic = scalar("nickname", Type::String, Label::Optional);
    synthetic.proto3_optional = Some(true);
    synthetic.oneof_index = Some(0);
    let f = Field::new(&Syntax::Proto3, &synthetic).unwrap();
    assert_eq!(f.get_field_modifier(), FieldModifier::Optional);

    let mut member = scalar("choice", Type::Bool, Label::Optional);
    member.oneof_index = Some(1);
    let f = Field::new(&Syntax::Proto3, &member).unwrap();
    assert_eq!(f.get_field_modifier(), FieldModifier::Optional);
}

#[test]
fn defective_fields_are_detected() {
    let mut member = scalar("choice", Type::Bool, Label::Repeated);
    member.oneof_index = Some(1);
    assert!(!field_is_well_formed(&member));
    member.label = Some(Label::Optional as i32);
    assert!(field_is_well_formed(&member));

    let mut synthetic = scalar("nickname", Type::String, Label::Required);
    synthetic.proto3_optional = Some(true);
    assert!(!field_is_well_formed(&synthetic));

    for t in [Type::Message, Type::Enum, Type::Group] {
        let untyped = scalar("owner", t, Label::Optional);
        assert!(!field_is_well_formed(&untyped));
        let mut nameless = untyped.clone();
        nameless.name = None;
        assert!(field_is_well_formed(&nameless));
    }
    assert!(field_is_well_formed(&object("owner", ".people.Person", Label::Optional)));
    assert!(field_is_well_formed(&scalar("id", Type::Int32, Label::Required)));

    let mut broken_reference = object("owner", "bad", Label::Repeated);
    broken_reference.oneof_index = Some(0);
    assert!(field_is_well_formed(&broken_reference));
}

#[test]
fn type_reference_needs_three_segments() {
    assert_eq!(
        error_of(Syntax::Proto3, &object("owner", "people.Person", Label::Optional)),
        invalid("The object people.Person is not valid.")
    );
    assert_eq!(
        error_of(Syntax::Proto3, &object("owner", ".a.b.c", Label::Optional)),
        invalid("The object .a.b.c is not valid.")
    );
    assert_eq!(
        error_of(Syntax::Proto3, &object("owner", "", Label::Optional)),
        invalid("The object  is not valid.")
    );
    let f = Field::new(&Syntax::Proto3, &object("owner", "..", Label::Optional)).unwrap();
    assert_eq!(
        f.get_field_type(),
        FieldType::Object {
            package: String::new(),
            descriptor: String::new()
        }
    );
}

#[test]
fn missing_or_invalid_parts_are_rejected() {
    let mut f = scalar("id", Type::Int32, Label::Optional);
    f.name = None;
    assert_eq!(error_of(Syntax::Proto3, &f), invalid("Expected field to have name"));

    let mut f = scalar("id", Type::Int32, Label::Optional);
    f.proto_type = None;
    assert_eq!(error_of(Syntax::Proto3, &f), invalid("Expected type"));

    let mut f = scalar("id", Type::Int32, Label::Optional);
    f.proto_type = Some(99);
    assert_eq!(error_of(Syntax::Proto3, &f), invalid("Expected valid type."));

    let mut f = scalar("id", Type::Int32, Label::Optional);
    f.label = None;
    assert_eq!(error_of(Syntax::Proto3, &f), invalid("Expected label."));

    let mut f = scalar("id", Type::Int32, Label::Optional);
    f.label = Some(0);
    assert_eq!(error_of(Syntax::Proto3, &f), invalid("Expected valid label."));
}

#[test]
fn scalar_table() {
    let cases = [
        (Type::Double, ScalarType::F64),
        (Type::Float, ScalarType::F32),
        (Type::Int64, ScalarType::I64),
        (Type::Sfixed64, ScalarType::I64),
        (Type::Sint64, ScalarType::I64),
        (Type::Int32, ScalarType::I32),
        (Type::Sfixed32, ScalarType::I32),
        (Type::Sint32, ScalarType::I32),
        (Type::Uint64, ScalarType::U64),
        (Type::Fixed64, ScalarType::U64),
        (Type::Uint32, ScalarType::U32),
        (Type::Fixed32, ScalarType::U32),
        (Type::Bool, ScalarType::Bool),
        (Type::String, ScalarType::String),
        (Type::Bytes, ScalarType::Bytes),
    ];
    for (t, expected) in cases {
        let f = Field::new(&Syntax::Proto2, &scalar("x", t, Label::Required)).unwrap();
        assert_eq!(f.get_field_type(), FieldType::Scalar(expected));
    }
}

#[test]
fn wire_codes_match_prost_numbering() {
    for code in -2..25 {
        assert_eq!(
            format!("{:?}", Type::from_i32(code)),
            format!("{:?}", ProtoType::from_code(code))
        );
        assert_eq!(
            format!("{:?}", Label::from_i32(code)),
            format!("{:?}", ProtoLabel::from_code(code))
        );
    }
}

#[test]
fn field_name_is_snake_cased_at_emission() {
    let f = Field::new(&Syntax::Proto3, &scalar("otherAttribute", Type::String, Label::Required)).unwrap();
    assert_eq!(f.get_name(), "other_attribute");
    assert_eq!(f.get_declared_name(), "otherAttribute");
    let g = Field::new(&Syntax::Proto3, &scalar("HTTPStatus", Type::String, Label::Required)).unwrap();
    assert_eq!(g.get_name(), "http_status");
}

#[test]
fn utoipa_names_of_scalars() {
    assert_eq!(ScalarType::String.get_utoipa_type(), "String");
    assert_eq!(ScalarType::U64.get_utoipa_type(), "Integer");
    assert_eq!(ScalarType::F32.get_utoipa_type(), "Number");
    assert_eq!(ScalarType::Bool.get_utoipa_type(), "Boolean");
    assert_eq!(ScalarType::I32.get_utoipa_format(), Some("Int32"));
    assert_eq!(ScalarType::U64.get_utoipa_format(), Some("Int64"));
    assert_eq!(ScalarType::F32.get_utoipa_format(), Some("Float"));
    assert_eq!(ScalarType::F64.get_utoipa_format(), Some("Double"));
    assert_eq!(ScalarType::Bool.get_utoipa_format(), None);
    assert_eq!(ScalarType::Bytes.get_utoipa_format(), None);
}

#[test]
fn message_leaves_out_plain_one_of_members() {
    let mut member = scalar("choice", Type::Bool, Label::Optional);
    member.oneof_index = Some(0);
    let mut synthetic = scalar("nickname", Type::String, Label::Optional);
    synthetic.oneof_index = Some(1);
    synthetic.proto3_optional = Some(true);
    let raw = MessageProto {
        name: Some("Person".to_string()),
        field: vec![
            scalar("id", Type::Int32, Label::Optional),
            member,
            synthetic,
        ],
    };
    assert!(fields_are_well_formed(&raw.field));
    let m = MessageDescriptor::new(Syntax::Proto3, &raw).unwrap();
    let names: Vec<String> = m.get_fields().iter().map(|f| f.get_declared_name()).collect();
    assert_eq!(names, vec!["id".to_string(), "nickname".to_string()]);
    assert_eq!(m.get_skipped_fields(), vec!["choice".to_string()]);
}

#[test]
fn message_stops_at_first_bad_field() {
    let mut nameless = scalar("x", Type::Int32, Label::Optional);
    nameless.name = None;
    let raw = MessageProto {
        name: Some("Person".to_string()),
        field: vec![
            scalar("id", Type::Int32, Label::Optional),
            object("owner", "bad", Label::Optional),
            nameless,
        ],
    };
    let err = MessageDescriptor::new(Syntax::Proto3, &raw).err().unwrap();
    assert_eq!(format!("{err:?}"), invalid("The object bad is not valid."));
}
