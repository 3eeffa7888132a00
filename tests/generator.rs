use prost_types::field_descriptor_proto::{Label, Type};
use prutoipa_build::builder::{generate_package, output_file_name};
use prutoipa_build::enum_descriptor::{EnumDescriptor, EnumValue};
use prutoipa_build::enumeration::generate_enum;
use prutoipa_build::error::PrutoipaBuildError;
use prutoipa_build::message::generate_message;
use prutoipa_build::message_descriptor::MessageDescriptor;
use prutoipa_build::proto::{EnumProto, FieldProto, FileProto, MessageProto};
use prutoipa_build::syntax::Syntax;
use prutoipa_build::Builder;

fn scalar(name: &str, proto_type: Type, label: Label) -> FieldProto {
    FieldProto {
        name: Some(name.to_string()),
        referenced_type: None,
        proto_type: Some(proto_type as i32),
        label: Some(label as i32),
        oneof_index: None,
        proto3_optional: None,
    }
}

fn object(name: &str, reference: &str, label: Label) -> FieldProto {
    FieldProto {
        name: Some(name.to_string()),
        referenced_type: Some(reference.to_string()),
        proto_type: Some(Type::Message as i32),
        label: Some(label as i32),
        oneof_index: None,
        proto3_optional: None,
    }
}

fn message(fields: Vec<FieldProto>) -> MessageDescriptor {
    let raw = MessageProto {
        name: Some("Person".to_string()),
        field: fields,
    };
    MessageDescriptor::new(Syntax::Proto3, &raw).unwrap()
}

fn head(package: &str, name: &str) -> Vec<String> {
    vec![
        format!("impl<'__s> utoipa::ToSchema<'__s> for {name} {{"),
        "    fn schema() -> (&'__s str, utoipa::openapi::RefOr<utoipa::openapi::schema::Schema>) {"
            .to_string(),
        "        (".to_string(),
        format!("            \"{package}::{name}\","),
        "            utoipa::openapi::ObjectBuilder::new()".to_string(),
    ]
}

fn tail() -> Vec<String> {
    vec![
        "                .into()".to_string(),
        "        )".to_string(),
        "    }".to_string(),
        "}".to_string(),
    ]
}

#[test]
fn message_with_required_scalar() {
    let lines = generate_message(
        "people".to_string(),
        "Person".to_string(),
        message(vec![scalar("otherAttribute", Type::String, Label::Required)]),
    )
    .unwrap();
    let mut expected = head("people", "Person");
    expected.extend(
        [
            "                .property(",
            "                    \"other_attribute\",",
            "                    utoipa::openapi::ObjectBuilder::new()",
            "                        .schema_type(utoipa::openapi::SchemaType::String)",
            "                )",
            "                .required(\"other_attribute\")",
        ]
        .iter()
        .map(|s| s.to_string()),
    );
    expected.extend(tail());
    assert_eq!(lines, expected);
    let marks = lines.iter().filter(|l| l.contains(".required(")).count();
    assert_eq!(marks, 1);
}

#[test]
fn message_with_repeated_scalar() {
    let lines = generate_message(
        "people".to_string(),
        "Person".to_string(),
        message(vec![scalar("scores", Type::Double, Label::Repeated)]),
    )
    .unwrap();
    let mut expected = head("people", "Person");
    expected.extend(
        [
            "                .property(",
            "                    \"scores\",",
            "                    utoipa::openapi::ArrayBuilder::from(utoipa::openapi::Array::new(",
            "                        utoipa::openapi::ObjectBuilder::new()",
            "                            .schema_type(utoipa::openapi::SchemaType::Number)",
            "                            .format(Some(utoipa::openapi::SchemaFormat::KnownFormat(",
            "                                utoipa::openapi::KnownFormat::Double",
            "                            )))",
            "                    ))",
            "                )",
        ]
        .iter()
        .map(|s| s.to_string()),
    );
    expected.extend(tail());
    assert_eq!(lines, expected);
    assert!(!lines.iter().any(|l| l.contains(".required(")));
}

#[test]
fn message_with_object_references() {
    let lines = generate_message(
        "people".to_string(),
        "Person".to_string(),
        message(vec![
            object("bestFriend", ".people.Person", Label::Optional),
            object("pets", ".animals.Pet", Label::Repeated),
        ]),
    )
    .unwrap();
    let mut expected = head("people", "Person");
    expected.extend(
        [
            "                .property(",
            "                    \"best_friend\",",
            "                    Person::schema()",
            "                )",
            "                .property(",
            "                    \"pets\",",
            "                    utoipa::openapi::ArrayBuilder::from(utoipa::openapi::Array::new(",
            "                        super::animals::Pet::schema()",
            "                    ))",
            "                )",
        ]
        .iter()
        .map(|s| s.to_string()),
    );
    expected.extend(tail());
    assert_eq!(lines, expected);
}

#[test]
fn message_with_bytes_field_is_not_supported() {
    let err = generate_message(
        "people".to_string(),
        "Person".to_string(),
        message(vec![
            scalar("id", Type::Int32, Label::Optional),
            scalar("photo", Type::Bytes, Label::Optional),
        ]),
    )
    .err()
    .unwrap();
    assert_eq!(
        format!("{err:?}"),
        format!("{:?}", PrutoipaBuildError::NotImplementedYet("Bytes".to_string()))
    );
}

fn gender() -> EnumDescriptor {
    EnumDescriptor::new(vec![
        EnumValue {
            name: "MALE".to_string(),
            number: 0,
        },
        EnumValue {
            name: "FEMALE".to_string(),
            number: 1,
        },
        EnumValue {
            name: "UNKNOWN".to_string(),
            number: -12,
        },
    ])
}

fn enum_head() -> Vec<String> {
    let mut lines = head("people", "GENDER");
    lines.extend(
        [
            "                .schema_type(utoipa::openapi::SchemaType::Integer)",
            "                .format(Some(utoipa::openapi::SchemaFormat::KnownFormat(",
            "                    utoipa::openapi::KnownFormat::Int32",
            "                )))",
        ]
        .iter()
        .map(|s| s.to_string()),
    );
    lines
}

#[test]
fn enum_without_value_list() {
    let lines = generate_enum("people".to_string(), "GENDER".to_string(), gender(), false);
    let mut expected = enum_head();
    expected.push(
        "                .description(Some(\"Values:\\n\\n0 = MALE\\n\\n1 = FEMALE\\n\\n-12 = UNKNOWN\"))"
            .to_string(),
    );
    expected.extend(tail());
    assert_eq!(lines, expected);
}

#[test]
fn enum_with_value_list() {
    let lines = generate_enum("people".to_string(), "GENDER".to_string(), gender(), true);
    let mut expected = enum_head();
    expected.extend(
        [
            "                .description(Some(\"Values:\\n\\n0 = MALE\\n\\n1 = FEMALE\\n\\n-12 = UNKNOWN\"))",
            "                .enum_values(Some(vec![",
            "                    \"0\",",
            "                    \"1\",",
            "                    \"-12\",",
            "                ]))",
        ]
        .iter()
        .map(|s| s.to_string()),
    );
    expected.extend(tail());
    assert_eq!(lines, expected);
}

#[test]
fn enum_numbers_at_the_extremes() {
    let e = EnumDescriptor::new(vec![
        EnumValue {
            name: "LOW".to_string(),
            number: i32::MIN,
        },
        EnumValue {
            name: "HIGH".to_string(),
            number: i32::MAX,
        },
    ]);
    let lines = generate_enum("p".to_string(), "E".to_string(), e, true);
    assert!(lines.contains(
        &"                .description(Some(\"Values:\\n\\n-2147483648 = LOW\\n\\n2147483647 = HIGH\"))"
            .to_string()
    ));
    assert!(lines.contains(&"                    \"-2147483648\",".to_string()));
    assert!(lines.contains(&"                    \"2147483647\",".to_string()));
}

fn people_file() -> FileProto {
    FileProto {
        syntax: Some("proto3".to_string()),
        package: Some("people".to_string()),
        message_type: vec![MessageProto {
            name: Some("Person".to_string()),
            field: vec![scalar("id", Type::Int32, Label::Optional)],
        }],
        enum_type: vec![EnumProto {
            name: Some("GENDER".to_string()),
            value: vec![EnumValue {
                name: "MALE".to_string(),
                number: 0,
            }],
        }],
    }
}

#[test]
fn builder_generates_packages_in_name_order() {
    let mut other = people_file();
    other.package = Some("animals".to_string());
    let mut builder = Builder::new();
    builder.generate_enum_values();
    builder.register_descriptors(vec![people_file(), other]).unwrap();
    let outputs = builder.generate().unwrap();
    let names: Vec<String> = outputs.iter().map(|(n, _)| n.clone()).collect();
    assert_eq!(names, vec!["animals".to_string(), "people".to_string()]);

    let people = &outputs[1].1;
    assert_eq!(people[0], "impl<'__s> utoipa::ToSchema<'__s> for GENDER {");
    assert!(people.contains(&"                .enum_values(Some(vec![".to_string()));
    assert!(people.contains(&"impl<'__s> utoipa::ToSchema<'__s> for Person {".to_string()));

    let packages = builder.get_packages();
    let direct = generate_package(&packages[1].1, true).unwrap();
    assert_eq!(&direct, people);
}

#[test]
fn builder_reports_first_emission_error() {
    let mut file = people_file();
    file.message_type[0].field.push(scalar("photo", Type::Bytes, Label::Optional));
    let mut builder = Builder::new();
    builder.register_descriptors(vec![file]).unwrap();
    let err = builder.generate().err().unwrap();
    assert_eq!(
        format!("{err:?}"),
        format!("{:?}", PrutoipaBuildError::NotImplementedYet("Bytes".to_string()))
    );
}

#[test]
fn builder_output_directory() {
    let mut builder = Builder::new();
    assert_eq!(
        format!("{:?}", builder.get_out_dir(None).err().unwrap()),
        format!("{:?}", PrutoipaBuildError::OutputDirNotSet)
    );
    assert_eq!(builder.get_out_dir(Some("/env".to_string())).unwrap(), "/env");
    builder.out_dir("/configured".to_string());
    assert_eq!(builder.get_out_dir(Some("/env".to_string())).unwrap(), "/configured");
    assert_eq!(output_file_name(&"people".to_string()), "people.utoipa.rs");
}

#[test]
fn message_marks_each_required_field_once() {
    let lines = generate_message(
        "people".to_string(),
        "Person".to_string(),
        message(vec![
            scalar("id", Type::Int32, Label::Required),
            scalar("nickName", Type::String, Label::Optional),
            scalar("tags", Type::String, Label::Repeated),
            object("owner", ".people.Person", Label::Required),
            object("friends", ".people.Person", Label::Repeated),
            object("bestFriend", ".people.Person", Label::Optional),
        ]),
    )
    .unwrap();
    let marks = |name: &str| {
        let mark = format!("                .required(\"{name}\")");
        lines.iter().filter(|l| **l == mark).count()
    };
    assert_eq!(marks("id"), 1);
    assert_eq!(marks("owner"), 1);
    // proto3: an optional scalar is always present
    assert_eq!(marks("nick_name"), 1);
    assert_eq!(marks("best_friend"), 0);
    assert_eq!(marks("tags"), 0);
    assert_eq!(marks("friends"), 0);
    assert_eq!(lines.iter().filter(|l| l.contains(".required(")).count(), 3);
}
