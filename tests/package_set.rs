use prost_types::field_descriptor_proto::{Label, Type};
use prutoipa_build::descriptor::Descriptor;
use prutoipa_build::enum_descriptor::EnumValue;
use prutoipa_build::error::PrutoipaBuildError;
use prutoipa_build::field::{Field, FieldModifier, FieldType, ScalarType};
use prutoipa_build::package::Package;
use prutoipa_build::package_set::{descriptors_are_well_formed, PackageSet};
use prutoipa_build::proto::{EnumProto, FieldProto, FileProto, MessageProto};
use prutoipa_build::syntax::Syntax;

fn field_proto(name: &str, proto_type: Type, label: Label) -> FieldProto {
    FieldProto {
        name: Some(name.to_string()),
        referenced_type: None,
        proto_type: Some(proto_type as i32),
        label: Some(label as i32),
        oneof_index: None,
        proto3_optional: None,
    }
}

fn get_file_descriptor_proto() -> FileProto {
    FileProto {
        syntax: Some("proto3".to_string()),
        package: Some("people".to_string()),
        enum_type: vec![EnumProto {
            name: Some("GENDER".to_string()),
            value: vec![
                EnumValue {
                    name: "MALE".to_string(),
                    number: 0,
                },
                EnumValue {
                    name: "FEMALE".to_string(),
                    number: 1,
                },
            ],
        }],
        message_type: vec![MessageProto {
            name: Some("Person".to_string()),
            field: vec![
                field_proto("id", Type::Int32, Label::Optional),
                field_proto("otherAttribute", Type::String, Label::Required),
            ],
        }],
    }
}

fn find_package(package_set: &PackageSet, name: &str) -> Option<Package> {
    package_set
        .get_packages()
        .into_iter()
        .find(|(package_name, _)| package_name == name)
        .map(|(_, package)| package)
}

fn get_field(descriptors: Vec<(String, Descriptor)>, name: String) -> Option<Field> {
    let person = descriptors
        .into_iter()
        .find(|(descriptor_name, _)| descriptor_name == "Person")
        .map(|(_, descriptor)| descriptor)
        .unwrap();
    if let Descriptor::Message(message_descriptor) = person {
        message_descriptor
            .get_fields()
            .into_iter()
            .find(|field| field.get_name() == name)
    } else {
        None
    }
}

#[test]
fn package_set_simple() {
    let mut package_set = PackageSet::default();
    package_set
        .register_file_descriptor_set(vec![get_file_descriptor_proto()])
        .unwrap();

    let package = find_package(&package_set, "people").unwrap();
    let package_name = package.get_name();
    let package_syntax = package.get_syntax();

    assert_eq!(package_name, "people");
    assert_eq!(package_syntax, Syntax::Proto3);

    let field = get_field(package.get_descriptors(), "id".to_string()).unwrap();
    let field_name = field.get_name();
    let field_type = field.get_field_type();

    assert_eq!(field_name, "id");
    assert_eq!(field_type, FieldType::Scalar(ScalarType::I32));

    let field = get_field(package.get_descriptors(), "other_attribute".to_string()).unwrap();
    let field_name = field.get_name();
    let field_type = field.get_field_type();

    assert_eq!(field_name, "other_attribute");
    assert_eq!(field_type, FieldType::Scalar(ScalarType::String));
}

#[test]
fn package_defined_twice() {
    let mut package_set = PackageSet::default();
    let err = package_set
        .register_file_descriptor_set(vec![
            get_file_descriptor_proto(),
            get_file_descriptor_proto(),
        ])
        .err();

    let expected_err = Some(PrutoipaBuildError::InvalidData(
        "Package 'people' already defined.".to_string(),
    ));

    assert_eq!(format!("{err:?}"), format!("{expected_err:?}"));
}

#[test]
fn message_descriptor_without_name() {
    let mut file_descriptor_proto = get_file_descriptor_proto();
    file_descriptor_proto.message_type[0].name = None;

    let mut package_set = PackageSet::default();
    let err = package_set
        .register_file_descriptor_set(vec![file_descriptor_proto])
        .err();

    let expected_err = Some(PrutoipaBuildError::InvalidData(
        "Expected message name.".to_string(),
    ));

    assert_eq!(format!("{err:?}"), format!("{expected_err:?}"));
}

#[test]
fn enum_descriptor_without_name() {
    let mut file_descriptor_proto = get_file_descriptor_proto();
    file_descriptor_proto.enum_type[0].name = None;

    let mut package_set = PackageSet::default();
    let err = package_set
        .register_file_descriptor_set(vec![file_descriptor_proto])
        .err();

    let expected_err = Some(PrutoipaBuildError::InvalidData(
        "Expected enum name.".to_string(),
    ));

    assert_eq!(format!("{err:?}"), format!("{expected_err:?}"));
}

#[test]
fn round_trip_person_modifiers() {
    let mut package_set = PackageSet::default();
    package_set
        .register_file_descriptor_set(vec![get_file_descriptor_proto()])
        .unwrap();
    let package = find_package(&package_set, "people").unwrap();

    let id = get_field(package.get_descriptors(), "id".to_string()).unwrap();
    assert_eq!(id.get_field_modifier(), FieldModifier::Required);
    assert_eq!(id.get_declared_name(), "id");

    let other = get_field(package.get_descriptors(), "other_attribute".to_string()).unwrap();
    assert_eq!(other.get_field_modifier(), FieldModifier::Required);
    assert_eq!(other.get_declared_name(), "otherAttribute");

    let names: Vec<String> = package
        .get_descriptors()
        .into_iter()
        .map(|(name, _)| name)
        .collect();
    assert_eq!(names, vec!["GENDER".to_string(), "Person".to_string()]);
}

#[test]
fn same_contents_under_distinct_package_names() {
    let mut other = get_file_descriptor_proto();
    other.package = Some("animals".to_string());

    let mut package_set = PackageSet::default();
    package_set
        .register_file_descriptor_set(vec![get_file_descriptor_proto(), other])
        .unwrap();

    let names: Vec<String> = package_set
        .get_packages()
        .into_iter()
        .map(|(name, _)| name)
        .collect();
    assert_eq!(names, vec!["animals".to_string(), "people".to_string()]);
}

#[test]
fn files_before_an_error_stay_registered() {
    let mut broken = get_file_descriptor_proto();
    broken.package = Some("broken".to_string());
    broken.syntax = Some("proto4".to_string());

    let mut package_set = PackageSet::default();
    let err = package_set
        .register_file_descriptor_set(vec![get_file_descriptor_proto(), broken])
        .err();

    assert_eq!(
        format!("{err:?}"),
        format!(
            "{:?}",
            Some(PrutoipaBuildError::InvalidData(
                "Unknown syntax: proto4".to_string()
            ))
        )
    );
    let names: Vec<String> = package_set
        .get_packages()
        .into_iter()
        .map(|(name, _)| name)
        .collect();
    assert_eq!(names, vec!["people".to_string()]);
}

#[test]
fn file_without_package_name() {
    let mut file = get_file_descriptor_proto();
    file.package = None;

    let mut package_set = PackageSet::default();
    let err = package_set.register_file_descriptor_set(vec![file]).err();

    assert_eq!(
        format!("{err:?}"),
        format!(
            "{:?}",
            Some(PrutoipaBuildError::InvalidData(
                "Expected package name.".to_string()
            ))
        )
    );
    assert!(package_set.get_packages().is_empty());
}

#[test]
fn descriptor_name_registered_twice() {
    let mut file = get_file_descriptor_proto();
    file.enum_type[0].name = Some("Person".to_string());

    let mut package_set = PackageSet::default();
    let err = package_set.register_file_descriptor_set(vec![file]).err();

    assert_eq!(
        format!("{err:?}"),
        format!(
            "{:?}",
            Some(PrutoipaBuildError::InvalidData(
                "Descriptor 'Person' registered more than once at the same package.".to_string()
            ))
        )
    );
    assert!(package_set.get_packages().is_empty());
}

#[test]
fn package_keeps_descriptors_in_name_order() {
    let mut package = Package::new(&get_file_descriptor_proto()).unwrap();
    for name in ["beta", "alpha", "gamma", "Zeta"] {
        package
            .register_descriptor(
                name.to_string(),
                Descriptor::Enum(prutoipa_build::enum_descriptor::EnumDescriptor::new(vec![])),
            )
            .unwrap();
    }
    let err = package
        .register_descriptor(
            "alpha".to_string(),
            Descriptor::Enum(prutoipa_build::enum_descriptor::EnumDescriptor::new(vec![])),
        )
        .err();
    assert_eq!(
        format!("{err:?}"),
        format!(
            "{:?}",
            Some(PrutoipaBuildError::InvalidData(
                "Descriptor 'alpha' registered more than once at the same package.".to_string()
            ))
        )
    );
    let names: Vec<String> = package
        .get_descriptors()
        .into_iter()
        .map(|(name, _)| name)
        .collect();
    assert_eq!(names, vec!["Zeta", "alpha", "beta", "gamma"]);
}

#[test]
fn enum_values_are_kept_in_declaration_order() {
    let mut package_set = PackageSet::default();
    package_set
        .register_file_descriptor_set(vec![get_file_descriptor_proto()])
        .unwrap();
    let package = find_package(&package_set, "people").unwrap();
    let gender = package
        .get_descriptors()
        .into_iter()
        .find(|(name, _)| name == "GENDER")
        .map(|(_, d)| d)
        .unwrap();
    match gender {
        Descriptor::Enum(e) => {
            let values: Vec<(String, i32)> = e
                .get_values()
                .into_iter()
                .map(|v| (v.name, v.number))
                .collect();
            assert_eq!(values, vec![("MALE".to_string(), 0), ("FEMALE".to_string(), 1)]);
        }
        Descriptor::Message(_) => panic!("GENDER is an enum"),
    }
}

#[test]
fn registry_input_check() {
    assert!(descriptors_are_well_formed(&vec![get_file_descriptor_proto()]));
    let mut file = get_file_descriptor_proto();
    file.message_type[0].field[0].oneof_index = Some(0);
    file.message_type[0].field[0].label = Some(Label::Required as i32);
    assert!(!descriptors_are_well_formed(&vec![get_file_descriptor_proto(), file]));
}

#[test]
fn independent_files_all_register() {
    let mut files = Vec::new();
    for name in ["zoo", "people", "animals"] {
        let mut f = get_file_descriptor_proto();
        f.package = Some(name.to_string());
        files.push(f);
    }
    let mut package_set = PackageSet::default();
    package_set.register_file_descriptor_set(files).unwrap();
    let names: Vec<String> = package_set
        .get_packages()
        .into_iter()
        .map(|(name, _)| name)
        .collect();
    assert_eq!(names, vec!["animals", "people", "zoo"]);
}
