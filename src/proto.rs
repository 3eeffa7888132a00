use vstd::prelude::*;

use crate::enum_descriptor::EnumValue;

verus! {

/// A field as a protobuf descriptor declares it, before resolution.
///
/// `proto_type` and `label` hold the wire codes of the descriptor's type and
/// label enumerations.
#[derive(Debug, Clone)]
pub struct FieldProto {
    pub name: Option<String>,
    pub referenced_type: Option<String>,
    pub proto_type: Option<i32>,
    pub label: Option<i32>,
    pub oneof_index: Option<i32>,
    pub proto3_optional: Option<bool>,
}

/// A message type as a protobuf descriptor declares it.
#[derive(Debug, Clone)]
pub struct MessageProto {
    pub name: Option<String>,
    pub field: Vec<FieldProto>,
}

/// An enum type as a protobuf descriptor declares it.
#[derive(Debug, Clone)]
pub struct EnumProto {
    pub name: Option<String>,
    pub value: Vec<EnumValue>,
}

/// A schema file as a protobuf descriptor declares it.
#[derive(Debug, Clone)]
pub struct FileProto {
    pub syntax: Option<String>,
    pub package: Option<String>,
    pub message_type: Vec<MessageProto>,
    pub enum_type: Vec<EnumProto>,
}

/// The wire types of a protobuf field, in the order of their codes.
#[derive(Debug, Clone, Copy, PartialEq, Eq, Structural)]
pub enum ProtoType {
    Double,
    Float,
    Int64,
    Uint64,
    Int32,
    Fixed64,
    Fixed32,
    Bool,
    String,
    Group,
    Message,
    Bytes,
    Uint32,
    Enum,
    Sfixed32,
    Sfixed64,
    Sint32,
    Sint64,
}

/// The wire labels of a protobuf field, in the order of their codes.
#[derive(Debug, Clone, Copy, PartialEq, Eq, Structural)]
pub enum ProtoLabel {
    Optional,
    Required,
    Repeated,
}

/// The wire type with the given code, as numbered in `descriptor.proto`.
pub open spec fn proto_type_of(code: i32) -> Option<ProtoType> {
    if code == 1 {
        Some(ProtoType::Double)
    } else if code == 2 {
        Some(ProtoType::Float)
    } else if code == 3 {
        Some(ProtoType::Int64)
    } else if code == 4 {
        Some(ProtoType::Uint64)
    } else if code == 5 {
        Some(ProtoType::Int32)
    } else if code == 6 {
        Some(ProtoType::Fixed64)
    } else if code == 7 {
        Some(ProtoType::Fixed32)
    } else if code == 8 {
        Some(ProtoType::Bool)
    } else if code == 9 {
        Some(ProtoType::String)
    } else if code == 10 {
        Some(ProtoType::Group)
    } else if code == 11 {
        Some(ProtoType::Message)
    } else if code == 12 {
        Some(ProtoType::Bytes)
    } else if code == 13 {
        Some(ProtoType::Uint32)
    } else if code == 14 {
        Some(ProtoType::Enum)
    } else if code == 15 {
        Some(ProtoType::Sfixed32)
    } else if code == 16 {
        Some(ProtoType::Sfixed64)
    } else if code == 17 {
        Some(ProtoType::Sint32)
    } else if code == 18 {
        Some(ProtoType::Sint64)
    } else {
        None
    }
}

/// The wire label with the given code, as numbered in `descriptor.proto`.
pub open spec fn proto_label_of(code: i32) -> Option<ProtoLabel> {
    if code == 1 {
        Some(ProtoLabel::Optional)
    } else if code == 2 {
        Some(ProtoLabel::Required)
    } else if code == 3 {
        Some(ProtoLabel::Repeated)
    } else {
        None
    }
}

impl ProtoType {
    pub fn from_code(code: i32) -> (r: Option<ProtoType>)
        ensures
            r == proto_type_of(code),
    {
        match code {
            1 => Some(ProtoType::Double),
            2 => Some(ProtoType::Float),
            3 => Some(ProtoType::Int64),
            4 => Some(ProtoType::Uint64),
            5 => Some(ProtoType::Int32),
            6 => Some(ProtoType::Fixed64),
            7 => Some(ProtoType::Fixed32),
            8 => Some(ProtoType::Bool),
            9 => Some(ProtoType::String),
            10 => Some(ProtoType::Group),
            11 => Some(ProtoType::Message),
            12 => Some(ProtoType::Bytes),
            13 => Some(ProtoType::Uint32),
            14 => Some(ProtoType::Enum),
            15 => Some(ProtoType::Sfixed32),
            16 => Some(ProtoType::Sfixed64),
            17 => Some(ProtoType::Sint32),
            18 => Some(ProtoType::Sint64),
            _ => None,
        }
    }
}

impl ProtoLabel {
    pub fn from_code(code: i32) -> (r: Option<ProtoLabel>)
        ensures
            r == proto_label_of(code),
    {
        match code {
            1 => Some(ProtoLabel::Optional),
            2 => Some(ProtoLabel::Required),
            3 => Some(ProtoLabel::Repeated),
            _ => None,
        }
    }
}

} // verus!
