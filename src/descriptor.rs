use vstd::prelude::*;

use crate::enum_descriptor::EnumDescriptor;
use crate::field::FieldView;
use crate::message_descriptor::MessageDescriptor;

verus! {

/// A declared type of a package: a message or an enum.
#[derive(Debug)]
pub enum Descriptor {
    Message(MessageDescriptor),
    Enum(EnumDescriptor),
}

/// A declared type, with a message as its fields and an enum as its
/// (name, number) pairs.
pub enum DescriptorView {
    Message(Seq<FieldView>),
    Enum(Seq<(Seq<char>, i32)>),
}

impl View for Descriptor {
    type V = DescriptorView;

    open spec fn view(&self) -> DescriptorView {
        match self {
            Descriptor::Message(m) => DescriptorView::Message(m@),
            Descriptor::Enum(e) => DescriptorView::Enum(e@),
        }
    }
}

impl Clone for Descriptor {
    fn clone(&self) -> (r: Self)
        ensures
            r@ == self@,
    {
        match self {
            Descriptor::Message(m) => Descriptor::Message(m.clone()),
            Descriptor::Enum(e) => Descriptor::Enum(e.clone()),
        }
    }
}

} // verus!
