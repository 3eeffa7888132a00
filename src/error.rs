use vstd::prelude::*;

verus! {

/// The decoding error reported by prost for malformed descriptor bytes.
#[verifier::external_type_specification]
#[verifier::external_body]
pub struct ExDecodeError(prost::DecodeError);

/// Everything that can go wrong while resolving or emitting a schema.
#[derive(Debug)]
pub enum PrutoipaBuildError {
    NotImplementedYet(String),
    OutputDirNotSet,
    InvalidData(String),
    InvalidDescriptorSet(prost::DecodeError),
}

/// What an error says, with its text as a character sequence.
pub enum BuildErrorView {
    NotImplementedYet(Seq<char>),
    OutputDirNotSet,
    InvalidData(Seq<char>),
    InvalidDescriptorSet,
}

impl View for PrutoipaBuildError {
    type V = BuildErrorView;

    open spec fn view(&self) -> BuildErrorView {
        match self {
            PrutoipaBuildError::NotImplementedYet(s) => BuildErrorView::NotImplementedYet(s@),
            PrutoipaBuildError::OutputDirNotSet => BuildErrorView::OutputDirNotSet,
            PrutoipaBuildError::InvalidData(s) => BuildErrorView::InvalidData(s@),
            PrutoipaBuildError::InvalidDescriptorSet(_) => BuildErrorView::InvalidDescriptorSet,
        }
    }
}

/// The abstract outcome of a fallible computation.
pub open spec fn view_result<T: View>(r: Result<T, PrutoipaBuildError>) -> Result<
    T::V,
    BuildErrorView,
> {
    match r {
        Ok(v) => Ok(v@),
        Err(e) => Err(e@),
    }
}

/// The abstract outcome of a fallible computation that returns nothing.
pub open spec fn unit_result(r: Result<(), PrutoipaBuildError>) -> Result<(), BuildErrorView> {
    match r {
        Ok(_) => Ok(()),
        Err(e) => Err(e@),
    }
}

/// Builds an invalid-data error from a message literal.
pub fn invalid_data(msg: &str) -> (e: PrutoipaBuildError)
    ensures
        e@ == BuildErrorView::InvalidData(msg@),
{
    PrutoipaBuildError::InvalidData(String::from_str(msg))
}

} // verus!
