use vstd::prelude::*;

use crate::error::{BuildErrorView, PrutoipaBuildError, view_result};
use crate::text::same_text;

verus! {

/// The protobuf dialect a file was written in.
#[derive(Debug, Clone, Copy, PartialEq, Eq, Structural)]
pub enum Syntax {
    Proto2,
    Proto3,
}

impl View for Syntax {
    type V = Syntax;

    open spec fn view(&self) -> Syntax {
        *self
    }
}

/// The dialect named by a file's declared syntax string: none or `proto2`
/// is proto2, `proto3` is proto3, and anything else is invalid.
pub open spec fn syntax_of(declared: Option<Seq<char>>) -> Result<Syntax, BuildErrorView> {
    match declared {
        None => Ok(Syntax::Proto2),
        Some(s) => if s == "proto2"@ {
            Ok(Syntax::Proto2)
        } else if s == "proto3"@ {
            Ok(Syntax::Proto3)
        } else {
            Err(BuildErrorView::InvalidData("Unknown syntax: "@ + s))
        },
    }
}

impl Syntax {
    pub fn get(syntax: Option<&str>) -> (r: Result<Syntax, PrutoipaBuildError>)
        ensures
            view_result(r) == syntax_of(
                match syntax {
                    Some(s) => Some(s@),
                    None => None,
                },
            ),
            syntax is None ==> r == Ok::<Syntax, PrutoipaBuildError>(Syntax::Proto2),
    {
        match syntax {
            None => Ok(Syntax::Proto2),
            Some(s) => {
                if same_text(s, "proto2") {
                    Ok(Syntax::Proto2)
                } else if same_text(s, "proto3") {
                    Ok(Syntax::Proto3)
                } else {
                    let mut msg = String::from_str("Unknown syntax: ");
                    msg.append(s);
                    Err(PrutoipaBuildError::InvalidData(msg))
                }
            },
        }
    }
}

} // verus!
