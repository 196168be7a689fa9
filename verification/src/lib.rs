//! A 16-bit teaching machine: its instruction set, a two-pass assembler that
//! produces a 4 KiB image, and a step-wise executor for that image.

pub mod compiler;
pub mod compiler_laws;
pub mod executor;
pub mod highlighting;
pub mod instruction_set;
pub mod tables;
pub mod text;

use crate::compiler::CompilationError;
use crate::executor::RuntimeError;
use vstd::prelude::*;
use vstd::string::StringExecFns;

verus! {

/// What the user is to be told of: the first diagnostic of a compilation,
/// the failure of a step, or nothing.
pub enum ErrorPopupInfo {
    CompilationError(CompilationError),
    RuntimeError(RuntimeError),
    Nothing,
}

impl ErrorPopupInfo {
    /// The title under which the message is shown.
    pub open spec fn title(&self) -> Seq<char> {
        match self {
            ErrorPopupInfo::CompilationError(_) => "Compilation error"@,
            ErrorPopupInfo::RuntimeError(_) => "Runtime error"@,
            ErrorPopupInfo::Nothing => Seq::empty(),
        }
    }

    /// The sentence that is shown.
    pub open spec fn text(&self) -> Seq<char> {
        match self {
            ErrorPopupInfo::CompilationError(error) => error@.message(),
            ErrorPopupInfo::RuntimeError(error) => error.message(),
            ErrorPopupInfo::Nothing => Seq::empty(),
        }
    }

    /// Title and sentence of what is to be shown, if anything is.
    pub fn message(&self) -> (shown: Option<(String, String)>)
        ensures
            shown is None == self is Nothing,
            shown is Some ==> shown->Some_0.0@ == self.title() && shown->Some_0.1@ == self.text(),
    {
        match self {
            ErrorPopupInfo::Nothing => None,
            ErrorPopupInfo::CompilationError(error) => Some(
                (String::from_str("Compilation error"), error.to_string()),
            ),
            ErrorPopupInfo::RuntimeError(error) => Some(
                (String::from_str("Runtime error"), error.to_string()),
            ),
        }
    }
}

} // verus!
