//! Shader programs, as handles.
use super::ProgramID;
use vstd::prelude::*;

verus! {

/// A linked shader program on the GPU.
#[derive(Copy, Clone, Debug, PartialEq, Eq, Structural, PartialOrd, Ord)]
pub struct Program {
    pub id: ProgramID,
}

impl Program {
    /// Wraps the handle of a program that was linked successfully.
    pub fn from_id(id: ProgramID) -> (r: Program)
        ensures
            r.id == id,
    {
        Program { id }
    }

    pub fn id(&self) -> (r: ProgramID)
        ensures
            r == self.id,
    {
        self.id
    }
}

} // verus!
