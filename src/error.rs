use vstd::prelude::*;

verus! {

/// What can go wrong when resources are built or used.
#[derive(Debug, PartialEq, Eq)]
pub enum RenderError {
    /// The context could not allocate a shader, program, buffer or vertex array.
    ResourceCreation,
    /// A shader stage did not compile; the platform's diagnostic log.
    Compile { log: String },
    /// A program did not link; the platform's diagnostic log.
    Link { log: String },
    /// A requested uniform does not exist in the linked program.
    UnknownUniform { name: String },
    /// No shader or model is registered under this name.
    NotFound { name: String },
}

} // verus!
