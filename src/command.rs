use vstd::prelude::*;

use crate::attrib::Attrib;

verus! {

/// One call the library asks the graphics context to make. Programs, vertex
/// arrays and buffers are named by the numbers the host gave them when it
/// created them; colors are in ten-thousandths of full intensity.
#[derive(Clone, Copy, Debug, PartialEq, Eq)]
pub enum GlCommand {
    /// Set the color that `Clear` fills the surface with.
    ClearColor { red: i32, green: i32, blue: i32, alpha: i32 },
    /// Clear the color buffer.
    Clear,
    /// Make a linked program the active one.
    UseProgram(u32),
    /// Bind a vertex array, or unbind it with `None`.
    BindVertexArray(Option<u32>),
    /// Bind an array buffer, or unbind it with `None`.
    BindArrayBuffer(Option<u32>),
    /// Upload the model's data for an attribute, once, into the bound array buffer.
    UploadStatic(Attrib),
    /// Describe the bound buffer's layout for an attribute slot: tightly packed
    /// floats, `components` per vertex.
    VertexAttribPointer { location: u32, components: i32 },
    /// Enable an attribute slot for drawing.
    EnableVertexAttribArray(u32),
    /// Draw `count` vertices of the bound vertex array as a list of triangles.
    DrawTriangles { count: i32 },
}

/// The program that a context is left using after it ran `cmds`, starting with
/// `start`.
pub open spec fn active_program(start: Option<u32>, cmds: Seq<GlCommand>) -> Option<u32>
    decreases cmds.len(),
{
    if cmds.len() == 0 {
        start
    } else {
        match cmds.last() {
            GlCommand::UseProgram(p) => Some(p),
            _ => active_program(start, cmds.drop_last()),
        }
    }
}

/// How many of `cmds` are draw calls.
pub open spec fn draw_count(cmds: Seq<GlCommand>) -> nat
    decreases cmds.len(),
{
    if cmds.len() == 0 {
        0
    } else {
        draw_count(cmds.drop_last()) + match cmds.last() {
            GlCommand::DrawTriangles { .. } => 1nat,
            _ => 0nat,
        }
    }
}

} // verus!
