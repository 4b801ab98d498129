use vstd::prelude::*;

use crate::attrib::Attrib;
use crate::command::GlCommand;

verus! {

/// A drawable shape: its vertex array and how many vertices it holds.
#[derive(Clone, Copy, Debug, PartialEq, Eq)]
pub struct Model {
    pub vao: u32,
    pub vert_count: i32,
}

/// What fills one attribute from a buffer: bind it, upload the attribute's
/// data once, describe its layout on the attribute's slot, enable the slot,
/// and unbind the buffer.
pub open spec fn attrib_buffer_commands(buffer: u32, attrib: Attrib) -> Seq<GlCommand> {
    seq![
        GlCommand::BindArrayBuffer(Some(buffer)),
        GlCommand::UploadStatic(attrib),
        GlCommand::VertexAttribPointer {
            location: attrib.spec_location(),
            components: attrib.spec_components(),
        },
        GlCommand::EnableVertexAttribArray(attrib.spec_location()),
        GlCommand::BindArrayBuffer(None),
    ]
}

/// What records a model's layout into its vertex array: positions from one
/// buffer, colors from another, with the vertex array bound around both.
pub open spec fn model_setup_commands(vao: u32, position_buffer: u32, color_buffer: u32) -> Seq<
    GlCommand,
> {
    seq![GlCommand::BindVertexArray(Some(vao))] + attrib_buffer_commands(
        position_buffer,
        Attrib::Position,
    ) + attrib_buffer_commands(color_buffer, Attrib::Color) + seq![
        GlCommand::BindVertexArray(None),
    ]
}

fn bind_attrib_buffer(buffer: u32, attrib: Attrib, cmds: &mut Vec<GlCommand>)
    ensures
        final(cmds)@ == old(cmds)@ + attrib_buffer_commands(buffer, attrib),
{
    let location = attrib.location();
    cmds.push(GlCommand::BindArrayBuffer(Some(buffer)));
    cmds.push(GlCommand::UploadStatic(attrib));
    cmds.push(GlCommand::VertexAttribPointer { location, components: attrib.components() });
    cmds.push(GlCommand::EnableVertexAttribArray(location));
    cmds.push(GlCommand::BindArrayBuffer(None));
    assert(cmds@ =~= old(cmds)@ + attrib_buffer_commands(buffer, attrib));
}

impl Model {
    /// Lays out a model in the vertex array `vao`, with its positions
    /// (`position_len` floats, three per vertex) in `position_buffer` and its
    /// colors (four floats per vertex) in `color_buffer`. The vertex count
    /// comes from the positions alone.
    pub fn new(
        vao: u32,
        position_buffer: u32,
        color_buffer: u32,
        position_len: usize,
        cmds: &mut Vec<GlCommand>,
    ) -> (m: Model)
        requires
            position_len <= i32::MAX,
        ensures
            m.vao == vao,
            m.vert_count == position_len / 3,
            final(cmds)@ == old(cmds)@ + model_setup_commands(vao, position_buffer, color_buffer),
    {
        cmds.push(GlCommand::BindVertexArray(Some(vao)));
        bind_attrib_buffer(position_buffer, Attrib::Position, cmds);
        bind_attrib_buffer(color_buffer, Attrib::Color, cmds);
        cmds.push(GlCommand::BindVertexArray(None));
        assert(cmds@ =~= old(cmds)@ + model_setup_commands(vao, position_buffer, color_buffer));
        Model { vao, vert_count: position_len as i32 / 3 }
    }
}

} // verus!
