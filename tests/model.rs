use webgl_renderer::{Attrib, GlCommand, Model};

#[test]
fn triangle_has_three_vertices() {
    let positions = [-0.7f32, -0.7, 0.0, 0.7, -0.7, 0.0, 0.0, 0.7, 0.0];
    let mut cmds = Vec::new();
    let m = Model::new(1, 2, 3, positions.len(), &mut cmds);
    assert_eq!(m.vert_count, 3);
    assert_eq!(m.vao, 1);
}

#[test]
fn model_records_its_layout() {
    let mut cmds = Vec::new();
    Model::new(1, 2, 3, 9, &mut cmds);
    assert_eq!(
        cmds,
        vec![
            GlCommand::BindVertexArray(Some(1)),
            GlCommand::BindArrayBuffer(Some(2)),
            GlCommand::UploadStatic(Attrib::Position),
            GlCommand::VertexAttribPointer { location: 0, components: 3 },
            GlCommand::EnableVertexAttribArray(0),
            GlCommand::BindArrayBuffer(None),
            GlCommand::BindArrayBuffer(Some(3)),
            GlCommand::UploadStatic(Attrib::Color),
            GlCommand::VertexAttribPointer { location: 1, components: 4 },
            GlCommand::EnableVertexAttribArray(1),
            GlCommand::BindArrayBuffer(None),
            GlCommand::BindVertexArray(None),
        ]
    );
}

#[test]
fn vertex_count_rounds_down() {
    let mut cmds = Vec::new();
    assert_eq!(Model::new(1, 2, 3, 0, &mut cmds).vert_count, 0);
    assert_eq!(Model::new(1, 2, 3, 8, &mut cmds).vert_count, 2);
}

#[test]
fn attribute_layout() {
    assert_eq!(Attrib::Position.location(), 0);
    assert_eq!(Attrib::Position.components(), 3);
    assert_eq!(Attrib::Color.location(), 1);
    assert_eq!(Attrib::Color.components(), 4);
}
