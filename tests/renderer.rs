use webgl_renderer::color_cycle::FULL;
use webgl_renderer::{GlCommand, RenderError, Renderer};

fn not_found(name: &str) -> RenderError {
    RenderError::NotFound { name: name.to_string() }
}

#[test]
fn init_sets_black_clear_color() {
    let r = Renderer::new();
    let mut cmds = Vec::new();
    r.init(&mut cmds);
    assert_eq!(cmds, vec![GlCommand::ClearColor { red: 0, green: 0, blue: 0, alpha: FULL }]);
}

#[test]
fn load_then_use_activates_program() {
    let mut r = Renderer::new();
    assert_eq!(r.current_shader(), None);
    r.load_shader("basic", 5, &[("u_time", Some(1))]).unwrap();
    let mut cmds = Vec::new();
    assert_eq!(r.use_shader("basic", &mut cmds), Ok(()));
    assert_eq!(cmds, vec![GlCommand::UseProgram(5)]);
    assert_eq!(r.current_shader().map(|s| s.as_str()), Some("basic"));
}

#[test]
fn unknown_uniform_registers_nothing() {
    let mut r = Renderer::new();
    let e = r.load_shader("basic", 5, &[("u_time", Some(1)), ("u_nope", None)]);
    assert_eq!(e, Err(RenderError::UnknownUniform { name: "u_nope".to_string() }));
    let mut cmds = Vec::new();
    assert_eq!(r.use_shader("basic", &mut cmds), Err(not_found("basic")));
    assert!(cmds.is_empty());
    assert_eq!(r.current_shader(), None);
}

#[test]
fn use_unknown_shader_fails() {
    let mut r = Renderer::new();
    r.load_shader("a", 1, &[]).unwrap();
    r.use_shader("a", &mut Vec::new()).unwrap();
    let mut cmds = Vec::new();
    assert_eq!(r.use_shader("b", &mut cmds), Err(not_found("b")));
    assert!(cmds.is_empty());
    assert_eq!(r.current_shader().map(|s| s.as_str()), Some("a"));
}

#[test]
fn render_missing_model_draws_nothing() {
    let mut r = Renderer::new();
    let mut setup = Vec::new();
    r.load_model("known", 1, 2, 3, 9, &mut setup);
    let mut cmds = Vec::new();
    assert_eq!(r.render(&["known", "unknown"], &mut cmds), Err(not_found("unknown")));
    assert_eq!(cmds, vec![GlCommand::Clear]);
}

#[test]
fn render_reports_first_missing_model() {
    let r = Renderer::new();
    let mut cmds = Vec::new();
    assert_eq!(r.render(&["x", "y"], &mut cmds), Err(not_found("x")));
    assert_eq!(cmds, vec![GlCommand::Clear]);
}

#[test]
fn render_draws_in_given_order() {
    let mut r = Renderer::new();
    let mut setup = Vec::new();
    r.load_model("tri", 1, 2, 3, 9, &mut setup);
    r.load_model("quad", 4, 5, 6, 18, &mut setup);
    let mut cmds = Vec::new();
    assert_eq!(r.render(&["quad", "tri", "quad"], &mut cmds), Ok(()));
    assert_eq!(
        cmds,
        vec![
            GlCommand::Clear,
            GlCommand::BindVertexArray(Some(4)),
            GlCommand::DrawTriangles { count: 6 },
            GlCommand::BindVertexArray(Some(1)),
            GlCommand::DrawTriangles { count: 3 },
            GlCommand::BindVertexArray(Some(4)),
            GlCommand::DrawTriangles { count: 6 },
        ]
    );
}

#[test]
fn second_shader_replaces_first() {
    let mut r = Renderer::new();
    r.load_shader("s", 1, &[]).unwrap();
    r.load_shader("s", 2, &[]).unwrap();
    let mut cmds = Vec::new();
    r.use_shader("s", &mut cmds).unwrap();
    assert_eq!(cmds, vec![GlCommand::UseProgram(2)]);
}

#[test]
fn second_model_replaces_first() {
    let mut r = Renderer::new();
    let mut setup = Vec::new();
    r.load_model("m", 1, 2, 3, 9, &mut setup);
    r.load_model("m", 7, 8, 9, 6, &mut setup);
    let mut cmds = Vec::new();
    r.render(&["m"], &mut cmds).unwrap();
    assert_eq!(
        cmds,
        vec![
            GlCommand::Clear,
            GlCommand::BindVertexArray(Some(7)),
            GlCommand::DrawTriangles { count: 2 },
        ]
    );
}

#[test]
fn render_nothing_only_clears() {
    let r = Renderer::new();
    let mut cmds = Vec::new();
    assert_eq!(r.render(&[], &mut cmds), Ok(()));
    assert_eq!(cmds, vec![GlCommand::Clear]);
    assert_eq!(r.render(&[], &mut cmds), Ok(()));
    assert_eq!(cmds, vec![GlCommand::Clear, GlCommand::Clear]);
}
