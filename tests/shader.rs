use webgl_renderer::shader::{check_compile, check_link};
use webgl_renderer::{RenderError, Shader};

#[test]
fn shader_keeps_uniform_locations() {
    let s = Shader::new(4, &[("u_time", Some(10)), ("u_scale", Some(11))]).unwrap();
    assert_eq!(s.program, 4);
    assert_eq!(s.uniform("u_time"), Some(10));
    assert_eq!(s.uniform("u_scale"), Some(11));
    assert_eq!(s.uniform("u_other"), None);
}

#[test]
fn shader_without_uniforms() {
    let s = Shader::new(9, &[]).unwrap();
    assert_eq!(s.program, 9);
    assert_eq!(s.uniform("u_time"), None);
}

#[test]
fn shader_reports_first_unknown_uniform() {
    let r = Shader::new(4, &[("u_time", Some(10)), ("u_missing", None), ("u_gone", None)]);
    match r {
        Err(e) => assert_eq!(e, RenderError::UnknownUniform { name: "u_missing".to_string() }),
        Ok(_) => panic!("an unknown uniform must fail"),
    }
}

#[test]
fn compile_status_decides() {
    assert_eq!(check_compile(true, None), Ok(()));
    assert_eq!(
        check_compile(false, Some("0:1: syntax error".to_string())),
        Err(RenderError::Compile { log: "0:1: syntax error".to_string() })
    );
    assert_eq!(
        check_compile(false, None),
        Err(RenderError::Compile { log: "Unknown error creating shader".to_string() })
    );
}

#[test]
fn link_status_decides() {
    assert_eq!(check_link(true, Some("warnings".to_string())), Ok(()));
    assert_eq!(
        check_link(false, Some("varying mismatch".to_string())),
        Err(RenderError::Link { log: "varying mismatch".to_string() })
    );
    assert_eq!(
        check_link(false, None),
        Err(RenderError::Link { log: "Unknown error creating program object".to_string() })
    );
}
