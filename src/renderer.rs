use vstd::prelude::*;

use crate::color_cycle::FULL;
use crate::command::{active_program, draw_count, GlCommand};
use crate::error::RenderError;
use crate::model::{model_setup_commands, Model};
use crate::registry::Registry;
use crate::shader::{all_resolved, first_unresolved, uniform_map, Shader, ShaderView};

verus! {

/// Registries of shaders and models by name, the shader last made active, and
/// the decisions of each frame. What the context has to do comes out as
/// `GlCommand`s appended to a command list.
pub struct Renderer {
    shaders: Registry<Shader>,
    current_shader: Option<String>,
    models: Registry<Model>,
}

/// What a renderer is, mathematically.
pub struct RendererView {
    pub shaders: Map<Seq<char>, ShaderView>,
    pub current_shader: Option<Seq<char>>,
    pub models: Map<Seq<char>, Model>,
}

impl RendererView {
    /// `shader` registered under `name`, replacing any shader there.
    pub open spec fn with_shader(self, name: Seq<char>, shader: ShaderView) -> RendererView {
        RendererView { shaders: self.shaders.insert(name, shader), ..self }
    }

    /// `model` registered under `name`, replacing any model there.
    pub open spec fn with_model(self, name: Seq<char>, model: Model) -> RendererView {
        RendererView { models: self.models.insert(name, model), ..self }
    }

    /// The shader `name` recorded as the current one.
    pub open spec fn using(self, name: Seq<char>) -> RendererView {
        RendererView { current_shader: Some(name), ..self }
    }
}

/// The names of a list of string slices.
pub open spec fn names_of(names: Seq<&str>) -> Seq<Seq<char>> {
    names.map_values(|s: &str| s@)
}

/// Every name in `names` has a model.
pub open spec fn all_present(models: Map<Seq<char>, Model>, names: Seq<Seq<char>>) -> bool {
    forall|i: int| 0 <= i < names.len() ==> models.contains_key(#[trigger] names[i])
}

/// `names[i]` is the first name without a model.
pub open spec fn first_missing(models: Map<Seq<char>, Model>, names: Seq<Seq<char>>, i: int) -> bool {
    &&& 0 <= i < names.len()
    &&& !models.contains_key(names[i])
    &&& forall|k: int| 0 <= k < i ==> models.contains_key(#[trigger] names[k])
}

/// The draw calls for `names`, in order: bind each model's vertex array and
/// draw its vertices as triangles.
pub open spec fn draws(models: Map<Seq<char>, Model>, names: Seq<Seq<char>>) -> Seq<GlCommand>
    decreases names.len(),
{
    if names.len() == 0 {
        seq![]
    } else {
        let m = models[names.last()];
        draws(models, names.drop_last()) + seq![
            GlCommand::BindVertexArray(Some(m.vao)),
            GlCommand::DrawTriangles { count: m.vert_count },
        ]
    }
}

impl View for Renderer {
    type V = RendererView;

    closed spec fn view(&self) -> RendererView {
        RendererView {
            shaders: self.shaders@.map_values(|s: Shader| s@),
            current_shader: match self.current_shader {
                Some(s) => Some(s@),
                None => None,
            },
            models: self.models@,
        }
    }
}

impl Renderer {
    /// The registries are well formed.
    pub closed spec fn wf(&self) -> bool {
        &&& self.shaders.wf()
        &&& self.models.wf()
        &&& forall|n: Seq<char>| #[trigger] self.shaders@.contains_key(n) ==> self.shaders@[n].wf()
    }

    /// A renderer with no shaders, no models and no current shader.
    pub fn new() -> (r: Renderer)
        ensures
            r.wf(),
            r@.shaders == Map::<Seq<char>, ShaderView>::empty(),
            r@.models == Map::<Seq<char>, Model>::empty(),
            r@.current_shader is None,
    {
        let r = Renderer { shaders: Registry::new(), current_shader: None, models: Registry::new() };
        assert(r@.shaders =~= Map::<Seq<char>, ShaderView>::empty());
        r
    }

    /// Sets the clear color to opaque black.
    pub fn init(&self, cmds: &mut Vec<GlCommand>)
        ensures
            final(cmds)@ == old(cmds)@.push(
                GlCommand::ClearColor { red: 0, green: 0, blue: 0, alpha: FULL },
            ),
    {
        cmds.push(GlCommand::ClearColor { red: 0, green: 0, blue: 0, alpha: FULL });
    }

    /// Registers under `name` the shader of the linked `program`, with the
    /// location the program gave each requested uniform (`None` where it has
    /// none). On a uniform without a location nothing is registered.
    pub fn load_shader(&mut self, name: &str, program: u32, resolved: &[(&str, Option<u32>)]) -> (r:
        Result<(), RenderError>)
        requires
            old(self).wf(),
        ensures
            final(self).wf(),
            match r {
                Ok(()) => {
                    &&& all_resolved(resolved@)
                    &&& final(self)@ == old(self)@.with_shader(
                        name@,
                        ShaderView { program, uniforms: uniform_map(resolved@) },
                    )
                },
                Err(e) => {
                    &&& final(self)@ == old(self)@
                    &&& exists|i: int|
                        first_unresolved(resolved@, i) && match e {
                            RenderError::UnknownUniform { name: u } => u@ == resolved@[i].0@,
                            _ => false,
                        }
                },
            },
    {
        let shader = Shader::new(program, resolved)?;
        let ghost sv = shader@;
        self.shaders.insert(name, shader);
        assert(self@.shaders =~= old(self)@.shaders.insert(name@, sv));
        Ok(())
    }

    /// Registers under `name` the model laid out in `vao`, with its positions
    /// (`position_len` floats) in `position_buffer` and its colors in
    /// `color_buffer`, replacing any model there.
    pub fn load_model(
        &mut self,
        name: &str,
        vao: u32,
        position_buffer: u32,
        color_buffer: u32,
        position_len: usize,
        cmds: &mut Vec<GlCommand>,
    )
        requires
            old(self).wf(),
            position_len <= i32::MAX,
        ensures
            final(self).wf(),
            final(self)@ == old(self)@.with_model(
                name@,
                Model { vao, vert_count: (position_len / 3) as i32 },
            ),
            final(cmds)@ == old(cmds)@ + model_setup_commands(vao, position_buffer, color_buffer),
    {
        let model = Model::new(vao, position_buffer, color_buffer, position_len, cmds);
        self.models.insert(name, model);
        assert(self@.shaders =~= old(self)@.shaders);
    }

    fn get_shader(&self, name: &str) -> (r: Result<&Shader, RenderError>)
        requires
            self.wf(),
        ensures
            match r {
                Ok(s) => self@.shaders.contains_key(name@) && s@ == self@.shaders[name@],
                Err(e) => !self@.shaders.contains_key(name@) && e == (RenderError::NotFound {
                    name: e->NotFound_name,
                }) && e->NotFound_name@ == name@,
            },
    {
        match self.shaders.get(name) {
            Some(s) => Ok(s),
            None => Err(RenderError::NotFound { name: String::from_str(name) }),
        }
    }

    /// Makes the shader `name` the active one and records it as current.
    pub fn use_shader(&mut self, name: &str, cmds: &mut Vec<GlCommand>) -> (r: Result<(), RenderError>)
        requires
            old(self).wf(),
        ensures
            final(self).wf(),
            old(self)@.shaders.contains_key(name@) ==> {
                &&& r is Ok
                &&& final(self)@ == old(self)@.using(name@)
                &&& final(cmds)@ == old(cmds)@.push(
                    GlCommand::UseProgram(old(self)@.shaders[name@].program),
                )
            },
            !old(self)@.shaders.contains_key(name@) ==> {
                &&& final(self)@ == old(self)@
                &&& final(cmds)@ == old(cmds)@
                &&& match r {
                    Err(RenderError::NotFound { name: n }) => n@ == name@,
                    _ => false,
                }
            },
    {
        let shader = self.get_shader(name)?;
        cmds.push(GlCommand::UseProgram(shader.program));
        self.current_shader = Some(String::from_str(name));
        assert(self@.shaders =~= old(self)@.shaders);
        Ok(())
    }

    /// The name of the shader last made active, if any.
    pub fn current_shader(&self) -> (r: Option<&String>)
        ensures
            match r {
                Some(s) => self@.current_shader == Some(s@),
                None => self@.current_shader is None,
            },
    {
        match &self.current_shader {
            Some(s) => Some(s),
            None => None,
        }
    }

    /// Clears the surface, then draws the models `names` in the order given.
    /// If one of them has no model, no model is drawn and the first such name
    /// is reported.
    pub fn render(&self, names: &[&str], cmds: &mut Vec<GlCommand>) -> (r: Result<(), RenderError>)
        requires
            self.wf(),
        ensures
            all_present(self@.models, names_of(names@)) ==> {
                &&& r is Ok
                &&& final(cmds)@ == old(cmds)@.push(GlCommand::Clear) + draws(
                    self@.models,
                    names_of(names@),
                )
            },
            !all_present(self@.models, names_of(names@)) ==> {
                &&& final(cmds)@ == old(cmds)@.push(GlCommand::Clear)
                &&& exists|i: int|
                    first_missing(self@.models, names_of(names@), i) && match r {
                        Err(RenderError::NotFound { name: n }) => n@ == names@[i]@,
                        _ => false,
                    }
            },
    {
        let ghost ns = names_of(names@);
        let ghost models = self@.models;
        cmds.push(GlCommand::Clear);
        let ghost cleared = cmds@;
        let mut found: Vec<Model> = Vec::new();
        let mut i: usize = 0;
        while i < names.len()
            invariant
                self.wf(),
                ns == names_of(names@),
                models == self@.models,
                i <= names@.len(),
                found@.len() == i,
                cleared == old(cmds)@.push(GlCommand::Clear),
                cmds@ == cleared,
                forall|k: int|
                    0 <= k < i ==> models.contains_key(#[trigger] ns[k]) && found@[k] == models[ns[k]],
            decreases names@.len() - i,
        {
            match self.models.get(names[i]) {
                Some(m) => {
                    found.push(*m);
                },
                None => {
                    let missing = String::from_str(names[i]);
                    assert(first_missing(models, ns, i as int));
                    let r: Result<(), RenderError> = Err(RenderError::NotFound { name: missing });
                    assert(first_missing(self@.models, names_of(names@), i as int) && match r {
                        Err(RenderError::NotFound { name: n }) => n@ == names@[i as int]@,
                        _ => false,
                    });
                    return r;
                },
            }
            i += 1;
        }
        let mut k: usize = 0;
        while k < found.len()
            invariant
                ns == names_of(names@),
                found@.len() == ns.len(),
                k <= found@.len(),
                forall|j: int|
                    0 <= j < ns.len() ==> models.contains_key(#[trigger] ns[j]) && found@[j]
                        == models[ns[j]],
                cmds@ == cleared + draws(models, ns.subrange(0, k as int)),
            decreases found@.len() - k,
        {
            let m = found[k];
            cmds.push(GlCommand::BindVertexArray(Some(m.vao)));
            cmds.push(GlCommand::DrawTriangles { count: m.vert_count });
            assert(ns.subrange(0, k + 1).drop_last() =~= ns.subrange(0, k as int));
            assert(cmds@ =~= cleared + draws(models, ns.subrange(0, k + 1)));
            k += 1;
        }
        assert(ns.subrange(0, k as int) =~= ns);
        Ok(())
    }
}

/// Loading a shader and then using it leaves the context using the program
/// that was loaded, with the shader's name as the current one.
pub proof fn lemma_load_then_use(
    r: RendererView,
    name: Seq<char>,
    program: u32,
    resolved: Seq<(&str, Option<u32>)>,
    start: Option<u32>,
    cmds: Seq<GlCommand>,
)
    requires
        all_resolved(resolved),
    ensures
        ({
            let loaded = r.with_shader(name, ShaderView { program, uniforms: uniform_map(resolved) });
            &&& loaded.shaders.contains_key(name)
            &&& active_program(
                start,
                cmds.push(GlCommand::UseProgram(loaded.shaders[name].program)),
            ) == Some(program)
            &&& loaded.using(name).current_shader == Some(name)
        }),
{
    let loaded = r.with_shader(name, ShaderView { program, uniforms: uniform_map(resolved) });
    let after = cmds.push(GlCommand::UseProgram(loaded.shaders[name].program));
    assert(after.last() == GlCommand::UseProgram(program));
}

/// Registering a second shader under a name leaves the registry as if only the
/// second had been registered: the second is what using the name finds.
pub proof fn lemma_second_shader_wins(r: RendererView, name: Seq<char>, first: ShaderView, second: ShaderView)
    ensures
        r.with_shader(name, first).with_shader(name, second) == r.with_shader(name, second),
        r.with_shader(name, first).with_shader(name, second).shaders[name] == second,
{
    assert(r.with_shader(name, first).with_shader(name, second).shaders =~= r.with_shader(
        name,
        second,
    ).shaders);
}

/// Registering a second model under a name leaves the registry as if only the
/// second had been registered: rendering draws the second.
pub proof fn lemma_second_model_wins(
    r: RendererView,
    name: Seq<char>,
    first: Model,
    second: Model,
    names: Seq<Seq<char>>,
)
    ensures
        r.with_model(name, first).with_model(name, second) == r.with_model(name, second),
        draws(r.with_model(name, first).with_model(name, second).models, names) == draws(
            r.with_model(name, second).models,
            names,
        ),
{
    assert(r.with_model(name, first).with_model(name, second).models =~= r.with_model(
        name,
        second,
    ).models);
}

/// Rendering a list that names a missing model draws nothing: the only
/// command it adds is the clear.
pub proof fn lemma_missing_model_draws_nothing(
    models: Map<Seq<char>, Model>,
    names: Seq<Seq<char>>,
    i: int,
    cmds: Seq<GlCommand>,
)
    requires
        0 <= i < names.len(),
        !models.contains_key(names[i]),
    ensures
        !all_present(models, names),
        draw_count(cmds.push(GlCommand::Clear)) == draw_count(cmds),
{
    assert(cmds.push(GlCommand::Clear).drop_last() =~= cmds);
}

/// Rendering the empty list succeeds with a clear and no draw call.
pub proof fn lemma_render_nothing(models: Map<Seq<char>, Model>, cmds: Seq<GlCommand>)
    ensures
        all_present(models, seq![]),
        cmds.push(GlCommand::Clear) + draws(models, seq![]) == cmds.push(GlCommand::Clear),
        draw_count(cmds.push(GlCommand::Clear) + draws(models, seq![])) == draw_count(cmds),
{
    assert(cmds.push(GlCommand::Clear) + draws(models, seq![]) =~= cmds.push(GlCommand::Clear));
    assert(cmds.push(GlCommand::Clear).drop_last() =~= cmds);
}

} // verus!
