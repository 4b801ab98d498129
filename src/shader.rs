use vstd::prelude::*;

use crate::error::RenderError;
use crate::registry::Registry;

verus! {

/// A linked program and the locations of the uniforms asked for by name.
pub struct Shader {
    pub program: u32,
    pub uniforms: Registry<u32>,
}

/// What a shader is, mathematically.
pub struct ShaderView {
    pub program: u32,
    pub uniforms: Map<Seq<char>, u32>,
}

impl View for Shader {
    type V = ShaderView;

    open spec fn view(&self) -> ShaderView {
        ShaderView { program: self.program, uniforms: self.uniforms@ }
    }
}

/// The uniform requested at `i` has no location in the linked program.
pub open spec fn unresolved_at(resolved: Seq<(&str, Option<u32>)>, i: int) -> bool {
    0 <= i < resolved.len() && resolved[i].1 is None
}

/// Every requested uniform has a location.
pub open spec fn all_resolved(resolved: Seq<(&str, Option<u32>)>) -> bool {
    forall|i: int| 0 <= i < resolved.len() ==> !unresolved_at(resolved, i)
}

/// The uniform requested at `i` is the first one without a location.
pub open spec fn first_unresolved(resolved: Seq<(&str, Option<u32>)>, i: int) -> bool {
    unresolved_at(resolved, i) && forall|k: int| 0 <= k < i ==> !unresolved_at(resolved, k)
}

/// The location of each requested uniform; a name asked for twice keeps its
/// last answer.
pub open spec fn uniform_map(resolved: Seq<(&str, Option<u32>)>) -> Map<Seq<char>, u32>
    decreases resolved.len(),
{
    if resolved.len() == 0 {
        Map::empty()
    } else {
        uniform_map(resolved.drop_last()).insert(
            resolved.last().0@,
            resolved.last().1->Some_0,
        )
    }
}

/// The error a failed stage compilation gives: the platform's log, or a
/// message of its own where the platform gave none.
pub open spec fn compile_error_log(log: Option<String>, default: Seq<char>) -> Seq<char> {
    match log {
        Some(l) => l@,
        None => default,
    }
}

impl Shader {
    pub open spec fn wf(&self) -> bool {
        self.uniforms.wf()
    }

    /// Builds a shader from a linked program and, for each uniform it was asked
    /// for, the location the program gave that name (`None` where it has none).
    /// Fails with `UnknownUniform` on the first name without a location.
    pub fn new(program: u32, resolved: &[(&str, Option<u32>)]) -> (r: Result<Shader, RenderError>)
        ensures
            match r {
                Ok(s) => {
                    &&& all_resolved(resolved@)
                    &&& s.wf()
                    &&& s@ == (ShaderView { program, uniforms: uniform_map(resolved@) })
                },
                Err(e) => exists|i: int|
                    first_unresolved(resolved@, i) && match e {
                        RenderError::UnknownUniform { name } => name@ == resolved@[i].0@,
                        _ => false,
                    },
            },
    {
        let mut locs: Registry<u32> = Registry::new();
        let mut i: usize = 0;
        while i < resolved.len()
            invariant
                i <= resolved@.len(),
                locs.wf(),
                locs@ == uniform_map(resolved@.subrange(0, i as int)),
                forall|k: int| 0 <= k < i ==> !unresolved_at(resolved@, k),
            decreases resolved@.len() - i,
        {
            let (name, loc) = resolved[i];
            match loc {
                None => {
                    let e = RenderError::UnknownUniform { name: String::from_str(name) };
                    assert(first_unresolved(resolved@, i as int));
                    return Err(e);
                },
                Some(l) => {
                    locs.insert(name, l);
                    assert(resolved@.subrange(0, i + 1).drop_last() =~= resolved@.subrange(
                        0,
                        i as int,
                    ));
                },
            }
            i += 1;
        }
        assert(resolved@.subrange(0, i as int) =~= resolved@);
        Ok(Shader { program, uniforms: locs })
    }

    /// The location of the uniform `name`, if it was asked for.
    pub fn uniform(&self, name: &str) -> (r: Option<u32>)
        requires
            self.wf(),
        ensures
            r == (if self@.uniforms.contains_key(name@) {
                Some(self@.uniforms[name@])
            } else {
                None::<u32>
            }),
    {
        match self.uniforms.get(name) {
            Some(l) => Some(*l),
            None => None,
        }
    }
}

/// Decides a stage compilation from the status the context reported and its
/// diagnostic log.
pub fn check_compile(compiled: bool, log: Option<String>) -> (r: Result<(), RenderError>)
    ensures
        compiled <==> r is Ok,
        !compiled ==> match r {
            Err(RenderError::Compile { log: l }) => l@ == compile_error_log(
                log,
                "Unknown error creating shader"@,
            ),
            _ => false,
        },
{
    if compiled {
        Ok(())
    } else {
        let l = match log {
            Some(l) => l,
            None => String::from_str("Unknown error creating shader"),
        };
        Err(RenderError::Compile { log: l })
    }
}

/// Decides a program link from the status the context reported and its
/// diagnostic log.
pub fn check_link(linked: bool, log: Option<String>) -> (r: Result<(), RenderError>)
    ensures
        linked <==> r is Ok,
        !linked ==> match r {
            Err(RenderError::Link { log: l }) => l@ == compile_error_log(
                log,
                "Unknown error creating program object"@,
            ),
            _ => false,
        },
{
    if linked {
        Ok(())
    } else {
        let l = match log {
            Some(l) => l,
            None => String::from_str("Unknown error creating program object"),
        };
        Err(RenderError::Link { log: l })
    }
}

} // verus!
