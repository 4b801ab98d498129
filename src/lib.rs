// A small renderer core: named registries of shaders and models, the
// decisions of each frame as a list of graphics commands, and the color
// cycle that animates the demo's triangle.

use vstd::prelude::*;

pub mod attrib;
pub mod color_cycle;
pub mod command;
pub mod error;
pub mod model;
pub mod registry;
pub mod renderer;
pub mod shader;

pub use attrib::Attrib;
pub use command::GlCommand;
pub use error::RenderError;
pub use model::Model;
pub use registry::Registry;
pub use renderer::Renderer;
pub use shader::Shader;
