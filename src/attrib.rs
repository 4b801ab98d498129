use vstd::prelude::*;

verus! {

/// The vertex attributes a model feeds to the vertex stage.
#[derive(Clone, Copy, Debug, PartialEq, Eq)]
pub enum Attrib {
    /// Vertex position: three components (x, y, z).
    Position,
    /// Vertex color: four components (r, g, b, a).
    Color,
}

impl Attrib {
    /// The attribute slot this attribute is bound to.
    pub open spec fn spec_location(self) -> u32 {
        match self {
            Attrib::Position => 0,
            Attrib::Color => 1,
        }
    }

    /// How many components make up one vertex's value of this attribute.
    pub open spec fn spec_components(self) -> i32 {
        match self {
            Attrib::Position => 3,
            Attrib::Color => 4,
        }
    }

    pub fn location(&self) -> (r: u32)
        ensures
            r == self.spec_location(),
    {
        match self {
            Attrib::Position => 0,
            Attrib::Color => 1,
        }
    }

    pub fn components(&self) -> (r: i32)
        ensures
            r == self.spec_components(),
    {
        match self {
            Attrib::Position => 3,
            Attrib::Color => 4,
        }
    }
}

} // verus!
