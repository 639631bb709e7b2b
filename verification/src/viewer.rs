//! Preview pane model: the last shader that validated, and a version counter
//! the GPU layer compares to decide whether its pipeline must be rebuilt.
//! Rendering itself is the GPU layer's work.

use vstd::prelude::*;

verus! {

/// The viewer's state: the last valid fragment shader and how many times the
/// pipeline input has changed.
#[derive(Debug)]
pub struct Viewer {
    pub last_valid_shader: String,
    pub version: usize,
}

impl Viewer {
    /// A viewer showing the given shader, at version 0.
    pub fn new(shader: String) -> (r: Viewer)
        ensures
            r.last_valid_shader == shader,
            r.version == 0,
    {
        Viewer { last_valid_shader: shader, version: 0 }
    }

    /// Takes a newly validated shader: the viewer shows it and bumps the
    /// version so the GPU layer rebuilds its pipeline.
    pub fn update_pipeline(&mut self, shader: String)
        requires
            old(self).version < usize::MAX,
        ensures
            final(self).last_valid_shader == shader,
            final(self).version == old(self).version + 1,
    {
        self.last_valid_shader = shader;
        self.version = self.version + 1;
    }
}

} // verus!
