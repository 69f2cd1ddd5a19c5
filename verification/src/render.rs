//! Draw-list bookkeeping: culling statistics and positions in a draw list.

use vstd::prelude::*;

verus! {

/// Statistics of viewport culling.
#[derive(Debug, Clone, Copy, PartialEq, Eq, Structural)]
pub struct CullingStats {
    /// Draw calls culled (not rendered)
    pub culled_count: usize,
    /// Draw calls rendered
    pub rendered_count: usize,
}

impl Default for CullingStats {
    fn default() -> (s: Self)
        ensures
            s.culled_count == 0 && s.rendered_count == 0,
    {
        CullingStats { culled_count: 0, rendered_count: 0 }
    }
}

impl CullingStats {
    /// Number of draw calls attempted.
    pub fn total_count(&self) -> (n: usize)
        requires
            self.culled_count + self.rendered_count <= usize::MAX,
        ensures
            n == self.culled_count + self.rendered_count,
    {
        self.culled_count + self.rendered_count
    }

    /// Reset both counts.
    pub fn reset(&mut self)
        ensures
            final(self).culled_count == 0 && final(self).rendered_count == 0,
    {
        self.culled_count = 0;
        self.rendered_count = 0;
    }
}

/// A position in a draw list.
#[derive(Debug, Clone, Copy, PartialEq, Eq, Structural)]
pub struct DrawListPos(pub usize);

impl DrawListPos {
    /// The index position.
    pub fn index(&self) -> (r: usize)
        ensures
            r == self.0,
    {
        self.0
    }
}

} // verus!
