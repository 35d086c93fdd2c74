use vstd::prelude::*;

pub mod registers_2d;
pub mod renderer_2d;
pub mod renderer_regs_2d;
pub mod renderer_soft_2d;


verus! {

/// One of the two 2D engines: A drives the main screen, B the sub screen.
#[derive(Clone, Copy, Debug, PartialEq, Eq, Structural)]
pub enum Gpu2DEngine {
    A,
    B,
}

impl Gpu2DEngine {
    /// Position of the engine in per-engine pairs.
    pub open spec fn spec_index(self) -> int {
        match self {
            Gpu2DEngine::A => 0,
            Gpu2DEngine::B => 1,
        }
    }

    /// Position of the engine in per-engine pairs.
    pub fn index(&self) -> (r: usize)
        ensures
            r == self.spec_index(),
    {
        match self {
            Gpu2DEngine::A => 0,
            Gpu2DEngine::B => 1,
        }
    }
}

impl Default for Gpu2DEngine {
    fn default() -> (r: Self)
        ensures
            r == Gpu2DEngine::A,
    {
        Gpu2DEngine::A
    }
}

} // verus!
