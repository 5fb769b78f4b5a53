//! A minimal 2D real-time rendering runtime: a fixed-timestep game loop that
//! accepts draw commands, batches them into texture-grouped instanced draw
//! calls, and offloads slow resource decoding to a background worker so the
//! render/update loop never blocks on I/O.
//!
//! The windowing system, the GPU backend and the wall clock are collaborators
//! that the embedding application drives; this crate holds the decision logic:
//! input state, the fixed-timestep timer, the job queue with its token
//! accounting, texture preparation, instance batching and the frame
//! orchestrator's state machine.

use vstd::prelude::*;

pub use crate::input::Input;
pub use crate::input::Key;
pub use crate::queue::JobQueue;
pub use crate::queue::JobToken;
pub use crate::renderer::Renderer;
pub use crate::renderer::Rotate;
pub use crate::runner::Ctx;
pub use crate::runner::Game;
pub use crate::runner::GameRunner;
pub use crate::texture::MakeTransparent;
pub use crate::texture::TextureProcessor;

pub mod input;
pub mod queue;
pub mod renderer;
pub mod runner;
pub mod texture;
pub mod timer;

verus! {

/// A stable handle into the growable texture table owned by the frame
/// orchestrator. Index 0 is reserved for a built-in 1x1 opaque white pixel;
/// indices are never reused or invalidated once issued.
#[derive(Clone, Copy, PartialEq, Eq, Structural, Debug)]
pub struct Texture {
    pub index: usize,
}

/// An axis-aligned rectangle in integer units: world units for destination
/// and view rectangles, texture pixels for source rectangles.
#[derive(Clone, Copy, PartialEq, Eq, Structural, Debug)]
pub struct Rect {
    pub x: i32,
    pub y: i32,
    pub w: i32,
    pub h: i32,
}

} // verus!
