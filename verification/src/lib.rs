//! Verified interaction, bookkeeping and layout logic of an interactive plot widget.
//!
//! The floating-point geometry and the GPU work of the widget live outside this
//! library. What stands here is the widget's logic that needs no floating-point
//! arithmetic: the user-interaction state machine, buffer version tracking,
//! series span and picking bookkeeping, shape visibility, fill planning and
//! triangulation, image validation, autoscale bound selection, the frame's draw
//! plan, vertex layouts and vertex encoding. Decisions that compare or combine
//! float values (data bounds, marker padding in world units, view culling) stay
//! with the caller.

pub mod autoscale;
pub mod controls;
pub mod fill;
pub mod image;
pub mod interaction;
pub mod layout;
pub mod message;
pub mod renderer;
pub mod spans;
pub mod versions;
pub mod vertex;
pub mod visibility;
