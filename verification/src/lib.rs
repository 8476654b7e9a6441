//! Entity storage for a small game engine: generational entity handles, an
//! allocator that issues and retires them, and packed per-component stores
//! that stay safe when a handle outlives its entity. Beside it, the input
//! state that the game loop keeps from frame to frame, and window properties.

pub mod game_state;
pub mod generational_index;
pub mod input;
pub mod laws;
pub mod window;
