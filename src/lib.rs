//! A small sprite renderer organised as an entity-component-system.
//!
//! The library holds the component data, the systems that derive meshes and
//! materials from sprite declarations, the animation state machine, the input
//! mapping and the per-frame draw planning. Pixel data, shader compilation and
//! the graphics context are handled by the embedding program.
pub mod geometry;
pub mod component;
pub mod ecs;
pub mod animation;
pub mod derive;
pub mod init_system;
pub mod input;
pub mod paths;
pub mod render_system;
pub mod system;
pub mod texture;
