//! The verified core of a small first-person scene viewer: the imported
//! document model, the scene-graph loader that resolves world transforms
//! and describes vertex layouts, and the frame renderer that turns a
//! resolved scene into an ordered stream of graphics commands.

pub mod buffers;
pub mod camera;
pub mod commands;
pub mod document;
pub mod game;
pub mod hierarchy;
pub mod matrix;
pub mod mesh;
pub mod scene;
pub mod shader;
pub mod texture;
pub mod transforms;
pub mod utils;
pub mod validate;
