//! Fixed-point kinematic character controller: collide-and-slide movement,
//! floor detection and grounding, driven one shape cast at a time.
pub mod cast;
pub mod fixed;
pub mod kinematic_controller;
pub mod move_and_slide;
pub mod movement;
pub mod theorems;
pub mod tick;
pub mod vector;
pub mod vector_lemmas;
