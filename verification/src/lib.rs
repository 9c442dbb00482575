//! Dynamic 2D lighting with cast shadows, on a grid of whole world units.
//!
//! A point light follows the pointer. Every object that blocks light throws
//! a shadow volume away from each light: a quad that starts at the two
//! silhouette vertices of the object and reaches far out along the rays from
//! the light. Lights and volumes are drawn into a light map of their own,
//! and the objects of the world read that map back through their material.
//!
//! The crate holds what is decided and computed on the way: which vertices
//! bound the silhouette and where the quad lies ([`silhouette`],
//! [`convexity`]), which volumes a caster owns ([`shadow_caster`]), where
//! pointer and lights stand ([`mouse_position`], [`light`]), what the light
//! pass renders into and when it can be set up ([`shadow_pass`]), what the
//! compositing material binds and samples ([`shadow_material`], [`color`]),
//! and how the light pass is tied into the frame ([`render_graph`]).
//! Windows, assets and the GPU are the business of the program around it.

pub mod color;
pub mod convexity;
pub mod geometry;
pub mod light;
pub mod mouse_position;
pub mod render_graph;
pub mod scene;
pub mod shadow_caster;
pub mod shadow_material;
pub mod shadow_pass;
pub mod silhouette;
pub mod world_camera;
