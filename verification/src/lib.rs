//! Verified core of the XD Engine editor: the glTF mesh decoder, the scene
//! model with its selection rules, the gizmo vocabulary and the index
//! topology of the generated meshes.
use vstd::prelude::*;

pub mod gizmo;
pub mod gltf;
pub mod input;
pub mod json;
pub mod mesh;
pub mod render;
pub mod scene;

