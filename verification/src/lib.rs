//! The rules of a small viewer for 3D meshes.
//!
//! The viewer loads a mesh from a PLY file, draws it, and lets the user fly
//! around it with keyboard and mouse. This library holds what the viewer
//! decides: which mesh the bytes of a file stand for ([`loader`], [`mesh`],
//! on top of the reader in [`ply`] and the test in [`header`] that guards
//! it), and what an event of the window does to the camera ([`input`],
//! [`camera`]). Reading files, drawing, and the arithmetic on the camera,
//! which is in floating point, are left to the program that uses it.

pub mod camera;
pub mod header;
pub mod input;
pub mod loader;
pub mod mesh;
pub mod ply;
pub mod text;
