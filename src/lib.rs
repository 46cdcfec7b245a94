//! Type-directed synthesis of bounded model-checking harnesses.
//!
//! A front end hands the library a declaration as plain values ([`syntax`]). The
//! classifier maps each declared type onto a [`descriptor::TypeDescriptor`]; the
//! synthesizer turns a descriptor into a generator plan ([`plan`]) under a
//! [`policy::BoundingPolicy`]; the assembler and the extensions compose plans into
//! harnesses and arbitrary-value capabilities; [`render`] spells them as Rust source.
//! The laws of synthesis are stated and proved in [`laws`].
pub mod classify;
pub mod descriptor;
pub mod extension;
pub mod harness;
pub mod laws;
pub mod names;
pub mod plan;
pub mod policy;
pub mod render;
pub mod synth;
pub mod syntax;
pub mod targets;
pub mod text;
