//! Embedding of a folder of static assets: which files of a folder are
//! included, the metadata that accompanies each embedded file, the lookup of
//! an embedded file by the path a client asks for, and the Rust source text
//! that the command-line generator writes for a folder.

pub mod attributes;
pub mod codegen;
pub mod file;
pub mod folder;
pub mod patterns;
pub mod text;
