pub mod buffer;
pub mod chars;
pub mod copy;
pub mod derive;
pub mod gl;
pub mod grammar;
pub mod image;
pub mod image_desc;
pub mod instructions;
pub mod isa;
pub mod laws;
pub mod mappings;
pub mod memory;
pub mod pipe;
pub mod placement;
pub mod plan;
pub mod push;
pub mod sampler;
pub mod strmap;
pub mod text;
pub mod types;
pub mod xml;
