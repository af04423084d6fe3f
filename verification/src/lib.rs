//! A small fixed-instruction-set processor: a codec that packs and unpacks
//! 16-bit instruction words, and a machine that fetches, decodes and executes
//! them until it reaches a halt instruction.

pub mod codec;
pub mod machine;
