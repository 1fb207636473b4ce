//! Integer core of a TinyML inference engine for quantized TensorFlow Lite models.
//!
//! The library holds everything of the engine that is integer arithmetic: the
//! quantized element types and their saturation, the fused activations, the
//! tensor containers with the padded sliding-window view, the integer part of
//! each operator kernel, the compile-time folding of integer constants, and the
//! decoding of the model file with the walk over its operator graph.
//! Scales are carried through the library unread; every step that multiplies by
//! a scale happens in the caller.

pub mod activation;
pub mod activations;
pub mod buffer;
pub mod compiler;
pub mod flatbuffer;
pub mod model;
pub mod ops;
pub mod quantize;
pub mod tensor;
