//! The coroutine audio engine and its hardware layer.

pub mod hw;
pub mod voice;
pub mod engine;
pub mod sample;
