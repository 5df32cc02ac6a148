//! From the decoder to the channel.
pub mod pipeline;
pub mod resampler;
