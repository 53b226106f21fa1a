//! Audio samples, waveform blocks and a byte-exact RIFF/WAVE writer.
//!
//! Samples are integers of eight to sixty-four bits (`sample`), grouped per
//! instant into blocks (`block`), and serialised into a WAVE container
//! (`wavefile`). A small device registry (`device`) and the kinds of entries a
//! file browser lists (`entries`) complete the crate.

pub mod block;
pub mod device;
pub mod entries;
pub mod sample;
pub mod wavefile;
