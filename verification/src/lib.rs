//! Integer core of an analytical wave-field universe: seeding, the
//! pseudo-random generators that derive every parameter from a seed string,
//! the triple buffer that hands simulation statistics to the renderer, the
//! simulation ticker's state machine, the terminal key bindings, the speed
//! tables and the moment-hash text format.

pub mod generation;
pub mod keys;
pub mod moment_hash;
pub mod palette;
pub mod playback;
pub mod seed;
pub mod sim;
pub mod triple_buffer;
