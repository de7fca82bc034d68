//! What holds of the library as a whole.

pub mod blocking;
pub mod channels;
pub mod connections;
pub mod copying;
pub mod ending;
pub mod forwarding;
pub mod launching;
pub mod lines;
pub mod receiving;
pub mod sending;
pub mod transfers;
pub mod views;
