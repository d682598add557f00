pub mod ch8;
pub mod decode;
pub mod laws;
pub mod semantics;
pub mod state;
pub mod tickrate;
