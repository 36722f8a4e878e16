//! reflexer — the public decision engine's verified core: the vessel
//! artifact format, the trajectory manifest, the wire state codec and the
//! engine's typed refusals.

pub mod le;
pub mod text;
pub mod crypto;
pub mod vessel;
pub mod proto;
pub mod record;
pub mod state_codec;
pub mod engine;
pub mod lane;
pub mod cli;
pub mod serve;
pub mod wasm;
