//! The verified core of a desktop launcher for llama.cpp's `llama-server`: settings and
//! presets, the search for executables and models, the KV cache estimate, the server's
//! command line, its log and its states.
use vstd::prelude::*;

pub mod desktop;
pub mod kv_cache;
pub mod models;
pub mod server;
pub mod settings;
pub mod text;

verus! {

} // verus!
