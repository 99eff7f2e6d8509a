//! History-gated policy evaluation.
//!
//! A request that was intercepted on its way to a backend is judged against an
//! ordered list of rules and the per-capability log of earlier activity; the
//! log is advanced by one step for every request that went through.

pub mod model;
pub mod history;
pub mod text;
pub mod clock;
pub mod body;
pub mod rules;
pub mod pipeline;
pub mod laws;
pub mod presets;
pub mod decode;
