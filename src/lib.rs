//! A gateway that turns a stream of image-prediction items into calls on an
//! inference backend and a stream of outcomes: the model registry, the
//! backend request and answer rules, the per-stream dispatcher, and the
//! process options.
pub mod backend;
pub mod dispatch;
pub mod input;
pub mod registry;
pub mod status;
