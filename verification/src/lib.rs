//! A verified core for a streaming chat relay: it splits a server-sent-event
//! byte stream into frames, classifies each frame's payload, and coordinates
//! a single in-flight answer with cooperative cancellation.
use vstd::prelude::*;

pub mod api;
pub mod bytes;
pub mod config;
pub mod frames;
pub mod interpret;
pub mod json;
pub mod relay;
pub mod request;

