//! A multi-segment timer library.
//!
//! A timer is a named sequence of blocks: flat waits and repeating
//! countdowns with intervals. The heart of the crate is the execution
//! engine: given a timer configuration it produces, second by second,
//! the progress reports and audio cues of a run, and supports
//! cooperative cancellation. The engine itself never sleeps; a caller
//! drives it through `TimerEngine::step`, performing one cancelable
//! one-second sleep whenever the engine asks for one.

pub mod display;
pub mod editing;
pub mod engine;
pub mod events;
pub mod laws;
pub mod model;
pub mod script;
pub mod state;
pub mod store;
pub mod text;
pub mod trace;
pub mod validate;
