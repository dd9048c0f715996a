//! Events driving the interactive terminal front-end.
//!
//! The front-end's loop alternates key input and timer ticks.  The event
//! type and its configuration are plain data; the threads that feed a
//! channel with these events live outside this crate.

use vstd::prelude::*;

verus! {

/// One step of the interactive loop: a key (or other input) arrived, or
/// the tick timer fired.
pub enum Event<I> {
    Input(I),
    Tick,
}

/// Settings of the event loop.
#[derive(Debug, Clone, Copy)]
pub struct Config {
    pub tick_rate: core::time::Duration,
}

} // verus!
