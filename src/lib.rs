//! Integer core of an interactive fractal viewer: colour ramps, the
//! escape-time stopping rule, the view settings driven by key commands, the
//! size-bounded pixel canvas and the per-frame state machine that ties them
//! together. Floating-point plane geometry and all windowing stay with the
//! caller.

pub mod canvas;
pub mod driver;
pub mod escape;
pub mod gradient;
pub mod view;
