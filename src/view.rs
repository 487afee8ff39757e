//! View settings that key commands change: the iteration cap and the chosen
//! colour ramp. Zoom and pan are plane geometry and stay with the caller,
//! which acts on the effect a command hands back.
use vstd::prelude::*;
use crate::gradient::CATALOG_LEN;

verus! {

/// Iteration cap the viewer starts with.
pub const DEFAULT_ITERATION_CAP: u32 = 100;

/// A key command.
#[derive(Clone, Copy, Debug, PartialEq, Eq, Structural)]
pub enum Command {
    Quit,
    ZoomIn,
    ZoomOut,
    NextGradient,
    MoreIterations,
    FewerIterations,
}

/// What the caller has to do after a command: stop, or scale the zoom by
/// 1.1 (in) or 0.9 (out).
#[derive(Clone, Copy, Debug, PartialEq, Eq, Structural)]
pub enum Effect {
    Nothing,
    Quit,
    ZoomIn,
    ZoomOut,
}

/// The caller's part of `cmd`.
pub open spec fn effect_of(cmd: Command) -> Effect {
    match cmd {
        Command::Quit => Effect::Quit,
        Command::ZoomIn => Effect::ZoomIn,
        Command::ZoomOut => Effect::ZoomOut,
        _ => Effect::Nothing,
    }
}

#[derive(Clone, Copy, Debug, PartialEq, Eq, Structural)]
pub struct ViewSettings {
    pub iteration_cap: u32,
    /// Index of the chosen ramp in the catalog.
    pub gradient_index: usize,
}

/// Settings after `cmd`: the ramp index steps on and wraps past the last
/// ramp; the cap moves by one, held at `0` below and at `u32::MAX` above.
pub open spec fn settings_after(s: ViewSettings, cmd: Command) -> ViewSettings {
    match cmd {
        Command::NextGradient => ViewSettings {
            iteration_cap: s.iteration_cap,
            gradient_index: ((s.gradient_index + 1) % (CATALOG_LEN as int)) as usize,
        },
        Command::MoreIterations => ViewSettings {
            iteration_cap: if s.iteration_cap == u32::MAX {
                s.iteration_cap
            } else {
                (s.iteration_cap + 1) as u32
            },
            gradient_index: s.gradient_index,
        },
        Command::FewerIterations => ViewSettings {
            iteration_cap: if s.iteration_cap == 0 {
                0
            } else {
                (s.iteration_cap - 1) as u32
            },
            gradient_index: s.gradient_index,
        },
        _ => s,
    }
}

impl ViewSettings {
    pub open spec fn wf(&self) -> bool {
        self.gradient_index < CATALOG_LEN
    }

    /// The settings the viewer starts with: a cap of 100, the first ramp.
    pub fn new() -> (r: ViewSettings)
        ensures
            r.wf(),
            r.iteration_cap == DEFAULT_ITERATION_CAP,
            r.gradient_index == 0,
    {
        ViewSettings { iteration_cap: DEFAULT_ITERATION_CAP, gradient_index: 0 }
    }

    /// Carries out `cmd` on the settings and hands back what is left for
    /// the caller to do.
    pub fn apply(&mut self, cmd: Command) -> (e: Effect)
        requires
            old(self).wf(),
        ensures
            final(self).wf(),
            *final(self) == settings_after(*old(self), cmd),
            e == effect_of(cmd),
    {
        match cmd {
            Command::Quit => Effect::Quit,
            Command::ZoomIn => Effect::ZoomIn,
            Command::ZoomOut => Effect::ZoomOut,
            Command::NextGradient => {
                self.gradient_index = (self.gradient_index + 1) % CATALOG_LEN;
                Effect::Nothing
            },
            Command::MoreIterations => {
                self.iteration_cap = self.iteration_cap.saturating_add(1);
                Effect::Nothing
            },
            Command::FewerIterations => {
                self.iteration_cap = self.iteration_cap.saturating_sub(1);
                Effect::Nothing
            },
        }
    }
}

} // verus!
