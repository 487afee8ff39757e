//! The per-frame state machine. The caller's event loop reports key
//! presses and releases, close requests and the display size at each frame,
//! then fills the canvas pixel by pixel and presents it; the driver decides
//! what each event does.
use vstd::prelude::*;
use crate::canvas::{Canvas, fitted};
use crate::escape::{Sample, sample_color, sample_ok, shade};
use crate::gradient::{Gradient, Rgba, catalog, catalog_stops, CATALOG_LEN};
use crate::view::{Command, Effect, ViewSettings, effect_of, settings_after, DEFAULT_ITERATION_CAP};

verus! {

/// Number of key commands.
pub const COMMAND_COUNT: usize = 6;

/// Where the driver keeps whether the key of `cmd` is held down.
pub open spec fn slot(cmd: Command) -> int {
    match cmd {
        Command::Quit => 0,
        Command::ZoomIn => 1,
        Command::ZoomOut => 2,
        Command::NextGradient => 3,
        Command::MoreIterations => 4,
        Command::FewerIterations => 5,
    }
}

fn command_slot(cmd: Command) -> (r: usize)
    ensures
        r == slot(cmd),
        r < COMMAND_COUNT,
{
    match cmd {
        Command::Quit => 0,
        Command::ZoomIn => 1,
        Command::ZoomOut => 2,
        Command::NextGradient => 3,
        Command::MoreIterations => 4,
        Command::FewerIterations => 5,
    }
}

/// Whether frames are still drawn. A frame's resize happens within
/// `begin_frame`, after which the driver is running again.
#[derive(Clone, Copy, Debug, PartialEq, Eq, Structural)]
pub enum Phase {
    Running,
    Terminating,
}

/// What the caller does with a frame: stop the loop, skip drawing a canvas
/// without pixels, or fill and present the canvas.
#[derive(Clone, Copy, Debug, PartialEq, Eq, Structural)]
pub enum FramePlan {
    Stop,
    Skip,
    Render,
}

/// Colour of a fresh canvas: opaque black.
pub open spec fn background() -> Rgba {
    Rgba { r: 0, g: 0, b: 0, a: 255 }
}

fn make_background() -> (c: Rgba)
    ensures
        c == background(),
{
    Rgba { r: 0, g: 0, b: 0, a: 255 }
}

/// The viewer's state from one event to the next.
pub struct Driver {
    phase: Phase,
    settings: ViewSettings,
    held: Vec<bool>,
    gradients: Vec<Gradient>,
    display: (u32, u32),
    canvas: Canvas,
}

impl Driver {
    pub closed spec fn spec_phase(&self) -> Phase {
        self.phase
    }

    pub closed spec fn spec_settings(&self) -> ViewSettings {
        self.settings
    }

    /// For each command slot, whether its key is held down.
    pub closed spec fn spec_held(&self) -> Seq<bool> {
        self.held@
    }

    /// Display size seen at the last frame.
    pub closed spec fn spec_display(&self) -> (u32, u32) {
        self.display
    }

    pub closed spec fn spec_canvas(&self) -> Canvas {
        self.canvas
    }

    /// The driver holds the built-in ramps.
    pub closed spec fn catalog_ok(&self) -> bool {
        &&& self.gradients@.len() == CATALOG_LEN
        &&& forall|i: int|
            0 <= i < CATALOG_LEN ==> #[trigger] self.gradients@[i].wf() && self.gradients@[i]@
                == catalog_stops(i)
    }

    /// Stops of the chosen ramp.
    pub open spec fn spec_gradient(&self) -> Seq<Rgba> {
        catalog_stops(self.spec_settings().gradient_index as int)
    }

    pub open spec fn wf(&self) -> bool {
        &&& self.spec_settings().wf()
        &&& self.spec_held().len() == COMMAND_COUNT
        &&& self.spec_canvas().wf()
        &&& (self.spec_canvas().spec_width(), self.spec_canvas().spec_height()) == fitted(
            self.spec_display().0 as nat,
            self.spec_display().1 as nat,
        )
        &&& self.catalog_ok()
    }

    /// Whether `self` and `other` agree on all but the canvas and the
    /// display size.
    pub open spec fn same_view(&self, other: &Driver) -> bool {
        &&& self.spec_phase() == other.spec_phase()
        &&& self.spec_settings() == other.spec_settings()
        &&& self.spec_held() == other.spec_held()
    }

    /// Reports a key of `cmd` going down (`pressed`) or up. A command acts
    /// once per press: while its key stays down, repeated presses do
    /// nothing, and after quitting no command acts.
    pub fn key_event(&mut self, cmd: Command, pressed: bool) -> (e: Effect)
        requires
            old(self).wf(),
        ensures
            final(self).wf(),
            final(self).spec_display() == old(self).spec_display(),
            final(self).spec_canvas() == old(self).spec_canvas(),
            final(self).spec_held() == old(self).spec_held().update(slot(cmd), pressed),
            if pressed && !old(self).spec_held()[slot(cmd)] && old(self).spec_phase()
                == Phase::Running {
                &&& e == effect_of(cmd)
                &&& final(self).spec_settings() == settings_after(old(self).spec_settings(), cmd)
                &&& final(self).spec_phase() == (if cmd == Command::Quit {
                    Phase::Terminating
                } else {
                    Phase::Running
                })
            } else {
                &&& e == Effect::Nothing
                &&& final(self).spec_settings() == old(self).spec_settings()
                &&& final(self).spec_phase() == old(self).spec_phase()
            },
    {
        let k = command_slot(cmd);
        let was_held = self.held[k];
        self.held.set(k, pressed);
        if pressed && !was_held && self.phase == Phase::Running {
            let e = self.settings.apply(cmd);
            if cmd == Command::Quit {
                self.phase = Phase::Terminating;
            }
            e
        } else {
            Effect::Nothing
        }
    }

    /// Reports that the window is to close: no frame is drawn after this.
    pub fn close_requested(&mut self)
        requires
            old(self).wf(),
        ensures
            final(self).wf(),
            final(self).spec_phase() == Phase::Terminating,
            final(self).spec_settings() == old(self).spec_settings(),
            final(self).spec_held() == old(self).spec_held(),
            final(self).spec_display() == old(self).spec_display(),
            final(self).spec_canvas() == old(self).spec_canvas(),
    {
        self.phase = Phase::Terminating;
        proof {
            assert(self.catalog_ok());
        }
    }

    /// Starts a frame on a display of `width` by `height`. Once quitting,
    /// nothing changes and the loop stops. Otherwise, where the display
    /// size changed since the last frame, the canvas is made anew for it,
    /// all background; where it did not, the canvas is kept as it is. A
    /// canvas without pixels is not drawn.
    pub fn begin_frame(&mut self, width: u32, height: u32) -> (p: FramePlan)
        requires
            old(self).wf(),
        ensures
            final(self).wf(),
            final(self).same_view(old(self)),
            old(self).spec_phase() == Phase::Terminating ==> p == FramePlan::Stop
                && final(self).spec_display() == old(self).spec_display()
                && final(self).spec_canvas() == old(self).spec_canvas(),
            old(self).spec_phase() == Phase::Running ==> {
                &&& final(self).spec_display() == (width, height)
                &&& (width, height) == old(self).spec_display() ==> final(self).spec_canvas()
                    == old(self).spec_canvas()
                &&& (width, height) != old(self).spec_display() ==> final(self).spec_canvas().spec_pixels() == Seq::new(
                    final(self).spec_canvas().spec_pixels().len(),
                    |_i: int| background(),
                )
                &&& p == if final(self).spec_canvas().spec_pixels().len() == 0 {
                    FramePlan::Skip
                } else {
                    FramePlan::Render
                }
            },
    {
        if self.phase == Phase::Terminating {
            return FramePlan::Stop;
        }
        if width != self.display.0 || height != self.display.1 {
            self.display = (width, height);
            self.canvas = Canvas::for_display(width, height, make_background());
        }
        if self.canvas.is_empty() {
            FramePlan::Skip
        } else {
            FramePlan::Render
        }
    }

    /// Paints pixel `(x, y)` of the canvas in the colour of sample `s` on
    /// the chosen ramp under the current iteration cap.
    pub fn paint(&mut self, x: u32, y: u32, s: Sample)
        requires
            old(self).wf(),
            x < old(self).spec_canvas().spec_width(),
            y < old(self).spec_canvas().spec_height(),
            sample_ok(s, old(self).spec_settings().iteration_cap as nat),
        ensures
            final(self).wf(),
            final(self).same_view(old(self)),
            final(self).spec_display() == old(self).spec_display(),
            final(self).spec_canvas().spec_width() == old(self).spec_canvas().spec_width(),
            final(self).spec_canvas().spec_height() == old(self).spec_canvas().spec_height(),
            final(self).spec_canvas().spec_pixels() == old(self).spec_canvas().spec_pixels().update(
                old(self).spec_canvas().cell(x as nat, y as nat),
                sample_color(
                    old(self).spec_gradient(),
                    s,
                    old(self).spec_settings().iteration_cap as nat,
                ),
            ),
    {
        proof {
            assert(self.gradients@[self.settings.gradient_index as int].wf());
        }
        let g = &self.gradients[self.settings.gradient_index];
        let c = shade(g, s, self.settings.iteration_cap);
        self.canvas.set_pixel(x, y, c);
    }

    pub fn phase(&self) -> (r: Phase)
        ensures
            r == self.spec_phase(),
    {
        self.phase
    }

    pub fn settings(&self) -> (r: ViewSettings)
        ensures
            r == self.spec_settings(),
    {
        self.settings
    }

    pub fn canvas(&self) -> (r: &Canvas)
        ensures
            *r == self.spec_canvas(),
    {
        &self.canvas
    }

    /// The chosen ramp.
    pub fn gradient(&self) -> (r: &Gradient)
        requires
            self.wf(),
        ensures
            r.wf(),
            r@ == self.spec_gradient(),
    {
        proof {
            assert(self.gradients@[self.settings.gradient_index as int].wf());
        }
        &self.gradients[self.settings.gradient_index]
    }
}

/// The state the viewer starts in: running, with the default settings, no
/// key held, and no display seen yet, so an empty canvas.
pub fn wasm_main() -> (d: Driver)
    ensures
        d.wf(),
        d.spec_phase() == Phase::Running,
        d.spec_settings() == (ViewSettings { iteration_cap: DEFAULT_ITERATION_CAP, gradient_index: 0 }),
        d.spec_held() == Seq::new(COMMAND_COUNT as nat, |_i: int| false),
        d.spec_display() == (0u32, 0u32),
        d.spec_canvas().spec_pixels().len() == 0,
{
    let mut held: Vec<bool> = Vec::new();
    let mut i: usize = 0;
    while i < COMMAND_COUNT
        invariant
            i <= COMMAND_COUNT,
            held@ == Seq::new(i as nat, |_i: int| false),
        decreases COMMAND_COUNT - i,
    {
        held.push(false);
        i = i + 1;
        proof {
            assert(held@ =~= Seq::new(i as nat, |_i: int| false));
        }
    }
    let canvas = Canvas::for_display(0, 0, make_background());
    proof {
        assert(fitted(0, 0) == (0nat, 0nat));
    }
    Driver {
        phase: Phase::Running,
        settings: ViewSettings::new(),
        held,
        gradients: catalog(),
        display: (0, 0),
        canvas,
    }
}

} // verus!
