use mandelbddap::canvas::{fit_to_budget, Canvas, MAX_PIXELS};
use mandelbddap::driver::{wasm_main, FramePlan, Phase};
use mandelbddap::escape::{escape_step, shade, Sample, SKIP};
use mandelbddap::gradient::{catalog, Gradient, Rgba, CATALOG_LEN, MAX_STOPS};
use mandelbddap::view::{Command, Effect, ViewSettings, DEFAULT_ITERATION_CAP};

fn opaque(r: u8, g: u8, b: u8) -> Rgba {
    Rgba { r, g, b, a: 255 }
}

/// Runs the stopping rule over the closeness flags the way a pixel's orbit
/// loop does.
fn count_with(close: impl Fn(u32) -> bool, cap: u32) -> u32 {
    let mut k: u32 = 0;
    loop {
        if let Some(n) = escape_step(k, cap, close(k)) {
            return n;
        }
        k += 1;
    }
}

#[test]
fn ramp_ends_are_first_and_last_stop() {
    let ramps = catalog();
    assert_eq!(ramps.len(), CATALOG_LEN);
    for den in [1u32, 7, 100, u32::MAX] {
        assert_eq!(ramps[0].at(0, den), opaque(0, 0, 0));
        assert_eq!(ramps[0].at(den, den), opaque(255, 255, 255));
        assert_eq!(ramps[3].at(0, den), opaque(255, 0, 0));
        assert_eq!(ramps[3].at(den, den), opaque(160, 0, 255));
    }
}

#[test]
fn ramp_interpolates_between_stops() {
    let ramps = catalog();
    assert_eq!(ramps[2].at(1, 2), opaque(127, 127, 127));
    assert_eq!(ramps[0].at(1, 4), opaque(128, 0, 0));
    assert_eq!(ramps[0].at(1, 8), opaque(64, 0, 0));
    assert_eq!(ramps[3].at(1, 2), opaque(127, 227, 0));
}

#[test]
fn ramp_channels_stay_between_neighbour_stops() {
    let ramps = catalog();
    let g = &ramps[1];
    let stops = [(0u8, 0u8, 32u8), (0, 64, 160), (0, 200, 255), (224, 255, 255)];
    for num in 0..=300u32 {
        let c = g.at(num, 300);
        let j = ((num * 3 / 300) as usize).min(2);
        let (a, b) = (stops[j], stops[j + 1]);
        assert!(a.0.min(b.0) <= c.r && c.r <= a.0.max(b.0));
        assert!(a.1.min(b.1) <= c.g && c.g <= a.1.max(b.1));
        assert!(a.2.min(b.2) <= c.b && c.b <= a.2.max(b.2));
        assert_eq!(c.a, 255);
    }
}

#[test]
fn gradient_needs_two_to_max_stops() {
    assert!(Gradient::new("one", vec![opaque(1, 2, 3)]).is_none());
    assert!(Gradient::new("none", vec![]).is_none());
    assert!(Gradient::new("many", vec![opaque(0, 0, 0); MAX_STOPS + 1]).is_none());
    let g = Gradient::new("pair", vec![opaque(0, 0, 0), opaque(200, 100, 50)]).unwrap();
    assert_eq!(g.name(), "pair");
    assert_eq!(g.at(1, 2), opaque(100, 50, 25));
    assert!(Gradient::new("full", vec![opaque(9, 9, 9); MAX_STOPS]).is_some());
}

#[test]
fn escape_count_never_exceeds_cap() {
    for cap in [0u32, 1, 4, 5, 6, 100, 1000] {
        assert_eq!(count_with(|_| false, cap), cap);
        let k = count_with(|_| true, cap);
        assert!(k <= cap);
        assert_eq!(k, cap.min(SKIP));
        let late = count_with(|k| k == 37, cap);
        assert!(late <= cap);
    }
}

#[test]
fn escape_test_skips_first_steps() {
    assert_eq!(count_with(|k| k == 2 || k == 8, 100), 8);
    assert_eq!(count_with(|k| k >= 3, 100), SKIP);
    assert_eq!(escape_step(4, 100, true), None);
    assert_eq!(escape_step(5, 100, true), Some(5));
    assert_eq!(escape_step(5, 100, false), None);
    assert_eq!(escape_step(100, 100, false), Some(100));
}

#[test]
fn orbit_at_cursor_settles_after_skip() {
    // c = 0 keeps z at 0, which is the cursor's own plane position
    let k = count_with(|_| true, 100);
    assert_eq!(k, 5);
    assert_eq!(count_with(|_| true, 100), k);
}

#[test]
fn shading_is_repeatable() {
    let ramps = catalog();
    for s in [
        Sample::Orbit { count: 0 },
        Sample::Orbit { count: 37 },
        Sample::Orbit { count: 100 },
        Sample::Marker { num: 3, den: 10 },
    ] {
        assert_eq!(shade(&ramps[0], s, 100), shade(&ramps[0], s, 100));
    }
    assert_eq!(shade(&ramps[2], Sample::Orbit { count: 50 }, 100), opaque(127, 127, 127));
    assert_eq!(shade(&ramps[2], Sample::Orbit { count: 100 }, 100), opaque(255, 255, 255));
    assert_eq!(shade(&ramps[2], Sample::Orbit { count: 0 }, 0), opaque(255, 255, 255));
}

#[test]
fn marker_ignores_orbit_settings() {
    let ramps = catalog();
    let m = Sample::Marker { num: 1, den: 2 };
    let expected = ramps[2].at(1, 2);
    for cap in [0u32, 1, 100, u32::MAX] {
        assert_eq!(shade(&ramps[2], m, cap), expected);
    }
}

#[test]
fn small_display_keeps_its_size() {
    assert_eq!(fit_to_budget(800, 600), (800, 600));
    assert_eq!(fit_to_budget(812, 812), (812, 812));
    assert_eq!(fit_to_budget(1, 660680), (1, 660680));
    assert_eq!(fit_to_budget(0, 0), (0, 0));
    assert_eq!(fit_to_budget(0, 5_000_000), (0, 5_000_000));
}

#[test]
fn large_display_shrinks_within_budget() {
    assert_eq!(fit_to_budget(1920, 1080), (1019, 572));
    assert_eq!(fit_to_budget(3000, 3000), (760, 760));
    for (w, h) in [(813u32, 813u32), (4000, 100), (u32::MAX, u32::MAX), (u32::MAX, 1)] {
        let (a, b) = fit_to_budget(w, h);
        assert!((a as u64) * (b as u64) <= MAX_PIXELS);
        assert!(a <= w && b <= h);
    }
}

#[test]
fn canvas_pixels_and_bytes() {
    let mut c = Canvas::for_display(3, 2, opaque(0, 0, 0));
    assert_eq!((c.width(), c.height()), (3, 2));
    assert!(!c.is_empty());
    c.set_pixel(2, 1, Rgba { r: 1, g: 2, b: 3, a: 4 });
    assert_eq!(c.pixel(2, 1), Rgba { r: 1, g: 2, b: 3, a: 4 });
    assert_eq!(c.pixel(1, 1), opaque(0, 0, 0));
    let bytes = c.to_rgba_bytes();
    assert_eq!(bytes.len(), 24);
    assert_eq!(&bytes[0..4], &[0, 0, 0, 255]);
    assert_eq!(&bytes[20..24], &[1, 2, 3, 4]);
    let big = Canvas::for_display(1920, 1080, opaque(5, 5, 5));
    assert_eq!((big.width(), big.height()), (1019, 572));
    assert!(Canvas::for_display(0, 10, opaque(0, 0, 0)).is_empty());
}

#[test]
fn fewer_iterations_saturates_at_zero() {
    let mut s = ViewSettings::new();
    assert_eq!(s.iteration_cap, DEFAULT_ITERATION_CAP);
    s.iteration_cap = 1;
    assert_eq!(s.apply(Command::FewerIterations), Effect::Nothing);
    assert_eq!(s.iteration_cap, 0);
    s.apply(Command::FewerIterations);
    assert_eq!(s.iteration_cap, 0);
    s.apply(Command::MoreIterations);
    assert_eq!(s.iteration_cap, 1);
    s.iteration_cap = u32::MAX;
    s.apply(Command::MoreIterations);
    assert_eq!(s.iteration_cap, u32::MAX);
}

#[test]
fn next_gradient_wraps_to_first() {
    let mut s = ViewSettings::new();
    assert_eq!(s.gradient_index, 0);
    for i in 1..CATALOG_LEN {
        s.apply(Command::NextGradient);
        assert_eq!(s.gradient_index, i);
    }
    s.apply(Command::NextGradient);
    assert_eq!(s.gradient_index, 0);
}

#[test]
fn commands_hand_back_effects() {
    let mut s = ViewSettings::new();
    assert_eq!(s.apply(Command::ZoomIn), Effect::ZoomIn);
    assert_eq!(s.apply(Command::ZoomOut), Effect::ZoomOut);
    assert_eq!(s.apply(Command::Quit), Effect::Quit);
    assert_eq!(s, ViewSettings::new());
}

#[test]
fn driver_starts_with_defaults() {
    let d = wasm_main();
    assert_eq!(d.phase(), Phase::Running);
    assert_eq!(d.settings(), ViewSettings { iteration_cap: 100, gradient_index: 0 });
    assert!(d.canvas().is_empty());
    assert_eq!(d.gradient().name(), "fire");
}

#[test]
fn held_key_acts_once_per_press() {
    let mut d = wasm_main();
    assert_eq!(d.key_event(Command::FewerIterations, true), Effect::Nothing);
    assert_eq!(d.settings().iteration_cap, 99);
    d.key_event(Command::FewerIterations, true);
    d.key_event(Command::FewerIterations, true);
    assert_eq!(d.settings().iteration_cap, 99);
    d.key_event(Command::FewerIterations, false);
    d.key_event(Command::FewerIterations, true);
    assert_eq!(d.settings().iteration_cap, 98);
    assert_eq!(d.key_event(Command::ZoomIn, true), Effect::ZoomIn);
    assert_eq!(d.key_event(Command::ZoomIn, true), Effect::Nothing);
    d.key_event(Command::NextGradient, true);
    assert_eq!(d.gradient().name(), "ocean");
}

#[test]
fn frames_follow_display_size() {
    let mut d = wasm_main();
    assert_eq!(d.begin_frame(0, 0), FramePlan::Skip);
    assert_eq!(d.begin_frame(640, 0), FramePlan::Skip);
    assert_eq!(d.begin_frame(4, 3), FramePlan::Render);
    assert_eq!((d.canvas().width(), d.canvas().height()), (4, 3));
    d.paint(1, 2, Sample::Orbit { count: 100 });
    assert_eq!(d.canvas().pixel(1, 2), opaque(255, 255, 255));
    assert_eq!(d.canvas().pixel(0, 0), opaque(0, 0, 0));
    // same size: canvas kept
    assert_eq!(d.begin_frame(4, 3), FramePlan::Render);
    assert_eq!(d.canvas().pixel(1, 2), opaque(255, 255, 255));
    // new size: canvas made anew
    assert_eq!(d.begin_frame(1920, 1080), FramePlan::Render);
    assert_eq!((d.canvas().width(), d.canvas().height()), (1019, 572));
    assert_eq!(d.canvas().pixel(1, 2), opaque(0, 0, 0));
}

#[test]
fn quitting_stops_frames_and_commands() {
    let mut d = wasm_main();
    d.begin_frame(10, 10);
    assert_eq!(d.key_event(Command::Quit, true), Effect::Quit);
    assert_eq!(d.phase(), Phase::Terminating);
    assert_eq!(d.key_event(Command::MoreIterations, true), Effect::Nothing);
    assert_eq!(d.settings().iteration_cap, 100);
    assert_eq!(d.begin_frame(20, 20), FramePlan::Stop);
    assert_eq!(d.canvas().width(), 10);
}

#[test]
fn close_request_terminates() {
    let mut d = wasm_main();
    d.close_requested();
    assert_eq!(d.phase(), Phase::Terminating);
    assert_eq!(d.begin_frame(10, 10), FramePlan::Stop);
}
