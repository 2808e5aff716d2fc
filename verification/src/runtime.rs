//! The frame driver's state and per-frame decisions.
//!
//! The unverified shell owns the window, polls the platform and calls the
//! program; every decision in between is a method here: translating raw
//! window events, sizing the pixel buffer to the program's dimensions,
//! tracking the window title, deriving the quit flag, and presenting the
//! frame through the render pipeline.  One iteration runs, in order:
//! `poll_events`, the program's `tick`, `apply_dimensions` with the
//! program's dimensions, `set_shaders`, the program's `render` into
//! `pixels`, `update_should_quit`, `update_title`, and `present_frame`.

use vstd::prelude::*;

use crate::display::{Display, RenderOp, present_emission};
use crate::events::{
    close_requested, collect_events, last_resize, translated_events, Event, PlatformEvent,
};
use crate::pixels::PixelGrid;
use crate::shader_cache::ShaderOp;

verus! {

/// The authoritative frame driver's state.
pub struct Runtime<P> {
    /// The events of the current frame, as handed to the program's `tick`.
    pub events: Vec<Event>,
    /// The logical pixel buffer; the shell hands `pixels.pixels` to the
    /// program's `render`.
    pub pixels: PixelGrid<P>,
    /// Whether the loop should stop after this frame.
    pub should_quit: bool,
    /// The window title most recently applied.
    pub current_title: String,
    /// The render pipeline.
    pub display: Display,
    /// The pixel every new buffer entry is filled with: opaque black.
    pub default_pixel: P,
}

impl<P: Copy> Runtime<P> {
    /// The events of the current frame.
    pub open spec fn events_seq(self) -> Seq<Event> {
        self.events@
    }

    /// Whether the loop should stop after this frame.
    pub open spec fn quitting(self) -> bool {
        self.should_quit
    }

    /// The window title most recently applied.
    pub open spec fn title(self) -> Seq<char> {
        self.current_title@
    }

    /// The pixel new buffer entries are filled with.
    pub open spec fn default_pixel(self) -> P {
        self.default_pixel
    }

    /// The runtime invariant.
    pub open spec fn wf(self) -> bool {
        &&& self.pixels.wf()
        &&& self.display.wf()
    }

    /// A fresh runtime: no events, an empty pixel buffer, not quitting,
    /// with the given window title applied and the render pipeline
    /// constructed (emitting its passthrough-program operations).
    pub fn new(title: String, default_pixel: P, ops: &mut Vec<ShaderOp>) -> (runtime: Runtime<P>)
        ensures
            runtime.wf(),
            runtime.events_seq().len() == 0,
            runtime.pixels.pixels@.len() == 0,
            runtime.pixels.width() == 0,
            runtime.pixels.height() == 0,
            !runtime.quitting(),
            runtime.title() == title@,
            runtime.display.shader_program() is None,
            runtime.display.target_dimensions() is None,
            runtime.default_pixel() == default_pixel,
            final(ops)@.subrange(0, old(ops)@.len() as int) == old(ops)@,
    {
        Runtime {
            events: Vec::new(),
            pixels: PixelGrid::new(),
            should_quit: false,
            current_title: title,
            display: Display::new(ops),
            default_pixel,
        }
    }

    /// Drain a batch of raw platform events into this frame's event list
    /// and report whether a close was requested and the last resize, if
    /// any.  Unrecognized keys produce no event.
    pub fn poll_events(&mut self, raw: &Vec<PlatformEvent>) -> (r: (bool, Option<(u32, u32)>))
        requires
            old(self).wf(),
        ensures
            final(self).wf(),
            final(self).events_seq() == translated_events(raw@),
            r.0 == close_requested(raw@),
            r.1 == last_resize(raw@),
            final(self).pixels == old(self).pixels,
            final(self).display == old(self).display,
            final(self).quitting() == old(self).quitting(),
            final(self).title() == old(self).title(),
            final(self).default_pixel() == old(self).default_pixel(),
    {
        collect_events(raw, &mut self.events)
    }

    /// The events to hand to the program's `tick`.
    pub fn events(&self) -> (events: &Vec<Event>)
        ensures
            events@ == self.events_seq(),
    {
        &self.events
    }

    /// Bring the pixel buffer to the program's dimensions: when the entry
    /// count already matches, the buffer is untouched; otherwise it is
    /// resized to exactly `width * height`, new entries filled with the
    /// default pixel.
    pub fn apply_dimensions(&mut self, dimensions: (usize, usize))
        requires
            old(self).wf(),
            dimensions.0 * dimensions.1 <= usize::MAX,
        ensures
            final(self).wf(),
            final(self).pixels.width() == dimensions.0,
            final(self).pixels.height() == dimensions.1,
            final(self).pixels.pixels@.len() == dimensions.0 * dimensions.1,
            old(self).pixels.pixels@.len() == dimensions.0 * dimensions.1 ==> final(self).pixels.pixels@ == old(self).pixels.pixels@,
            forall|i: int|
                0 <= i < old(self).pixels.pixels@.len() && i < dimensions.0 * dimensions.1
                    ==> final(self).pixels.pixels@[i] == old(self).pixels.pixels@[i],
            forall|i: int|
                old(self).pixels.pixels@.len() <= i < dimensions.0 * dimensions.1 ==> final(self).pixels.pixels@[i] == old(self).default_pixel(),
            final(self).display == old(self).display,
            final(self).events_seq() == old(self).events_seq(),
            final(self).quitting() == old(self).quitting(),
            final(self).title() == old(self).title(),
            final(self).default_pixel() == old(self).default_pixel(),
    {
        self.pixels.resize(dimensions.0, dimensions.1, self.default_pixel);
    }

    /// Derive the quit flag for this frame: the program asked to stop, or
    /// the window's close was requested.
    pub fn update_should_quit(&mut self, program_quit: bool, close: bool)
        ensures
            final(self).quitting() == (program_quit || close),
            final(self).pixels == old(self).pixels,
            final(self).display == old(self).display,
            final(self).events_seq() == old(self).events_seq(),
            final(self).title() == old(self).title(),
            final(self).default_pixel() == old(self).default_pixel(),
    {
        self.should_quit = program_quit || close;
    }

    /// Whether the loop should stop after this frame.
    pub fn should_quit(&self) -> (q: bool)
        ensures
            q == self.quitting(),
    {
        self.should_quit
    }

    /// Record the program's title, reporting whether it differs from the
    /// title most recently applied — exactly then must the shell retitle
    /// the window.
    pub fn update_title(&mut self, title: &str) -> (changed: bool)
        ensures
            changed == (title@ != old(self).title()),
            final(self).title() == title@,
            final(self).pixels == old(self).pixels,
            final(self).display == old(self).display,
            final(self).events_seq() == old(self).events_seq(),
            final(self).quitting() == old(self).quitting(),
            final(self).default_pixel() == old(self).default_pixel(),
    {
        let owned = title.to_owned();
        if owned == self.current_title {
            false
        } else {
            self.current_title = owned;
            true
        }
    }

    /// Present the current pixel buffer: emit the frame's render
    /// operations at the buffer's own logical dimensions, with the final
    /// blit sized to the window.
    pub fn present_frame(&mut self, window_size: (u32, u32), ops: &mut Vec<RenderOp>)
        requires
            old(self).wf(),
            old(self).display.shader_program() is Some,
        ensures
            final(self).wf(),
            final(self).pixels == old(self).pixels,
            final(self).events_seq() == old(self).events_seq(),
            final(self).quitting() == old(self).quitting(),
            final(self).title() == old(self).title(),
            final(self).default_pixel() == old(self).default_pixel(),
            final(self).display.cache() == old(self).display.cache(),
            final(self).display.shader_program() == old(self).display.shader_program(),
            final(self).display.filters() == old(self).display.filters(),
            final(self).display.passthrough() == old(self).display.passthrough(),
            final(self).display.target_dimensions() == Some(
                (old(self).pixels.width(), old(self).pixels.height()),
            ),
            final(ops)@ == old(ops)@ + present_emission(
                old(self).display.shader_program()->0 as int,
                old(self).display.filters(),
                old(self).display.passthrough(),
                old(self).display.target_dimensions() != Some(
                    (old(self).pixels.width(), old(self).pixels.height()),
                ),
                old(self).pixels.width(),
                old(self).pixels.height(),
                window_size.0,
                window_size.1,
            ),
    {
        let dimensions = self.pixels.dimensions();
        self.display.present(dimensions, window_size, ops);
    }
}

} // verus!
