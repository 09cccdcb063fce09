//! What an interactive session keeps beside the settings, and when it
//! redraws.

use vstd::prelude::*;
use crate::mandelbrot_settings::MandelbrotSettings;
use crate::size::Size;

verus! {

/// Whether frames are drawn continuously, and the size they are drawn at.
#[derive(Clone, Copy, Debug)]
pub struct Session {
    pub paused: bool,
    pub render_size: Size,
}

impl Default for Session {
    /// A session starts paused, at the default size.
    fn default() -> (session: Session)
        ensures
            session.paused,
            session.render_size == (Size { width: 1200, height: 900 }),
    {
        Session { paused: true, render_size: Size::default() }
    }
}

impl Session {
    /// Pauses a running session and resumes a paused one.
    pub fn toggle_pause(&mut self)
        ensures
            final(self).paused == !old(self).paused,
            final(self).render_size == old(self).render_size,
    {
        self.paused = !self.paused;
    }

    /// Pauses the session, as stepping frame by frame asks for.
    pub fn pause(&mut self)
        ensures
            final(self).paused,
            final(self).render_size == old(self).render_size,
    {
        self.paused = true;
    }

    /// Whether a frame is to be drawn now: always while the session runs;
    /// while it is paused, when the settings changed since the last frame or
    /// a single step was asked for.
    pub fn redraw_is_due(&self, settings: &MandelbrotSettings, step: bool) -> (due: bool)
        ensures
            due == (!self.paused || settings@.modified || step),
    {
        !self.paused || settings.needs_re_render() || step
    }

    /// Takes the size of the resized window, and says whether the frame
    /// buffer has to follow: it has when either dimension changed.
    pub fn resize(&mut self, width: u32, height: u32) -> (changed: bool)
        ensures
            changed == (width != old(self).render_size.width || height != old(
                self,
            ).render_size.height),
            final(self).render_size == (Size { width, height }),
            final(self).paused == old(self).paused,
    {
        let changed = width != self.render_size.width || height != self.render_size.height;
        if changed {
            self.render_size.width = width;
            self.render_size.height = height;
        }
        changed
    }
}

} // verus!
