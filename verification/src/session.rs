//! The render loop's per-message behaviour, and the cursor-hiding guard for
//! the output sink.
//!
//! The loop itself — waiting on the notification channel with a timeout,
//! checking cancellation, querying the terminal size — is unverified
//! plumbing around this module: it hands every message to `handle_message`
//! and writes the sink bytes out.

use crate::escape::clear_screen_escape;
use crate::escape::hide_cursor_escape;
use crate::escape::push_clear_screen;
use crate::escape::show_cursor_escape;
use crate::producer::ProducerMessage;
use crate::render::Renderer;
use vstd::prelude::*;

verus! {

/// Appends the hide-cursor escape to `out`.
pub fn hide_cursor(out: &mut Vec<u8>)
    ensures
        final(out)@ == old(out)@ + hide_cursor_escape(),
{
    out.push(27);
    out.push(91);
    out.push(63);
    out.push(50);
    out.push(53);
    out.push(108);
    assert(out@ =~= old(out)@ + hide_cursor_escape());
}

/// Appends the show-cursor escape to `out`.
pub fn show_cursor(out: &mut Vec<u8>)
    ensures
        final(out)@ == old(out)@ + show_cursor_escape(),
{
    out.push(27);
    out.push(91);
    out.push(63);
    out.push(50);
    out.push(53);
    out.push(104);
    assert(out@ =~= old(out)@ + show_cursor_escape());
}

/// A byte sink whose cursor is hidden for the sink's lifetime: creation
/// appends the hide escape, `show` appends the escape that restores it.
/// The caller owns every exit path and must call `show` on each of them;
/// draining the buffer in between does not disturb the guard.
pub struct HideCursor {
    sink: Vec<u8>,
}

impl HideCursor {
    /// The bytes currently buffered in the sink.
    pub closed spec fn bytes(&self) -> Seq<u8> {
        self.sink@
    }

    /// Wraps a sink, hiding the cursor first.
    pub fn new(writer: Vec<u8>) -> (h: Self)
        ensures
            h.bytes() == writer@ + hide_cursor_escape(),
    {
        let mut sink = writer;
        hide_cursor(&mut sink);
        HideCursor { sink }
    }

    /// Appends the escape that makes the cursor visible again.
    pub fn show(&mut self)
        ensures
            final(self).bytes() == old(self).bytes() + show_cursor_escape(),
    {
        show_cursor(&mut self.sink);
    }

    /// Exclusive access to the buffered bytes, for appending frame output.
    pub fn sink(&mut self) -> (r: &mut Vec<u8>)
        ensures
            r@ == old(self).bytes(),
            final(self).bytes() == final(r)@,
    {
        &mut self.sink
    }

    /// Takes the buffered bytes out, leaving the sink empty: what the
    /// calling side writes to the terminal between frames.
    pub fn drain(&mut self) -> (r: Vec<u8>)
        ensures
            r@ == old(self).bytes(),
            final(self).bytes() == Seq::<u8>::empty(),
    {
        let mut taken = Vec::new();
        core::mem::swap(&mut self.sink, &mut taken);
        taken
    }
}

/// The render loop's state between messages: no renderer before the first
/// `Initialize`, then a renderer and its scratch state, replaced whole on
/// every further `Initialize`.
pub struct RenderSession<R: Renderer> {
    renderer: Option<R>,
    state: Option<R::State>,
}

impl<R: Renderer> RenderSession<R> {
    /// The current renderer, if a resolution has been seen.
    pub closed spec fn spec_renderer(&self) -> Option<R> {
        self.renderer
    }

    /// The current per-frame scratch state.
    pub closed spec fn spec_state(&self) -> Option<R::State> {
        self.state
    }

    /// A renderer exists exactly after the first `Initialize`.
    pub open spec fn initialized(&self) -> bool {
        self.spec_renderer() is Some
    }

    pub open spec fn wf(&self) -> bool {
        &&& self.spec_renderer() is Some <==> self.spec_state() is Some
        &&& self.spec_renderer() matches Some(r) ==> r.wf()
    }

    /// A session that has not seen a resolution yet.
    pub fn new() -> (s: Self)
        ensures
            s.wf(),
            !s.initialized(),
    {
        RenderSession { renderer: None, state: None }
    }

    pub fn is_initialized(&self) -> (b: bool)
        ensures
            b == self.initialized(),
    {
        self.renderer.is_some()
    }

    /// The current grid width in cells.
    pub fn grid_width(&self) -> (w: u32)
        requires
            self.wf(),
            self.initialized(),
        ensures
            w == self.spec_renderer()->Some_0.spec_width(),
    {
        match &self.renderer {
            Some(r) => r.width(),
            None => 0,
        }
    }

    /// The current grid height in cells.
    pub fn grid_height(&self) -> (h: u32)
        requires
            self.wf(),
            self.initialized(),
        ensures
            h == self.spec_renderer()->Some_0.spec_height(),
    {
        match &self.renderer {
            Some(r) => r.height(),
            None => 0,
        }
    }

    /// Replaces the renderer with a fresh one for the new resolution and
    /// clears the screen. Any previous grid state is destroyed: a
    /// resolution change never resizes a live renderer.
    pub fn handle_initialize(&mut self, width: u32, height: u32, out: &mut Vec<u8>)
        requires
            (width as int) * (height as int) * 16 <= usize::MAX as int,
        ensures
            final(self).wf(),
            final(self).initialized(),
            final(self).spec_renderer()->Some_0.spec_width() == width,
            final(self).spec_renderer()->Some_0.spec_height() == height,
            final(out)@ == old(out)@ + clear_screen_escape(),
    {
        let r = R::from_dims(width, height);
        self.state = Some(r.create_state());
        self.renderer = Some(r);
        push_clear_screen(out);
    }

    /// Renders the delivered frame: reinterprets the raw bytes as pixels,
    /// consumes them into the grid, and writes the frame's bytes to `out`.
    pub fn handle_frame(&mut self, frame: &Vec<u8>, out: &mut Vec<u8>)
        requires
            old(self).wf(),
            old(self).initialized(),
            frame@.len() == (old(self).spec_renderer()->Some_0.spec_width() as int) * (old(
                self,
            ).spec_renderer()->Some_0.spec_height() as int) * 4,
        ensures
            final(self).wf(),
            final(self).initialized(),
            ({
                let r2 = final(self).spec_renderer()->Some_0;
                let st2 = final(self).spec_state()->Some_0;
                &&& r2.spec_width() == old(self).spec_renderer()->Some_0.spec_width()
                &&& r2.spec_height() == old(self).spec_renderer()->Some_0.spec_height()
                &&& final(out)@ == old(out)@ + r2.frame_output(st2)
                &&& r2.state_post(st2)
            }),
    {
        match (&mut self.renderer, &mut self.state) {
            (Some(r), Some(st)) => {
                let pixels = r.verify_input(frame);
                r.consume(pixels.as_slice());
                r.render_frame(out, st);
            },
            _ => {},
        }
    }

    /// One producer message: `Initialize` recreates the renderer,
    /// `FrameReady` renders the latest frame.
    pub fn handle_message(&mut self, msg: ProducerMessage, frame: &Vec<u8>, out: &mut Vec<u8>)
        requires
            old(self).wf(),
            msg matches ProducerMessage::Initialize { width, height } ==> (width as int) * (
            height as int) * 16 <= usize::MAX as int,
            msg is FrameReady ==> old(self).initialized() && frame@.len() == (old(
                self,
            ).spec_renderer()->Some_0.spec_width() as int) * (old(
                self,
            ).spec_renderer()->Some_0.spec_height() as int) * 4,
        ensures
            final(self).wf(),
            final(self).initialized(),
            msg matches ProducerMessage::Initialize { width, height } ==> {
                &&& final(self).spec_renderer()->Some_0.spec_width() == width
                &&& final(self).spec_renderer()->Some_0.spec_height() == height
                &&& final(out)@ == old(out)@ + clear_screen_escape()
            },
            msg is FrameReady ==> ({
                let r2 = final(self).spec_renderer()->Some_0;
                let st2 = final(self).spec_state()->Some_0;
                &&& r2.spec_width() == old(self).spec_renderer()->Some_0.spec_width()
                &&& r2.spec_height() == old(self).spec_renderer()->Some_0.spec_height()
                &&& final(out)@ == old(out)@ + r2.frame_output(st2)
                &&& r2.state_post(st2)
            }),
    {
        match msg {
            ProducerMessage::Initialize { width, height } => {
                self.handle_initialize(width, height, out);
            },
            ProducerMessage::FrameReady => {
                self.handle_frame(frame, out);
            },
        }
    }
}

} // verus!
