//! The framebuffer: a pixel surface in row-major order, a run flag, and the
//! listeners that key-down events are dispatched to.
//!
//! Opening a window, pumping its message queue and copying pixels to the
//! screen are the platform's work. What is decided about them is decided
//! here: where a pixel lands, which listener an event reaches, and when the
//! surface stops running.

use crate::raster::{lemma_offset_in_bounds, offset};
use std::collections::HashMap;
use vstd::prelude::*;

verus! {

/// The most pixels a surface may hold. Four bytes each, they stay within
/// `i32::MAX` bytes, so their byte offsets fit every platform's signed size.
pub const MAX_SURFACE_PIXELS: u32 = 0x1FFF_FFFF;

/// The colour a fresh surface is filled with.
pub const BLANK: u32 = 0x000000;

/// Why a surface could not be opened.
#[derive(Debug, Clone, Copy, PartialEq, Eq, Structural)]
pub enum SurfaceError {
    /// The platform refused to register or create the window.
    Registration,
    /// The pixel surface could not be allocated.
    Allocation,
}

/// One input event, as the platform's queue hands it over.
#[derive(Debug, Clone, Copy, PartialEq, Eq, Structural)]
pub enum Event {
    /// A key went down; the raw platform key code is passed through as it is.
    KeyDown(u32),
    /// The window was closed or the application was asked to quit.
    Quit,
    /// Any other message: it is left to the platform.
    Other,
}

/// What the caller has to do after an event was handled.
#[derive(Debug, Clone, Copy, PartialEq, Eq, Structural)]
pub enum Dispatch {
    /// Invoke the listener registered for this key code.
    Invoke(u32),
    /// Stop draining events: the surface is no longer running.
    Stop,
    /// Nothing to do.
    Ignore,
}

/// The mathematical model of a framebuffer.
pub struct SurfaceState<L> {
    pub title: Seq<char>,
    pub width: nat,
    pub height: nat,
    /// Row-major: the pixel at `(x, y)` is `pixels[y * width + x]`.
    pub pixels: Seq<u32>,
    pub running: bool,
    pub listeners: Map<u32, L>,
}

impl<L> SurfaceState<L> {
    /// The surface holds exactly `width * height` pixels, and every
    /// position on it can be named by 32-bit coordinates.
    pub open spec fn wf(self) -> bool {
        &&& self.width <= u32::MAX
        &&& self.height <= u32::MAX
        &&& self.pixels.len() == self.width * self.height
    }

    /// The colour at `(x, y)`.
    pub open spec fn pixel(self, x: int, y: int) -> u32
        recommends
            0 <= x < self.width,
            0 <= y < self.height,
    {
        self.pixels[offset(self.width, x, y)]
    }

    /// The state after the pixel at `(x, y)` was set to `color`.
    pub open spec fn with_pixel(self, x: int, y: int, color: u32) -> Self {
        SurfaceState {
            pixels: self.pixels.update(offset(self.width, x, y), color),
            ..self
        }
    }

    /// The state after the rectangle of `width * height` pixels whose top
    /// left corner is `(left, top)` was filled with `color`.
    pub open spec fn filled(self, left: int, top: int, width: int, height: int, color: u32) -> Self {
        SurfaceState {
            pixels: Seq::new(
                self.pixels.len(),
                |i: int|
                    if left <= i % (self.width as int) < left + width && top <= i / (
                    self.width as int) < top + height {
                        color
                    } else {
                        self.pixels[i]
                    },
            ),
            ..self
        }
    }

    /// The state after `listener` was registered for `keycode`.
    pub open spec fn with_listener(self, keycode: u32, listener: L) -> Self {
        SurfaceState { listeners: self.listeners.insert(keycode, listener), ..self }
    }

    /// The state with the run flag replaced.
    pub open spec fn with_running(self, running: bool) -> Self {
        SurfaceState { running, ..self }
    }

    /// What handling `event` asks of the caller.
    pub open spec fn dispatch(self, event: Event) -> Dispatch {
        match event {
            Event::Quit => Dispatch::Stop,
            Event::KeyDown(keycode) => if self.listeners.contains_key(keycode) {
                Dispatch::Invoke(keycode)
            } else {
                Dispatch::Ignore
            },
            Event::Other => Dispatch::Ignore,
        }
    }

    /// The listener that `event` reaches, if there is one.
    pub open spec fn listener_for(self, event: Event) -> Option<L> {
        match self.dispatch(event) {
            Dispatch::Invoke(keycode) => Some(self.listeners[keycode]),
            _ => None,
        }
    }

    /// The state after `event` was handled: a quit request clears the run
    /// flag, nothing else changes anything.
    pub open spec fn after_event(self, event: Event) -> Self {
        if event == Event::Quit {
            self.with_running(false)
        } else {
            self
        }
    }

    /// The state after a frame was handed to the screen: a failed copy
    /// clears the run flag.
    pub open spec fn after_present(self, copied: bool) -> Self {
        self.with_running(self.running && copied)
    }
}

/// Proves that a later listener replaces an earlier one: after two
/// registrations for one key code, a key-down of that code reaches the
/// second listener alone, and the state is as if the first had never been
/// registered.
pub proof fn lemma_listener_replaced<L>(
    state: SurfaceState<L>,
    keycode: u32,
    first: L,
    second: L,
)
    ensures
        state.with_listener(keycode, first).with_listener(keycode, second).listener_for(
            Event::KeyDown(keycode),
        ) == Some(second),
        state.with_listener(keycode, first).with_listener(keycode, second) == state.with_listener(
            keycode,
            second,
        ),
{
    assert(state.listeners.insert(keycode, first).insert(keycode, second)
        =~= state.listeners.insert(keycode, second));
}

/// Proves that a key-down reaches a listener exactly when one is registered
/// for its code: then that listener, else none.
pub proof fn lemma_listener_reached<L>(state: SurfaceState<L>, keycode: u32)
    ensures
        state.listeners.contains_key(keycode) ==> state.listener_for(Event::KeyDown(keycode))
            == Some(state.listeners[keycode]),
        !state.listeners.contains_key(keycode) ==> state.listener_for(Event::KeyDown(keycode))
            is None,
        !state.listeners.contains_key(keycode) ==> state.dispatch(Event::KeyDown(keycode))
            == Dispatch::Ignore,
{
}

/// Proves that a registration for one key code leaves every other key code
/// with the listener it had.
pub proof fn lemma_listener_kept<L>(state: SurfaceState<L>, keycode: u32, listener: L, other: u32)
    requires
        other != keycode,
    ensures
        state.with_listener(keycode, listener).listener_for(Event::KeyDown(other))
            == state.listener_for(Event::KeyDown(other)),
{
}

/// Proves that stopping is idempotent, and that a stopped surface is not
/// started again by an event or by a frame that was copied.
pub proof fn lemma_stopped_stays_stopped<L>(state: SurfaceState<L>, event: Event, copied: bool)
    ensures
        state.with_running(false).with_running(false) == state.with_running(false),
        !state.running ==> !state.after_event(event).running,
        !state.running ==> !state.after_present(copied).running,
{
}

/// Whether a surface of this size can be opened.
pub open spec fn surface_fits(width: u32, height: u32) -> bool {
    width * height <= MAX_SURFACE_PIXELS
}

/// A surface to draw on, with its run flag and its key-down listeners.
///
/// A platform back end implements this for the window it manages. The
/// contracts say what the simulation and the event loop rely on.
pub trait Framebuffer: Sized {
    /// What is registered for a key code and handed back when it goes down.
    type Listener;

    /// The framebuffer as a mathematical value.
    spec fn view(&self) -> SurfaceState<Self::Listener>;

    /// Opens a running surface of `width * height` pixels without listeners.
    fn create_window(title: &str, width: u32, height: u32) -> (opened: Result<Self, SurfaceError>)
        ensures
            opened matches Ok(fb) ==> {
                &&& fb@.wf()
                &&& fb@.title == title@
                &&& fb@.width == width
                &&& fb@.height == height
                &&& fb@.running
                &&& fb@.listeners == Map::<u32, Self::Listener>::empty()
            },
    ;

    /// The width in pixels.
    fn width(&self) -> (width: u32)
        requires
            self@.wf(),
        ensures
            width == self@.width,
    ;

    /// The height in pixels.
    fn height(&self) -> (height: u32)
        requires
            self@.wf(),
        ensures
            height == self@.height,
    ;

    /// Handles one event of the platform's queue and says what the caller
    /// has to do about it.
    fn handle_event(&mut self, event: Event) -> (todo: Dispatch)
        ensures
            todo == old(self)@.dispatch(event),
            final(self)@ == old(self)@.after_event(event),
    ;

    /// Records how copying the frame to the screen went.
    fn presented(&mut self, copied: bool)
        ensures
            final(self)@ == old(self)@.after_present(copied),
    ;

    /// Sets the pixel at `(x, y)` to `color`.
    fn write_pixel(&mut self, x: u32, y: u32, color: u32)
        requires
            old(self)@.wf(),
            x < old(self)@.width,
            y < old(self)@.height,
        ensures
            final(self)@ == old(self)@.with_pixel(x as int, y as int, color),
            final(self)@.wf(),
    ;

    /// Registers `listener` for `keycode`, in place of any earlier one.
    fn register_keydown_listener(&mut self, keycode: u32, listener: Self::Listener)
        ensures
            final(self)@ == old(self)@.with_listener(keycode, listener),
    ;

    /// The listener registered for `keycode`.
    fn keydown_listener(&self, keycode: u32) -> (found: Option<&Self::Listener>)
        ensures
            match found {
                Some(listener) => self@.listeners.contains_key(keycode)
                    && *listener == self@.listeners[keycode],
                None => !self@.listeners.contains_key(keycode),
            },
    ;

    /// Whether the surface is still running.
    fn is_running(&self) -> (running: bool)
        ensures
            running == self@.running,
    ;

    /// Asks the surface to stop.
    fn stop(&mut self)
        ensures
            final(self)@ == old(self)@.with_running(false),
    ;
}

/// The framebuffer that a platform back end presents: it keeps the pixels in
/// memory, and the back end copies them to its window.
pub struct PlatformFramebuffer<L> {
    title: String,
    width: u32,
    height: u32,
    pixels: Vec<u32>,
    running: bool,
    listeners: HashMap<u32, L>,
}

impl<L> PlatformFramebuffer<L> {
    /// The title the surface was opened with.
    pub fn title(&self) -> (title: &str)
        ensures
            title@ == self@.title,
    {
        self.title.as_str()
    }

    /// The pixels in row-major order, as they are copied to the screen.
    pub fn pixels(&self) -> (pixels: &Vec<u32>)
        ensures
            pixels@ == self@.pixels,
    {
        &self.pixels
    }

    /// The colour at `(x, y)`.
    pub fn read_pixel(&self, x: u32, y: u32) -> (color: u32)
        requires
            self@.wf(),
            x < self@.width,
            y < self@.height,
        ensures
            color == self@.pixel(x as int, y as int),
    {
        proof {
            lemma_offset_in_bounds(self.width as nat, self.height as nat, x as int, y as int);
            assert(self.pixels@.len() == self.pixels.len());
                    }
        self.pixels[y as usize * self.width as usize + x as usize]
    }
}

impl<L> Framebuffer for PlatformFramebuffer<L> {
    type Listener = L;

    closed spec fn view(&self) -> SurfaceState<L> {
        SurfaceState {
            title: self.title@,
            width: self.width as nat,
            height: self.height as nat,
            pixels: self.pixels@,
            running: self.running,
            listeners: self.listeners@,
        }
    }

    /// Succeeds exactly when the surface fits; the pixels start out blank.
    fn create_window(title: &str, width: u32, height: u32) -> (opened: Result<Self, SurfaceError>)
        ensures
            opened is Ok <==> surface_fits(width, height),
            opened matches Ok(fb) ==> fb@.pixels == Seq::new(
                (width * height) as nat,
                |i: int| BLANK,
            ),
            opened matches Err(e) ==> e == SurfaceError::Allocation,
    {
        assert(width * height <= 0xFFFF_FFFF * 0xFFFF_FFFF) by (nonlinear_arith)
            requires
                0 <= width <= 0xFFFF_FFFF,
                0 <= height <= 0xFFFF_FFFF,
        ;
        let count: u64 = width as u64 * height as u64;
        if count > MAX_SURFACE_PIXELS as u64 {
            return Err(SurfaceError::Allocation);
        }
        let pixels: Vec<u32> = vec![BLANK; count as usize];
        assert(pixels@ =~= Seq::new((width * height) as nat, |i: int| BLANK));
        Ok(
            PlatformFramebuffer {
                title: title.to_owned(),
                width,
                height,
                pixels,
                running: true,
                listeners: HashMap::new(),
            },
        )
    }

    fn width(&self) -> (width: u32) {
        self.width
    }

    fn height(&self) -> (height: u32) {
        self.height
    }

    fn handle_event(&mut self, event: Event) -> (todo: Dispatch) {
        broadcast use vstd::std_specs::hash::group_hash_axioms;

        match event {
            Event::Quit => {
                self.running = false;
                Dispatch::Stop
            },
            Event::KeyDown(keycode) => {
                if self.listeners.contains_key(&keycode) {
                    Dispatch::Invoke(keycode)
                } else {
                    Dispatch::Ignore
                }
            },
            Event::Other => Dispatch::Ignore,
        }
    }

    fn presented(&mut self, copied: bool) {
        if !copied {
            self.running = false;
        }
    }

    fn write_pixel(&mut self, x: u32, y: u32, color: u32) {
        proof {
            lemma_offset_in_bounds(self.width as nat, self.height as nat, x as int, y as int);
            assert(self.pixels@.len() == self.pixels.len());
                    }
        let at: usize = y as usize * self.width as usize + x as usize;
        self.pixels.set(at, color);
    }

    fn register_keydown_listener(&mut self, keycode: u32, listener: L) {
        broadcast use vstd::std_specs::hash::group_hash_axioms;

        self.listeners.insert(keycode, listener);
    }

    fn keydown_listener(&self, keycode: u32) -> (found: Option<&L>) {
        broadcast use vstd::std_specs::hash::group_hash_axioms;

        self.listeners.get(&keycode)
    }

    fn is_running(&self) -> (running: bool) {
        self.running
    }

    fn stop(&mut self) {
        self.running = false;
    }
}

} // verus!
