//! The window-lifecycle bridge: the one point of contact with the host
//! window system. It triggers supervision exactly once at application
//! setup, and answers every close request with hide-not-quit: suppress the
//! default close, hide the window, leave the process and any running
//! backend alone.

use vstd::prelude::*;

verus! {

/// Visibility of the single application window.
#[derive(Clone, Copy, PartialEq, Eq, Structural, Debug)]
pub enum WindowState {
    Visible,
    Hidden,
}

/// What setup asks the shell to do, and how it went. Setup never fails:
/// `setup_ok` is always true, and `start_supervisor` directs the shell to
/// launch the supervisor on a detached context exactly on the first ready
/// event.
#[derive(Clone, Copy, PartialEq, Eq, Structural, Debug)]
pub struct ReadyOutcome {
    /// Start the supervision run on its own execution context now.
    pub start_supervisor: bool,
    /// Whether setup succeeded; failure to start the backend never makes
    /// setup fail.
    pub setup_ok: bool,
}

/// What the close-request handler instructs the window system to do.
#[derive(Clone, Copy, PartialEq, Eq, Structural, Debug)]
pub struct CloseResponse {
    /// Suppress the default close, so the application process stays alive.
    pub prevent_close: bool,
    /// Hide the window instead.
    pub hide_window: bool,
}

/// The bridge itself: owns the window state and remembers whether
/// supervision was already triggered, so at most one supervision run (and
/// so at most one supervised backend) exists per application session.
pub struct LifecycleBridge {
    window: WindowState,
    supervision_started: bool,
}

impl LifecycleBridge {
    /// The window the bridge holds.
    pub closed spec fn window_state(&self) -> WindowState {
        self.window
    }

    /// Whether a supervision run was already triggered this session.
    pub closed spec fn supervision_started(&self) -> bool {
        self.supervision_started
    }

    /// A fresh bridge: window visible, supervision not yet triggered.
    pub fn new() -> (r: Self)
        ensures
            r.window_state() is Visible,
            !r.supervision_started(),
    {
        LifecycleBridge { window: WindowState::Visible, supervision_started: false }
    }

    /// The application-ready hook, invoked when the UI is constructed. It
    /// never blocks and never fails: it only directs the shell to start the
    /// supervisor on a detached context, and only on the first invocation,
    /// so at most one supervised backend exists per session.
    pub fn on_application_ready(&mut self) -> (r: ReadyOutcome)
        ensures
            final(self).supervision_started(),
            final(self).window_state() == old(self).window_state(),
            r.start_supervisor == !old(self).supervision_started(),
            r.setup_ok,
    {
        let start = !self.supervision_started;
        self.supervision_started = true;
        ReadyOutcome { start_supervisor: start, setup_ok: true }
    }

    /// The close-request hook, invoked whenever the user tries to close the
    /// window. Whatever the window or backend state, it hides the window and
    /// suppresses the default close: the application process stays alive and
    /// a running supervisor or backend is untouched.
    pub fn on_close_requested(&mut self) -> (r: CloseResponse)
        ensures
            final(self).window_state() is Hidden,
            final(self).supervision_started() == old(self).supervision_started(),
            r.prevent_close,
            r.hide_window,
    {
        self.window = WindowState::Hidden;
        CloseResponse { prevent_close: true, hide_window: true }
    }

    /// Whether the window is currently hidden.
    pub fn is_hidden(&self) -> (r: bool)
        ensures
            r == (self.window_state() is Hidden),
    {
        match self.window {
            WindowState::Hidden => true,
            WindowState::Visible => false,
        }
    }

    /// Whether a supervision run was already triggered.
    pub fn has_started_supervision(&self) -> (r: bool)
        ensures
            r == self.supervision_started(),
    {
        self.supervision_started
    }
}

} // verus!
