use crate::state::{clamp_dim, SurfaceSize};
use vstd::prelude::*;

verus! {

/// Where the application stands in the window system's lifecycle.
#[derive(PartialEq, Eq, Structural, Debug, Clone, Copy)]
pub enum Phase {
    /// No device context yet; nothing renders.
    Uninitialized,
    /// The device context exists and the pages have been built.
    Running,
    /// The event loop was asked to exit.
    Terminating,
}

/// A signal from the window system.
#[derive(PartialEq, Eq, Structural, Debug, Clone, Copy)]
pub enum ShellEvent {
    Resumed,
    CloseRequested,
    Resized { width: u32, height: u32 },
    RedrawRequested,
    /// Any other window or input event.
    Input,
}

/// What the event loop is to do in answer to one event, in this order: build the device
/// context; hand the event to the UI overlay; exit; reconfigure the surface; draw one frame
/// and ask for the next; hand the event to the active page.
#[derive(PartialEq, Eq, Structural, Debug, Clone, Copy)]
pub struct Reaction {
    pub create_context: bool,
    pub forward_to_overlay: bool,
    pub exit: bool,
    pub resize_to: Option<SurfaceSize>,
    pub draw_frame: bool,
    pub request_redraw: bool,
    pub forward_to_page: bool,
}

/// Doing nothing.
pub open spec fn idle() -> Reaction {
    Reaction {
        create_context: false,
        forward_to_overlay: false,
        exit: false,
        resize_to: None,
        draw_frame: false,
        request_redraw: false,
        forward_to_page: false,
    }
}

/// The answer to `ev` in phase `p`. Only a resume starts the device context, and only once;
/// while running, every event goes to the overlay and to the active page.
pub open spec fn reaction_of(p: Phase, ev: ShellEvent) -> Reaction {
    match p {
        Phase::Uninitialized => match ev {
            ShellEvent::Resumed => Reaction { create_context: true, ..idle() },
            _ => idle(),
        },
        Phase::Running => match ev {
            ShellEvent::Resumed => idle(),
            ShellEvent::CloseRequested => Reaction {
                forward_to_overlay: true,
                exit: true,
                forward_to_page: true,
                ..idle()
            },
            ShellEvent::Resized { width, height } => Reaction {
                forward_to_overlay: true,
                resize_to: Some(SurfaceSize { width: clamp_dim(width), height: clamp_dim(height) }),
                forward_to_page: true,
                ..idle()
            },
            ShellEvent::RedrawRequested => Reaction {
                forward_to_overlay: true,
                draw_frame: true,
                request_redraw: true,
                forward_to_page: true,
                ..idle()
            },
            ShellEvent::Input => Reaction { forward_to_overlay: true, forward_to_page: true, ..idle() },
        },
        Phase::Terminating => idle(),
    }
}

/// The phase after `ev` in phase `p`.
pub open spec fn phase_after(p: Phase, ev: ShellEvent) -> Phase {
    match (p, ev) {
        (Phase::Running, ShellEvent::CloseRequested) => Phase::Terminating,
        _ => p,
    }
}

/// The phase after each event of `evs` in order, starting from `p`.
pub open spec fn phase_after_all(p: Phase, evs: Seq<ShellEvent>) -> Phase
    decreases evs.len(),
{
    if evs.len() == 0 {
        p
    } else {
        phase_after(phase_after_all(p, evs.drop_last()), evs.last())
    }
}

/// The application shell's lifecycle state.
pub struct Shell {
    pub phase: Phase,
}

impl Shell {
    /// A shell waiting for its first resume.
    pub fn new() -> (r: Shell)
        ensures
            r.phase == Phase::Uninitialized,
    {
        Shell { phase: Phase::Uninitialized }
    }

    /// Decides what to do about `ev` and moves to the next phase.
    pub fn handle(&mut self, ev: ShellEvent) -> (r: Reaction)
        ensures
            r == reaction_of(old(self).phase, ev),
            final(self).phase == phase_after(old(self).phase, ev),
    {
        let none = Reaction {
            create_context: false,
            forward_to_overlay: false,
            exit: false,
            resize_to: None,
            draw_frame: false,
            request_redraw: false,
            forward_to_page: false,
        };
        match self.phase {
            Phase::Uninitialized => match ev {
                ShellEvent::Resumed => Reaction { create_context: true, ..none },
                _ => none,
            },
            Phase::Running => match ev {
                ShellEvent::Resumed => none,
                ShellEvent::CloseRequested => {
                    self.phase = Phase::Terminating;
                    Reaction { forward_to_overlay: true, exit: true, forward_to_page: true, ..none }
                },
                ShellEvent::Resized { width, height } => Reaction {
                    forward_to_overlay: true,
                    resize_to: Some(SurfaceSize::new(width, height)),
                    forward_to_page: true,
                    ..none
                },
                ShellEvent::RedrawRequested => Reaction {
                    forward_to_overlay: true,
                    draw_frame: true,
                    request_redraw: true,
                    forward_to_page: true,
                    ..none
                },
                ShellEvent::Input => Reaction { forward_to_overlay: true, forward_to_page: true, ..none },
            },
            Phase::Terminating => none,
        }
    }

    /// Records the outcome of building the device context after a resume. On success the shell
    /// runs and the pages are to be built, which it answers with `true`, once; a failure leaves
    /// it waiting, with no retry.
    pub fn context_built(&mut self, ok: bool) -> (r: bool)
        ensures
            r == (ok && old(self).phase == Phase::Uninitialized),
            final(self).phase == (if r {
                Phase::Running
            } else {
                old(self).phase
            }),
    {
        if ok && self.phase == Phase::Uninitialized {
            self.phase = Phase::Running;
            true
        } else {
            false
        }
    }
}

/// Once the shell has left the waiting phase, no sequence of events brings it back, so
/// `context_built` never again asks for the pages to be built: each factory runs at most once.
pub proof fn lemma_pages_built_once(p: Phase, evs: Seq<ShellEvent>)
    requires
        p != Phase::Uninitialized,
    ensures
        phase_after_all(p, evs) != Phase::Uninitialized,
    decreases evs.len(),
{
    if evs.len() > 0 {
        lemma_pages_built_once(p, evs.drop_last());
    }
}

} // verus!
