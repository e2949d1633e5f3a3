use vstd::prelude::*;

verus! {

/// The window events the main loop reacts to.
#[derive(Debug, Clone, Copy, PartialEq, Eq, Structural)]
pub enum LoopEvent {
    CloseRequested,
    /// The Escape key went down.
    EscapePressed,
    Resized,
    RedrawRequested,
    /// Any other event.
    Other,
}

/// What the main loop does for an event.
#[derive(Debug, Clone, Copy, PartialEq, Eq, Structural)]
pub enum LoopAction {
    /// Leave the event loop.
    Exit,
    /// Reconfigure the surface for the new size.
    Resize,
    /// Ask for the next frame only: nothing can be drawn before the first resize.
    RequestRedraw,
    /// Ask for the next frame, then update the state and render.
    UpdateAndRender,
    Nothing,
}

/// How rendering a frame ended.
#[derive(Debug, Clone, Copy, PartialEq, Eq, Structural)]
pub enum RenderOutcome {
    /// The frame was presented.
    Presented,
    Lost,
    Outdated,
    OutOfMemory,
    Timeout,
}

/// What the main loop does after rendering a frame.
#[derive(Debug, Clone, Copy, PartialEq, Eq, Structural)]
pub enum RenderAction {
    Continue,
    /// Reconfigure the surface at its current size.
    Resize,
    /// Log the failure and leave the event loop.
    Exit,
    /// Log a warning and go on.
    Warn,
}

/// The main loop's decision for a window event, given whether the surface
/// has been configured (by a first resize); returns whether it is
/// configured afterwards and the action.
pub fn on_window_event(configured: bool, e: LoopEvent) -> (res: (bool, LoopAction))
    ensures
        res.0 == (configured || e == LoopEvent::Resized),
        res.1 == match e {
            LoopEvent::CloseRequested | LoopEvent::EscapePressed => LoopAction::Exit,
            LoopEvent::Resized => LoopAction::Resize,
            LoopEvent::RedrawRequested => if configured {
                LoopAction::UpdateAndRender
            } else {
                LoopAction::RequestRedraw
            },
            LoopEvent::Other => LoopAction::Nothing,
        },
{
    match e {
        LoopEvent::CloseRequested => (configured, LoopAction::Exit),
        LoopEvent::EscapePressed => (configured, LoopAction::Exit),
        LoopEvent::Resized => (true, LoopAction::Resize),
        LoopEvent::RedrawRequested => {
            if configured {
                (configured, LoopAction::UpdateAndRender)
            } else {
                (configured, LoopAction::RequestRedraw)
            }
        },
        LoopEvent::Other => (configured, LoopAction::Nothing),
    }
}

/// The main loop's decision after rendering: a lost or outdated surface is
/// reconfigured, running out of memory ends the loop, a timeout is only
/// reported.
pub fn on_render_outcome(o: RenderOutcome) -> (res: RenderAction)
    ensures
        res == match o {
            RenderOutcome::Presented => RenderAction::Continue,
            RenderOutcome::Lost | RenderOutcome::Outdated => RenderAction::Resize,
            RenderOutcome::OutOfMemory => RenderAction::Exit,
            RenderOutcome::Timeout => RenderAction::Warn,
        },
{
    match o {
        RenderOutcome::Presented => RenderAction::Continue,
        RenderOutcome::Lost => RenderAction::Resize,
        RenderOutcome::Outdated => RenderAction::Resize,
        RenderOutcome::OutOfMemory => RenderAction::Exit,
        RenderOutcome::Timeout => RenderAction::Warn,
    }
}

} // verus!
