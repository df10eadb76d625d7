//! Progress of one render, as seen by the consumer that owns the framebuffer.
//!
//! The render is dispatched once all workers are spawned, drains while pixel
//! messages arrive, and is complete once the message channel reports that no
//! producer is left. There is no cancellation: nothing leads back from
//! `Complete`.
use vstd::prelude::*;

verus! {

#[derive(Clone, Copy, Debug, PartialEq, Eq, Structural)]
pub enum RenderPhase {
    Idle,
    Dispatched,
    Draining,
    Complete,
}

#[derive(Clone, Copy, Debug, PartialEq, Eq, Structural)]
pub enum RenderEvent {
    /// Every worker has been spawned.
    WorkersSpawned,
    /// A finished pixel arrived from a worker.
    PixelReceived,
    /// The channel is closed and empty: every worker has dropped its sender.
    ChannelClosed,
}

/// The phase after `event` in phase `phase`; an event that does not apply to
/// the phase leaves it unchanged.
pub open spec fn phase_after(phase: RenderPhase, event: RenderEvent) -> RenderPhase {
    match (phase, event) {
        (RenderPhase::Idle, RenderEvent::WorkersSpawned) => RenderPhase::Dispatched,
        (RenderPhase::Dispatched, RenderEvent::PixelReceived) => RenderPhase::Draining,
        (RenderPhase::Draining, RenderEvent::PixelReceived) => RenderPhase::Draining,
        (RenderPhase::Dispatched, RenderEvent::ChannelClosed) => RenderPhase::Complete,
        (RenderPhase::Draining, RenderEvent::ChannelClosed) => RenderPhase::Complete,
        _ => phase,
    }
}

impl RenderPhase {
    /// Advances the phase by one event.
    pub fn next(self, event: RenderEvent) -> (r: RenderPhase)
        ensures
            r == phase_after(self, event),
    {
        match (self, event) {
            (RenderPhase::Idle, RenderEvent::WorkersSpawned) => RenderPhase::Dispatched,
            (RenderPhase::Dispatched, RenderEvent::PixelReceived) => RenderPhase::Draining,
            (RenderPhase::Draining, RenderEvent::PixelReceived) => RenderPhase::Draining,
            (RenderPhase::Dispatched, RenderEvent::ChannelClosed) => RenderPhase::Complete,
            (RenderPhase::Draining, RenderEvent::ChannelClosed) => RenderPhase::Complete,
            _ => self,
        }
    }

    /// Whether no more pixels will arrive.
    pub fn is_complete(self) -> (r: bool)
        ensures
            r == (self == RenderPhase::Complete),
    {
        match self {
            RenderPhase::Complete => true,
            _ => false,
        }
    }
}

} // verus!
