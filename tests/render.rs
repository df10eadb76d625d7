use raytracer::render::{RenderEvent, RenderPhase};

#[test]
fn full_render_lifecycle() {
    let mut p = RenderPhase::Idle;
    p = p.next(RenderEvent::WorkersSpawned);
    assert_eq!(p, RenderPhase::Dispatched);
    p = p.next(RenderEvent::PixelReceived);
    assert_eq!(p, RenderPhase::Draining);
    p = p.next(RenderEvent::PixelReceived);
    assert_eq!(p, RenderPhase::Draining);
    assert!(!p.is_complete());
    p = p.next(RenderEvent::ChannelClosed);
    assert_eq!(p, RenderPhase::Complete);
    assert!(p.is_complete());
}

#[test]
fn render_without_pixels_completes() {
    let p = RenderPhase::Idle
        .next(RenderEvent::WorkersSpawned)
        .next(RenderEvent::ChannelClosed);
    assert_eq!(p, RenderPhase::Complete);
}

#[test]
fn complete_is_final() {
    let p = RenderPhase::Complete;
    assert_eq!(p.next(RenderEvent::PixelReceived), RenderPhase::Complete);
    assert_eq!(p.next(RenderEvent::WorkersSpawned), RenderPhase::Complete);
}

#[test]
fn idle_ignores_pixels_and_closure() {
    assert_eq!(RenderPhase::Idle.next(RenderEvent::PixelReceived), RenderPhase::Idle);
    assert_eq!(RenderPhase::Idle.next(RenderEvent::ChannelClosed), RenderPhase::Idle);
}
