use anyrender::renderer::DrawableTarget;
use anyrender::renderer::FrameAction;
use anyrender::renderer::FrameEvent;
use anyrender::renderer::RenderState;
use anyrender::renderer::WindowRenderer;

/// Runs one frame that succeeds at the first acquisition, returning the
/// drawable target.
fn acquire_frame(renderer: &mut WindowRenderer<u64>) -> DrawableTarget {
    let action = renderer.begin_frame();
    assert!(matches!(action, FrameAction::WaitFence));
    let action = renderer.frame_event(FrameEvent::FenceWaited);
    assert!(matches!(action, FrameAction::Acquire));
    match renderer.frame_event(FrameEvent::Acquired) {
        FrameAction::Draw(target) => target,
        other => panic!("expected a draw action, got {}", action_name(&other)),
    }
}

fn action_name(action: &FrameAction) -> &'static str {
    match action {
        FrameAction::SkipFrame => "SkipFrame",
        FrameAction::WaitFence => "WaitFence",
        FrameAction::Reconfigure { .. } => "Reconfigure",
        FrameAction::Acquire => "Acquire",
        FrameAction::Draw(_) => "Draw",
    }
}

fn cache_image_count(renderer: &mut WindowRenderer<u64>) -> usize {
    match &mut renderer.render_state {
        RenderState::Active(state) => state.cache.image_shader.len(),
        RenderState::Suspended => panic!("no live session"),
    }
}

#[test]
fn begin_frame_while_suspended_skips() {
    let mut renderer: WindowRenderer<u64> = WindowRenderer::new();
    assert!(!renderer.is_active());
    assert!(matches!(renderer.begin_frame(), FrameAction::SkipFrame));
}

#[test]
fn happy_frame_draws_at_surface_size() {
    let mut renderer: WindowRenderer<u64> = WindowRenderer::new();
    renderer.resume(800, 600);
    assert!(renderer.is_active());
    let target = acquire_frame(&mut renderer);
    assert_eq!(target.width, 800);
    assert_eq!(target.height, 600);
    renderer.finish_frame(target);
}

#[test]
fn suspend_then_resume_gives_fresh_empty_cache() {
    let mut renderer: WindowRenderer<u64> = WindowRenderer::new();
    renderer.resume(320, 200);
    match &mut renderer.render_state {
        RenderState::Active(state) => {
            state.cache.image_shader.insert(11, 1);
            assert!(!state.cache.is_empty());
        }
        RenderState::Suspended => panic!("no live session"),
    }
    renderer.suspend();
    assert!(!renderer.is_active());
    // A second suspend is a no-op.
    renderer.suspend();
    assert!(!renderer.is_active());
    renderer.resume(320, 200);
    assert!(renderer.is_active());
    match &renderer.render_state {
        RenderState::Active(state) => assert!(state.cache.is_empty()),
        RenderState::Suspended => panic!("no live session"),
    }
}

#[test]
fn skipped_frames_do_not_age_the_cache() {
    let mut renderer: WindowRenderer<u64> = WindowRenderer::new();
    renderer.resume(640, 480);
    match &mut renderer.render_state {
        RenderState::Active(state) => {
            state.cache.image_shader.insert(42, 7);
        }
        RenderState::Suspended => panic!("no live session"),
    }
    // Invalidate the surface, then fail three frames in a row at the
    // reconfiguration step.
    renderer.set_size(320, 240);
    for _ in 0..3 {
        assert!(matches!(renderer.begin_frame(), FrameAction::WaitFence));
        let action = renderer.frame_event(FrameEvent::FenceWaited);
        assert!(matches!(action, FrameAction::Reconfigure { width: 320, height: 240 }));
        let action = renderer.frame_event(FrameEvent::ReconfigureFailed);
        assert!(matches!(action, FrameAction::SkipFrame));
        assert_eq!(cache_image_count(&mut renderer), 1);
    }
    // A later frame succeeds and still sees the cached entry.
    assert!(matches!(renderer.begin_frame(), FrameAction::WaitFence));
    let action = renderer.frame_event(FrameEvent::FenceWaited);
    assert!(matches!(action, FrameAction::Reconfigure { .. }));
    let action = renderer.frame_event(FrameEvent::ReconfigureOk);
    assert!(matches!(action, FrameAction::Acquire));
    let target = match renderer.frame_event(FrameEvent::Acquired) {
        FrameAction::Draw(target) => target,
        other => panic!("expected a draw action, got {}", action_name(&other)),
    };
    assert_eq!(target.width, 320);
    assert_eq!(cache_image_count(&mut renderer), 1);
    renderer.finish_frame(target);
    // The presented frame aged the caches once; with its age limit of one,
    // the untouched image entry survives that single pass.
    assert_eq!(cache_image_count(&mut renderer), 1);
    // One more presented frame ages it out.
    let target = acquire_frame(&mut renderer);
    renderer.finish_frame(target);
    assert_eq!(cache_image_count(&mut renderer), 0);
}

#[test]
fn resize_to_same_size_keeps_surface_valid() {
    let mut renderer: WindowRenderer<u64> = WindowRenderer::new();
    renderer.resume(1024, 768);
    renderer.set_size(1024, 768);
    renderer.set_size(1024, 768);
    // The next frame acquires directly: no reconfiguration is asked for.
    assert!(matches!(renderer.begin_frame(), FrameAction::WaitFence));
    let action = renderer.frame_event(FrameEvent::FenceWaited);
    assert!(matches!(action, FrameAction::Acquire));
    let target = match renderer.frame_event(FrameEvent::Acquired) {
        FrameAction::Draw(target) => target,
        other => panic!("expected a draw action, got {}", action_name(&other)),
    };
    renderer.finish_frame(target);
}

#[test]
fn resize_reconfigures_on_next_frame() {
    let mut renderer: WindowRenderer<u64> = WindowRenderer::new();
    renderer.resume(100, 100);
    renderer.set_size(200, 150);
    assert!(matches!(renderer.begin_frame(), FrameAction::WaitFence));
    let action = renderer.frame_event(FrameEvent::FenceWaited);
    assert!(matches!(action, FrameAction::Reconfigure { width: 200, height: 150 }));
    let action = renderer.frame_event(FrameEvent::ReconfigureOk);
    assert!(matches!(action, FrameAction::Acquire));
    let target = match renderer.frame_event(FrameEvent::Acquired) {
        FrameAction::Draw(target) => target,
        other => panic!("expected a draw action, got {}", action_name(&other)),
    };
    assert_eq!(target.width, 200);
    assert_eq!(target.height, 150);
    renderer.finish_frame(target);
}

#[test]
fn out_of_date_surface_reconfigures_once_then_draws() {
    let mut renderer: WindowRenderer<u64> = WindowRenderer::new();
    renderer.resume(400, 300);
    assert!(matches!(renderer.begin_frame(), FrameAction::WaitFence));
    let action = renderer.frame_event(FrameEvent::FenceWaited);
    assert!(matches!(action, FrameAction::Acquire));
    let action = renderer.frame_event(FrameEvent::AcquireOutOfDate);
    assert!(matches!(action, FrameAction::Reconfigure { width: 400, height: 300 }));
    let action = renderer.frame_event(FrameEvent::ReconfigureOk);
    assert!(matches!(action, FrameAction::Acquire));
    let target = match renderer.frame_event(FrameEvent::Acquired) {
        FrameAction::Draw(target) => target,
        other => panic!("expected a draw action, got {}", action_name(&other)),
    };
    renderer.finish_frame(target);
}

#[test]
fn out_of_date_twice_gives_up_for_the_frame() {
    let mut renderer: WindowRenderer<u64> = WindowRenderer::new();
    renderer.resume(400, 300);
    assert!(matches!(renderer.begin_frame(), FrameAction::WaitFence));
    let action = renderer.frame_event(FrameEvent::FenceWaited);
    assert!(matches!(action, FrameAction::Acquire));
    let action = renderer.frame_event(FrameEvent::AcquireOutOfDate);
    assert!(matches!(action, FrameAction::Reconfigure { .. }));
    let action = renderer.frame_event(FrameEvent::ReconfigureOk);
    assert!(matches!(action, FrameAction::Acquire));
    // Out of date again after the frame's one reconfiguration: skip, do not
    // loop.
    let action = renderer.frame_event(FrameEvent::AcquireOutOfDate);
    assert!(matches!(action, FrameAction::SkipFrame));
    // The next frame starts over with a reconfiguration attempt.
    assert!(matches!(renderer.begin_frame(), FrameAction::WaitFence));
    let action = renderer.frame_event(FrameEvent::FenceWaited);
    assert!(matches!(action, FrameAction::Reconfigure { .. }));
    let action = renderer.frame_event(FrameEvent::ReconfigureOk);
    assert!(matches!(action, FrameAction::Acquire));
    let target = match renderer.frame_event(FrameEvent::Acquired) {
        FrameAction::Draw(target) => target,
        other => panic!("expected a draw action, got {}", action_name(&other)),
    };
    renderer.finish_frame(target);
}
