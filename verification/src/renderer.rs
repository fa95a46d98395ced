//! The frame lifecycle state machine.
//!
//! A [`WindowRenderer`] is either `Suspended` or holds one live session: a
//! backend bound to a window surface, paired with the session's
//! [`SceneCache`]. The embedding program performs the actual graphics API
//! calls — waiting on the in-flight fence, reconfiguring the swapchain,
//! acquiring an image, submitting and presenting — and drives this state
//! machine with their outcomes. The machine decides what to do next and
//! enforces the per-frame ordering contract:
//!
//! wait for fence → (reconfigure if the surface is invalid) → acquire →
//! draw → submit and present → age the caches.
//!
//! A surface becomes invalid when the window is resized or when
//! acquisition reports it out of date; each frame attempts at most one
//! reconfiguration before giving up, so a persistently invalid surface — a
//! minimized window, say — degrades to skipped frames rather than a spin
//! or a panic. A skipped frame leaves the caches untouched: entries age
//! only on frames that actually render.

use vstd::prelude::*;

use crate::num::wrap_inc_spec;
use crate::scene_cache::SceneCache;

verus! {

/// Whether the presentable surface matches the window: `Invalid` means the
/// next frame must reconfigure it before acquiring an image.
pub enum SurfaceStatus {
    Valid,
    Invalid,
}

/// The decision state a backend keeps about its presentable surface: the
/// size the window asked for, and whether the surface still matches it.
pub struct BackendControl {
    surface_width: u32,
    surface_height: u32,
    surface: SurfaceStatus,
}

impl BackendControl {
    /// The width the surface is or will be configured to.
    pub closed spec fn width(self) -> u32 {
        self.surface_width
    }

    /// The height the surface is or will be configured to.
    pub closed spec fn height(self) -> u32 {
        self.surface_height
    }

    /// Whether the surface can be acquired from without reconfiguration.
    pub closed spec fn surface_valid(self) -> bool {
        self.surface is Valid
    }

    /// The state of a backend that was just created at the given size, its
    /// surface freshly configured.
    pub fn new(width: u32, height: u32) -> (r: Self)
        ensures
            r.width() == width,
            r.height() == height,
            r.surface_valid(),
    {
        BackendControl {
            surface_width: width,
            surface_height: height,
            surface: SurfaceStatus::Valid,
        }
    }

    /// Records a resize. A changed size only marks the surface as needing
    /// reconfiguration — recreating it is deferred to the next frame, which
    /// must first wait out any in-flight work. An unchanged size changes
    /// nothing, so repeated resizes to the current size are free.
    pub fn set_size(&mut self, width: u32, height: u32)
        ensures
            final(self).width() == width,
            final(self).height() == height,
            (width == old(self).width() && height == old(self).height()) ==> *final(self)
                == *old(self),
            (width != old(self).width() || height != old(self).height())
                ==> !final(self).surface_valid(),
    {
        if width != self.surface_width || height != self.surface_height {
            self.surface_width = width;
            self.surface_height = height;
            self.surface = SurfaceStatus::Invalid;
        }
    }
}

/// Where within one frame the state machine stands.
pub enum FrameStage {
    /// No frame is in progress.
    Idle,
    /// Waiting for the embedder to wait out and reset the in-flight fence.
    AwaitFence,
    /// Waiting for the embedder to reconfigure the surface at the current
    /// size.
    AwaitReconfigure,
    /// Waiting for the embedder to acquire a drawable image;
    /// `reconfigured` records whether this frame already spent its one
    /// reconfiguration attempt.
    AwaitAcquire { reconfigured: bool },
    /// A drawable target is out with the caller; the frame ends when it is
    /// handed back to [`WindowRenderer::finish_frame`].
    Drawing,
}

/// What the embedder reports back to the state machine.
pub enum FrameEvent {
    /// The in-flight fence was waited on and reset.
    FenceWaited,
    /// The surface was reconfigured at the requested size.
    ReconfigureOk,
    /// The surface could not be reconfigured this frame.
    ReconfigureFailed,
    /// A drawable image was acquired.
    Acquired,
    /// Acquisition reported the surface out of date.
    AcquireOutOfDate,
}

/// A handle to the drawable surface of exactly one frame. It is created
/// only by the state machine, must be consumed by
/// [`WindowRenderer::finish_frame`] before the next frame can begin, and is
/// rejected there if it outlived its frame or its session.
pub struct DrawableTarget {
    /// The frame this target was acquired for: the state machine stamps it
    /// with the renderer's frame counter.
    pub frame_id: u64,
    /// The drawable's width in pixels.
    pub width: u32,
    /// The drawable's height in pixels.
    pub height: u32,
}

impl DrawableTarget {
    /// The frame this target was acquired for.
    pub open spec fn frame(self) -> u64 {
        self.frame_id
    }
}

/// What the embedder must do next.
pub enum FrameAction {
    /// Skip this frame entirely: do not draw, do not present, leave the
    /// caches as they are.
    SkipFrame,
    /// Wait for the previous frame's fence, then reset it.
    WaitFence,
    /// Recreate the presentable surface at the given size.
    Reconfigure { width: u32, height: u32 },
    /// Acquire the next drawable image from the surface.
    Acquire,
    /// Record the frame's drawing against this target, then hand it to
    /// [`WindowRenderer::finish_frame`].
    Draw(DrawableTarget),
}

/// One live session: a backend bound to a window, the session's resource
/// caches, and the position within the current frame.
pub struct ActiveRenderState<T> {
    /// The backend's surface decision state.
    pub backend: BackendControl,
    /// The session's resource caches; the drawing layer populates them
    /// while a frame's target is out.
    pub cache: SceneCache<T>,
    /// Where within the current frame the session stands.
    pub stage: FrameStage,
}

/// Whether a window is attached: the top-level state of the renderer.
pub enum RenderState<T> {
    Active(ActiveRenderState<T>),
    Suspended,
}

/// The frame lifecycle driver. `T` is the embedder's handle type for
/// cached, backend-owned resources.
pub struct WindowRenderer<T> {
    /// The current session, if a window is attached.
    pub render_state: RenderState<T>,
    /// The number of frames ever begun, across all sessions.
    pub frame_counter: u64,
}

impl<T> WindowRenderer<T> {
    /// The number of frames ever begun, across all sessions; drawable
    /// targets are stamped with it.
    pub open spec fn frames_begun(self) -> u64 {
        self.frame_counter
    }

    /// The current session.
    pub open spec fn session(self) -> ActiveRenderState<T>
        recommends
            self.render_state is Active,
    {
        self.render_state->Active_0
    }

    /// The renderer's caches are well-formed whenever a session exists.
    pub open spec fn wf(self) -> bool {
        self.render_state is Active ==> self.session().cache.wf()
    }

    /// A renderer with no window attached.
    pub fn new() -> (r: Self)
        ensures
            r.wf(),
            r.render_state is Suspended,
            r.frames_begun() == 0,
    {
        WindowRenderer { render_state: RenderState::Suspended, frame_counter: 0 }
    }

    /// Whether a session is live.
    pub fn is_active(&self) -> (r: bool)
        ensures
            r <==> self.render_state is Active,
    {
        match &self.render_state {
            RenderState::Active(_) => true,
            RenderState::Suspended => false,
        }
    }

    /// Attaches to a window: builds a fresh backend at the given size and a
    /// fresh, empty scene cache. Any previous session is dropped first —
    /// this is also how the backend kind is swapped at runtime. The
    /// embedder performs the backend's device and surface setup before
    /// calling this; a setup that cannot complete is its hard failure to
    /// report, since no degraded session exists to fall back to.
    pub fn resume(&mut self, width: u32, height: u32)
        ensures
            final(self).wf(),
            final(self).render_state is Active,
            final(self).session().backend.width() == width,
            final(self).session().backend.height() == height,
            final(self).session().backend.surface_valid(),
            final(self).session().cache.fresh_spec(),
            final(self).session().stage is Idle,
            final(self).frames_begun() == old(self).frames_begun(),
    {
        self.render_state = RenderState::Active(
            ActiveRenderState {
                backend: BackendControl::new(width, height),
                cache: SceneCache::new(),
                stage: FrameStage::Idle,
            },
        );
    }

    /// Detaches from the window, dropping the backend and every cached
    /// resource with it. Calling it while already suspended changes
    /// nothing.
    pub fn suspend(&mut self)
        ensures
            final(self).wf(),
            final(self).render_state is Suspended,
            final(self).frames_begun() == old(self).frames_begun(),
            old(self).render_state is Suspended ==> *final(self) == *old(self),
    {
        self.render_state = RenderState::Suspended;
    }

    /// Forwards a resize to the live session's backend; with no session it
    /// changes nothing. The caches and the frame position are untouched.
    pub fn set_size(&mut self, width: u32, height: u32)
        requires
            old(self).wf(),
        ensures
            final(self).wf(),
            final(self).frames_begun() == old(self).frames_begun(),
            old(self).render_state is Suspended ==> *final(self) == *old(self),
            old(self).render_state is Active ==> {
                &&& final(self).render_state is Active
                &&& final(self).session().cache == old(self).session().cache
                &&& final(self).session().stage == old(self).session().stage
                &&& final(self).session().backend.width() == width
                &&& final(self).session().backend.height() == height
                &&& (width == old(self).session().backend.width() && height == old(self).session().backend.height())
                    ==> *final(self) == *old(self)
                &&& (width != old(self).session().backend.width() || height != old(self).session().backend.height())
                    ==> !final(self).session().backend.surface_valid()
            },
    {
        match &mut self.render_state {
            RenderState::Active(state) => {
                state.backend.set_size(width, height);
            },
            RenderState::Suspended => {},
        }
    }

    /// Opens a frame. With no session the frame is skipped. Otherwise the
    /// embedder is asked to wait out the in-flight fence first: with one
    /// frame in flight, the GPU may still be rendering the previous frame,
    /// and nothing of this frame may start before that work is known
    /// complete.
    pub fn begin_frame(&mut self) -> (r: FrameAction)
        requires
            old(self).wf(),
            old(self).render_state is Active ==> old(self).session().stage is Idle,
        ensures
            final(self).wf(),
            old(self).render_state is Suspended ==> (*final(self) == *old(self)
                && r is SkipFrame),
            old(self).render_state is Active ==> {
                &&& r is WaitFence
                &&& final(self).render_state is Active
                &&& final(self).session().stage is AwaitFence
                &&& final(self).session().backend == old(self).session().backend
                &&& final(self).session().cache == old(self).session().cache
                &&& final(self).frames_begun() == wrap_inc_spec(old(self).frames_begun())
            },
    {
        match &mut self.render_state {
            RenderState::Active(state) => {
                state.stage = FrameStage::AwaitFence;
                self.frame_counter = crate::num::wrap_add_u64(self.frame_counter, 1);
                FrameAction::WaitFence
            },
            RenderState::Suspended => FrameAction::SkipFrame,
        }
    }

    /// Which event each stage is waiting for.
    pub open spec fn stage_expects(stage: FrameStage, event: FrameEvent) -> bool {
        match stage {
            FrameStage::AwaitFence => event is FenceWaited,
            FrameStage::AwaitReconfigure => event is ReconfigureOk || event is ReconfigureFailed,
            FrameStage::AwaitAcquire { .. } => event is Acquired || event is AcquireOutOfDate,
            _ => false,
        }
    }

    /// Feeds the outcome of the action the machine last asked for, and
    /// returns the next action. The caches are never touched here — a
    /// frame that ends in `SkipFrame` leaves every cached entry exactly as
    /// it was, at its current age.
    ///
    /// The surface transitions are: acquisition reporting the surface out
    /// of date marks it invalid; a successful reconfiguration makes it
    /// valid again. Each frame attempts at most one reconfiguration: a
    /// frame that has already reconfigured gives up on the next
    /// out-of-date report and skips, and a frame whose reconfiguration
    /// failed skips at once.
    pub fn frame_event(&mut self, event: FrameEvent) -> (r: FrameAction)
        requires
            old(self).wf(),
            old(self).render_state is Active,
            Self::stage_expects(old(self).session().stage, event),
        ensures
            final(self).wf(),
            final(self).render_state is Active,
            final(self).session().cache == old(self).session().cache,
            final(self).session().backend.width() == old(self).session().backend.width(),
            final(self).session().backend.height() == old(self).session().backend.height(),
            final(self).frames_begun() == old(self).frames_begun(),
            old(self).session().stage is AwaitFence ==> {
                &&& final(self).session().backend == old(self).session().backend
                &&& if old(self).session().backend.surface_valid() {
                    r is Acquire && final(self).session().stage == (FrameStage::AwaitAcquire {
                        reconfigured: false,
                    })
                } else {
                    (r == (FrameAction::Reconfigure {
                        width: old(self).session().backend.width(),
                        height: old(self).session().backend.height(),
                    })) && final(self).session().stage is AwaitReconfigure
                }
            },
            old(self).session().stage is AwaitReconfigure ==> if event is ReconfigureOk {
                &&& final(self).session().backend.surface_valid()
                &&& r is Acquire
                &&& final(self).session().stage == (FrameStage::AwaitAcquire {
                    reconfigured: true,
                })
            } else {
                &&& final(self).session().backend == old(self).session().backend
                &&& r is SkipFrame
                &&& final(self).session().stage is Idle
            },
            old(self).session().stage is AwaitAcquire ==> if event is Acquired {
                &&& final(self).session().backend == old(self).session().backend
                &&& final(self).session().stage is Drawing
                &&& r matches FrameAction::Draw(t) && t.frame() == final(self).frames_begun()
                    && t.width == old(self).session().backend.width()
                    && t.height == old(self).session().backend.height()
            } else {
                &&& !final(self).session().backend.surface_valid()
                &&& if old(self).session().stage->AwaitAcquire_reconfigured {
                    r is SkipFrame && final(self).session().stage is Idle
                } else {
                    (r == (FrameAction::Reconfigure {
                        width: old(self).session().backend.width(),
                        height: old(self).session().backend.height(),
                    })) && final(self).session().stage is AwaitReconfigure
                }
            },
    {
        let frame_id = self.frame_counter;
        match &mut self.render_state {
            RenderState::Active(state) => {
                match state.stage {
                    FrameStage::AwaitFence => {
                        match state.backend.surface {
                            SurfaceStatus::Valid => {
                                state.stage = FrameStage::AwaitAcquire { reconfigured: false };
                                FrameAction::Acquire
                            },
                            SurfaceStatus::Invalid => {
                                state.stage = FrameStage::AwaitReconfigure;
                                FrameAction::Reconfigure {
                                    width: state.backend.surface_width,
                                    height: state.backend.surface_height,
                                }
                            },
                        }
                    },
                    FrameStage::AwaitReconfigure => {
                        match event {
                            FrameEvent::ReconfigureOk => {
                                state.backend.surface = SurfaceStatus::Valid;
                                state.stage = FrameStage::AwaitAcquire { reconfigured: true };
                                FrameAction::Acquire
                            },
                            _ => {
                                state.stage = FrameStage::Idle;
                                FrameAction::SkipFrame
                            },
                        }
                    },
                    FrameStage::AwaitAcquire { reconfigured } => {
                        match event {
                            FrameEvent::Acquired => {
                                state.stage = FrameStage::Drawing;
                                FrameAction::Draw(
                                    DrawableTarget {
                                        frame_id,
                                        width: state.backend.surface_width,
                                        height: state.backend.surface_height,
                                    },
                                )
                            },
                            _ => {
                                state.backend.surface = SurfaceStatus::Invalid;
                                if reconfigured {
                                    state.stage = FrameStage::Idle;
                                    FrameAction::SkipFrame
                                } else {
                                    state.stage = FrameStage::AwaitReconfigure;
                                    FrameAction::Reconfigure {
                                        width: state.backend.surface_width,
                                        height: state.backend.surface_height,
                                    }
                                }
                            },
                        }
                    },
                    _ => {
                        // Unreachable: no other stage satisfies the precondition.
                        FrameAction::SkipFrame
                    },
                }
            },
            RenderState::Suspended => FrameAction::SkipFrame,
        }
    }

    /// Closes the frame whose target this is: the embedder submits the
    /// recorded work — the submission waits on the image-available
    /// semaphore and signals both the render-finished semaphore and the
    /// in-flight fence — and presents, and the session's caches age by one
    /// generation. Exactly the frames that reach this call age the caches;
    /// a target from an earlier frame or an earlier session is rejected by
    /// the precondition.
    pub fn finish_frame(&mut self, target: DrawableTarget)
        requires
            old(self).wf(),
            old(self).render_state is Active,
            old(self).session().stage is Drawing,
            target.frame() == old(self).frames_begun(),
        ensures
            final(self).wf(),
            final(self).render_state is Active,
            final(self).session().stage is Idle,
            final(self).session().backend == old(self).session().backend,
            final(self).frames_begun() == old(self).frames_begun(),
            SceneCache::advanced_from(final(self).session().cache, old(self).session().cache),
    {
        match &mut self.render_state {
            RenderState::Active(state) => {
                state.cache.advance_generation();
                state.stage = FrameStage::Idle;
            },
            RenderState::Suspended => {},
        }
    }
}

impl<T> Default for WindowRenderer<T> {
    /// A renderer with no window attached.
    fn default() -> (r: Self)
        ensures
            r.wf(),
            r.render_state is Suspended,
            r.frames_begun() == 0,
    {
        WindowRenderer::new()
    }
}

} // verus!
