//! A verified core for a retained-mode 2D rendering front end.
//!
//! The crate models the two subsystems every rendering backend must get
//! right, independent of the graphics API it talks to:
//!
//! * a generation-tagged resource cache that keeps expensive backend-owned
//!   resources alive across frames without growing without bound, and
//! * the frame lifecycle state machine that governs backend attachment,
//!   drawable acquisition, presentation and per-frame cache aging.
//!
//! The actual graphics API calls (surface creation, fence waits, image
//! acquisition, queue submission) are performed by the embedding program,
//! which drives the state machines here and reports each outcome back.

pub mod buffer_layout;
pub mod cache;
pub mod keys;
pub mod num;
pub mod profiler;
pub mod renderer;
pub mod scene_cache;
