//! Frame pacing and GPU resource ring.
//!
//! A render loop reuses a fixed ring of per-frame resource slots (command
//! context, descriptor binding set, upload buffers) while up to `F`
//! submissions are still executing on the device. This crate models that
//! protocol: slot selection by frame counter, the acquire-semaphore
//! rotation, fence-gated reuse of a slot's resources, and the teardown and
//! rebuild of the presentable-surface chain on resize. Device objects are
//! represented by plain integer handles; the driver that owns the real
//! device performs each requested action and reports its outcome back as an
//! event.

pub mod backenderror;
pub mod chain;
pub mod frame;
pub mod handles;
pub mod ring;
pub mod sched;
pub mod sync_ring;
pub mod upload;

pub use backenderror::BackendError;
pub use chain::PresentChain;
pub use frame::Frame;
pub use sched::FrameScheduler;
pub use sync_ring::SyncRing;
pub use upload::UploadBuffer;
