//! A framework for building Kubernetes controllers in the "functional core,
//! imperative shell" (sans-I/O) style.
//!
//! Instead of performing I/O during reconciliation, a controller returns a
//! [`ReconcileResult`] describing the effects to perform. The shell applies
//! them in the order that an [`Execution`] dictates, and requeues as
//! [`requeue_to_action`] says.
//!
//! - [`result`]: the [`ReconcileResult`] type and its parts
//!   ([`RequeueDecision`], [`ResourceDelete`], [`ReconcileEvent`]).
//! - [`snapshot`]: the [`Snapshot`] trait and the stores from which
//!   snapshots are built.
//! - [`executor`]: the order in which effects are applied, and the requeue
//!   action.
//! - [`testing`]: executors for tests ([`testing::RecordingExecutor`],
//!   [`testing::FailingExecutor`]).
pub mod executor;
pub mod result;
pub mod snapshot;
pub mod testing;

pub use executor::{requeue_delay, requeue_to_action, Effect, Execution, Outcome, Step};
pub use result::{
    Duration, EventSeverity, ReconcileEvent, ReconcileResult, RequeueDecision, ResourceDelete,
};
pub use snapshot::{ClusterStore, NamespacedStore, Snapshot};
