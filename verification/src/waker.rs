//! Wakers built from reference-counted values.
use vstd::prelude::*;

verus! {

/// A way of waking up a specific task.
///
/// By implementing this trait, types that are expected to be wrapped in an
/// `Arc` can be converted into `Waker` objects. Those wakers can be used to
/// signal executors that a task it owns is ready to be polled again.
pub trait ArcWake: Send + Sync {
    /// Indicates that the associated task is ready to make progress and
    /// should be polled.
    ///
    /// This function can be called from an arbitrary thread, including
    /// threads which did not create the `ArcWake` based `Waker`.
    ///
    /// Executors generally maintain a queue of "ready" tasks; `wake` should
    /// place the associated task onto this queue.
    ///
    /// By default, `wake` has the effect of one call of `wake_by_ref` on the
    /// same `Arc`.
    fn wake(self: std::sync::Arc<Self>)
        default_ensures
            call_ensures(Self::wake_by_ref, (&self,), ()),
    {
        Self::wake_by_ref(&self)
    }

    /// Indicates that the associated task is ready to make progress and
    /// should be polled.
    ///
    /// This function is similar to `wake`, but must not consume the provided
    /// data pointer.
    fn wake_by_ref(arc_self: &std::sync::Arc<Self>);
}

} // verus!
