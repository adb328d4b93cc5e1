//! Explicit cancellation of long-running operations.
//!
//! A [`CancelContext`] is passed down the call chain; whoever may cancel
//! (a Ctrl-C handler, a test) holds the shared flag it watches.
use crate::error::{is_io_kind, Error, IoErrorKind};
use std::sync::atomic::AtomicBool;
use std::sync::Arc;
use vstd::prelude::*;

verus! {

/// Explicit cancellation context for long-running library operations.
pub struct CancelContext {
    flag: Option<Arc<AtomicBool>>,
}

impl CancelContext {
    /// Whether this context can ever report cancellation.
    pub closed spec fn watches(self) -> bool {
        self.flag is Some
    }

    /// A context that reports cancellation whenever `flag` is set.
    pub fn new(flag: Arc<AtomicBool>) -> (r: CancelContext)
        ensures
            r.watches(),
    {
        CancelContext { flag: Some(flag) }
    }

    /// A context that never reports cancellation.
    pub fn none() -> (r: CancelContext)
        ensures
            !r.watches(),
    {
        CancelContext { flag: None }
    }

    /// Whether cancellation has been requested; never for a context made
    /// with [`CancelContext::none`].
    pub fn is_cancelled(&self) -> (r: bool)
        ensures
            !self.watches() ==> !r,
    {
        match &self.flag {
            Some(f) => f.load(std::sync::atomic::Ordering::SeqCst),
            None => false,
        }
    }

    /// `Err` with an I/O error of kind `Interrupted` if cancellation has
    /// been requested, else `Ok` (see [`cancel_outcome`] for the reading of
    /// the flag).
    pub fn check(&self) -> (r: Result<(), Error>)
        ensures
            !self.watches() ==> r is Ok,
            r matches Err(e) ==> is_io_kind(e, IoErrorKind::Interrupted),
    {
        cancel_outcome(self.is_cancelled())
    }
}

/// What a check of cancellation answers for one reading of the flag:
/// `Err` with an I/O error of kind `Interrupted` when cancellation was
/// requested, else `Ok`.
pub fn cancel_outcome(cancelled: bool) -> (r: Result<(), Error>)
    ensures
        r is Err <==> cancelled,
        r matches Err(e) ==> is_io_kind(e, IoErrorKind::Interrupted),
{
    if cancelled {
        return Err(Error::interrupted());
    }
    Ok(())
}

/// Another handle to the same flag, through std's `Arc::clone`. Nothing
/// is claimed of the result: the shared flag is opaque to the proofs.
#[verifier::external_body]
fn share_flag(f: &Arc<AtomicBool>) -> Arc<AtomicBool> {
    Arc::clone(f)
}

impl Clone for CancelContext {
    /// A context that watches the same flag (none for a context that
    /// watches none).
    fn clone(&self) -> (r: CancelContext)
        ensures
            r.watches() == self.watches(),
    {
        match &self.flag {
            Some(f) => CancelContext { flag: Some(share_flag(f)) },
            None => CancelContext { flag: None },
        }
    }
}

impl Default for CancelContext {
    /// A context that never reports cancellation.
    fn default() -> (r: CancelContext)
        ensures
            !r.watches(),
    {
        CancelContext::none()
    }
}

} // verus!
