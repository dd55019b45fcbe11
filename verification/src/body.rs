//! The one-shot body source.
//!
//! An inbound request's body can be read in full at most once: reading it is
//! destructive. [`BodySource`] models that resource explicitly as a two-state
//! value, so that a second drain attempt fails with a state error instead of
//! silently returning empty bytes.

use vstd::prelude::*;

verus! {

/// Why a drain attempt did not yield bytes.
#[derive(Debug, PartialEq, Eq)]
pub enum DrainError {
    /// The underlying transport failed while the body was being read;
    /// carries the underlying cause.
    Failed(String),
    /// The source was already drained once; no second read is permitted.
    AlreadyConsumed,
}

/// A request body source that permits at most one full-drain read.
///
/// `Ready` and `Broken` describe an untouched source: draining it will yield
/// the buffered bytes, or fail with the recorded transport error. Either way
/// the source then becomes `Consumed`, and every later drain attempt returns
/// `DrainError::AlreadyConsumed`.
pub enum BodySource {
    /// Untouched; draining yields these bytes.
    Ready(Vec<u8>),
    /// Untouched; draining fails with this transport error message.
    Broken(String),
    /// Already drained once; no bytes remain anywhere.
    Consumed,
}

impl BodySource {
    /// Read the full body out of the source, destructively.
    ///
    /// Succeeds exactly once, on a `Ready` source; afterwards the source is
    /// `Consumed` and stays so. A `Broken` source reports its transport
    /// error and is consumed as well, and a `Consumed` source always fails
    /// with the state error `AlreadyConsumed`.
    pub fn drain(&mut self) -> (r: Result<Vec<u8>, DrainError>)
        ensures
            *final(self) is Consumed,
            *old(self) matches BodySource::Ready(b) ==> (r matches Ok(rb) && rb == b),
            *old(self) matches BodySource::Broken(m)
                ==> (r matches Err(DrainError::Failed(rm)) && rm == m),
            *old(self) is Consumed ==> (r matches Err(e) && e == DrainError::AlreadyConsumed),
    {
        let mut taken = BodySource::Consumed;
        core::mem::swap(self, &mut taken);
        match taken {
            BodySource::Ready(bytes) => Ok(bytes),
            BodySource::Broken(message) => Err(DrainError::Failed(message)),
            BodySource::Consumed => Err(DrainError::AlreadyConsumed),
        }
    }
}

} // verus!
