//! A texture store shared between one refining writer and any number of
//! display readers.
//!
//! The store wraps the texture in a reader/writer lock whose invariant is
//! the texture's well-formedness, so every snapshot a reader takes comes
//! from a state that existed as a whole at some instant: the side and the
//! buffer length always agree, and a swap — applied under the write lock
//! as one mutation — is never observed half done.

use vstd::prelude::*;
use vstd::rwlock::{RwLock, RwLockPredicate};
use crate::color::ColorMode;
use crate::texture::{NoiseError, NoiseTexture};

verus! {

/// The lock invariant: the stored texture is well-formed.
pub struct WfTexture;

impl RwLockPredicate<NoiseTexture> for WfTexture {
    open spec fn inv(self, t: NoiseTexture) -> bool {
        t.wf()
    }
}

/// A noise texture behind a reader/writer lock; all access goes through
/// the methods below, each of which holds the lock only for the duration
/// of one texture operation.
pub struct SharedTexture {
    lock: RwLock<NoiseTexture, WfTexture>,
}

impl SharedTexture {
    /// Creates a shared store around a zeroed texture of side `size`.
    /// A side below 2 is rejected.
    pub fn new(size: usize) -> (r: Result<SharedTexture, NoiseError>)
        requires
            3 * (size * size) <= usize::MAX,
        ensures
            size < 2 ==> (r matches Err(e) && e == NoiseError::InvalidSize),
            size >= 2 ==> r is Ok,
    {
        match NoiseTexture::new(size) {
            Ok(t) => Ok(SharedTexture { lock: RwLock::new(t, Ghost(WfTexture)) }),
            Err(e) => Err(e),
        }
    }

    /// A consistent copy of the store for display: the returned buffer
    /// belongs to the returned side, whatever other threads do around
    /// this call. Blocks only while a writer holds the lock.
    pub fn snapshot(&self) -> (r: (usize, Vec<u8>))
        ensures
            2 <= r.0,
            r.1@.len() == 3 * (r.0 * r.0),
    {
        let handle = self.lock.acquire_read();
        let r = handle.borrow().snapshot();
        handle.release_read();
        r
    }

    /// Scrambles the stored texture to white noise under the write lock.
    pub fn scramble(&self, mode: &ColorMode) {
        let (mut t, handle) = self.lock.acquire_write();
        t.scramble(mode);
        handle.release_write(t);
    }

    /// Re-shapes the stored texture under the write lock: side and buffer
    /// change together, so no reader can see them disagree. A side below
    /// 2 is rejected and leaves the texture unchanged. The caller must
    /// not resize while a refinement run is active; see
    /// [`crate::engine::RunControl::check_resize`].
    pub fn resize(&self, size: usize) -> (r: Result<(), NoiseError>)
        requires
            3 * (size * size) <= usize::MAX,
        ensures
            size < 2 ==> (r matches Err(e) && e == NoiseError::InvalidSize),
            size >= 2 ==> r is Ok,
    {
        let (mut t, handle) = self.lock.acquire_write();
        let r = t.resize(size);
        handle.release_write(t);
        r
    }

    /// A private working copy of the stored texture for a refinement run
    /// to evaluate candidate swaps on, taken under the read lock.
    pub fn working_copy(&self) -> (t: NoiseTexture)
        ensures
            t.wf(),
    {
        let handle = self.lock.acquire_read();
        let t = handle.borrow().duplicate();
        handle.release_read();
        t
    }

    /// Commits an accepted swap into the shared texture as one atomic
    /// mutation under the write lock. Returns whether the pair was within
    /// the texture's current grid — a run's pixel indices can be stale if
    /// the texture was replaced under it, and a stale pair is skipped
    /// rather than applied to the wrong grid.
    pub fn commit_swap(&self, first: usize, second: usize) -> (applied: bool) {
        let (mut t, handle) = self.lock.acquire_write();
        let side = t.size();
        let n = side * side;
        let applied = if first < n && second < n {
            t.swap(first, second);
            true
        } else {
            false
        };
        handle.release_write(t);
        applied
    }
}

} // verus!
