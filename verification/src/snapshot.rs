//! The snapshot store: a ring buffer of opaque serialized simulation
//! states keyed by frame number, sized to the rollback window.

use vstd::prelude::*;
use crate::player::SessionError;

verus! {

/// Ring buffer of serialized state snapshots, one per frame, holding at
/// most `window` consecutive frames; saving a new frame evicts the oldest
/// entry when full.  The blobs are opaque to the session.
pub struct SnapshotStore {
    window: usize,
    first: usize,
    blobs: Vec<Vec<u8>>,
}

impl SnapshotStore {
    /// The configured rollback window: how many frames are retained.
    pub closed spec fn window(self) -> usize {
        self.window
    }

    /// The oldest retained frame (meaningful only when nonempty).
    pub closed spec fn first_frame(self) -> usize {
        self.first
    }

    /// The retained blobs, oldest first; index `i` holds the snapshot of
    /// frame `first_frame() + i`.
    pub closed spec fn blobs(self) -> Seq<Seq<u8>> {
        self.blobs@.map(|i: int, b: Vec<u8>| b@)
    }

    /// The store never holds more than `window` snapshots, the retained
    /// frame numbers fit in `usize`, and the window is positive.
    pub open spec fn wf(self) -> bool {
        &&& self.window() >= 1
        &&& self.blobs().len() <= self.window()
        &&& self.first_frame() + self.blobs().len() <= usize::MAX
    }

    /// Whether a snapshot for `frame` is retained.
    pub open spec fn contains(self, frame: usize) -> bool {
        self.first_frame() <= frame < self.first_frame() + self.blobs().len()
    }

    /// The retained snapshot of `frame`.
    pub open spec fn blob_at(self, frame: usize) -> Seq<u8>
        recommends
            self.contains(frame),
    {
        self.blobs()[frame - self.first_frame()]
    }

    /// An empty store retaining at most `window` snapshots.
    pub fn new(window: usize) -> (r: SnapshotStore)
        requires
            window >= 1,
        ensures
            r.wf(),
            r.window() == window,
            r.blobs().len() == 0,
    {
        SnapshotStore { window, first: 0, blobs: Vec::new() }
    }

    /// Save the snapshot of a frame.  A retained frame is overwritten (a
    /// resimulated frame is re-snapshotted); the frame one past the newest
    /// is appended, evicting the oldest entry when the store is full.
    pub fn save(&mut self, frame: usize, blob: Vec<u8>)
        requires
            old(self).wf(),
            old(self).contains(frame) || (old(self).blobs().len() == 0 && frame < usize::MAX)
                || (old(self).blobs().len() > 0 && frame < usize::MAX
                && frame == old(self).first_frame() + old(self).blobs().len()),
        ensures
            final(self).wf(),
            final(self).window() == old(self).window(),
            final(self).contains(frame),
            final(self).blob_at(frame) == blob@,
            forall|f: usize|
                #[trigger] final(self).contains(f) && f != frame ==> old(self).contains(f)
                    && final(self).blob_at(f) == old(self).blob_at(f),
            forall|f: usize|
                old(self).contains(f) && f + final(self).window() > frame
                    ==> #[trigger] final(self).contains(f),
    {
        if self.blobs.len() == 0 {
            self.first = frame;
            self.blobs.push(blob);
        } else if frame < self.first + self.blobs.len() {
            let idx = frame - self.first;
            self.blobs[idx] = blob;
        } else {
            self.blobs.push(blob);
            if self.blobs.len() > self.window {
                self.blobs.remove(0);
                self.first = self.first + 1;
            }
        }
        proof {
            assert(final(self).blobs() =~= final(self).blobs());
        }
    }

    /// Load the retained snapshot of a frame.  Exactly the frames still in
    /// the ring succeed; an evicted or never-saved frame fails with
    /// `SnapshotUnavailable` and never yields stale data.
    pub fn load(&self, frame: usize) -> (r: Result<Vec<u8>, SessionError>)
        requires
            self.wf(),
        ensures
            self.contains(frame) ==> r is Ok && r->Ok_0@ == self.blob_at(frame),
            !self.contains(frame) ==> r == Err::<Vec<u8>, SessionError>(
                SessionError::SnapshotUnavailable,
            ),
    {
        if self.blobs.len() > 0 && frame >= self.first && frame - self.first < self.blobs.len() {
            let idx = frame - self.first;
            Ok(self.blobs[idx].clone())
        } else {
            Err(SessionError::SnapshotUnavailable)
        }
    }

    /// The newest retained frame (meaningful only when nonempty).
    pub open spec fn newest_frame(self) -> int {
        self.first_frame() + self.blobs().len() - 1
    }

    /// Boundary law: a frame older than the rollback window — more than
    /// `window` frames behind the newest retained frame — is never
    /// retained, so loading it always fails rather than returning stale
    /// data.
    pub proof fn lemma_old_frame_not_retained(self, frame: usize)
        requires
            self.wf(),
            self.blobs().len() > 0,
            frame + self.window() < self.first_frame() + self.blobs().len(),
        ensures
            !self.contains(frame),
    {
    }
}

} // verus!
