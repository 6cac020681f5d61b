//! The synchronization reducer: a working copy of one stored record (a
//! volume, or one page's OCR row) together with the *sentinel* that keeps
//! the load of a record from being mistaken for an edit of it.
//!
//! The holder mounts for a key, loads the record into the reducer, and
//! thereafter runs one synchronization pass after every state change. The
//! first pass after a load — the render that the load itself causes — only
//! arms the sentinel and persists nothing; every later pass persists the
//! held record. Without the sentinel, loading a record would immediately
//! write it back verbatim, doubling storage traffic and racing the load
//! against the first real write.

use vstd::prelude::*;

verus! {

/// The working copy of one stored record, keyed by `K`.
pub struct Syncer<K, R> {
    /// The held key and record, once one was loaded.
    pub current: Option<(K, R)>,
    /// False until the render that follows a load has passed; a pass with
    /// the sentinel down persists nothing.
    pub sentinel: bool,
}

/// The reducer after a record is loaded for `key`: the record is held and
/// the sentinel is down — a load is not an edit.
pub open spec fn spec_loaded<K, R>(key: K, record: R) -> Syncer<K, R> {
    Syncer { current: Some((key, record)), sentinel: false }
}

/// The reducer after a local mutation: the held record is replaced, the key
/// and the sentinel stand.
pub open spec fn spec_applied<K, R>(s: Syncer<K, R>, record: R) -> Syncer<K, R> {
    Syncer { current: Some((s.current.unwrap().0, record)), sentinel: s.sentinel }
}

/// One synchronization pass: with the sentinel down it only arms it; with
/// the sentinel up the held record is to be persisted.
pub open spec fn spec_pass<K, R>(s: Syncer<K, R>) -> (Syncer<K, R>, bool) {
    if !s.sentinel {
        (Syncer { current: s.current, sentinel: true }, false)
    } else {
        (s, true)
    }
}

impl<K, R> Syncer<K, R> {
    /// An empty reducer: nothing held, nothing to suppress.
    pub fn new() -> (s: Syncer<K, R>)
        ensures
            s.current is None,
            !s.sentinel,
    {
        Syncer { current: None, sentinel: false }
    }

    /// Load the record fetched for `key`, replacing whatever was held, and
    /// lower the sentinel: the state change this causes must not be
    /// written back.
    pub fn set_loaded(&mut self, key: K, record: R)
        ensures
            *final(self) == spec_loaded(key, record),
    {
        self.current = Some((key, record));
        self.sentinel = false;
    }

    /// Apply a local mutation: replace the held record under its key. The
    /// write happens on the next synchronization pass, never here.
    pub fn apply(&mut self, record: R)
        requires
            old(self).current is Some,
        ensures
            *final(self) == spec_applied(*old(self), record),
    {
        let mut taken: Option<(K, R)> = None;
        core::mem::swap(&mut taken, &mut self.current);
        match taken {
            Some((key, _)) => {
                self.current = Some((key, record));
            }
            None => {
                proof {
                    assert(false);
                }
            }
        }
    }

    /// One synchronization pass, run after every state change: says whether
    /// the held record must now be persisted. The pass right after a load
    /// answers no and arms the sentinel; every later pass answers yes.
    pub fn sync_pass(&mut self) -> (write: bool)
        ensures
            (*final(self), write) == spec_pass(*old(self)),
            !old(self).sentinel ==> !write && final(self).sentinel && final(self).current == old(
                self,
            ).current,
            old(self).sentinel ==> write && *final(self) == *old(self),
    {
        if !self.sentinel {
            self.sentinel = true;
            false
        } else {
            true
        }
    }

    /// Whether the reducer holds a record under the given condition; the
    /// holder compares keys and reloads on a mismatch.
    pub fn holds(&self) -> (b: bool)
        ensures
            b == (self.current is Some),
    {
        self.current.is_some()
    }
}

/// Loading a record and then re-rendering without any edit persists
/// nothing: the one pass that follows the load arms the sentinel and
/// answers no. An edit then causes exactly one write, and it carries the
/// edited record — not the value the load brought.
pub proof fn lemma_sentinel_correctness<K, R>(key: K, loaded: R, edited: R)
    ensures
        ({
            let s0 = spec_loaded::<K, R>(key, loaded);
            let (s1, w1) = spec_pass(s0);
            let s2 = spec_applied(s1, edited);
            let (s3, w3) = spec_pass(s2);
            &&& !w1
            &&& w3
            &&& s3.current == Some((key, edited))
        }),
{
}

} // verus!
