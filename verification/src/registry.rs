//! Registry of staging-directory handles.
//!
//! Every staging directory a worker creates is registered here.  A handle
//! leaves the registry exactly once: either through `remove_now`, right
//! after the owning job is done with a transient directory, or through the
//! final `sweep` once all jobs have finished.  The registry never hands the
//! same handle out twice, so no directory is ever deleted twice; after the
//! sweep nothing is left pending.  The driver holds the registry behind a
//! lock and performs the actual directory deletions.

use vstd::prelude::*;
use crate::text::strings_equal;

verus! {

/// Paths of a sequence of handles.
pub open spec fn path_views(s: Seq<String>) -> Seq<Seq<char>> {
    s.map_values(|x: String| x@)
}

/// No two entries carry the same path.
pub open spec fn distinct_paths(s: Seq<Seq<char>>) -> bool {
    forall|i: int, j: int| 0 <= i < j < s.len() ==> s[i] != s[j]
}

/// Registry of staging directories pending removal, together with those
/// already handed out for removal.
pub struct TempRegistry {
    pending: Vec<String>,
    removed: Vec<String>,
}

impl TempRegistry {
    /// Paths still registered for removal.
    pub closed spec fn pending_view(self) -> Seq<Seq<char>> {
        path_views(self.pending@)
    }

    /// Paths already handed out for removal, exactly once each.
    pub closed spec fn removed_view(self) -> Seq<Seq<char>> {
        path_views(self.removed@)
    }

    /// Each path occurs at most once over the whole registry: pending and
    /// removed entries are distinct and share nothing.
    pub open spec fn wf(self) -> bool {
        &&& distinct_paths(self.pending_view())
        &&& distinct_paths(self.removed_view())
        &&& forall|i: int, j: int|
            0 <= i < self.pending_view().len() && 0 <= j < self.removed_view().len()
                ==> #[trigger] self.pending_view()[i] != #[trigger] self.removed_view()[j]
    }

    /// An empty registry.
    pub fn new() -> (r: TempRegistry)
        ensures
            r.wf(),
            r.pending_view() =~= Seq::<Seq<char>>::empty(),
            r.removed_view() =~= Seq::<Seq<char>>::empty(),
    {
        let r = TempRegistry { pending: Vec::new(), removed: Vec::new() };
        proof {
            assert(r.pending_view() =~= Seq::<Seq<char>>::empty());
            assert(r.removed_view() =~= Seq::<Seq<char>>::empty());
        }
        r
    }

    /// How many handles are still pending removal.
    pub fn pending_len(&self) -> (n: usize)
        ensures
            n == self.pending_view().len(),
    {
        self.pending.len()
    }

    /// Whether `path` is still pending removal.
    pub fn is_pending(&self, path: &String) -> (r: bool)
        ensures
            r == self.pending_view().contains(path@),
    {
        let mut i: usize = 0;
        while i < self.pending.len()
            invariant
                0 <= i <= self.pending@.len(),
                forall|t: int| 0 <= t < i ==> self.pending_view()[t] != path@,
            decreases self.pending@.len() - i,
        {
            if strings_equal(&self.pending[i], path) {
                proof {
                    assert(self.pending_view()[i as int] == path@);
                }
                return true;
            }
            i = i + 1;
        }
        proof {
            assert(forall|t: int|
                0 <= t < self.pending_view().len() ==> self.pending_view()[t] != path@);
        }
        false
    }

    /// Whether `path` was already handed out for removal.
    pub fn was_removed(&self, path: &String) -> (r: bool)
        ensures
            r == self.removed_view().contains(path@),
    {
        let mut i: usize = 0;
        while i < self.removed.len()
            invariant
                0 <= i <= self.removed@.len(),
                forall|t: int| 0 <= t < i ==> self.removed_view()[t] != path@,
            decreases self.removed@.len() - i,
        {
            if strings_equal(&self.removed[i], path) {
                proof {
                    assert(self.removed_view()[i as int] == path@);
                }
                return true;
            }
            i = i + 1;
        }
        false
    }

    /// Register a freshly created staging directory.  A path already known
    /// to the registry is not registered again.
    pub fn register(&mut self, path: String) -> (fresh: bool)
        requires
            old(self).wf(),
        ensures
            final(self).wf(),
            fresh == (!old(self).pending_view().contains(path@)
                && !old(self).removed_view().contains(path@)),
            fresh ==> final(self).pending_view() == old(self).pending_view().push(path@),
            !fresh ==> final(self).pending_view() == old(self).pending_view(),
            final(self).removed_view() == old(self).removed_view(),
    {
        if self.is_pending(&path) || self.was_removed(&path) {
            return false;
        }
        self.pending.push(path);
        proof {
            let oldp = old(self).pending_view();
            assert(self.pending_view() =~= oldp.push(path@));
            assert forall|i2: int, j2: int|
                0 <= i2 < j2 < self.pending_view().len() implies self.pending_view()[i2]
                    != self.pending_view()[j2] by {
                if j2 == oldp.len() {
                    assert(self.pending_view()[i2] == oldp[i2]);
                    if oldp[i2] == path@ {
                        assert(oldp.contains(path@));
                    }
                } else {
                    assert(self.pending_view()[i2] == oldp[i2]);
                    assert(self.pending_view()[j2] == oldp[j2]);
                }
            }
            assert forall|i2: int, j2: int|
                0 <= i2 < self.pending_view().len() && 0 <= j2 < self.removed_view().len()
                    implies #[trigger] self.pending_view()[i2]
                    != #[trigger] self.removed_view()[j2] by {
                if i2 == oldp.len() {
                    assert(self.pending_view()[i2] == path@);
                    if self.removed_view()[j2] == path@ {
                        assert(old(self).removed_view().contains(path@));
                    }
                } else {
                    assert(self.pending_view()[i2] == oldp[i2]);
                }
            }
        }
        true
    }

    /// Hand `path` out for immediate removal.  Returns whether the caller
    /// may delete it: true exactly when the path was still pending, and
    /// never twice for the same path.
    pub fn remove_now(&mut self, path: &String) -> (present: bool)
        requires
            old(self).wf(),
        ensures
            final(self).wf(),
            present == old(self).pending_view().contains(path@),
            !final(self).pending_view().contains(path@),
            present ==> final(self).removed_view() == old(self).removed_view().push(path@),
            !present ==> final(self).removed_view() == old(self).removed_view(),
            !present ==> final(self).pending_view() == old(self).pending_view(),
            forall|q: Seq<char>|
                q != path@ ==> #[trigger] final(self).pending_view().contains(q)
                    == old(self).pending_view().contains(q),
    {
        let mut i: usize = 0;
        while i < self.pending.len()
            invariant
                *self == *old(self),
                old(self).wf(),
                0 <= i <= self.pending@.len(),
                forall|t: int| 0 <= t < i ==> self.pending_view()[t] != path@,
            decreases self.pending@.len() - i,
        {
            if strings_equal(&self.pending[i], path) {
                proof {
                    assert(self.pending_view()[i as int] == path@);
                    assert(self.pending_view().contains(path@));
                }
                let ghost oldp = self.pending_view();
                let s = self.pending.remove(i);
                self.removed.push(s);
                proof {
                    assert(s@ == path@);
                    assert(self.removed@ == old(self).removed@.push(s));
                    assert(self.removed_view() =~= old(self).removed_view().push(path@));
                    assert(self.pending@ == old(self).pending@.remove(i as int));
                    assert(self.pending_view() =~= oldp.remove(i as int));
                    oldp.remove_ensures(i as int);
                    assert(distinct_paths(oldp));
                    assert forall|q: Seq<char>| q != path@ implies
                        #[trigger] self.pending_view().contains(q)
                            == oldp.contains(q) by {
                        if oldp.contains(q) {
                            let t = choose|t: int| 0 <= t < oldp.len() && oldp[t] == q;
                            if t < i {
                                assert(self.pending_view()[t] == q);
                            } else {
                                assert(self.pending_view()[t - 1] == q);
                            }
                        }
                        if self.pending_view().contains(q) {
                            let t = choose|t: int|
                                0 <= t < self.pending_view().len()
                                    && self.pending_view()[t] == q;
                            if t < i {
                                assert(oldp[t] == q);
                            } else {
                                assert(oldp[t + 1] == q);
                            }
                        }
                    }
                    assert(!self.pending_view().contains(path@)) by {
                        if self.pending_view().contains(path@) {
                            let t = choose|t: int|
                                0 <= t < self.pending_view().len()
                                    && self.pending_view()[t] == path@;
                            if t < i {
                                assert(oldp[t] == path@);
                            } else {
                                assert(oldp[t + 1] == path@);
                                assert(oldp[i as int] == path@);
                            }
                        }
                    }
                    let np = self.pending_view();
                    let nr = self.removed_view();
                    let orl = old(self).removed_view().len() as int;
                    assert forall|i2: int, j2: int| 0 <= i2 < j2 < np.len() implies np[i2]
                        != np[j2] by {
                        let ii = if i2 < i { i2 } else { i2 + 1 };
                        let jj = if j2 < i { j2 } else { j2 + 1 };
                        assert(np[i2] == oldp[ii]);
                        assert(np[j2] == oldp[jj]);
                    }
                    assert forall|i2: int, j2: int| 0 <= i2 < j2 < nr.len() implies nr[i2]
                        != nr[j2] by {
                        if j2 == orl {
                            assert(nr[j2] == path@);
                            assert(nr[i2] == old(self).removed_view()[i2]);
                            assert(oldp[i as int] != old(self).removed_view()[i2]);
                        } else {
                            assert(nr[i2] == old(self).removed_view()[i2]);
                            assert(nr[j2] == old(self).removed_view()[j2]);
                        }
                    }
                    assert forall|i2: int, j2: int|
                        0 <= i2 < np.len() && 0 <= j2 < nr.len() implies #[trigger] np[i2]
                        != #[trigger] nr[j2] by {
                        let ii = if i2 < i { i2 } else { i2 + 1 };
                        assert(np[i2] == oldp[ii]);
                        if j2 == orl {
                            assert(nr[j2] == path@);
                            assert(oldp[i as int] == path@);
                            if ii < i {
                                assert(oldp[ii] != oldp[i as int]);
                            } else {
                                assert(oldp[i as int] != oldp[ii]);
                            }
                        } else {
                            assert(nr[j2] == old(self).removed_view()[j2]);
                            assert(oldp[ii] != old(self).removed_view()[j2]);
                        }
                    }
                }
                return true;
            }
            i = i + 1;
        }
        proof {
            assert(!self.pending_view().contains(path@)) by {
                if self.pending_view().contains(path@) {
                    let t = choose|t: int|
                        0 <= t < self.pending_view().len() && self.pending_view()[t] == path@;
                    assert(self.pending_view()[t] != path@);
                }
            }
        }
        false
    }

    /// The final sweep: hand out every handle still pending, leaving the
    /// registry empty.  None of the returned paths was ever handed out
    /// before.
    pub fn sweep(&mut self) -> (out: Vec<String>)
        requires
            old(self).wf(),
        ensures
            final(self).wf(),
            path_views(out@) == old(self).pending_view(),
            final(self).pending_view().len() == 0,
            final(self).removed_view() == old(self).removed_view()
                + old(self).pending_view(),
            forall|t: int|
                0 <= t < out@.len() ==> !old(self).removed_view().contains(
                    #[trigger] out@[t]@,
                ),
    {
        let mut out: Vec<String> = Vec::new();
        core::mem::swap(&mut out, &mut self.pending);
        let mut i: usize = 0;
        while i < out.len()
            invariant
                0 <= i <= out@.len(),
                out@ == old(self).pending@,
                self.pending@.len() == 0,
                self.removed@ == old(self).removed@ + out@.take(i as int),
            decreases out@.len() - i,
        {
            self.removed.push(out[i].clone());
            i = i + 1;
            proof {
                assert(self.removed@ =~= old(self).removed@ + out@.take(i as int));
            }
        }
        proof {
            assert(out@.take(out@.len() as int) =~= out@);
            assert(path_views(out@) =~= old(self).pending_view());
            assert(self.pending_view().len() == 0);
            assert(self.removed_view() =~= old(self).removed_view()
                + old(self).pending_view());
            assert forall|t: int| 0 <= t < out@.len() implies !old(self).removed_view().contains(
                #[trigger] out@[t]@,
            ) by {
                assert(old(self).pending_view()[t] == out@[t]@);
                if old(self).removed_view().contains(out@[t]@) {
                    let j = choose|j: int|
                        0 <= j < old(self).removed_view().len() && old(self).removed_view()[j]
                            == out@[t]@;
                }
            }
            assert(distinct_paths(self.removed_view())) by {
                assert forall|i2: int, j2: int|
                    0 <= i2 < j2 < self.removed_view().len() implies self.removed_view()[i2]
                        != self.removed_view()[j2] by {
                    let ol = old(self).removed_view().len() as int;
                    if i2 < ol && j2 >= ol {
                        assert(self.removed_view()[i2] == old(self).removed_view()[i2]);
                        assert(self.removed_view()[j2] == old(self).pending_view()[j2 - ol]);
                    }
                }
            }
        }
        out
    }
}

/// A handle is never deleted twice: once a path has been handed out for
/// removal it is no longer pending, so neither `remove_now` nor the final
/// sweep can yield it again.
pub proof fn lemma_removed_never_pending(r: TempRegistry, p: Seq<char>)
    requires
        r.wf(),
        r.removed_view().contains(p),
    ensures
        !r.pending_view().contains(p),
{
    let j = choose|j: int| 0 <= j < r.removed_view().len() && r.removed_view()[j] == p;
    if r.pending_view().contains(p) {
        let i = choose|i: int| 0 <= i < r.pending_view().len() && r.pending_view()[i] == p;
    }
}

} // verus!
