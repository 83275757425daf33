//! Locating the workspace directory by walking upward from candidates.
//!
//! A directory is modeled as its list of path components from the
//! filesystem root; the root itself is the empty list. The walk owns the
//! order of the search and its cycle guard: starting from each candidate
//! in turn it offers the candidate and then each ancestor up to the
//! root, never offering the same directory twice. The host application
//! probes each offered directory for the project marker file and stops
//! at the first hit; the walk itself never touches the filesystem, so a
//! walk whose offers run out means every directory on every candidate's
//! chain was probed and came up empty.

use vstd::prelude::*;

verus! {

/// The upward chain of a directory: the directory itself, then each
/// ancestor, ending with the root.
pub open spec fn up_chain(dir: Seq<Seq<char>>) -> Seq<Seq<Seq<char>>> {
    Seq::new(dir.len() + 1, |i: int| dir.take(dir.len() - i))
}

/// Every directory the walk offers, in probe order: each candidate's
/// upward chain, in candidate order.
pub open spec fn walk_queue(candidates: Seq<Seq<Seq<char>>>) -> Seq<Seq<Seq<char>>>
    decreases candidates.len(),
{
    if candidates.len() == 0 {
        Seq::empty()
    } else {
        walk_queue(candidates.drop_last()) + up_chain(candidates.last())
    }
}

/// Index of the first entry of `pending` that is not yet in `visited`;
/// the length of `pending` when every entry is.
pub open spec fn first_fresh(pending: Seq<Seq<Seq<char>>>, visited: Seq<Seq<Seq<char>>>) -> int
    decreases pending.len(),
{
    if pending.len() == 0 {
        0
    } else if !visited.contains(pending[0]) {
        0
    } else {
        1 + first_fresh(pending.drop_first(), visited)
    }
}

/// The first fresh entry comes after visited ones only, and is itself
/// fresh when it exists.
pub proof fn lemma_first_fresh(pending: Seq<Seq<Seq<char>>>, visited: Seq<Seq<Seq<char>>>)
    ensures
        0 <= first_fresh(pending, visited) <= pending.len(),
        forall|j: int|
            0 <= j < first_fresh(pending, visited) ==> visited.contains(#[trigger] pending[j]),
        first_fresh(pending, visited) < pending.len() ==> !visited.contains(
            pending[first_fresh(pending, visited)],
        ),
    decreases pending.len(),
{
    if pending.len() > 0 && visited.contains(pending[0]) {
        let rest = pending.drop_first();
        lemma_first_fresh(rest, visited);
        assert forall|j: int| 0 <= j < first_fresh(pending, visited) implies visited.contains(
            #[trigger] pending[j],
        ) by {
            if j > 0 {
                assert(pending[j] == rest[j - 1]);
            }
        }
        if first_fresh(pending, visited) < pending.len() {
            assert(pending[first_fresh(pending, visited)] == rest[first_fresh(rest, visited)]);
        }
    }
}

/// The first `k` components of `dir`, as a directory of its own.
fn dir_prefix(dir: &Vec<String>, k: usize) -> (r: Vec<String>)
    requires
        k <= dir@.len(),
    ensures
        r@ == dir@.take(k as int),
        r.deep_view() == dir.deep_view().take(k as int),
{
    let mut r: Vec<String> = Vec::new();
    let mut i: usize = 0;
    while i < k
        invariant
            i <= k <= dir@.len(),
            r@ == dir@.take(i as int),
        decreases k - i,
    {
        r.push(dir[i].clone());
        proof {
            assert(r@ =~= dir@.take(i as int + 1));
        }
        i = i + 1;
    }
    proof {
        assert(r.deep_view() =~= dir.deep_view().take(k as int));
    }
    r
}

/// A copy of the directory, component for component.
fn clone_dir(dir: &Vec<String>) -> (r: Vec<String>)
    ensures
        r@ == dir@,
        r.deep_view() == dir.deep_view(),
{
    let n = dir.len();
    let r = dir_prefix(dir, n);
    proof {
        assert(dir@.take(n as int) =~= dir@);
        assert(dir.deep_view().take(n as int) =~= dir.deep_view());
    }
    r
}

/// Whether two directories have the same components.
fn dirs_equal(a: &Vec<String>, b: &Vec<String>) -> (r: bool)
    ensures
        r == (a.deep_view() == b.deep_view()),
{
    if a.len() != b.len() {
        proof {
            assert(a.deep_view().len() == a@.len());
            assert(b.deep_view().len() == b@.len());
        }
        return false;
    }
    let mut i: usize = 0;
    while i < a.len()
        invariant
            i <= a@.len(),
            a@.len() == b@.len(),
            forall|j: int| 0 <= j < i ==> a.deep_view()[j] == b.deep_view()[j],
        decreases a@.len() - i,
    {
        if !a[i].eq(&b[i]) {
            proof {
                assert(a.deep_view()[i as int] != b.deep_view()[i as int]);
            }
            return false;
        }
        i = i + 1;
    }
    proof {
        assert(a.deep_view() =~= b.deep_view());
    }
    true
}

/// Whether `dir` is among the directories of `list`.
fn contains_dir(list: &Vec<Vec<String>>, dir: &Vec<String>) -> (r: bool)
    ensures
        r == list.deep_view().contains(dir.deep_view()),
{
    let mut i: usize = 0;
    while i < list.len()
        invariant
            i <= list@.len(),
            forall|j: int| 0 <= j < i ==> list.deep_view()[j] != dir.deep_view(),
        decreases list@.len() - i,
    {
        if dirs_equal(&list[i], dir) {
            proof {
                assert(list.deep_view()[i as int] == dir.deep_view());
            }
            return true;
        }
        i = i + 1;
    }
    false
}

/// The upward walk with its cycle guard: the directories still to offer,
/// in order, and the directories already offered.
pub struct WorkspaceWalk {
    pending: Vec<Vec<String>>,
    visited: Vec<Vec<String>>,
}

impl WorkspaceWalk {
    /// The directories the walk has yet to consider, in offer order.
    pub closed spec fn pending_dirs(self) -> Seq<Seq<Seq<char>>> {
        self.pending.deep_view()
    }

    /// The directories already offered, in the order they were offered.
    pub closed spec fn visited_dirs(self) -> Seq<Seq<Seq<char>>> {
        self.visited.deep_view()
    }

    /// Prepares the walk over every candidate's upward chain; nothing
    /// has been offered yet.
    pub fn new(candidates: &Vec<Vec<String>>) -> (walk: Self)
        ensures
            walk.pending_dirs() == walk_queue(candidates.deep_view()),
            walk.visited_dirs() == Seq::<Seq<Seq<char>>>::empty(),
    {
        let ghost cands = candidates.deep_view();
        let mut pending: Vec<Vec<String>> = Vec::new();
        proof {
            assert(pending.deep_view() =~= Seq::<Seq<Seq<char>>>::empty());
            assert(cands.take(0) =~= Seq::<Seq<Seq<char>>>::empty());
        }
        let mut ci: usize = 0;
        while ci < candidates.len()
            invariant
                ci <= candidates@.len(),
                cands == candidates.deep_view(),
                pending.deep_view() == walk_queue(cands.take(ci as int)),
            decreases candidates@.len() - ci,
        {
            let candidate = &candidates[ci];
            let ghost cdeep = candidate.deep_view();
            let ghost before = pending.deep_view();
            let n = candidate.len();
            let mut k = n;
            loop
                invariant_except_break
                    pending.deep_view() =~= before + Seq::new(
                        (n - k) as nat,
                        |i: int| cdeep.take(n - i),
                    ),
                invariant
                    k <= n,
                    n == candidate@.len(),
                    cdeep == candidate.deep_view(),
                ensures
                    pending.deep_view() =~= before + Seq::new(
                        (n + 1) as nat,
                        |i: int| cdeep.take(n - i),
                    ),
                decreases k,
            {
                let p = dir_prefix(candidate, k);
                let ghost pd = pending.deep_view();
                pending.push(p);
                proof {
                    assert(pending.deep_view() =~= pd.push(p.deep_view()));
                    assert(pd.push(p.deep_view()) =~= before + Seq::new(
                        (n - k + 1) as nat,
                        |i: int| cdeep.take(n - i),
                    ));
                }
                if k == 0 {
                    break ;
                }
                k = k - 1;
            }
            proof {
                assert(Seq::new((n + 1) as nat, |i: int| cdeep.take(n - i)) =~= up_chain(cdeep));
                assert(cands.take(ci as int + 1).drop_last() =~= cands.take(ci as int));
                assert(cands.take(ci as int + 1).last() == cdeep);
                assert(pending.deep_view() =~= walk_queue(cands.take(ci as int + 1)));
            }
            ci = ci + 1;
        }
        let visited: Vec<Vec<String>> = Vec::new();
        proof {
            assert(cands.take(candidates@.len() as int) =~= cands);
            assert(visited.deep_view() =~= Seq::<Seq<Seq<char>>>::empty());
        }
        WorkspaceWalk { pending, visited }
    }

    /// Offers the next directory to probe: the first pending one not
    /// offered before. Every pending directory skipped on the way was
    /// already offered; an empty answer means every directory of every
    /// chain has been offered.
    pub fn next_probe(&mut self) -> (r: Option<Vec<String>>)
        ensures
            r is None <==> first_fresh(old(self).pending_dirs(), old(self).visited_dirs()) == old(
                self,
            ).pending_dirs().len(),
            r is None ==> {
                &&& final(self).pending_dirs().len() == 0
                &&& final(self).visited_dirs() == old(self).visited_dirs()
                &&& forall|j: int|
                    0 <= j < old(self).pending_dirs().len() ==> old(self).visited_dirs().contains(
                        #[trigger] old(self).pending_dirs()[j],
                    )
            },
            r matches Some(dir) ==> {
                let fresh = first_fresh(old(self).pending_dirs(), old(self).visited_dirs());
                &&& 0 <= fresh < old(self).pending_dirs().len()
                &&& dir.deep_view() == old(self).pending_dirs()[fresh]
                &&& !old(self).visited_dirs().contains(dir.deep_view())
                &&& final(self).visited_dirs() == old(self).visited_dirs().push(dir.deep_view())
                &&& final(self).pending_dirs() == old(self).pending_dirs().skip(fresh + 1)
            },
    {
        let ghost orig_pending = self.pending.deep_view();
        let ghost orig_visited = self.visited.deep_view();
        let ghost mut skipped: int = 0;
        proof {
            assert(orig_pending.skip(0) =~= orig_pending);
        }
        loop
            invariant
                orig_pending == old(self).pending_dirs(),
                orig_visited == old(self).visited_dirs(),
                0 <= skipped <= orig_pending.len(),
                self.visited.deep_view() == orig_visited,
                self.pending.deep_view() == orig_pending.skip(skipped),
                first_fresh(orig_pending, orig_visited) == skipped + first_fresh(
                    self.pending.deep_view(),
                    orig_visited,
                ),
            decreases self.pending@.len(),
        {
            if self.pending.len() == 0 {
                proof {
                    assert(first_fresh(self.pending.deep_view(), orig_visited) == 0);
                    assert(skipped == orig_pending.len());
                    lemma_first_fresh(orig_pending, orig_visited);
                }
                return None;
            }
            let ghost cur = self.pending.deep_view();
            let dir = self.pending.remove(0);
            proof {
                assert(self.pending.deep_view() =~= cur.drop_first());
                assert(dir.deep_view() == cur[0]);
                assert(cur.drop_first() =~= orig_pending.skip(skipped + 1));
            }
            if contains_dir(&self.visited, &dir) {
                proof {
                    assert(first_fresh(cur, orig_visited) == 1 + first_fresh(
                        cur.drop_first(),
                        orig_visited,
                    ));
                    skipped = skipped + 1;
                }
            } else {
                let offered = clone_dir(&dir);
                self.visited.push(offered);
                proof {
                    assert(first_fresh(cur, orig_visited) == 0);
                    assert(self.visited.deep_view() =~= orig_visited.push(dir.deep_view()));
                    assert(orig_pending[skipped] == cur[0]);
                }
                return Some(dir);
            }
        }
    }
}

} // verus!
