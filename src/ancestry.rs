//! Reasoning over the linear history of the commit graph.
use vstd::prelude::*;

use crate::types::CommitHash;

verus! {

/// One step of a walk down the history: a commit and its parents.
pub struct WalkEntry {
    pub hash: CommitHash,
    pub parents: Vec<CommitHash>,
}

/// Why the repository does not have the shape that an operation assumes.
#[derive(Clone, Copy, Debug, PartialEq, Eq, Structural)]
pub enum IntegrityError {
    /// A merge commit, a broken parent link, or an empty walk.
    InvalidRepository,
}

/// Entry `i` of the walk has at most one parent, and that parent is the next entry
/// (or it has none, at the end of the walk).
pub open spec fn links(walk: Seq<WalkEntry>, i: int) -> bool {
    if i + 1 < walk.len() {
        walk[i].parents@.len() == 1 && walk[i].parents@[0].hash@ == walk[i + 1].hash.hash@
    } else {
        walk[i].parents@.len() == 0
    }
}

/// How many ancestors a query returns: all of them, or at most `max`.
pub open spec fn returned_count(walk_len: int, max: Option<usize>) -> int {
    match max {
        Some(m) => if m < walk_len - 1 {
            m as int
        } else {
            walk_len - 1
        },
        None => walk_len - 1,
    }
}

pub open spec fn hashes_of(walk: Seq<WalkEntry>) -> Seq<CommitHash> {
    walk.map_values(|e: WalkEntry| e.hash)
}

/// The ancestors of the commit that a walk starts at, the direct parent first.
///
/// `walk` starts at the commit itself and goes down its history. The query fails if
/// the commit or any ancestor that it returns is a merge commit, or if a parent link
/// does not follow the walk.
pub fn linear_ancestors(walk: &Vec<WalkEntry>, max: Option<usize>) -> (r: Result<
    Vec<CommitHash>,
    IntegrityError,
>)
    ensures
        walk@.len() == 0 ==> r is Err,
        walk@.len() > 0 ==> {
            let n = returned_count(walk@.len() as int, max);
            &&& r is Ok <==> forall|i: int| 0 <= i <= n ==> links(walk@, i)
            &&& r is Ok ==> r->Ok_0@ == hashes_of(walk@).subrange(1, n + 1)
        },
        r is Ok ==> forall|i: int|
            1 <= i <= r->Ok_0@.len() ==> #[trigger] walk@[i].parents@.len() <= 1,
{
    if walk.len() == 0 {
        return Err(IntegrityError::InvalidRepository);
    }
    let len = walk.len();
    let n: usize = match max {
        Some(m) => if m < len - 1 {
            m
        } else {
            len - 1
        },
        None => len - 1,
    };
    let mut out: Vec<CommitHash> = Vec::new();
    let mut i: usize = 0;
    while i <= n
        invariant
            len == walk@.len(),
            n < len,
            n == returned_count(len as int, max),
            i <= n + 1,
            forall|j: int| 0 <= j < i ==> links(walk@, j),
            i > 0 ==> out@ == hashes_of(walk@).subrange(1, i as int),
            i == 0 ==> out@.len() == 0,
        decreases n + 1 - i,
    {
        let e = &walk[i];
        let linked = if i + 1 < len {
            e.parents.len() == 1 && e.parents[0].same(&walk[i + 1].hash)
        } else {
            e.parents.len() == 0
        };
        proof {
            assert(walk@[i as int] == *e);
            assert(linked == links(walk@, i as int));
        }
        if !linked {
            return Err(IntegrityError::InvalidRepository);
        }
        if i > 0 {
            out.push(e.hash);
            proof {
                assert(out@ =~= hashes_of(walk@).subrange(1, i + 1));
            }
        }
        i = i + 1;
    }
    proof {
        if n == 0 {
            assert(out@ =~= hashes_of(walk@).subrange(1, 1));
        }
        assert forall|k: int| 1 <= k <= out@.len() implies #[trigger] walk@[k].parents@.len() <= 1 by {
            assert(links(walk@, k));
        }
    }
    Ok(out)
}

/// Whether a commit occurs in a list, by its bytes.
pub open spec fn listed(hashes: Seq<CommitHash>, h: CommitHash) -> bool {
    exists|i: int| 0 <= i < hashes.len() && #[trigger] hashes[i].hash@ == h.hash@
}

/// The commits of `newest_first` that `known` does not hold, oldest first.
pub open spec fn new_commits_spec(newest_first: Seq<CommitHash>, known: Seq<CommitHash>) -> Seq<
    CommitHash,
>
    decreases newest_first.len(),
{
    if newest_first.len() == 0 {
        Seq::empty()
    } else {
        let newest = newest_first[0];
        let older = new_commits_spec(newest_first.subrange(1, newest_first.len() as int), known);
        if listed(known, newest) {
            older
        } else {
            older.push(newest)
        }
    }
}

/// Whether `h` occurs in `hashes`.
pub fn contains_commit(hashes: &Vec<CommitHash>, h: &CommitHash) -> (r: bool)
    ensures
        r == listed(hashes@, *h),
{
    let mut i: usize = 0;
    while i < hashes.len()
        invariant
            i <= hashes@.len(),
            forall|j: int| 0 <= j < i ==> hashes@[j].hash@ != h.hash@,
        decreases hashes@.len() - i,
    {
        if hashes[i].same(h) {
            return true;
        }
        i = i + 1;
    }
    false
}

/// The commits of `newest_first` (a history, the newest commit first) that do not
/// occur in `known`, oldest first.
pub fn new_commits(newest_first: &Vec<CommitHash>, known: &Vec<CommitHash>) -> (r: Vec<CommitHash>)
    ensures
        r@ == new_commits_spec(newest_first@, known@),
{
    let mut out: Vec<CommitHash> = Vec::new();
    let len = newest_first.len();
    let mut i: usize = len;
    while i > 0
        invariant
            len == newest_first@.len(),
            i <= len,
            out@ == new_commits_spec(newest_first@.subrange(i as int, len as int), known@),
        decreases i,
    {
        i = i - 1;
        proof {
            let suffix = newest_first@.subrange(i as int, len as int);
            assert(suffix.subrange(1, suffix.len() as int) =~= newest_first@.subrange(i + 1, len as int));
            assert(suffix[0] == newest_first@[i as int]);
        }
        if !contains_commit(known, &newest_first[i]) {
            out.push(newest_first[i]);
        }
    }
    proof {
        assert(newest_first@.subrange(0, len as int) =~= newest_first@);
    }
    out
}

} // verus!
