//! Ranking the files of a directory tree by size.
//!
//! The caller walks the tree and hands in one [`SizedFile`] per regular file,
//! in the order in which it met them. [`run`] picks the largest ones.

use vstd::prelude::*;

verus! {

/// A regular file met during the walk.
#[derive(Debug)]
pub struct SizedFile {
    /// Its length in bytes.
    pub size: u64,
    /// Its path, as it is to be shown.
    pub path: String,
}

/// What the ranking reads of a [`SizedFile`].
pub struct SizedFileView {
    pub size: u64,
    pub path: Seq<char>,
}

impl View for SizedFile {
    type V = SizedFileView;

    open spec fn view(&self) -> SizedFileView {
        SizedFileView { size: self.size, path: self.path@ }
    }
}

impl DeepView for SizedFile {
    type V = SizedFileView;

    open spec fn deep_view(&self) -> SizedFileView {
        self@
    }
}

/// Whether the file at position `i` is listed before the file at position `j`:
/// the larger file goes first, and of two files of the same size the one that
/// was met first.
pub open spec fn outranks(files: Seq<SizedFile>, i: int, j: int) -> bool {
    files[i].size > files[j].size || (files[i].size == files[j].size && i < j)
}

/// Whether `order` lists the positions `lo..hi` of `files`, each once, every
/// one before those that it outranks.
pub open spec fn ranks(files: Seq<SizedFile>, lo: int, hi: int, order: Seq<usize>) -> bool {
    &&& order.len() == hi - lo
    &&& forall|k: int| 0 <= k < order.len() ==> lo <= #[trigger] order[k] < hi
    &&& forall|k: int, l: int|
        0 <= k < l < order.len() ==> outranks(
            files,
            #[trigger] order[k] as int,
            #[trigger] order[l] as int,
        )
    &&& forall|j: usize| lo <= j < hi ==> #[trigger] order.contains(j)
}

/// Whether `picked` holds the positions of the `top` largest files, largest
/// first: it has `top` entries (all of them when there are fewer files), it is
/// in ranking order, and every file it leaves out is outranked by every file
/// it holds.
pub open spec fn largest_first(files: Seq<SizedFile>, top: nat, picked: Seq<usize>) -> bool {
    &&& picked.len() == if top <= files.len() {
        top
    } else {
        files.len()
    }
    &&& forall|k: int| 0 <= k < picked.len() ==> #[trigger] picked[k] < files.len()
    &&& forall|k: int, l: int|
        0 <= k < l < picked.len() ==> outranks(
            files,
            #[trigger] picked[k] as int,
            #[trigger] picked[l] as int,
        )
    &&& forall|k: int, j: usize|
        0 <= k < picked.len() && j < files.len() && !#[trigger] picked.contains(j) ==> outranks(
            files,
            #[trigger] picked[k] as int,
            j as int,
        )
}

/// Merges the rankings of two neighbouring ranges into the ranking of both.
fn merge(
    files: &Vec<SizedFile>,
    left: &Vec<usize>,
    right: &Vec<usize>,
    Ghost(lo): Ghost<int>,
    Ghost(mid): Ghost<int>,
    Ghost(hi): Ghost<int>,
) -> (merged: Vec<usize>)
    requires
        0 <= lo <= mid <= hi <= files.len(),
        ranks(files@, lo, mid, left@),
        ranks(files@, mid, hi, right@),
    ensures
        ranks(files@, lo, hi, merged@),
{
    let mut merged: Vec<usize> = Vec::new();
    let mut i: usize = 0;
    let mut j: usize = 0;
    while i < left.len() || j < right.len()
        invariant
            0 <= lo <= mid <= hi <= files.len(),
            ranks(files@, lo, mid, left@),
            ranks(files@, mid, hi, right@),
            i <= left.len(),
            j <= right.len(),
            merged.len() == i + j,
            forall|k: int| 0 <= k < merged.len() ==> lo <= #[trigger] merged[k] < hi,
            forall|k: int, l: int|
                0 <= k < l < merged.len() ==> outranks(
                    files@,
                    #[trigger] merged[k] as int,
                    #[trigger] merged[l] as int,
                ),
            forall|k: int, m: int|
                0 <= k < merged.len() && i <= m < left.len() ==> outranks(
                    files@,
                    #[trigger] merged[k] as int,
                    #[trigger] left[m] as int,
                ),
            forall|k: int, m: int|
                0 <= k < merged.len() && j <= m < right.len() ==> outranks(
                    files@,
                    #[trigger] merged[k] as int,
                    #[trigger] right[m] as int,
                ),
            forall|m: int| 0 <= m < i ==> merged@.contains(#[trigger] left[m]),
            forall|m: int| 0 <= m < j ==> merged@.contains(#[trigger] right[m]),
        decreases left.len() - i + right.len() - j,
    {
        let from_left = if i == left.len() {
            false
        } else if j == right.len() {
            true
        } else {
            files[left[i]].size >= files[right[j]].size
        };
        let ghost before = merged@;
        if from_left {
            merged.push(left[i]);
            i = i + 1;
        } else {
            merged.push(right[j]);
            j = j + 1;
        }
        proof {
            let last = before.len() as int;
            assert forall|m: int| 0 <= m < i implies merged@.contains(#[trigger] left[m]) by {
                if from_left && m == i - 1 {
                    assert(merged@[last] == left[m]);
                } else {
                    let k = choose|k: int| 0 <= k < before.len() && before[k] == left[m];
                    assert(merged@[k] == left[m]);
                }
            }
            assert forall|m: int| 0 <= m < j implies merged@.contains(#[trigger] right[m]) by {
                if !from_left && m == j - 1 {
                    assert(merged@[last] == right[m]);
                } else {
                    let k = choose|k: int| 0 <= k < before.len() && before[k] == right[m];
                    assert(merged@[k] == right[m]);
                }
            }
        }
    }
    proof {
        assert forall|p: usize| lo <= p < hi implies #[trigger] merged@.contains(p) by {
            if p < mid {
                assert(left@.contains(p));
                let m = choose|m: int| 0 <= m < left@.len() && left@[m] == p;
                assert(merged@.contains(left[m]));
            } else {
                assert(right@.contains(p));
                let m = choose|m: int| 0 <= m < right@.len() && right@[m] == p;
                assert(merged@.contains(right[m]));
            }
        }
    }
    merged
}

/// Ranks the files at positions `lo..hi` by merge sort.
fn rank_range(files: &Vec<SizedFile>, lo: usize, hi: usize) -> (order: Vec<usize>)
    requires
        lo <= hi <= files.len(),
    ensures
        ranks(files@, lo as int, hi as int, order@),
    decreases hi - lo,
{
    let mut order: Vec<usize> = Vec::new();
    if hi - lo == 0 {
        order
    } else if hi - lo == 1 {
        order.push(lo);
        proof {
            assert(order@[0] == lo);
        }
        order
    } else {
        let mid: usize = lo + (hi - lo) / 2;
        let left = rank_range(files, lo, mid);
        let right = rank_range(files, mid, hi);
        merge(files, &left, &right, Ghost(lo as int), Ghost(mid as int), Ghost(hi as int))
    }
}

/// Picks the `top` largest files, largest first, and returns their positions
/// in `files`. Files of the same size stay in the order in which they were
/// handed in. When `top` is larger than the number of files, all are returned.
pub fn run(files: &Vec<SizedFile>, top: usize) -> (picked: Vec<usize>)
    ensures
        largest_first(files@, top as nat, picked@),
{
    let mut picked = rank_range(files, 0, files.len());
    let ghost order = picked@;
    picked.truncate(top);
    proof {
        assert forall|k: int, j: usize|
            0 <= k < picked@.len() && j < files@.len() && !#[trigger] picked@.contains(
                j,
            ) implies outranks(files@, #[trigger] picked@[k] as int, j as int) by {
            assert(order.contains(j));
            let p = choose|p: int| 0 <= p < order.len() && order[p] == j;
            if p < picked@.len() {
                assert(picked@[p] == j);
            }
            assert(order[k] == picked@[k]);
        }
    }
    picked
}

/// Up to a position `k`, two selections that both meet [`largest_first`] agree.
proof fn lemma_selections_agree(
    files: Seq<SizedFile>,
    top: nat,
    a: Seq<usize>,
    b: Seq<usize>,
    k: int,
)
    requires
        largest_first(files, top, a),
        largest_first(files, top, b),
        0 <= k <= a.len(),
    ensures
        forall|m: int| 0 <= m < k ==> a[m] == b[m],
    decreases k,
{
    if k > 0 {
        lemma_selections_agree(files, top, a, b, k - 1);
        let x = a[k - 1];
        let y = b[k - 1];
        if x != y {
            assert(outranks(files, x as int, y as int)) by {
                if a.contains(y) {
                    let p = choose|p: int| 0 <= p < a.len() && a[p] == y;
                    if p < k - 1 {
                        assert(outranks(files, b[p] as int, b[k - 1] as int));
                    }
                }
            }
            assert(outranks(files, y as int, x as int)) by {
                if b.contains(x) {
                    let p = choose|p: int| 0 <= p < b.len() && b[p] == x;
                    if p < k - 1 {
                        assert(outranks(files, a[p] as int, a[k - 1] as int));
                    }
                }
            }
        }
    }
}

/// The ranking is fully determined: for given files and a given count there
/// is exactly one selection that meets [`largest_first`], so [`run`] has only
/// one possible answer.
pub proof fn lemma_largest_first_unique(
    files: Seq<SizedFile>,
    top: nat,
    a: Seq<usize>,
    b: Seq<usize>,
)
    requires
        largest_first(files, top, a),
        largest_first(files, top, b),
    ensures
        a == b,
{
    lemma_selections_agree(files, top, a, b, a.len() as int);
    assert(a =~= b);
}


} // verus!
