//! A plain-value model of the managed directory tree, and recursive size
//! accounting over it.
//!
//! The filesystem itself is the source of truth for the running service; the
//! unverified edge scans it into an `FsNode` value and the size computation
//! here is exact over that snapshot.

use vstd::prelude::*;

verus! {

broadcast use vstd::std_specs::vec::group_vec_axioms, vstd::seq::group_seq_axioms;

/// One entry of a directory snapshot: a regular file with its byte length, or
/// a subdirectory with its own entries. Entries that could not be read are
/// simply absent, mirroring best-effort accounting.
pub enum FsNode {
    File { size: u64 },
    Dir { entries: Vec<FsNode> },
}

/// Total bytes under a node: a file contributes its length, a directory the
/// sum over its entries.
pub open spec fn node_size(n: FsNode) -> nat
    decreases n,
{
    match n {
        FsNode::File { size } => size as nat,
        FsNode::Dir { entries } => entries_size(entries@),
    }
}

/// Total bytes of a sequence of directory entries.
pub open spec fn entries_size(s: Seq<FsNode>) -> nat
    decreases s,
{
    if s.len() == 0 {
        0
    } else {
        node_size(s[0]) + entries_size(s.drop_first())
    }
}

/// Sum of a sequence of byte lengths.
pub open spec fn sum_u64(s: Seq<u64>) -> nat
    decreases s,
{
    if s.len() == 0 {
        0
    } else {
        s[0] as nat + sum_u64(s.drop_first())
    }
}

/// An empty directory has size zero.
pub proof fn lemma_empty_dir_size(entries: Seq<FsNode>)
    requires
        entries.len() == 0,
    ensures
        entries_size(entries) == 0,
{
}

/// A flat directory of regular files with sizes `sizes` has size exactly the
/// sum of `sizes`.
pub proof fn lemma_flat_dir_size(entries: Seq<FsNode>, sizes: Seq<u64>)
    requires
        entries.len() == sizes.len(),
        forall|i: int|
            0 <= i < entries.len() ==> entries[i] == (FsNode::File { size: sizes[i] }),
    ensures
        entries_size(entries) == sum_u64(sizes),
    decreases entries,
{
    if entries.len() > 0 {
        assert forall|i: int| 0 <= i < entries.drop_first().len() implies entries.drop_first()[i]
            == (FsNode::File { size: sizes.drop_first()[i] }) by {
            assert(entries.drop_first()[i] == entries[i + 1]);
            assert(sizes.drop_first()[i] == sizes[i + 1]);
        }
        lemma_flat_dir_size(entries.drop_first(), sizes.drop_first());
        assert(entries[0] == (FsNode::File { size: sizes[0] }));
        assert(node_size(entries[0]) == sizes[0] as nat);
        assert(entries_size(entries) == node_size(entries[0]) + entries_size(
            entries.drop_first(),
        ));
        assert(sum_u64(sizes) == sizes[0] as nat + sum_u64(sizes.drop_first()));
    }
}

/// Splitting a directory listing splits its size: in particular, appending a
/// subdirectory entry adds that subdirectory's whole (recursive) size to the
/// parent's total.
pub proof fn lemma_entries_size_concat(a: Seq<FsNode>, b: Seq<FsNode>)
    ensures
        entries_size(a + b) == entries_size(a) + entries_size(b),
    decreases a,
{
    if a.len() == 0 {
        assert(a + b =~= b);
    } else {
        lemma_entries_size_concat(a.drop_first(), b);
        assert((a + b).drop_first() =~= a.drop_first() + b);
        assert((a + b)[0] == a[0]);
    }
}

/// A `nat` clamped into `u64` range, as a saturating sum leaves it.
pub open spec fn clamp_u64(n: nat) -> u64 {
    if n > u64::MAX {
        u64::MAX
    } else {
        n as u64
    }
}

/// Extending a prefix of entries by one adds exactly that entry's size.
pub proof fn lemma_entries_size_take(s: Seq<FsNode>, i: int)
    requires
        0 <= i < s.len(),
    ensures
        entries_size(s.take(i + 1)) == entries_size(s.take(i)) + node_size(s[i]),
    decreases i,
{
    if i == 0 {
        assert(s.take(0) =~= Seq::<FsNode>::empty());
        assert(s.take(1) =~= seq![s[0]]);
        assert(s.take(1).drop_first() =~= Seq::<FsNode>::empty());
    } else {
        lemma_entries_size_take(s.drop_first(), i - 1);
        assert(s.take(i + 1).drop_first() =~= s.drop_first().take(i));
        assert(s.take(i).drop_first() =~= s.drop_first().take(i - 1));
        assert(s.take(i + 1)[0] == s[0]);
        assert(s.take(i)[0] == s[0]);
    }
}

/// Recursively computes the total bytes used under a directory snapshot.
///
/// Exact for any tree whose total fits in `u64`; a larger total saturates
/// instead of overflowing.
#[verifier::loop_isolation(false)]
pub fn get_folder_size(node: &FsNode) -> (r: u64)
    ensures
        r == clamp_u64(node_size(*node)),
    decreases *node,
{
    match node {
        FsNode::File { size } => *size,
        FsNode::Dir { entries } => {
            let n: usize = entries.len();
            let mut total: u64 = 0;
            let mut i: usize = 0;
            while i < n
                invariant
                    i <= n,
                    n == entries@.len(),
                    total == clamp_u64(entries_size(entries@.take(i as int))),
                decreases n - i,
            {
                proof {
                    assert(decreases_to!(*node => *entries));
                    assert(decreases_to!(*entries => entries@));
                    assert(decreases_to!(entries@ => entries@[i as int]));
                }
                let sub: u64 = get_folder_size(&entries[i]);
                proof {
                    lemma_entries_size_take(entries@, i as int);
                }
                total = total.saturating_add(sub);
                i = i + 1;
            }
            proof {
                assert(entries@.take(n as int) =~= entries@);
            }
            total
        },
    }
}

} // verus!
