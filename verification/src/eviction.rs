//! Oldest-first eviction over a flat directory listing.
//!
//! Eviction works on a snapshot of the direct regular-file children of the
//! managed directory. The candidates are sorted by creation time (oldest
//! first, listing position breaking ties, so that equal timestamps keep a
//! stable order) and deleted one by one until usage drops below the budget or
//! the candidates run out. The deletions themselves happen at the unverified
//! edge; their outcomes are handed back in, and the pass here decides
//! everything else: which file is next, when to stop, and how the running
//! total changes.

use vstd::prelude::*;

verus! {

broadcast use vstd::std_specs::vec::group_vec_axioms, vstd::seq::group_seq_axioms,
    vstd::seq_lib::group_seq_lib_default, vstd::multiset::group_multiset_axioms;

/// Number of bytes in one megabyte.
pub const BYTES_PER_MB: u64 = 1048576;

/// Converts a folder budget given in megabytes to bytes.
pub fn budget_in_bytes(target_size_mb: u64) -> (r: u64)
    requires
        target_size_mb * 1048576 <= u64::MAX,
    ensures
        r == target_size_mb * 1048576,
{
    target_size_mb * BYTES_PER_MB
}

/// One eviction candidate: a direct regular-file child of the managed
/// directory.
#[derive(Clone, Copy, PartialEq, Eq, Structural)]
pub struct FileEntry {
    /// Caller-chosen identity, e.g. the position in the directory listing.
    pub id: u64,
    /// Byte length of the file.
    pub size: u64,
    /// Creation time in seconds since the epoch; 0 when the filesystem could
    /// not report one, which sorts such files as oldest.
    pub created: u64,
}

/// Age order, older first: creation time, with the listing position breaking
/// ties. A total order on entries with distinct ids.
pub open spec fn age_le(a: FileEntry, b: FileEntry) -> bool {
    a.created < b.created || (a.created == b.created && a.id <= b.id)
}

/// The listing is in age order, oldest first.
pub open spec fn sorted_by_age(s: Seq<FileEntry>) -> bool {
    forall|i: int, j: int| #![trigger s[i], s[j]] 0 <= i < j < s.len() ==> age_le(s[i], s[j])
}

/// Decides the age order between two candidates.
pub fn age_le_exec(a: &FileEntry, b: &FileEntry) -> (r: bool)
    ensures
        r == age_le(*a, *b),
{
    a.created < b.created || (a.created == b.created && a.id <= b.id)
}

/// Inserting an element anywhere adds exactly that element to the multiset of
/// a sequence.
proof fn lemma_insert_to_multiset(s: Seq<FileEntry>, pos: int, elt: FileEntry)
    requires
        0 <= pos <= s.len(),
    ensures
        s.insert(pos, elt).to_multiset() =~= s.to_multiset().insert(elt),
{
    let front = s.subrange(0, pos);
    let back = s.subrange(pos, s.len() as int);
    vstd::seq_lib::lemma_multiset_commutative(front.push(elt), back);
    vstd::seq_lib::to_multiset_build(front, elt);
    vstd::seq_lib::lemma_multiset_commutative(front, back);
    assert(s =~= front + back);
}

/// Sorts the candidates into age order, oldest first: the result is a
/// rearrangement of the input, sorted by creation time with listing position
/// breaking ties.
pub fn sort_files_by_age(files: &Vec<FileEntry>) -> (r: Vec<FileEntry>)
    ensures
        sorted_by_age(r@),
        r@.to_multiset() == files@.to_multiset(),
        r@.len() == files@.len(),
{
    let mut r: Vec<FileEntry> = Vec::new();
    let n: usize = files.len();
    let mut i: usize = 0;
    proof {
        assert(r@ =~= files@.take(0));
    }
    while i < n
        invariant
            i <= n,
            n == files@.len(),
            r@.len() == i,
            sorted_by_age(r@),
            r@.to_multiset() == files@.take(i as int).to_multiset(),
        decreases n - i,
    {
        let x: FileEntry = files[i];
        let mut j: usize = 0;
        while j < r.len() && age_le_exec(&r[j], &x)
            invariant
                j <= r@.len(),
                forall|k: int| 0 <= k < j ==> age_le(r@[k], x),
            decreases r@.len() - j,
        {
            j = j + 1;
        }
        proof {
            lemma_insert_to_multiset(r@, j as int, x);
            vstd::seq_lib::to_multiset_build(files@.take(i as int), x);
            assert(files@.take(i as int).push(x) =~= files@.take(i as int + 1));
            r@.insert_ensures(j as int, x);
        }
        let ghost old_r = r@;
        r.insert(j, x);
        proof {
            assert(r@ == old_r.insert(j as int, x));
            assert forall|p: int, q: int| 0 <= p < q < r@.len() implies age_le(r@[p], r@[q]) by {
                assert(sorted_by_age(old_r));
                if q < j {
                    assert(r@[p] == old_r[p] && r@[q] == old_r[q]);
                } else if p < j && q == j {
                    assert(r@[q] == x);
                } else if p < j && q > j {
                    assert(r@[q] == old_r[q - 1]);
                    if j < old_r.len() {
                        assert(!age_le(old_r[j as int], x));
                    }
                } else if p == j {
                    assert(r@[p] == x);
                    assert(r@[q] == old_r[q - 1]);
                    assert(!age_le(old_r[j as int], x));
                } else {
                    assert(r@[p] == old_r[p - 1] && r@[q] == old_r[q - 1]);
                }
            }
        }
        i = i + 1;
    }
    proof {
        assert(files@.take(n as int) =~= files@);
    }
    r
}

/// Subtraction that saturates at zero, as the running total does.
pub open spec fn sat_sub(a: nat, b: nat) -> nat {
    if a >= b {
        (a - b) as nat
    } else {
        0
    }
}

/// One whole eviction pass over age-sorted candidates `files`, starting from
/// usage `total`, aiming below `target` bytes. `ok[i]` tells whether deleting
/// `files[i]` succeeds when attempted. Returns the final running total and
/// the ids of the files deleted, in deletion order: the pass walks the
/// candidates in order, stops as soon as the total is below target, skips
/// files whose deletion fails (leaving the total unchanged), and subtracts
/// (saturating at zero) the size of each file it deletes.
pub open spec fn evict_pass(total: nat, files: Seq<FileEntry>, target: nat, ok: Seq<bool>) -> (
    nat,
    Seq<u64>,
)
    recommends
        ok.len() == files.len(),
    decreases files,
{
    if files.len() == 0 || total < target {
        (total, Seq::<u64>::empty())
    } else if ok[0] {
        let rest = evict_pass(
            sat_sub(total, files[0].size as nat),
            files.drop_first(),
            target,
            ok.drop_first(),
        );
        (rest.0, seq![files[0].id] + rest.1)
    } else {
        evict_pass(total, files.drop_first(), target, ok.drop_first())
    }
}

/// What one eviction pass did: the usage total it left, and the ids of the
/// files it deleted, oldest first.
pub struct EvictionOutcome {
    pub total: u64,
    pub deleted: Vec<u64>,
}

/// Decides whether the pass is done: it stops as soon as usage is strictly
/// below the target.
pub fn eviction_should_stop(total: u64, target_bytes: u64) -> (r: bool)
    ensures
        r == (total < target_bytes),
{
    total < target_bytes
}

/// New running total after one deletion attempt: a successful deletion
/// subtracts the file's size, saturating at zero; a failed one changes
/// nothing.
pub fn eviction_apply(total: u64, size: u64, deleted: bool) -> (r: u64)
    ensures
        deleted ==> r == sat_sub(total as nat, size as nat),
        !deleted ==> r == total,
{
    if deleted {
        total.saturating_sub(size)
    } else {
        total
    }
}

/// Deletes the oldest files first until the directory is below its byte
/// budget: runs one whole eviction pass over the age-sorted candidates,
/// given each attempted deletion's outcome, and returns exactly what
/// [`evict_pass`] describes. The budget is given in megabytes.
pub fn delete_oldest_files(
    files: &Vec<FileEntry>,
    total_size: u64,
    target_size_mb: u64,
    deletion_ok: &Vec<bool>,
) -> (r: EvictionOutcome)
    requires
        sorted_by_age(files@),
        deletion_ok@.len() == files@.len(),
        target_size_mb * 1048576 <= u64::MAX,
    ensures
        ({
            let pass = evict_pass(
                total_size as nat,
                files@,
                (target_size_mb * 1048576) as nat,
                deletion_ok@,
            );
            r.total == pass.0 && r.deleted@ == pass.1
        }),
{
    let target: u64 = budget_in_bytes(target_size_mb);
    let ghost gt = target as nat;
    let n: usize = files.len();
    let mut total: u64 = total_size;
    let mut deleted: Vec<u64> = Vec::new();
    let mut i: usize = 0;
    proof {
        assert(files@.skip(0) =~= files@);
        assert(deletion_ok@.skip(0) =~= deletion_ok@);
        assert(deleted@ + evict_pass(total_size as nat, files@, gt, deletion_ok@).1 =~= evict_pass(
            total_size as nat,
            files@,
            gt,
            deletion_ok@,
        ).1);
    }
    while i < n && total >= target
        invariant
            i <= n,
            n == files@.len(),
            deletion_ok@.len() == files@.len(),
            target == target_size_mb * 1048576,
            gt == target as nat,
            evict_pass(total_size as nat, files@, gt, deletion_ok@).0 == evict_pass(
                total as nat,
                files@.skip(i as int),
                gt,
                deletion_ok@.skip(i as int),
            ).0,
            evict_pass(total_size as nat, files@, gt, deletion_ok@).1 == deleted@ + evict_pass(
                total as nat,
                files@.skip(i as int),
                gt,
                deletion_ok@.skip(i as int),
            ).1,
        ensures
            i == n || total < target,
            evict_pass(total_size as nat, files@, gt, deletion_ok@).0 == evict_pass(
                total as nat,
                files@.skip(i as int),
                gt,
                deletion_ok@.skip(i as int),
            ).0,
            evict_pass(total_size as nat, files@, gt, deletion_ok@).1 == deleted@ + evict_pass(
                total as nat,
                files@.skip(i as int),
                gt,
                deletion_ok@.skip(i as int),
            ).1,
        decreases n - i,
    {
        let ghost pre_suffix = files@.skip(i as int);
        let ghost pre_ok = deletion_ok@.skip(i as int);
        let ghost pre_total = total;
        let ghost pre_deleted = deleted@;
        let entry: FileEntry = files[i];
        if deletion_ok[i] {
            total = total.saturating_sub(entry.size);
            deleted.push(entry.id);
        }
        i = i + 1;
        proof {
            assert(pre_suffix[0] == entry);
            assert(pre_ok[0] == deletion_ok@[i - 1]);
            assert(pre_suffix.drop_first() =~= files@.skip(i as int));
            assert(pre_ok.drop_first() =~= deletion_ok@.skip(i as int));
            assert(pre_suffix.len() > 0 && pre_total >= target);
            if deletion_ok@[i - 1] {
                assert(total as nat == sat_sub(pre_total as nat, entry.size as nat));
                assert(evict_pass(pre_total as nat, pre_suffix, gt, pre_ok).0 == evict_pass(
                    total as nat,
                    files@.skip(i as int),
                    gt,
                    deletion_ok@.skip(i as int),
                ).0);
                assert(evict_pass(pre_total as nat, pre_suffix, gt, pre_ok).1 == seq![entry.id]
                    + evict_pass(
                    total as nat,
                    files@.skip(i as int),
                    gt,
                    deletion_ok@.skip(i as int),
                ).1);
            } else {
                assert(evict_pass(pre_total as nat, pre_suffix, gt, pre_ok) == evict_pass(
                    total as nat,
                    files@.skip(i as int),
                    gt,
                    deletion_ok@.skip(i as int),
                ));
            }
            if deletion_ok@[i - 1] {
                assert(deleted@ =~= pre_deleted + seq![entry.id]);
                assert((pre_deleted + seq![entry.id]) + evict_pass(
                    total as nat,
                    files@.skip(i as int),
                    gt,
                    deletion_ok@.skip(i as int),
                ).1 =~= pre_deleted + (seq![entry.id] + evict_pass(
                    total as nat,
                    files@.skip(i as int),
                    gt,
                    deletion_ok@.skip(i as int),
                ).1));
            }
        }
    }
    proof {
        if i == n {
            assert(files@.skip(n as int) =~= Seq::<FileEntry>::empty());
        }
        assert(evict_pass(
            total as nat,
            files@.skip(i as int),
            gt,
            deletion_ok@.skip(i as int),
        ).1 =~= Seq::<u64>::empty());
        assert(deleted@ + Seq::<u64>::empty() =~= deleted@);
    }
    EvictionOutcome { total, deleted }
}

/// Sum of the candidates' byte lengths.
pub open spec fn size_sum(files: Seq<FileEntry>) -> nat
    decreases files,
{
    if files.len() == 0 {
        0
    } else {
        files[0].size as nat + size_sum(files.drop_first())
    }
}

/// Ids of the candidates, in listing order.
pub open spec fn ids_of(files: Seq<FileEntry>) -> Seq<u64> {
    files.map_values(|e: FileEntry| e.id)
}

/// Usage left after deleting the first `k` candidates, saturating at zero.
pub open spec fn total_after(total: nat, files: Seq<FileEntry>, k: int) -> nat
    recommends
        0 <= k <= files.len(),
    decreases k,
{
    if k <= 0 {
        total
    } else {
        total_after(sat_sub(total, files[0].size as nat), files.drop_first(), k - 1)
    }
}

/// Eviction converges: when every deletion succeeds and the starting usage is
/// exactly the candidates' total size (a flat directory), one pass always
/// ends at or below the target.
pub proof fn lemma_eviction_converges(total: nat, files: Seq<FileEntry>, target: nat, ok: Seq<bool>)
    requires
        ok.len() == files.len(),
        forall|i: int| 0 <= i < ok.len() ==> ok[i],
        total == size_sum(files),
    ensures
        evict_pass(total, files, target, ok).0 <= target,
    decreases files,
{
    if files.len() == 0 {
    } else if total < target {
    } else {
        assert(ok[0]);
        assert(forall|i: int|
            0 <= i < ok.drop_first().len() ==> #[trigger] ok.drop_first()[i] == ok[i + 1]);
        assert(sat_sub(total, files[0].size as nat) == size_sum(files.drop_first()));
        lemma_eviction_converges(
            size_sum(files.drop_first()),
            files.drop_first(),
            target,
            ok.drop_first(),
        );
    }
}

/// When no deletion succeeds, a pass leaves the usage unchanged and deletes
/// nothing.
pub proof fn lemma_eviction_all_fail(total: nat, files: Seq<FileEntry>, target: nat, ok: Seq<bool>)
    requires
        ok.len() == files.len(),
        forall|i: int| 0 <= i < ok.len() ==> !ok[i],
    ensures
        evict_pass(total, files, target, ok).0 == total,
        evict_pass(total, files, target, ok).1 == Seq::<u64>::empty(),
    decreases files,
{
    if files.len() == 0 || total < target {
    } else {
        assert(!ok[0]);
        assert(forall|i: int|
            0 <= i < ok.drop_first().len() ==> #[trigger] ok.drop_first()[i] == ok[i + 1]);
        lemma_eviction_all_fail(total, files.drop_first(), target, ok.drop_first());
    }
}

/// Oldest first: when every deletion succeeds, the files a pass deletes are
/// exactly the first `k` candidates of the listing — a prefix, never some
/// other subset — where `k` is the first point at which usage drops below
/// the target (or all of them, if it never does). Over an age-sorted listing
/// these are precisely the `k` oldest files.
pub proof fn lemma_eviction_oldest_first(
    total: nat,
    files: Seq<FileEntry>,
    target: nat,
    ok: Seq<bool>,
)
    requires
        ok.len() == files.len(),
        forall|i: int| 0 <= i < ok.len() ==> ok[i],
    ensures
        ({
            let pass = evict_pass(total, files, target, ok);
            let k = pass.1.len() as int;
            &&& k <= files.len()
            &&& pass.1 == ids_of(files.take(k))
            &&& pass.0 == total_after(total, files, k)
            &&& forall|j: int| 0 <= j < k ==> total_after(total, files, j) >= target
            &&& (k < files.len() ==> total_after(total, files, k) < target)
        }),
    decreases files,
{
    let pass = evict_pass(total, files, target, ok);
    let k = pass.1.len() as int;
    if files.len() == 0 || total < target {
        assert(pass.1 =~= Seq::<u64>::empty());
        assert(ids_of(files.take(0)) =~= Seq::<u64>::empty());
    } else {
        assert(ok[0]);
        assert(forall|i: int|
            0 <= i < ok.drop_first().len() ==> #[trigger] ok.drop_first()[i] == ok[i + 1]);
        let sub = sat_sub(total, files[0].size as nat);
        lemma_eviction_oldest_first(sub, files.drop_first(), target, ok.drop_first());
        let rest = evict_pass(sub, files.drop_first(), target, ok.drop_first());
        let k1 = rest.1.len() as int;
        assert(pass.1 == seq![files[0].id] + rest.1);
        assert(k == k1 + 1);
        assert(pass.1 =~= ids_of(files.take(k))) by {
            assert(rest.1 == ids_of(files.drop_first().take(k1)));
            assert forall|j: int| 0 <= j < k implies (seq![files[0].id] + rest.1)[j] == ids_of(
                files.take(k),
            )[j] by {
                if j > 0 {
                    assert(files.drop_first().take(k1)[j - 1] == files[j]);
                    assert(rest.1[j - 1] == files[j].id);
                }
                assert(files.take(k)[j] == files[j]);
            }
        }
        assert(total_after(total, files, k) == total_after(sub, files.drop_first(), k1));
        assert forall|j: int| 0 <= j < k implies total_after(total, files, j) >= target by {
            if j == 0 {
                assert(total_after(total, files, 0) == total);
            } else {
                assert(total_after(total, files, j) == total_after(
                    sub,
                    files.drop_first(),
                    j - 1,
                ));
            }
        }
    }
}

/// A pass over a directory already strictly under its budget deletes
/// nothing and leaves the usage unchanged.
pub proof fn lemma_eviction_under_budget_noop(
    total: nat,
    files: Seq<FileEntry>,
    target: nat,
    ok: Seq<bool>,
)
    requires
        total < target,
    ensures
        evict_pass(total, files, target, ok) == (total, Seq::<u64>::empty()),
{
}

/// A pass stops only for one of two reasons: usage fell below the target, or
/// (when every deletion succeeds) the candidates ran out.
pub proof fn lemma_eviction_exhausts(total: nat, files: Seq<FileEntry>, target: nat, ok: Seq<bool>)
    requires
        ok.len() == files.len(),
        forall|i: int| 0 <= i < ok.len() ==> ok[i],
    ensures
        evict_pass(total, files, target, ok).0 < target || evict_pass(
            total,
            files,
            target,
            ok,
        ).1.len() == files.len(),
    decreases files,
{
    if files.len() == 0 || total < target {
    } else {
        assert(ok[0]);
        assert(forall|i: int|
            0 <= i < ok.drop_first().len() ==> #[trigger] ok.drop_first()[i] == ok[i + 1]);
        lemma_eviction_exhausts(
            sat_sub(total, files[0].size as nat),
            files.drop_first(),
            target,
            ok.drop_first(),
        );
    }
}

/// Idempotence: right after a pass in which every attempted deletion
/// succeeded, a second pass over the surviving candidates deletes nothing and
/// leaves the usage where the first pass left it, whatever outcomes the
/// second pass would see.
pub proof fn lemma_eviction_idempotent(
    total: nat,
    files: Seq<FileEntry>,
    target: nat,
    ok: Seq<bool>,
    ok2: Seq<bool>,
)
    requires
        ok.len() == files.len(),
        forall|i: int| 0 <= i < ok.len() ==> ok[i],
    ensures
        ({
            let pass = evict_pass(total, files, target, ok);
            let survivors = files.skip(pass.1.len() as int);
            &&& evict_pass(pass.0, survivors, target, ok2).0 == pass.0
            &&& evict_pass(pass.0, survivors, target, ok2).1 == Seq::<u64>::empty()
        }),
{
    let pass = evict_pass(total, files, target, ok);
    lemma_eviction_oldest_first(total, files, target, ok);
    lemma_eviction_exhausts(total, files, target, ok);
    let survivors = files.skip(pass.1.len() as int);
    if pass.0 < target {
        assert(evict_pass(pass.0, survivors, target, ok2).1 =~= Seq::<u64>::empty());
    } else {
        assert(pass.1.len() == files.len());
        assert(survivors =~= Seq::<FileEntry>::empty());
        assert(evict_pass(pass.0, survivors, target, ok2).1 =~= Seq::<u64>::empty());
    }
}

} // verus!
