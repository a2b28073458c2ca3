//! The Cleanup Engine: batched reclamation of files that have sat in
//! Unused status longer than the age threshold. One invocation fetches
//! candidates oldest-first in bounded batches, deletes each payload from
//! the object store, soft-deletes the metadata row, tolerates per-file
//! failures, and appends one audit row — unless it is a dry run, which
//! computes the same counts without touching anything.

use vstd::prelude::*;

use crate::cleanup_log::{CleanupError, CleanupLog, CleanupResult, CleanupStatus};
use crate::clock::current_time_millis;
use crate::enums::FileStatus;
use crate::file_service::{with_status, FileService};
use crate::models::File;
use crate::path_generator::{format_size, spec_format_size};
use crate::storage::StorageBackend;
use crate::store::{file_index, sum_sizes, usage_count, FileStore, StoreModel};
use crate::MS_PER_DAY;

verus! {

/// The cutoff instant of a run: records created strictly before it are
/// old enough to reclaim.
pub open spec fn spec_cutoff(now_millis: i64, days_threshold: u32) -> int {
    now_millis - days_threshold * (MS_PER_DAY as int)
}

/// A file the engine may reclaim: Unused, and created strictly before
/// the cutoff. A file created exactly at the cutoff is not yet eligible.
pub open spec fn eligible(f: File, cutoff: int) -> bool {
    f.status == FileStatus::Unused && (f.created_at as int) < cutoff
}

/// How many flags are set.
pub open spec fn count_where(flags: Seq<bool>) -> nat
    decreases flags.len(),
{
    if flags.len() == 0 {
        0
    } else {
        count_where(flags.drop_last()) + if flags.last() {
            1nat
        } else {
            0nat
        }
    }
}

/// Total size of the flagged rows (flags parallel to the table).
pub open spec fn sum_marked(files: Seq<File>, flags: Seq<bool>) -> int
    decreases files.len(),
{
    if files.len() == 0 || files.len() != flags.len() {
        0
    } else {
        sum_marked(files.drop_last(), flags.drop_last()) + if flags.last() {
            files.last().file_size as int
        } else {
            0
        }
    }
}

/// The eligibility flags of a table.
pub open spec fn eligible_flags(files: Seq<File>, cutoff: int) -> Seq<bool> {
    Seq::new(files.len(), |i: int| eligible(files[i], cutoff))
}

/// The reclamation flags of a run: rows eligible before it and Deleted
/// after it.
pub open spec fn reclaimed_flags(pre: Seq<File>, post: Seq<File>, cutoff: int) -> Seq<bool> {
    Seq::new(
        pre.len(),
        |i: int| eligible(pre[i], cutoff) && 0 <= i < post.len() && post[i].status
            == FileStatus::Deleted,
    )
}

/// How many rows are eligible.
pub open spec fn count_eligible(files: Seq<File>, cutoff: int) -> nat {
    count_where(eligible_flags(files, cutoff))
}

/// Total size of the eligible rows.
pub open spec fn sum_eligible(files: Seq<File>, cutoff: int) -> int {
    sum_marked(files, eligible_flags(files, cutoff))
}

/// How many rows one run reclaimed.
pub open spec fn count_reclaimed(pre: Seq<File>, post: Seq<File>, cutoff: int) -> nat {
    count_where(reclaimed_flags(pre, post, cutoff))
}

/// Total size one run reclaimed.
pub open spec fn sum_reclaimed(pre: Seq<File>, post: Seq<File>, cutoff: int) -> int {
    sum_marked(pre, reclaimed_flags(pre, post, cutoff))
}

/// The outcome of a run: success without errors, partial when some files
/// were reclaimed despite errors, failed when errors left nothing
/// reclaimed.
pub open spec fn spec_outcome(deleted: nat, errors: nat) -> CleanupStatus {
    if errors == 0 {
        CleanupStatus::Success
    } else if deleted > 0 {
        CleanupStatus::Partial
    } else {
        CleanupStatus::Failed
    }
}

pub proof fn lemma_count_where_update(flags: Seq<bool>, i: int, b: bool)
    requires
        0 <= i < flags.len(),
    ensures
        count_where(flags.update(i, b)) == count_where(flags) - (
        if flags[i] {
            1int
        } else {
            0int
        }) + (
        if b {
            1int
        } else {
            0int
        }),
    decreases flags.len(),
{
    if i == flags.len() - 1 {
        assert(flags.update(i, b).drop_last() =~= flags.drop_last());
    } else {
        assert(flags.update(i, b).drop_last() =~= flags.drop_last().update(i, b));
        assert(flags.update(i, b).last() == flags.last());
        lemma_count_where_update(flags.drop_last(), i, b);
    }
}

pub proof fn lemma_count_where_le(flags: Seq<bool>)
    ensures
        count_where(flags) <= flags.len(),
    decreases flags.len(),
{
    if flags.len() > 0 {
        lemma_count_where_le(flags.drop_last());
    }
}

pub proof fn lemma_count_where_all_false(flags: Seq<bool>)
    requires
        forall|i: int| 0 <= i < flags.len() ==> !(#[trigger] flags[i]),
    ensures
        count_where(flags) == 0,
    decreases flags.len(),
{
    if flags.len() > 0 {
        assert(!flags.last());
        lemma_count_where_all_false(flags.drop_last());
    }
}

pub proof fn lemma_count_where_pos(flags: Seq<bool>, i: int)
    requires
        0 <= i < flags.len(),
        flags[i],
    ensures
        count_where(flags) >= 1,
    decreases flags.len(),
{
    if i == flags.len() - 1 {
    } else {
        lemma_count_where_pos(flags.drop_last(), i);
    }
}

pub proof fn lemma_sum_marked_update(files: Seq<File>, flags: Seq<bool>, i: int, b: bool)
    requires
        files.len() == flags.len(),
        0 <= i < flags.len(),
    ensures
        sum_marked(files, flags.update(i, b)) == sum_marked(files, flags) - (
        if flags[i] {
            files[i].file_size as int
        } else {
            0int
        }) + (
        if b {
            files[i].file_size as int
        } else {
            0int
        }),
    decreases files.len(),
{
    if i == flags.len() - 1 {
        assert(flags.update(i, b).drop_last() =~= flags.drop_last());
    } else {
        assert(flags.update(i, b).drop_last() =~= flags.drop_last().update(i, b));
        assert(flags.update(i, b).last() == flags.last());
        lemma_sum_marked_update(files.drop_last(), flags.drop_last(), i, b);
    }
}

/// A marked total lies between zero and the table's total, when sizes
/// are non-negative.
pub proof fn lemma_sum_marked_bounds(files: Seq<File>, flags: Seq<bool>)
    requires
        crate::store::sizes_nonneg(files),
    ensures
        0 <= sum_marked(files, flags),
        sum_marked(files, flags) <= sum_sizes(files),
    decreases files.len(),
{
    if files.len() == 0 || files.len() != flags.len() {
        crate::store::lemma_sum_nonneg(files);
    } else {
        assert(crate::store::sizes_nonneg(files.drop_last()));
        lemma_sum_marked_bounds(files.drop_last(), flags.drop_last());
    }
}

/// A candidate for the next batch: still eligible and not yet attempted
/// in this run.
pub open spec fn cand_flags(files: Seq<File>, att: Seq<bool>, cutoff: int) -> Seq<bool> {
    Seq::new(files.len(), |i: int| eligible(files[i], cutoff) && !(0 <= i < att.len() && att[i]))
}

/// Some entry of the index list equals `x`.
pub open spec fn in_seq(s: Seq<usize>, x: int) -> bool {
    exists|a: int| 0 <= a < s.len() && s[a] == x
}

/// How the attempted flags relate to the tables: only eligible rows are
/// attempted, untouched rows are unchanged, attempted rows are unchanged
/// or soft-deleted.
pub open spec fn inv_marks(
    pre: StoreModel,
    cur: StoreModel,
    att: Seq<bool>,
    cutoff: int,
    now: i64,
) -> bool {
    &&& (forall|i: int| 0 <= i < att.len() && #[trigger] att[i] ==> eligible(pre.files[i], cutoff))
    &&& (forall|i: int|
        0 <= i < att.len() && !(#[trigger] att[i]) ==> cur.files[i] == pre.files[i])
    &&& (forall|i: int|
        0 <= i < att.len() && #[trigger] att[i] ==> (cur.files[i] == pre.files[i] || cur.files[i]
            == with_status(pre.files[i], FileStatus::Deleted, now)))
}

/// Some recorded error names this file id.
pub open spec fn some_error_names(errors: Seq<CleanupError>, id: u128) -> bool {
    exists|k: int| 0 <= k < errors.len() && errors[k].file_id == id
}

/// This error names some attempted row that is still unchanged.
pub open spec fn error_names_attempted(
    pre: StoreModel,
    cur: StoreModel,
    att: Seq<bool>,
    e: CleanupError,
) -> bool {
    exists|i: int|
        0 <= i < pre.files.len() && att[i] && cur.files[i] == pre.files[i] && e.file_id
            == pre.files[i].id
}

/// This error names some eligible row that the run left unchanged.
pub open spec fn error_names_stale(
    pre: StoreModel,
    post: StoreModel,
    cutoff: int,
    e: CleanupError,
) -> bool {
    exists|i: int|
        0 <= i < pre.files.len() && eligible(pre.files[i], cutoff) && post.files[i]
            == pre.files[i] && e.file_id == pre.files[i].id
}

/// How the error list relates to the tables: an attempted row left
/// unchanged has an error naming it, and every error names such a row.
pub open spec fn inv_errors(
    pre: StoreModel,
    cur: StoreModel,
    att: Seq<bool>,
    errors: Seq<CleanupError>,
) -> bool {
    &&& (forall|i: int|
        0 <= i < att.len() && #[trigger] att[i] && cur.files[i] == pre.files[i]
            ==> some_error_names(errors, pre.files[i].id))
    &&& (forall|k: int|
        0 <= k < errors.len() ==> error_names_attempted(pre, cur, att, #[trigger] errors[k]))
}

/// How the ledger relates to the run: surviving usage rows come from the
/// old ledger, a reclaimed file's count is zero, every other file keeps
/// its count.
pub open spec fn inv_usages(pre: StoreModel, cur: StoreModel, cutoff: int) -> bool {
    &&& (forall|j: int|
        0 <= j < cur.usages.len() ==> pre.usages.contains(#[trigger] cur.usages[j]))
    &&& (forall|i: int|
        0 <= i < pre.files.len() ==> usage_count(cur.usages, (#[trigger] pre.files[i]).id) == (
        if eligible(pre.files[i], cutoff) && cur.files[i].status == FileStatus::Deleted {
            0nat
        } else {
            usage_count(pre.usages, pre.files[i].id)
        }))
}

/// The run invariant of one cleanup invocation, relating the store before
/// the run (`pre`), the store as mutated so far (`cur`), the attempted
/// flags, the running counters and the collected errors.
pub open spec fn run_inv(
    pre: StoreModel,
    cur: StoreModel,
    att: Seq<bool>,
    deleted: u64,
    freed: i64,
    errors: Seq<CleanupError>,
    cutoff: int,
    dry_run: bool,
    now: i64,
) -> bool {
    &&& cur.wf()
    &&& (pre.consistent() ==> cur.consistent())
    &&& att.len() == pre.files.len()
    &&& att.len() <= usize::MAX
    &&& count_where(att) <= att.len()
    &&& cur.files.len() == pre.files.len()
    &&& inv_marks(pre, cur, att, cutoff, now)
    &&& if dry_run {
        &&& cur == pre
        &&& deleted == count_where(att)
        &&& freed == sum_marked(pre.files, att)
        &&& errors.len() == 0
    } else {
        &&& deleted == count_reclaimed(pre.files, cur.files, cutoff)
        &&& freed == sum_reclaimed(pre.files, cur.files, cutoff)
        &&& errors.len() + deleted == count_where(att)
        &&& inv_errors(pre, cur, att, errors)
        &&& cur.cleanup_logs == pre.cleanup_logs
        &&& cur.next_usage_id == pre.next_usage_id
        &&& inv_usages(pre, cur, cutoff)
    }
}

/// Marking one more eligible row attempted — leaving it unchanged or
/// soft-deleting exactly that row — preserves the mark relation.
proof fn lemma_marks_step(
    pre: StoreModel,
    cur_b: StoreModel,
    cur: StoreModel,
    att_b: Seq<bool>,
    att: Seq<bool>,
    cutoff: int,
    now: i64,
    i: int,
)
    requires
        inv_marks(pre, cur_b, att_b, cutoff, now),
        att_b.len() == pre.files.len(),
        cur_b.files.len() == pre.files.len(),
        cur.files.len() == pre.files.len(),
        0 <= i < att_b.len(),
        att == att_b.update(i, true),
        eligible(pre.files[i], cutoff),
        cur.files == cur_b.files || cur.files == cur_b.files.update(
            i,
            with_status(pre.files[i], FileStatus::Deleted, now),
        ),
        cur_b.files[i] == pre.files[i],
    ensures
        inv_marks(pre, cur, att, cutoff, now),
{
    assert forall|m: int| 0 <= m < att.len() && #[trigger] att[m] implies eligible(
        pre.files[m],
        cutoff,
    ) by {
        if m != i {
            assert(att_b[m]);
        }
    }
    assert forall|m: int| 0 <= m < att.len() && !(#[trigger] att[m]) implies cur.files[m]
        == pre.files[m] by {
        assert(m != i);
        assert(!att_b[m]);
        assert(cur_b.files[m] == pre.files[m]);
        assert(cur.files[m] == cur_b.files[m]);
    }
    assert forall|m: int| 0 <= m < att.len() && #[trigger] att[m] implies (cur.files[m]
        == pre.files[m] || cur.files[m] == with_status(
        pre.files[m],
        FileStatus::Deleted,
        now,
    )) by {
        if m == i {
        } else {
            assert(att_b[m]);
            assert(cur.files[m] == cur_b.files[m]);
        }
    }
}

/// Marking one candidate attempted turns exactly its candidate flag off.
proof fn lemma_cand_off(
    files_b: Seq<File>,
    files: Seq<File>,
    att_b: Seq<bool>,
    att: Seq<bool>,
    cutoff: int,
    i: int,
)
    requires
        0 <= i < att_b.len(),
        att_b.len() == files_b.len(),
        files.len() == files_b.len(),
        att == att_b.update(i, true),
        cand_flags(files_b, att_b, cutoff)[i],
        forall|m: int| 0 <= m < files.len() && m != i ==> files[m] == files_b[m],
    ensures
        count_where(cand_flags(files, att, cutoff)) == count_where(
            cand_flags(files_b, att_b, cutoff),
        ) - 1,
{
    let c1 = cand_flags(files_b, att_b, cutoff);
    let c2 = cand_flags(files, att, cutoff);
    assert(c2 =~= c1.update(i, false));
    lemma_count_where_update(c1, i, false);
}

/// After soft-deleting one attempted row and cascading its usages, the
/// error and ledger relations hold again.
proof fn lemma_reclaim_step(
    pre: StoreModel,
    cur_b: StoreModel,
    cur: StoreModel,
    att_b: Seq<bool>,
    att: Seq<bool>,
    errors: Seq<CleanupError>,
    cutoff: int,
    now: i64,
    i: int,
    file_id: u128,
)
    requires
        crate::store::file_ids_unique(pre.files),
        inv_errors(pre, cur_b, att_b, errors),
        inv_usages(pre, cur_b, cutoff),
        att_b.len() == pre.files.len(),
        cur_b.files.len() == pre.files.len(),
        0 <= i < att_b.len(),
        !att_b[i],
        eligible(pre.files[i], cutoff),
        cur_b.files[i] == pre.files[i],
        pre.files[i].id == file_id,
        att == att_b.update(i, true),
        cur.files == cur_b.files.update(i, with_status(pre.files[i], FileStatus::Deleted, now)),
        cur.usages == crate::store::cascade_usages(cur_b.usages, file_id),
    ensures
        inv_errors(pre, cur, att, errors),
        inv_usages(pre, cur, cutoff),
{
    crate::store::lemma_cascade(cur_b.usages, file_id);
    assert forall|j: int| 0 <= j < cur.usages.len() implies pre.usages.contains(
        #[trigger] cur.usages[j],
    ) by {
        assert(cur_b.usages.contains(cur.usages[j]));
        let c = choose|c: int| 0 <= c < cur_b.usages.len() && cur_b.usages[c] == cur.usages[j];
        assert(pre.usages.contains(cur_b.usages[c]));
    }
    assert forall|m: int| 0 <= m < pre.files.len() implies usage_count(
        cur.usages,
        (#[trigger] pre.files[m]).id,
    ) == (
    if eligible(pre.files[m], cutoff) && cur.files[m].status == FileStatus::Deleted {
        0nat
    } else {
        usage_count(pre.usages, pre.files[m].id)
    }) by {
        if m == i {
            assert(usage_count(cur.usages, file_id) == 0);
            assert(cur.files[i].status == FileStatus::Deleted);
        } else {
            assert(pre.files[m].id != file_id);
            assert(cur.files[m] == cur_b.files[m]);
            assert(usage_count(cur.usages, pre.files[m].id) == usage_count(
                cur_b.usages,
                pre.files[m].id,
            ));
        }
    }
    assert(cur.files[i] != pre.files[i]);
    assert forall|m: int|
        0 <= m < att.len() && #[trigger] att[m] && cur.files[m]
            == pre.files[m] implies some_error_names(errors, pre.files[m].id) by {
        assert(m != i);
        assert(att_b[m]);
        assert(cur_b.files[m] == pre.files[m]);
    }
    assert forall|k: int| 0 <= k < errors.len() implies error_names_attempted(
        pre,
        cur,
        att,
        #[trigger] errors[k],
    ) by {
        let m = choose|m: int|
            0 <= m < pre.files.len() && att_b[m] && cur_b.files[m] == pre.files[m]
                && errors[k].file_id == pre.files[m].id;
        assert(m != i);
        assert(att[m] && cur.files[m] == pre.files[m]);
    }
}

/// After recording one attempted row's error, the error relation holds
/// again.
proof fn lemma_error_step(
    pre: StoreModel,
    cur: StoreModel,
    att_b: Seq<bool>,
    att: Seq<bool>,
    errors_b: Seq<CleanupError>,
    errors: Seq<CleanupError>,
    i: int,
    file_id: u128,
)
    requires
        inv_errors(pre, cur, att_b, errors_b),
        att_b.len() == pre.files.len(),
        cur.files.len() == pre.files.len(),
        0 <= i < att_b.len(),
        !att_b[i],
        cur.files[i] == pre.files[i],
        pre.files[i].id == file_id,
        att == att_b.update(i, true),
        errors.len() == errors_b.len() + 1,
        forall|k: int| 0 <= k < errors_b.len() ==> errors[k] == errors_b[k],
        errors.last().file_id == file_id,
    ensures
        inv_errors(pre, cur, att, errors),
{
    assert forall|m: int|
        0 <= m < att.len() && #[trigger] att[m] && cur.files[m]
            == pre.files[m] implies some_error_names(errors, pre.files[m].id) by {
        if m == i {
            assert(errors[errors.len() - 1].file_id == pre.files[i].id);
        } else {
            assert(att_b[m]);
            assert(some_error_names(errors_b, pre.files[m].id));
            let k = choose|k: int|
                0 <= k < errors_b.len() && errors_b[k].file_id == pre.files[m].id;
            assert(errors[k] == errors_b[k]);
        }
    }
    assert forall|k: int| 0 <= k < errors.len() implies error_names_attempted(
        pre,
        cur,
        att,
        #[trigger] errors[k],
    ) by {
        if k < errors.len() - 1 {
            assert(error_names_attempted(pre, cur, att_b, errors_b[k]));
            let m = choose|m: int|
                0 <= m < pre.files.len() && att_b[m] && cur.files[m] == pre.files[m]
                    && errors_b[k].file_id == pre.files[m].id;
            assert(att[m]);
            assert(errors[k] == errors_b[k]);
        } else {
            assert(att[i] && cur.files[i] == pre.files[i]);
            assert(errors[k].file_id == pre.files[i].id);
        }
    }
}

/// What one cleanup invocation guarantees: untouched ineligible rows,
/// each eligible row either reclaimed (payload removed, row Deleted,
/// usages cascaded) or left as it was with an error naming it, exact
/// counters, the outcome taxonomy, and — for real runs — one audit row.
pub open spec fn cleanup_post(
    pre: StoreModel,
    post: StoreModel,
    r: CleanupResult,
    cutoff: int,
    dry_run: bool,
    now: i64,
) -> bool {
    &&& post.files.len() == pre.files.len()
    &&& (forall|i: int|
        0 <= i < pre.files.len() && !eligible(#[trigger] pre.files[i], cutoff) ==> post.files[i]
            == pre.files[i])
    &&& (forall|i: int|
        0 <= i < pre.files.len() && eligible(#[trigger] pre.files[i], cutoff) ==> (post.files[i]
            == pre.files[i] || post.files[i] == with_status(
            pre.files[i],
            FileStatus::Deleted,
            now,
        )))
    &&& r.status == spec_outcome(r.files_deleted as nat, r.errors@.len())
    &&& r.space_freed >= 0
    &&& r.space_freed_pretty@ == spec_format_size(r.space_freed as int)
    &&& post.next_usage_id == pre.next_usage_id
    &&& if dry_run {
        &&& post == pre
        &&& r.files_deleted == count_eligible(pre.files, cutoff)
        &&& r.space_freed == sum_eligible(pre.files, cutoff)
        &&& r.errors@.len() == 0
    } else {
        &&& r.files_deleted == count_reclaimed(pre.files, post.files, cutoff)
        &&& r.space_freed == sum_reclaimed(pre.files, post.files, cutoff)
        &&& r.files_deleted + r.errors@.len() == count_eligible(pre.files, cutoff)
        &&& (forall|i: int|
            0 <= i < pre.files.len() && eligible(#[trigger] pre.files[i], cutoff) ==> (
            post.files[i] == with_status(pre.files[i], FileStatus::Deleted, now) || (post.files[i]
                == pre.files[i] && some_error_names(r.errors@, pre.files[i].id))))
        &&& (forall|k: int|
            0 <= k < r.errors@.len() ==> error_names_stale(
                pre,
                post,
                cutoff,
                #[trigger] r.errors@[k],
            ))
        &&& (forall|j: int|
            0 <= j < post.usages.len() ==> pre.usages.contains(#[trigger] post.usages[j]))
        &&& (forall|i: int|
            0 <= i < pre.files.len() ==> usage_count(post.usages, (#[trigger] pre.files[i]).id)
                == (
            if eligible(pre.files[i], cutoff) && post.files[i].status == FileStatus::Deleted {
                0nat
            } else {
                usage_count(pre.usages, pre.files[i].id)
            }))
        &&& post.cleanup_logs.len() == pre.cleanup_logs.len() + 1
        &&& post.cleanup_logs.take(pre.cleanup_logs.len() as int) == pre.cleanup_logs
        &&& post.cleanup_logs.last().id == pre.cleanup_logs.len()
        &&& post.cleanup_logs.last().cleanup_time == now
        &&& post.cleanup_logs.last().files_deleted == r.files_deleted
        &&& post.cleanup_logs.last().space_freed == r.space_freed
        &&& post.cleanup_logs.last().duration_ms == r.duration_ms
        &&& post.cleanup_logs.last().status == r.status
        &&& post.cleanup_logs.last().errors@ == r.errors@
    }
}

pub struct CleanupService;

impl CleanupService {
    /// Whether the index list mentions `x`.
    fn batch_contains(batch: &Vec<usize>, x: usize) -> (r: bool)
        ensures
            r == in_seq(batch@, x as int),
    {
        let mut a: usize = 0;
        while a < batch.len()
            invariant
                a <= batch@.len(),
                forall|b: int| 0 <= b < a ==> batch@[b] != x,
            decreases batch@.len() - a,
        {
            if batch[a] == x {
                return true;
            }
            a = a + 1;
        }
        false
    }

    /// Fetches up to `limit` candidates — rows still Unused, created
    /// strictly before the cutoff and not yet attempted in this run —
    /// oldest first. It returns as many as exist, up to the limit, and
    /// nothing it leaves behind is older than what it returns.
    fn fetch_files_to_cleanup(
        store: &FileStore,
        att: &Vec<bool>,
        cutoff: i128,
        limit: usize,
    ) -> (r: Vec<usize>)
        requires
            att@.len() == store@.files.len(),
        ensures
            r@.len() <= limit,
            forall|a: int, b: int| 0 <= a < b < r@.len() ==> r@[a] != r@[b],
            forall|a: int|
                0 <= a < r@.len() ==> (#[trigger] r@[a]) < store@.files.len() && eligible(
                    store@.files[r@[a] as int],
                    cutoff as int,
                ) && !att@[r@[a] as int],
            forall|a: int, b: int|
                0 <= a <= b < r@.len() ==> store@.files[r@[a] as int].created_at
                    <= store@.files[r@[b] as int].created_at,
            r@.len() == (if count_where(cand_flags(store@.files, att@, cutoff as int)) <= limit {
                count_where(cand_flags(store@.files, att@, cutoff as int))
            } else {
                limit as nat
            }),
            forall|j: int|
                0 <= j < store@.files.len() && eligible(store@.files[j], cutoff as int)
                    && !att@[j] && !in_seq(r@, j) ==> forall|a: int|
                    0 <= a < r@.len() ==> store@.files[r@[a] as int].created_at <= (
                    #[trigger] store@.files[j]).created_at,
    {
        let files_len = store.files.len();
        let ghost cand0 = cand_flags(store@.files, att@, cutoff as int);
        let mut picked: Vec<usize> = Vec::new();
        let mut done: bool = false;
        proof {
            assert(Seq::new(
                store@.files.len(),
                |i: int| eligible(store@.files[i], cutoff as int) && !(0 <= i < att@.len()
                    && att@[i]) && !in_seq(picked@, i),
            ) =~= cand0);
        }
        while !done && picked.len() < limit
            invariant
                att@.len() == store@.files.len(),
                files_len == store@.files.len(),
                picked@.len() <= limit,
                forall|a: int, b: int| 0 <= a < b < picked@.len() ==> picked@[a] != picked@[b],
                forall|a: int|
                    0 <= a < picked@.len() ==> (#[trigger] picked@[a]) < store@.files.len()
                        && eligible(store@.files[picked@[a] as int], cutoff as int)
                        && !att@[picked@[a] as int],
                forall|a: int, b: int|
                    0 <= a <= b < picked@.len() ==> store@.files[picked@[a] as int].created_at
                        <= store@.files[picked@[b] as int].created_at,
                count_where(
                    Seq::new(
                        store@.files.len(),
                        |i: int| eligible(store@.files[i], cutoff as int) && !(0 <= i < att@.len()
                            && att@[i]) && !in_seq(picked@, i),
                    ),
                ) + picked@.len() == count_where(cand0),
                done ==> count_where(
                    Seq::new(
                        store@.files.len(),
                        |i: int| eligible(store@.files[i], cutoff as int) && !(0 <= i < att@.len()
                            && att@[i]) && !in_seq(picked@, i),
                    ),
                ) == 0,
                forall|j: int|
                    0 <= j < store@.files.len() && eligible(store@.files[j], cutoff as int)
                        && !att@[j] && !in_seq(picked@, j) ==> forall|a: int|
                        0 <= a < picked@.len() ==> store@.files[picked@[a] as int].created_at <= (
                        #[trigger] store@.files[j]).created_at,
            decreases limit - picked@.len(), 1int - (if done {
                1int
            } else {
                0int
            }),
        {
            let ghost rem = Seq::new(
                store@.files.len(),
                |i: int| eligible(store@.files[i], cutoff as int) && !(0 <= i < att@.len()
                    && att@[i]) && !in_seq(picked@, i),
            );
            let mut best: usize = 0;
            let mut has_best: bool = false;
            let mut i: usize = 0;
            while i < files_len
                invariant
                    att@.len() == store@.files.len(),
                    files_len == store@.files.len(),
                    i <= files_len,
                    rem == Seq::new(
                        store@.files.len(),
                        |m: int| eligible(store@.files[m], cutoff as int) && !(0 <= m < att@.len()
                            && att@[m]) && !in_seq(picked@, m),
                    ),
                    has_best ==> best < files_len && rem[best as int],
                    has_best ==> forall|m: int|
                        0 <= m < i && #[trigger] rem[m] ==> store@.files[best as int].created_at
                            <= store@.files[m].created_at,
                    !has_best ==> forall|m: int| 0 <= m < i ==> !(#[trigger] rem[m]),
                decreases files_len - i,
            {
                let is_cand = {
                    let f = &store.files[i];
                    f.status == FileStatus::Unused && (f.created_at as i128) < cutoff && !att[i]
                        && !Self::batch_contains(&picked, i)
                };
                if is_cand {
                    proof {
                        assert(rem[i as int]);
                    }
                    if !has_best || store.files[i].created_at < store.files[best].created_at {
                        best = i;
                        has_best = true;
                    }
                } else {
                    proof {
                        assert(!rem[i as int]);
                    }
                }
                i = i + 1;
            }
            if !has_best {
                proof {
                    lemma_count_where_all_false(rem);
                }
                done = true;
            } else {
            let ghost old_picked = picked@;
            picked.push(best);
            proof {
                let rem2 = Seq::new(
                    store@.files.len(),
                    |m: int| eligible(store@.files[m], cutoff as int) && !(0 <= m < att@.len()
                        && att@[m]) && !in_seq(picked@, m),
                );
                assert(forall|a: int|
                    0 <= a < old_picked.len() ==> #[trigger] picked@[a] == old_picked[a]);
                assert(picked@[picked@.len() - 1] == best);
                assert(forall|m: int|
                    0 <= m < store@.files.len() && m != best ==> (in_seq(picked@, m) <==> in_seq(
                        old_picked,
                        m,
                    ))) by {
                    assert forall|m: int|
                        0 <= m < store@.files.len() && m != best && in_seq(
                            picked@,
                            m,
                        ) implies in_seq(old_picked, m) by {
                        let a = choose|a: int| 0 <= a < picked@.len() && picked@[a] == m;
                        assert(a < old_picked.len());
                    }
                    assert forall|m: int|
                        0 <= m < store@.files.len() && m != best && in_seq(
                            old_picked,
                            m,
                        ) implies in_seq(picked@, m) by {
                        let a = choose|a: int| 0 <= a < old_picked.len() && old_picked[a] == m;
                        assert(picked@[a] == m);
                    }
                }
                assert(in_seq(picked@, best as int));
                assert(rem2 =~= rem.update(best as int, false));
                lemma_count_where_update(rem, best as int, false);
                assert forall|j: int, a: int|
                    0 <= j < store@.files.len() && eligible(store@.files[j], cutoff as int)
                        && !att@[j] && !in_seq(picked@, j) && 0 <= a
                        < picked@.len() implies store@.files[picked@[a] as int].created_at
                    <= store@.files[j].created_at by {
                    assert(!in_seq(old_picked, j));
                    assert(rem[j]);
                    if a == picked@.len() - 1 {
                        assert(picked@[a] == best);
                    } else {
                        assert(picked@[a] == old_picked[a]);
                    }
                }
            }
            }
        }
        proof {
            let remf = Seq::new(
                store@.files.len(),
                |i: int| eligible(store@.files[i], cutoff as int) && !(0 <= i < att@.len()
                    && att@[i]) && !in_seq(picked@, i),
            );
            lemma_count_where_le(remf);
            if done {
                assert(count_where(remf) == 0);
                assert(picked@.len() == count_where(cand0));
            } else {
                assert(picked@.len() == limit);
                assert(count_where(cand0) >= picked@.len());
            }
        }
        picked
    }

    /// Processes one fetched candidate: in a dry run it is only counted;
    /// otherwise its payload is deleted from the object store and, on
    /// success, its row is soft-deleted, while a failure is recorded as
    /// the file's error. Exactly one attempted flag is set either way.
    #[verifier::spinoff_prover]
    #[verifier::rlimit(100)]
    fn process_candidate<S: StorageBackend>(
        store: &mut FileStore,
        storage: &mut S,
        att: &mut Vec<bool>,
        deleted: &mut u64,
        freed: &mut i64,
        errors: &mut Vec<CleanupError>,
        i: usize,
        dry_run: bool,
        now_millis: i64,
        Ghost(pre): Ghost<StoreModel>,
        Ghost(cutoff_g): Ghost<int>,
    )
        requires
            pre.wf(),
            run_inv(
                pre,
                old(store)@,
                old(att)@,
                *old(deleted),
                *old(freed),
                old(errors)@,
                cutoff_g,
                dry_run,
                now_millis,
            ),
            (i as int) < pre.files.len(),
            !old(att)@[i as int],
            eligible(pre.files[i as int], cutoff_g),
        ensures
            run_inv(
                pre,
                final(store)@,
                final(att)@,
                *final(deleted),
                *final(freed),
                final(errors)@,
                cutoff_g,
                dry_run,
                now_millis,
            ),
            final(att)@ == old(att)@.update(i as int, true),
            count_where(final(att)@) == count_where(old(att)@) + 1,
            count_where(cand_flags(final(store)@.files, final(att)@, cutoff_g)) == count_where(
                cand_flags(old(store)@.files, old(att)@, cutoff_g),
            ) - 1,
    {
        proof {
            assert(store@.files[i as int] == pre.files[i as int]);
            assert(cand_flags(store@.files, att@, cutoff_g)[i as int]);
        }
        let file_id = store.files[i].id;
        let size = store.files[i].file_size;
        let ghost att_before = att@;
        let ghost cur_before = store@;
        let ghost errors_before = errors@;
        proof {
            lemma_count_where_update(att_before, i as int, true);
            lemma_count_where_le(att_before.update(i as int, true));
        }
        if dry_run {
            proof {
                lemma_sum_marked_update(pre.files, att_before, i as int, true);
                lemma_sum_marked_bounds(pre.files, att_before.update(i as int, true));
            }
            att[i] = true;
            *deleted = *deleted + 1;
            *freed = *freed + size;
            proof {
                lemma_cand_off(cur_before.files, cur_before.files, att_before, att@, cutoff_g, i as int);
                lemma_marks_step(
                    pre,
                    cur_before,
                    store@,
                    att_before,
                    att@,
                    cutoff_g,
                    now_millis,
                    i as int,
                );
            }
            return ;
        }
        let key = store.files[i].storage_key.clone();
        match storage.delete(key.as_str()) {
            Ok(_) => {
                proof {
                    assert(crate::store::has_file(store@.files, file_id));
                    let w = file_index(store@.files, file_id);
                    assert(store@.files[w].id == file_id);
                    assert(w == i as int);
                }
                let res = FileService::mark_file_deleted(store, file_id, now_millis);
                proof {
                    assert(res is Ok);
                    assert(store@.files == cur_before.files.update(
                        i as int,
                        with_status(pre.files[i as int], FileStatus::Deleted, now_millis),
                    ));
                    assert(store@.usages == crate::store::cascade_usages(
                        cur_before.usages,
                        file_id,
                    ));
                    let rf = reclaimed_flags(pre.files, cur_before.files, cutoff_g);
                    let rf2 = reclaimed_flags(pre.files, store@.files, cutoff_g);
                    assert(rf2 =~= rf.update(i as int, true));
                    assert(!rf[i as int]);
                    lemma_count_where_update(rf, i as int, true);
                    lemma_count_where_le(rf.update(i as int, true));
                    lemma_sum_marked_update(pre.files, rf, i as int, true);
                    lemma_sum_marked_bounds(pre.files, rf.update(i as int, true));
                }
                att[i] = true;
                *deleted = *deleted + 1;
                *freed = *freed + size;
                proof {
                    lemma_cand_off(
                        cur_before.files,
                        store@.files,
                        att_before,
                        att@,
                        cutoff_g,
                        i as int,
                    );
                    lemma_marks_step(
                        pre,
                        cur_before,
                        store@,
                        att_before,
                        att@,
                        cutoff_g,
                        now_millis,
                        i as int,
                    );
                    lemma_reclaim_step(
                        pre,
                        cur_before,
                        store@,
                        att_before,
                        att@,
                        errors@,
                        cutoff_g,
                        now_millis,
                        i as int,
                        file_id,
                    );
                }
                return ;
            },
            Err(msg) => {
                errors.push(CleanupError { file_id, detail: msg });
                att[i] = true;
                proof {
                    assert(store@ == cur_before);
                    lemma_cand_off(
                        cur_before.files,
                        store@.files,
                        att_before,
                        att@,
                        cutoff_g,
                        i as int,
                    );
                    lemma_marks_step(
                        pre,
                        cur_before,
                        store@,
                        att_before,
                        att@,
                        cutoff_g,
                        now_millis,
                        i as int,
                    );
                    lemma_error_step(
                        pre,
                        store@,
                        att_before,
                        att@,
                        errors_before,
                        errors@,
                        i as int,
                        file_id,
                    );
                }
            },
        }
    }

    /// One reclamation run: processes every file that is Unused and older
    /// than the threshold, in batches of `batch_size`, oldest first. Each
    /// file's payload is deleted from the object store and, on success,
    /// its row is soft-deleted with its usages cascaded; a failed delete
    /// is recorded as that file's error and the file stays eligible for
    /// the next run. A dry run computes the same counts without touching
    /// the object store, the tables or the audit log. Real runs append
    /// one audit row. The summary's duration is read from the clock and
    /// carries no guarantee.
    pub fn cleanup_unused_files<S: StorageBackend>(
        store: &mut FileStore,
        storage: &mut S,
        days_threshold: u32,
        batch_size: usize,
        dry_run: bool,
        now_millis: i64,
    ) -> (r: CleanupResult)
        requires
            old(store)@.wf(),
            batch_size >= 1,
        ensures
            final(store)@.wf(),
            old(store)@.consistent() ==> final(store)@.consistent(),
            cleanup_post(
                old(store)@,
                final(store)@,
                r,
                spec_cutoff(now_millis, days_threshold),
                dry_run,
                now_millis,
            ),
    {
        let start_time = current_time_millis();
        let ghost pre = old(store)@;
        let ghost cutoff_g = spec_cutoff(now_millis, days_threshold);
        let cutoff: i128 = (now_millis as i128) - (days_threshold as i128) * (MS_PER_DAY as i128);
        let n = store.files.len();
        let mut att: Vec<bool> = Vec::new();
        let mut t: usize = 0;
        while t < n
            invariant
                t <= n,
                att@.len() == t,
                forall|i: int| 0 <= i < t ==> !(#[trigger] att@[i]),
            decreases n - t,
        {
            att.push(false);
            t = t + 1;
        }
        let mut deleted: u64 = 0;
        let mut freed: i64 = 0;
        let mut errors: Vec<CleanupError> = Vec::new();
        proof {
            assert(att@.len() == n as int);
            lemma_count_where_all_false(att@);
            lemma_sum_marked_all_false(pre.files, att@);
            if !dry_run {
                assert(reclaimed_flags(pre.files, pre.files, cutoff_g) =~= att@);
            }
            assert(run_inv(
                pre,
                store@,
                att@,
                deleted,
                freed,
                errors@,
                cutoff_g,
                dry_run,
                now_millis,
            ));
        }
        let mut finished: bool = false;
        while !finished
            invariant
                old(store)@ == pre,
                pre.wf(),
                batch_size >= 1,
                cutoff as int == cutoff_g,
                run_inv(pre, store@, att@, deleted, freed, errors@, cutoff_g, dry_run, now_millis),
                finished ==> count_where(cand_flags(store@.files, att@, cutoff_g)) == 0,
            decreases att@.len() - count_where(att@) + (
            if finished {
                0int
            } else {
                1int
            }),
        {
            let batch = Self::fetch_files_to_cleanup(store, &att, cutoff, batch_size);
            let bl = batch.len();
            if bl == 0 {
                proof {
                    let cf = cand_flags(store@.files, att@, cutoff_g);
                    if count_where(cf) > batch_size {
                    } else {
                        assert(count_where(cf) == 0);
                    }
                }
                finished = true;
            } else {
                let ghost avail0 = count_where(cand_flags(store@.files, att@, cutoff_g));
                let ghost count_att_in = count_where(att@);
                let mut k: usize = 0;
                while k < bl
                    invariant
                        old(store)@ == pre,
                        pre.wf(),
                        cutoff as int == cutoff_g,
                        run_inv(
                            pre,
                            store@,
                            att@,
                            deleted,
                            freed,
                            errors@,
                            cutoff_g,
                            dry_run,
                            now_millis,
                        ),
                        bl == batch@.len(),
                        k <= bl,
                        forall|a: int, b: int| 0 <= a < b < bl ==> batch@[a] != batch@[b],
                        forall|a: int|
                            0 <= a < bl ==> (#[trigger] batch@[a]) < pre.files.len() && eligible(
                                pre.files[batch@[a] as int],
                                cutoff_g,
                            ),
                        forall|a: int| k <= a < bl ==> !att@[(#[trigger] batch@[a]) as int],
                        count_where(att@) == count_att_in + k,
                        count_where(cand_flags(store@.files, att@, cutoff_g)) == avail0 - k,
                        avail0 >= bl,
                    decreases bl - k,
                {
                    let i = batch[k];
                    Self::process_candidate(
                        store,
                        storage,
                        &mut att,
                        &mut deleted,
                        &mut freed,
                        &mut errors,
                        i,
                        dry_run,
                        now_millis,
                        Ghost(pre),
                        Ghost(cutoff_g),
                    );
                    k = k + 1;
                }
                if bl < batch_size {
                    proof {
                        assert(avail0 == bl);
                        assert(count_where(cand_flags(store@.files, att@, cutoff_g)) == 0);
                    }
                    finished = true;
                }
            }
        }
        proof {
            let cf = cand_flags(store@.files, att@, cutoff_g);
            assert forall|i: int|
                0 <= i < pre.files.len() && eligible(#[trigger] pre.files[i], cutoff_g) implies att@[i]
                by {
                if !att@[i] {
                    assert(store@.files[i] == pre.files[i]);
                    assert(cf[i]);
                    lemma_count_where_pos(cf, i);
                }
            }
            assert(att@ =~= eligible_flags(pre.files, cutoff_g));
        }
        let end_time = current_time_millis();
        let d128: i128 = (end_time as i128) - (start_time as i128);
        let duration_ms: i64 = if d128 < 0 {
            0
        } else if d128 > (i64::MAX as i128) {
            i64::MAX
        } else {
            d128 as i64
        };
        let status = if errors.len() == 0 {
            CleanupStatus::Success
        } else if deleted > 0 {
            CleanupStatus::Partial
        } else {
            CleanupStatus::Failed
        };
        proof {
            if dry_run {
                lemma_sum_marked_bounds(pre.files, att@);
            } else {
                lemma_sum_marked_bounds(
                    pre.files,
                    reclaimed_flags(pre.files, store@.files, cutoff_g),
                );
            }
        }
        let ghost mid = store@;
        let pretty = format_size(freed);
        if !dry_run {
            let mut log_errors: Vec<CleanupError> = Vec::new();
            let mut e: usize = 0;
            while e < errors.len()
                invariant
                    e <= errors@.len(),
                    log_errors@ == errors@.take(e as int),
                decreases errors@.len() - e,
            {
                log_errors.push(errors[e].clone());
                e = e + 1;
                proof {
                    assert(log_errors@ =~= errors@.take(e as int));
                }
            }
            proof {
                assert(errors@.take(errors@.len() as int) =~= errors@);
            }
            let log = CleanupLog {
                id: store.cleanup_logs.len() as u64,
                cleanup_time: now_millis,
                files_deleted: deleted,
                space_freed: freed,
                duration_ms,
                status,
                errors: log_errors,
            };
            let ghost logs_before = store@.cleanup_logs;
            store.cleanup_logs.push(log);
            proof {
                assert(store@.cleanup_logs.take(logs_before.len() as int) =~= logs_before);
            }
        }
        let result = CleanupResult {
            files_deleted: deleted,
            space_freed: freed,
            space_freed_pretty: pretty,
            duration_ms,
            status,
            errors,
        };
        proof {
            lemma_cleanup_finish(
                pre,
                mid,
                store@,
                att@,
                result,
                cutoff_g,
                dry_run,
                now_millis,
            );
        }
        result
    }
}

/// From the run invariant, the completed attempt set and the appended
/// audit row, the whole-run guarantee follows.
#[verifier::spinoff_prover]
proof fn lemma_cleanup_finish(
    pre: StoreModel,
    mid: StoreModel,
    post: StoreModel,
    att: Seq<bool>,
    r: CleanupResult,
    cutoff: int,
    dry_run: bool,
    now: i64,
)
    requires
        pre.wf(),
        run_inv(pre, mid, att, r.files_deleted, r.space_freed, r.errors@, cutoff, dry_run, now),
        att == eligible_flags(pre.files, cutoff),
        r.status == spec_outcome(r.files_deleted as nat, r.errors@.len()),
        r.space_freed >= 0,
        r.space_freed_pretty@ == spec_format_size(r.space_freed as int),
        if dry_run {
            post == mid
        } else {
            &&& post.files == mid.files
            &&& post.usages == mid.usages
            &&& post.next_usage_id == mid.next_usage_id
            &&& post.cleanup_logs.len() == mid.cleanup_logs.len() + 1
            &&& post.cleanup_logs.take(mid.cleanup_logs.len() as int) == mid.cleanup_logs
            &&& post.cleanup_logs.last().id == mid.cleanup_logs.len()
            &&& post.cleanup_logs.last().cleanup_time == now
            &&& post.cleanup_logs.last().files_deleted == r.files_deleted
            &&& post.cleanup_logs.last().space_freed == r.space_freed
            &&& post.cleanup_logs.last().duration_ms == r.duration_ms
            &&& post.cleanup_logs.last().status == r.status
            &&& post.cleanup_logs.last().errors@ == r.errors@
        },
    ensures
        cleanup_post(pre, post, r, cutoff, dry_run, now),
{
    assert(forall|m: int|
        0 <= m < pre.files.len() ==> (#[trigger] att[m] <==> eligible(pre.files[m], cutoff)));
    assert forall|m: int|
        0 <= m < pre.files.len() && !eligible(#[trigger] pre.files[m], cutoff) implies post.files[m]
        == pre.files[m] by {
        assert(!att[m]);
    }
    if !dry_run {
        assert forall|m: int|
            0 <= m < pre.files.len() && eligible(#[trigger] pre.files[m], cutoff) implies (
        post.files[m] == with_status(pre.files[m], FileStatus::Deleted, now) || (post.files[m]
            == pre.files[m] && some_error_names(r.errors@, pre.files[m].id))) by {
            assert(att[m]);
        }
        assert forall|kk: int| 0 <= kk < r.errors@.len() implies error_names_stale(
            pre,
            post,
            cutoff,
            #[trigger] r.errors@[kk],
        ) by {
            assert(error_names_attempted(pre, mid, att, r.errors@[kk]));
            let m = choose|m: int|
                0 <= m < pre.files.len() && att[m] && mid.files[m] == pre.files[m]
                    && r.errors@[kk].file_id == pre.files[m].id;
            assert(eligible(pre.files[m], cutoff));
            assert(post.files[m] == pre.files[m]);
        }
        assert(r.files_deleted + r.errors@.len() == count_where(att));
        assert(count_eligible(pre.files, cutoff) == count_where(att));
    } else {
        assert(r.files_deleted == count_where(att));
        assert(count_eligible(pre.files, cutoff) == count_where(att));
        assert(sum_eligible(pre.files, cutoff) == sum_marked(pre.files, att));
    }
}

/// A total over unset flags is zero.
pub proof fn lemma_sum_marked_all_false(files: Seq<File>, flags: Seq<bool>)
    requires
        forall|i: int| 0 <= i < flags.len() ==> !(#[trigger] flags[i]),
    ensures
        sum_marked(files, flags) == 0,
    decreases files.len(),
{
    if files.len() != 0 && files.len() == flags.len() {
        assert(!flags.last());
        lemma_sum_marked_all_false(files.drop_last(), flags.drop_last());
    }
}

} // verus!
