//! The laws of the lifecycle: properties that relate several operations,
//! stated over the store model and proved once and for all. Each law's
//! hypotheses are exactly what the operations' contracts guarantee, so a
//! caller obtains the law's conclusion from any real sequence of calls.

use vstd::prelude::*;

use crate::cleanup_log::{CleanupResult, CleanupStatus};
use crate::cleanup_service::{
    cleanup_post, count_eligible, eligible, eligible_flags, reclaimed_flags, some_error_names,
    spec_cutoff, spec_outcome, sum_eligible,
};
use crate::enums::FileStatus;
use crate::file_service::{new_file_record, with_status};
use crate::models::{CreateFileRequest, File, FileUsage};
use crate::store::{
    file_index, has_file, has_usage, lemma_usage_count_push, live_file, usage_count, usage_index,
    StoreModel,
};
use crate::MS_PER_DAY;

verus! {

/// A newly created file record starts Unused, carries the request's
/// attributes, and is retrievable: its id names a row of the new table.
pub proof fn law_create_file_unused(m: StoreModel, req: CreateFileRequest, id: u128, now: i64)
    requires
        !has_file(m.files, id),
    ensures
        new_file_record(req, id, now).status == FileStatus::Unused,
        new_file_record(req, id, now).id == id,
        has_file(m.files.push(new_file_record(req, id, now)), id),
{
    let rec = new_file_record(req, id, now);
    let files = m.files.push(rec);
    assert(files[files.len() - 1].id == id);
}

/// Marking a file used and then unused with the same (usage-type,
/// usage-id) returns the ledger to its original count for that file; in
/// particular a file without prior references comes back with a remaining
/// count of zero, and the remove step then sets it Unused.
///
/// `s0 -> s1` is a successful MarkUsed and `s1 -> s2` a successful
/// MarkUnused of the same triple, each described by its contract.
pub proof fn law_used_then_unused_round_trip(
    s0: StoreModel,
    s1: StoreModel,
    s2: StoreModel,
    u: FileUsage,
    remaining: u64,
    file_id: u128,
    usage_type: String,
    usage_id: i32,
    now1: i64,
    now2: i64,
)
    requires
        s0.wf(),
        // the MarkUsed step
        u == (FileUsage {
            id: s0.next_usage_id,
            file_id: file_id,
            usage_type: usage_type,
            usage_id: usage_id,
            created_at: now1,
        }),
        s1.usages == s0.usages.push(u),
        s1.files == s0.files.update(
            file_index(s0.files, file_id),
            with_status(s0.files[file_index(s0.files, file_id)], FileStatus::Used, now1),
        ),
        // the MarkUnused step
        has_usage(s1.usages, file_id, usage_type@, usage_id),
        s2.usages == s1.usages.remove(usage_index(s1.usages, file_id, usage_type@, usage_id)),
        remaining == usage_count(s2.usages, file_id),
        remaining + 1 == usage_count(s1.usages, file_id),
        if remaining == 0 {
            s2.files == s1.files.update(
                file_index(s1.files, file_id),
                with_status(s1.files[file_index(s1.files, file_id)], FileStatus::Unused, now2),
            )
        } else {
            s2.files == s1.files
        },
    ensures
        remaining == usage_count(s0.usages, file_id),
        usage_count(s0.usages, file_id) == 0 ==> remaining == 0,
        usage_count(s0.usages, file_id) == 0 && live_file(s0.files, file_id) ==> exists|i: int|
            0 <= i < s2.files.len() && (#[trigger] s2.files[i]).id == file_id && s2.files[i].status
                == FileStatus::Unused,
{
    lemma_usage_count_push(s0.usages, u, file_id);
    assert(usage_count(s1.usages, file_id) == usage_count(s0.usages, file_id) + 1);
    if usage_count(s0.usages, file_id) == 0 && live_file(s0.files, file_id) {
        let w = choose|i: int|
            0 <= i < s0.files.len() && s0.files[i].id == file_id && s0.files[i].status
                != FileStatus::Deleted;
        let idx0 = file_index(s0.files, file_id);
        assert(has_file(s0.files, file_id));
        assert(0 <= idx0 < s0.files.len() && s0.files[idx0].id == file_id);
        assert(s1.files[idx0].id == file_id);
        let idx1 = file_index(s1.files, file_id);
        assert(0 <= idx1 < s1.files.len() && s1.files[idx1].id == file_id);
        assert(s2.files[idx1].id == file_id && s2.files[idx1].status == FileStatus::Unused);
    }
}

/// Marking the same triple used twice cannot succeed twice: after one
/// successful MarkUsed the triple exists in the ledger, which is exactly
/// the condition under which a second MarkUsed fails with AlreadyMarked,
/// and the ledger holds no duplicate of it.
pub proof fn law_mark_used_twice_conflicts(
    s0: StoreModel,
    s1: StoreModel,
    u: FileUsage,
    file_id: u128,
    usage_type: String,
    usage_id: i32,
    now1: i64,
)
    requires
        s0.wf(),
        s1.wf(),
        live_file(s0.files, file_id),
        !has_usage(s0.usages, file_id, usage_type@, usage_id),
        u == (FileUsage {
            id: s0.next_usage_id,
            file_id: file_id,
            usage_type: usage_type,
            usage_id: usage_id,
            created_at: now1,
        }),
        s1.usages == s0.usages.push(u),
    ensures
        has_usage(s1.usages, file_id, usage_type@, usage_id),
        crate::store::usage_triples_unique(s1.usages),
        usage_count(s1.usages, file_id) == usage_count(s0.usages, file_id) + 1,
{
    assert(crate::store::usage_matches(
        s1.usages[s1.usages.len() - 1],
        file_id,
        usage_type@,
        usage_id,
    ));
    lemma_usage_count_push(s0.usages, u, file_id);
}

/// With at least two references, removing one leaves the file Used with
/// one reference fewer; only removing the last reference flips it to
/// Unused. `s0 -> s1` is a successful MarkUnused described by its
/// contract, on a consistent store.
pub proof fn law_remove_one_of_many_stays_used(
    s0: StoreModel,
    s1: StoreModel,
    remaining: u64,
    file_id: u128,
    usage_type: Seq<char>,
    usage_id: i32,
)
    requires
        s0.wf(),
        s0.consistent(),
        usage_count(s0.usages, file_id) >= 2,
        has_usage(s0.usages, file_id, usage_type, usage_id),
        remaining == usage_count(s0.usages, file_id) - 1,
        remaining > 0 ==> s1.files == s0.files,
    ensures
        remaining >= 1,
        s1.files == s0.files,
        forall|i: int|
            0 <= i < s1.files.len() && (#[trigger] s1.files[i]).id == file_id ==> s1.files[i].status
                == FileStatus::Used,
{
    assert forall|i: int|
        0 <= i < s1.files.len() && (#[trigger] s1.files[i]).id == file_id implies s1.files[i].status
        == FileStatus::Used by {
        assert(usage_count(s0.usages, s0.files[i].id) > 0);
    }
}

/// A dry cleanup run mutates nothing: no file row, no usage row, no audit
/// row — it only reports what a real run would do.
pub proof fn law_dry_run_pure(
    pre: StoreModel,
    post: StoreModel,
    r: CleanupResult,
    cutoff: int,
    now: i64,
)
    requires
        cleanup_post(pre, post, r, cutoff, true, now),
    ensures
        post == pre,
        r.errors@.len() == 0,
        r.status == CleanupStatus::Success,
        r.files_deleted == count_eligible(pre.files, cutoff),
        r.space_freed == sum_eligible(pre.files, cutoff),
{
}

/// A cleanup run without per-file errors reclaims every eligible file,
/// frees the sum of their sizes, and reports success.
pub proof fn law_clean_run_reclaims_all(
    pre: StoreModel,
    post: StoreModel,
    r: CleanupResult,
    cutoff: int,
    now: i64,
)
    requires
        pre.wf(),
        cleanup_post(pre, post, r, cutoff, false, now),
        r.errors@.len() == 0,
    ensures
        forall|i: int|
            0 <= i < pre.files.len() && eligible(#[trigger] pre.files[i], cutoff) ==> post.files[i]
                == with_status(pre.files[i], FileStatus::Deleted, now),
        r.files_deleted == count_eligible(pre.files, cutoff),
        r.space_freed == sum_eligible(pre.files, cutoff),
        r.status == CleanupStatus::Success,
{
    assert forall|i: int|
        0 <= i < pre.files.len() && eligible(#[trigger] pre.files[i], cutoff) implies post.files[i]
        == with_status(pre.files[i], FileStatus::Deleted, now) by {
        if post.files[i] == pre.files[i] && some_error_names(r.errors@, pre.files[i].id) {
            let k = choose|k: int|
                0 <= k < r.errors@.len() && r.errors@[k].file_id == pre.files[i].id;
        }
    }
    assert(reclaimed_flags(pre.files, post.files, cutoff) =~= eligible_flags(pre.files, cutoff));
    assert(r.status == spec_outcome(r.files_deleted as nat, 0));
}

/// A soft-deleted file is never selected by a later cleanup run, however
/// old it is: the status filter excludes it, so the run leaves it as it
/// was.
pub proof fn law_deleted_never_reselected(
    pre: StoreModel,
    post: StoreModel,
    r: CleanupResult,
    cutoff: int,
    dry_run: bool,
    now: i64,
    i: int,
)
    requires
        cleanup_post(pre, post, r, cutoff, dry_run, now),
        0 <= i < pre.files.len(),
        pre.files[i].status == FileStatus::Deleted,
    ensures
        post.files[i] == pre.files[i],
        post.files[i].status == FileStatus::Deleted,
{
    assert(!eligible(pre.files[i], cutoff));
}

/// The age filter is strict: a file created exactly at the threshold
/// instant is not yet eligible, while one created any earlier is, once
/// it is Unused.
pub proof fn law_eligibility_boundary(f: File, now_millis: i64, days_threshold: u32)
    ensures
        f.created_at == spec_cutoff(now_millis, days_threshold) ==> !eligible(
            f,
            spec_cutoff(now_millis, days_threshold),
        ),
        f.created_at < spec_cutoff(now_millis, days_threshold) && f.status == FileStatus::Unused
            ==> eligible(f, spec_cutoff(now_millis, days_threshold)),
        spec_cutoff(now_millis, days_threshold) == now_millis - days_threshold * (
        MS_PER_DAY as int),
{
}

} // verus!
