//! The Usage Ledger: the many-to-one mapping from (usage-type, usage-id)
//! references to a file, and the Used/Unused transitions it drives.

use vstd::prelude::*;

use crate::enums::FileStatus;
use crate::error::FileError;
use crate::file_service::{lemma_sum_update_status, with_status, FileService};
use crate::models::FileUsage;
use crate::store::{
    file_index, has_usage, lemma_usage_count_push, lemma_usage_count_remove, live_file,
    usage_count, usage_index, usage_matches, FileStore,
};

verus! {

pub struct UsageService;

impl UsageService {
    /// Registers that a consumer uses a file, and flips the file to Used.
    ///
    /// Fails with AlreadyMarked when the same consumer already references
    /// the file (a duplicate-registration guard, not an upsert), and with
    /// FileNotFound when no live file has the id: a Deleted file cannot
    /// be revived.
    pub fn mark_used(
        store: &mut FileStore,
        file_id: u128,
        usage_type: String,
        usage_id: i32,
        now: i64,
    ) -> (r: Result<FileUsage, FileError>)
        requires
            old(store)@.wf(),
        ensures
            final(store)@.wf(),
            old(store)@.consistent() ==> final(store)@.consistent(),
            final(store)@.cleanup_logs == old(store)@.cleanup_logs,
            match r {
                Ok(u) => live_file(old(store)@.files, file_id) && !has_usage(
                    old(store)@.usages,
                    file_id,
                    usage_type@,
                    usage_id,
                ) && u == (FileUsage {
                    id: old(store)@.next_usage_id,
                    file_id: file_id,
                    usage_type: usage_type,
                    usage_id: usage_id,
                    created_at: now,
                }) && final(store)@.usages == old(store)@.usages.push(u) && final(store)@.files
                    == old(store)@.files.update(
                    file_index(old(store)@.files, file_id),
                    with_status(
                        old(store)@.files[file_index(old(store)@.files, file_id)],
                        FileStatus::Used,
                        now,
                    ),
                ) && final(store)@.next_usage_id == (
                if old(store)@.next_usage_id == u64::MAX {
                    u64::MAX
                } else {
                    (old(store)@.next_usage_id + 1) as u64
                }),
                Err(e) => final(store)@ == old(store)@ && (match e {
                    FileError::AlreadyMarked => live_file(old(store)@.files, file_id) && has_usage(
                        old(store)@.usages,
                        file_id,
                        usage_type@,
                        usage_id,
                    ),
                    FileError::FileNotFound(id) => id == file_id && !live_file(
                        old(store)@.files,
                        file_id,
                    ),
                    _ => false,
                }),
            },
    {
        let idx = match store.find_file(file_id) {
            None => {
                return Err(FileError::FileNotFound(file_id));
            },
            Some(i) => i,
        };
        if store.files[idx].status == FileStatus::Deleted {
            proof {
                assert forall|k: int|
                    0 <= k < store@.files.len() && store@.files[k].id == file_id implies k
                    == idx as int by {}
                assert(!live_file(store@.files, file_id));
            }
            return Err(FileError::FileNotFound(file_id));
        }
        if store.find_usage(file_id, usage_type.as_str(), usage_id).is_some() {
            return Err(FileError::AlreadyMarked);
        }
        let ghost old_files = store@.files;
        let ghost old_usages = store@.usages;
        let uid = store.next_usage_id;
        store.next_usage_id = if uid == u64::MAX {
            u64::MAX
        } else {
            uid + 1
        };
        let u = FileUsage {
            id: uid,
            file_id: file_id,
            usage_type: usage_type,
            usage_id: usage_id,
            created_at: now,
        };
        let r = u.clone();
        store.usages.push(u);
        let mut f = store.files[idx].clone();
        f.status = FileStatus::Used;
        f.updated_at = now;
        proof {
            assert(f == with_status(old_files[idx as int], FileStatus::Used, now));
        }
        store.files[idx] = f;
        proof {
            let files = store@.files;
            let usages = store@.usages;
            lemma_sum_update_status(old_files, idx as int, files[idx as int]);
            assert(usages.drop_last() =~= old_usages);
            assert forall|i: int, j: int| 0 <= i < j < usages.len() implies !(usages[i].file_id
                == usages[j].file_id && usages[i].usage_type@ == usages[j].usage_type@
                && usages[i].usage_id == usages[j].usage_id) by {
                if j == usages.len() - 1 {
                    assert(usages[i] == old_usages[i]);
                    assert(!usage_matches(old_usages[i], file_id, r.usage_type@, usage_id));
                }
            }
            assert forall|k: int|
                0 <= k < usages.len() implies live_file(files, #[trigger] usages[k].file_id) by {
                if k < usages.len() - 1 {
                    let w = choose|m: int|
                        0 <= m < old_files.len() && old_files[m].id == old_usages[k].file_id
                            && old_files[m].status != FileStatus::Deleted;
                    if w == idx as int {
                        assert(files[w].id == old_usages[k].file_id);
                        assert(files[w].status == FileStatus::Used);
                    } else {
                        assert(files[w] == old_files[w]);
                    }
                } else {
                    assert(files[idx as int].id == file_id);
                    assert(files[idx as int].status == FileStatus::Used);
                }
            }
            if old(store)@.consistent() {
                assert forall|m: int| 0 <= m < files.len() implies ((
                #[trigger] files[m].status == FileStatus::Used) <==> usage_count(
                    usages,
                    files[m].id,
                ) > 0) by {
                    lemma_usage_count_push(old_usages, usages.last(), files[m].id);
                    if m != idx as int {
                        assert(files[m] == old_files[m]);
                        assert(old_files[m].id != old_files[idx as int].id);
                    }
                }
            }
        }
        Ok(r)
    }

    /// Removes one consumer's reference and reports how many remain; when
    /// the last reference goes, the file reverts to Unused.
    ///
    /// Fails with UsageNotFound when no such reference exists.
    pub fn mark_unused(
        store: &mut FileStore,
        file_id: u128,
        usage_type: &str,
        usage_id: i32,
        now: i64,
    ) -> (r: Result<u64, FileError>)
        requires
            old(store)@.wf(),
        ensures
            final(store)@.wf(),
            old(store)@.consistent() ==> final(store)@.consistent(),
            final(store)@.cleanup_logs == old(store)@.cleanup_logs,
            final(store)@.next_usage_id == old(store)@.next_usage_id,
            match r {
                Ok(remaining) => has_usage(old(store)@.usages, file_id, usage_type@, usage_id)
                    && final(store)@.usages == old(store)@.usages.remove(
                    usage_index(old(store)@.usages, file_id, usage_type@, usage_id),
                ) && remaining == usage_count(final(store)@.usages, file_id) && remaining + 1
                    == usage_count(old(store)@.usages, file_id) && (
                if remaining == 0 {
                    final(store)@.files == old(store)@.files.update(
                        file_index(old(store)@.files, file_id),
                        with_status(
                            old(store)@.files[file_index(old(store)@.files, file_id)],
                            FileStatus::Unused,
                            now,
                        ),
                    )
                } else {
                    final(store)@.files == old(store)@.files
                }),
                Err(e) => final(store)@ == old(store)@ && e == FileError::UsageNotFound
                    && !has_usage(old(store)@.usages, file_id, usage_type@, usage_id),
            },
    {
        let uidx = match store.find_usage(file_id, usage_type, usage_id) {
            None => {
                return Err(FileError::UsageNotFound);
            },
            Some(i) => i,
        };
        let ghost old_files = store@.files;
        let ghost old_usages = store@.usages;
        proof {
            assert(live_file(old_files, old_usages[uidx as int].file_id));
        }
        store.usages.remove(uidx);
        proof {
            let usages = store@.usages;
            lemma_usage_count_remove(old_usages, uidx as int, file_id);
            assert forall|i: int, j: int| 0 <= i < j < usages.len() implies !(usages[i].file_id
                == usages[j].file_id && usages[i].usage_type@ == usages[j].usage_type@
                && usages[i].usage_id == usages[j].usage_id) by {
                let i0 = if i < uidx as int {
                    i
                } else {
                    i + 1
                };
                let j0 = if j < uidx as int {
                    j
                } else {
                    j + 1
                };
                assert(usages[i] == old_usages[i0]);
                assert(usages[j] == old_usages[j0]);
            }
            assert forall|k: int|
                0 <= k < usages.len() implies live_file(old_files, #[trigger] usages[k].file_id)
                by {
                let k0 = if k < uidx as int {
                    k
                } else {
                    k + 1
                };
                assert(usages[k] == old_usages[k0]);
            }
        }
        let remaining = store.count_usages(file_id);
        if remaining == 0 {
            let res = FileService::update_file_status(store, file_id, FileStatus::Unused, now);
            proof {
                assert(res is Ok);
            }
            proof {
                let files = store@.files;
                let usages = store@.usages;
                if old(store)@.consistent() {
                    assert forall|m: int| 0 <= m < files.len() implies ((
                    #[trigger] files[m].status == FileStatus::Used) <==> usage_count(
                        usages,
                        files[m].id,
                    ) > 0) by {
                        let fidx = file_index(old_files, file_id);
                        if m == fidx {
                            assert(files[m].status == FileStatus::Unused);
                        } else {
                            assert(files[m] == old_files[m]);
                            assert(old_files[m].id != file_id);
                            lemma_usage_count_remove(old_usages, uidx as int, old_files[m].id);
                        }
                    }
                }
            }
            Ok(0)
        } else {
            proof {
                let files = store@.files;
                let usages = store@.usages;
                if old(store)@.consistent() {
                    assert forall|m: int| 0 <= m < files.len() implies ((
                    #[trigger] files[m].status == FileStatus::Used) <==> usage_count(
                        usages,
                        files[m].id,
                    ) > 0) by {
                        if files[m].id == file_id {
                            assert(usage_count(old_usages, file_id) > 0);
                            assert(files[m].status == FileStatus::Used);
                        } else {
                            lemma_usage_count_remove(old_usages, uidx as int, files[m].id);
                        }
                    }
                }
            }
            Ok(remaining)
        }
    }

    /// Every usage row of one file, in ledger order.
    pub fn get_file_usages(store: &FileStore, file_id: u128) -> (r: Vec<FileUsage>)
        ensures
            r@ == store@.usages.filter(|u: FileUsage| u.file_id == file_id),
            r@.len() == usage_count(store@.usages, file_id),
    {
        let mut out: Vec<FileUsage> = Vec::new();
        let mut i: usize = 0;
        proof {
            reveal(Seq::filter);
            assert(store@.usages.take(0) =~= Seq::<FileUsage>::empty());
        }
        while i < store.usages.len()
            invariant
                i <= store@.usages.len(),
                out@ == store@.usages.take(i as int).filter(|u: FileUsage| u.file_id == file_id),
            decreases store@.usages.len() - i,
        {
            proof {
                reveal(Seq::filter);
                assert(store@.usages.take(i + 1 as int).drop_last() =~= store@.usages.take(
                    i as int,
                ));
            }
            if store.usages[i].file_id == file_id {
                out.push(store.usages[i].clone());
            }
            i = i + 1;
        }
        proof {
            assert(store@.usages.take(store@.usages.len() as int) =~= store@.usages);
        }
        out
    }
}

} // verus!
