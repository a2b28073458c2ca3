//! The File Registry: creation, lookup and the two status-mutating
//! primitives. These are the only operations that write the file table;
//! the Usage Ledger and the Cleanup Engine go through them or mirror
//! their contracts.

use vstd::prelude::*;

use crate::enums::FileStatus;
use crate::error::FileError;
use crate::ids::new_file_id;
use crate::models::{CreateFileRequest, File, FileUsage};
use crate::storage::StorageBackend;
use crate::store::{
    cascade_usages, file_ids_unique, file_index, has_file, lemma_cascade, lemma_usage_count_zero,
    live_file, sum_sizes, usage_count, FileStore,
};
use vstd::string::StringExecFns;

verus! {

/// Largest number of ids one batch lookup accepts.
pub const MAX_BATCH_SIZE: usize = 100;

/// The row a creation request inserts: status starts at Unused, both
/// timestamps at the creation instant.
pub open spec fn new_file_record(req: CreateFileRequest, id: u128, now: i64) -> File {
    File {
        id: id,
        filename: req.filename,
        storage_key: req.storage_key,
        file_type: req.file_type,
        mime_type: req.mime_type,
        file_size: req.file_size,
        uploader_id: req.uploader_id,
        status: FileStatus::Unused,
        created_at: now,
        updated_at: now,
    }
}

/// The same row with a new status and update time.
pub open spec fn with_status(f: File, status: FileStatus, now: i64) -> File {
    File { status: status, updated_at: now, ..f }
}

/// Changing a row's status keeps the table's total size.
pub proof fn lemma_sum_update_status(files: Seq<File>, i: int, f: File)
    requires
        0 <= i < files.len(),
        f.file_size == files[i].file_size,
    ensures
        sum_sizes(files.update(i, f)) == sum_sizes(files),
    decreases files.len(),
{
    if i == files.len() - 1 {
        assert(files.update(i, f).drop_last() =~= files.drop_last());
    } else {
        assert(files.update(i, f).drop_last() =~= files.drop_last().update(i, f));
        assert(files.update(i, f).last() == files.last());
        lemma_sum_update_status(files.drop_last(), i, f);
    }
}

pub struct FileService;

impl FileService {
    /// Inserts a file row under a caller-chosen fresh id.
    ///
    /// The size preconditions restate what the validation collaborator
    /// guarantees before creation, plus the machine limit that the
    /// store's 64-bit byte total must be able to carry the new row.
    pub fn create_file_with_id(
        store: &mut FileStore,
        req: CreateFileRequest,
        id: u128,
        now: i64,
    ) -> (r: File)
        requires
            old(store)@.wf(),
            !has_file(old(store)@.files, id),
            0 <= req.file_size,
            sum_sizes(old(store)@.files) + req.file_size <= i64::MAX,
        ensures
            final(store)@.wf(),
            old(store)@.consistent() ==> final(store)@.consistent(),
            r == new_file_record(req, id, now),
            final(store)@.files == old(store)@.files.push(r),
            final(store)@.usages == old(store)@.usages,
            final(store)@.cleanup_logs == old(store)@.cleanup_logs,
            final(store)@.next_usage_id == old(store)@.next_usage_id,
            sum_sizes(final(store)@.files) == sum_sizes(old(store)@.files) + req.file_size,
    {
        let f = File {
            id: id,
            filename: req.filename,
            storage_key: req.storage_key,
            file_type: req.file_type,
            mime_type: req.mime_type,
            file_size: req.file_size,
            uploader_id: req.uploader_id,
            status: FileStatus::Unused,
            created_at: now,
            updated_at: now,
        };
        let r = f.clone();
        let ghost old_files = store@.files;
        let ghost old_usages = store@.usages;
        store.files.push(f);
        proof {
            let files = store@.files;
            assert(files.drop_last() =~= old_files);
            assert(sum_sizes(files) == sum_sizes(old_files) + req.file_size);
            assert forall|k: int|
                0 <= k < old_usages.len() implies live_file(
                files,
                #[trigger] old_usages[k].file_id,
            ) by {
                let w = choose|i: int|
                    0 <= i < old_files.len() && old_files[i].id == old_usages[k].file_id
                        && old_files[i].status != FileStatus::Deleted;
                assert(files[w] == old_files[w]);
            }
            if old(store)@.consistent() {
                assert forall|k: int| 0 <= k < old_usages.len() implies (
                #[trigger] old_usages[k].file_id) != id by {
                    let w = choose|i: int|
                        0 <= i < old_files.len() && old_files[i].id == old_usages[k].file_id
                            && old_files[i].status != FileStatus::Deleted;
                    assert(has_file(old_files, old_files[w].id));
                }
                lemma_usage_count_zero(old_usages, id);
                assert forall|i: int| 0 <= i < files.len() implies ((
                #[trigger] files[i].status == FileStatus::Used) <==> usage_count(
                    old_usages,
                    files[i].id,
                ) > 0) by {
                    if i < files.len() - 1 {
                        assert(files[i] == old_files[i]);
                    }
                }
            }
        }
        r
    }

    /// Creates a file record under a freshly drawn identifier.
    ///
    /// The drawn identifier is random; on the (never observed) chance
    /// that it already names a row, the call is refused rather than
    /// touching the existing row.
    pub fn create_file(store: &mut FileStore, req: CreateFileRequest, now: i64) -> (r: Result<
        File,
        FileError,
    >)
        requires
            old(store)@.wf(),
            0 <= req.file_size,
            sum_sizes(old(store)@.files) + req.file_size <= i64::MAX,
        ensures
            final(store)@.wf(),
            old(store)@.consistent() ==> final(store)@.consistent(),
            match r {
                Ok(f) => !has_file(old(store)@.files, f.id) && f == new_file_record(
                    req,
                    f.id,
                    now,
                ) && final(store)@.files == old(store)@.files.push(f) && final(store)@.usages == old(
                    store,
                )@.usages && final(store)@.cleanup_logs == old(store)@.cleanup_logs
                    && final(store)@.next_usage_id == old(store)@.next_usage_id,
                Err(e) => final(store)@ == old(store)@ && e is Internal,
            },
    {
        let id = new_file_id();
        match store.find_file(id) {
            Some(_) => Err(FileError::Internal("drawn file id already in use".to_owned())),
            None => Ok(Self::create_file_with_id(store, req, id, now)),
        }
    }

    /// Looks one file up by id; Deleted rows are returned like any other.
    pub fn get_file_by_id(store: &FileStore, file_id: u128) -> (r: Result<File, FileError>)
        requires
            file_ids_unique(store@.files),
        ensures
            match r {
                Ok(f) => has_file(store@.files, file_id) && f == store@.files[file_index(
                    store@.files,
                    file_id,
                )],
                Err(e) => !has_file(store@.files, file_id) && e == FileError::FileNotFound(
                    file_id,
                ),
            },
    {
        match store.find_file(file_id) {
            Some(i) => Ok(store.files[i].clone()),
            None => Err(FileError::FileNotFound(file_id)),
        }
    }

    /// Whether a list of ids mentions one.
    fn ids_contain(ids: &Vec<u128>, id: u128) -> (r: bool)
        ensures
            r == ids@.contains(id),
    {
        let mut i: usize = 0;
        while i < ids.len()
            invariant
                i <= ids@.len(),
                forall|k: int| 0 <= k < i ==> ids@[k] != id,
            decreases ids@.len() - i,
        {
            if ids[i] == id {
                return true;
            }
            i = i + 1;
        }
        false
    }

    /// Best-effort batch lookup: rows whose id is listed, in table order;
    /// missing ids are silently omitted.
    pub fn get_files_by_ids(store: &FileStore, file_ids: &Vec<u128>) -> (r: Vec<File>)
        ensures
            r@ == store@.files.filter(|f: File| file_ids@.contains(f.id)),
    {
        let mut out: Vec<File> = Vec::new();
        let mut i: usize = 0;
        let ghost pred = |f: File| file_ids@.contains(f.id);
        proof {
            reveal(Seq::filter);
            assert(store@.files.take(0) =~= Seq::<File>::empty());
        }
        while i < store.files.len()
            invariant
                i <= store@.files.len(),
                out@ == store@.files.take(i as int).filter(|f: File| file_ids@.contains(f.id)),
            decreases store@.files.len() - i,
        {
            proof {
                reveal(Seq::filter);
                assert(store@.files.take(i + 1 as int).drop_last() =~= store@.files.take(i as int));
            }
            if Self::ids_contain(file_ids, store.files[i].id) {
                out.push(store.files[i].clone());
            }
            i = i + 1;
        }
        proof {
            assert(store@.files.take(store@.files.len() as int) =~= store@.files);
        }
        out
    }

    /// Batch lookup with request validation: the id list must be
    /// non-empty and hold at most `MAX_BATCH_SIZE` entries.
    pub fn batch_info(store: &FileStore, file_ids: &Vec<u128>) -> (r: Result<Vec<File>, FileError>)
        ensures
            match r {
                Ok(files) => 1 <= file_ids@.len() <= MAX_BATCH_SIZE && files@
                    == store@.files.filter(|f: File| file_ids@.contains(f.id)),
                Err(e) => match e {
                    FileError::EmptyIdList => file_ids@.len() == 0,
                    FileError::TooManyIds { count, max } => file_ids@.len() > MAX_BATCH_SIZE
                        && count == file_ids@.len() && max == MAX_BATCH_SIZE,
                    _ => false,
                },
            },
    {
        if file_ids.len() == 0 {
            return Err(FileError::EmptyIdList);
        }
        if file_ids.len() > MAX_BATCH_SIZE {
            return Err(FileError::TooManyIds { count: file_ids.len(), max: MAX_BATCH_SIZE });
        }
        Ok(Self::get_files_by_ids(store, file_ids))
    }

    /// Sets the status of a live file to Unused or Used. The
    /// Unused-to-Deleted transition belongs to `mark_file_deleted` alone,
    /// so Deleted is not accepted here; a Deleted target is refused like
    /// a missing one.
    pub fn update_file_status(
        store: &mut FileStore,
        file_id: u128,
        status: FileStatus,
        now: i64,
    ) -> (r: Result<(), FileError>)
        requires
            old(store)@.wf(),
            status != FileStatus::Deleted,
        ensures
            final(store)@.wf(),
            final(store)@.usages == old(store)@.usages,
            final(store)@.cleanup_logs == old(store)@.cleanup_logs,
            final(store)@.next_usage_id == old(store)@.next_usage_id,
            match r {
                Ok(_) => live_file(old(store)@.files, file_id) && final(store)@.files == old(
                    store,
                )@.files.update(
                    file_index(old(store)@.files, file_id),
                    with_status(
                        old(store)@.files[file_index(old(store)@.files, file_id)],
                        status,
                        now,
                    ),
                ),
                Err(e) => final(store)@ == old(store)@ && !live_file(old(store)@.files, file_id) && e
                    == FileError::FileNotFound(file_id),
            },
    {
        let idx_opt = store.find_file(file_id);
        match idx_opt {
            None => Err(FileError::FileNotFound(file_id)),
            Some(i) => {
                if store.files[i].status == FileStatus::Deleted {
                    proof {
                        assert forall|k: int|
                            0 <= k < store@.files.len() && store@.files[k].id == file_id implies k
                            == i as int by {}
                        assert(!live_file(store@.files, file_id));
                    }
                    return Err(FileError::FileNotFound(file_id));
                }
                let ghost old_files = store@.files;
                let ghost old_usages = store@.usages;
                let mut f = store.files[i].clone();
                f.status = status;
                f.updated_at = now;
                proof {
                    assert(f == with_status(old_files[i as int], status, now));
                }
                store.files[i] = f;
                proof {
                    let files = store@.files;
                    assert(live_file(old_files, file_id));
                    lemma_sum_update_status(old_files, i as int, files[i as int]);
                    assert forall|k: int|
                        0 <= k < old_usages.len() implies live_file(
                        files,
                        #[trigger] old_usages[k].file_id,
                    ) by {
                        let w = choose|m: int|
                            0 <= m < old_files.len() && old_files[m].id == old_usages[k].file_id
                                && old_files[m].status != FileStatus::Deleted;
                        if w == i as int {
                            assert(files[w].id == old_usages[k].file_id);
                            assert(files[w].status != FileStatus::Deleted);
                        } else {
                            assert(files[w] == old_files[w]);
                        }
                    }
                }
                Ok(())
            },
        }
    }

    /// Soft-deletes a file: the row's status becomes Deleted, its update
    /// time moves, and every usage row of the file is cascade-deleted.
    /// Deleting an already-Deleted row is a no-op, which keeps the
    /// operation idempotent under concurrent cleanup runs.
    pub fn mark_file_deleted(store: &mut FileStore, file_id: u128, now: i64) -> (r: Result<
        (),
        FileError,
    >)
        requires
            old(store)@.wf(),
        ensures
            final(store)@.wf(),
            old(store)@.consistent() ==> final(store)@.consistent(),
            final(store)@.cleanup_logs == old(store)@.cleanup_logs,
            final(store)@.next_usage_id == old(store)@.next_usage_id,
            match r {
                Ok(_) => has_file(old(store)@.files, file_id) && (
                if old(store)@.files[file_index(old(store)@.files, file_id)].status
                    == FileStatus::Deleted {
                    final(store)@ == old(store)@
                } else {
                    final(store)@.files == old(store)@.files.update(
                        file_index(old(store)@.files, file_id),
                        with_status(
                            old(store)@.files[file_index(old(store)@.files, file_id)],
                            FileStatus::Deleted,
                            now,
                        ),
                    ) && final(store)@.usages == cascade_usages(old(store)@.usages, file_id)
                }),
                Err(e) => final(store)@ == old(store)@ && !has_file(old(store)@.files, file_id) && e
                    == FileError::FileNotFound(file_id),
            },
    {
        let idx_opt = store.find_file(file_id);
        match idx_opt {
            None => Err(FileError::FileNotFound(file_id)),
            Some(i) => {
                if store.files[i].status == FileStatus::Deleted {
                    return Ok(());
                }
                let ghost old_files = store@.files;
                let ghost old_usages = store@.usages;
                let mut f = store.files[i].clone();
                f.status = FileStatus::Deleted;
                f.updated_at = now;
                proof {
                    assert(f == with_status(old_files[i as int], FileStatus::Deleted, now));
                }
                store.files[i] = f;
                let mut kept: Vec<FileUsage> = Vec::new();
                let mut k: usize = 0;
                proof {
                    reveal(Seq::filter);
                    assert(old_usages.take(0) =~= Seq::<FileUsage>::empty());
                }
                while k < store.usages.len()
                    invariant
                        k <= store@.usages.len(),
                        store@.usages == old_usages,
                        kept@ == old_usages.take(k as int).filter(
                            |u: FileUsage| u.file_id != file_id,
                        ),
                    decreases store@.usages.len() - k,
                {
                    proof {
                        reveal(Seq::filter);
                        assert(old_usages.take(k + 1 as int).drop_last() =~= old_usages.take(
                            k as int,
                        ));
                    }
                    if store.usages[k].file_id != file_id {
                        kept.push(store.usages[k].clone());
                    }
                    k = k + 1;
                }
                proof {
                    assert(old_usages.take(old_usages.len() as int) =~= old_usages);
                }
                store.usages = kept;
                proof {
                    let files = store@.files;
                    let usages = store@.usages;
                    assert(usages == cascade_usages(old_usages, file_id));
                    lemma_cascade(old_usages, file_id);
                    lemma_sum_update_status(old_files, i as int, files[i as int]);
                    assert forall|m: int|
                        0 <= m < usages.len() implies live_file(
                        files,
                        #[trigger] usages[m].file_id,
                    ) by {
                        assert(old_usages.contains(usages[m]));
                        let c = choose|c: int| 0 <= c < old_usages.len() && old_usages[c]
                            == usages[m];
                        let w = choose|w: int|
                            0 <= w < old_files.len() && old_files[w].id == old_usages[c].file_id
                                && old_files[w].status != FileStatus::Deleted;
                        assert(usages[m].file_id != file_id);
                        assert(old_files[i as int].id == file_id);
                        assert(w != i as int);
                        assert(files[w] == old_files[w]);
                    }
                    if old(store)@.consistent() {
                        assert forall|m: int| 0 <= m < files.len() implies ((
                        #[trigger] files[m].status == FileStatus::Used) <==> usage_count(
                            usages,
                            files[m].id,
                        ) > 0) by {
                            if m == i as int {
                                assert(files[m].status == FileStatus::Deleted);
                                assert(usage_count(usages, file_id) == 0);
                            } else {
                                assert(files[m] == old_files[m]);
                                assert(old_files[m].id != file_id);
                                assert(usage_count(usages, files[m].id) == usage_count(
                                    old_usages,
                                    files[m].id,
                                ));
                            }
                        }
                    }
                }
                Ok(())
            },
        }
    }

    /// The admin delete path: removes the payload from the object store,
    /// then soft-deletes the metadata row — the same per-file step the
    /// cleanup engine takes. A missing file is reported before anything
    /// is touched; a failed payload delete leaves the row as it was.
    pub fn delete_file<S: StorageBackend>(
        store: &mut FileStore,
        storage: &mut S,
        file_id: u128,
        now: i64,
    ) -> (r: Result<(), FileError>)
        requires
            old(store)@.wf(),
        ensures
            final(store)@.wf(),
            old(store)@.consistent() ==> final(store)@.consistent(),
            final(store)@.cleanup_logs == old(store)@.cleanup_logs,
            final(store)@.next_usage_id == old(store)@.next_usage_id,
            match r {
                Ok(_) => has_file(old(store)@.files, file_id) && (
                if old(store)@.files[file_index(old(store)@.files, file_id)].status
                    == FileStatus::Deleted {
                    final(store)@ == old(store)@
                } else {
                    final(store)@.files == old(store)@.files.update(
                        file_index(old(store)@.files, file_id),
                        with_status(
                            old(store)@.files[file_index(old(store)@.files, file_id)],
                            FileStatus::Deleted,
                            now,
                        ),
                    ) && final(store)@.usages == cascade_usages(old(store)@.usages, file_id)
                }),
                Err(e) => final(store)@ == old(store)@ && (match e {
                    FileError::FileNotFound(id) => id == file_id && !has_file(
                        old(store)@.files,
                        file_id,
                    ),
                    FileError::Storage(_) => has_file(old(store)@.files, file_id),
                    _ => false,
                }),
            },
    {
        let file = match Self::get_file_by_id(store, file_id) {
            Ok(f) => f,
            Err(e) => {
                return Err(e);
            },
        };
        match storage.delete(file.storage_key.as_str()) {
            Ok(_) => Self::mark_file_deleted(store, file_id, now),
            Err(msg) => Err(FileError::Storage(msg)),
        }
    }
}

} // verus!
