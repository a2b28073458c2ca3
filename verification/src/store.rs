//! The metadata store: the file table, the usage-reference ledger and the
//! cleanup audit log, held as one transactional in-memory state. Every
//! operation of the registry, the ledger and the cleanup engine is a
//! verified transformation of this state.

use vstd::prelude::*;

use crate::cleanup_log::CleanupLog;
use crate::enums::FileStatus;
use crate::models::{File, FileUsage};
use crate::text::streq;

verus! {

/// The durable state of the service.
pub struct FileStore {
    pub files: Vec<File>,
    pub usages: Vec<FileUsage>,
    pub cleanup_logs: Vec<CleanupLog>,
    pub next_usage_id: u64,
}

/// Mathematical model of the store: the same three tables as sequences.
pub struct StoreModel {
    pub files: Seq<File>,
    pub usages: Seq<FileUsage>,
    pub cleanup_logs: Seq<CleanupLog>,
    pub next_usage_id: u64,
}

impl View for FileStore {
    type V = StoreModel;

    open spec fn view(&self) -> StoreModel {
        StoreModel {
            files: self.files@,
            usages: self.usages@,
            cleanup_logs: self.cleanup_logs@,
            next_usage_id: self.next_usage_id,
        }
    }
}

/// Some row holds this file id.
pub open spec fn has_file(files: Seq<File>, id: u128) -> bool {
    exists|i: int| 0 <= i < files.len() && files[i].id == id
}

/// The row index of a file id (unique under `wf`).
pub open spec fn file_index(files: Seq<File>, id: u128) -> int {
    choose|i: int| 0 <= i < files.len() && files[i].id == id
}

/// Some row holds this file id and is not soft-deleted.
pub open spec fn live_file(files: Seq<File>, id: u128) -> bool {
    exists|i: int|
        0 <= i < files.len() && files[i].id == id && files[i].status != FileStatus::Deleted
}

/// File ids are primary keys: no two rows share one.
pub open spec fn file_ids_unique(files: Seq<File>) -> bool {
    forall|i: int, j: int|
        0 <= i < j < files.len() ==> files[i].id != files[j].id
}

/// A usage row asserts exactly this (file, consumer) relationship.
pub open spec fn usage_matches(u: FileUsage, file_id: u128, usage_type: Seq<char>, usage_id: i32) -> bool {
    u.file_id == file_id && u.usage_type@ == usage_type && u.usage_id == usage_id
}

/// Some usage row matches the triple.
pub open spec fn has_usage(
    usages: Seq<FileUsage>,
    file_id: u128,
    usage_type: Seq<char>,
    usage_id: i32,
) -> bool {
    exists|i: int| 0 <= i < usages.len() && usage_matches(usages[i], file_id, usage_type, usage_id)
}

/// The row index of a usage triple (unique under `wf`).
pub open spec fn usage_index(
    usages: Seq<FileUsage>,
    file_id: u128,
    usage_type: Seq<char>,
    usage_id: i32,
) -> int {
    choose|i: int| 0 <= i < usages.len() && usage_matches(usages[i], file_id, usage_type, usage_id)
}

/// No two usage rows assert the same (file, consumer) relationship.
pub open spec fn usage_triples_unique(usages: Seq<FileUsage>) -> bool {
    forall|i: int, j: int|
        0 <= i < j < usages.len() ==> !(usages[i].file_id == usages[j].file_id
            && usages[i].usage_type@ == usages[j].usage_type@ && usages[i].usage_id
            == usages[j].usage_id)
}

/// How many usage rows reference this file.
pub open spec fn usage_count(usages: Seq<FileUsage>, file_id: u128) -> nat {
    usages.filter(|u: FileUsage| u.file_id == file_id).len()
}

/// Total bytes across a sequence of file rows.
pub open spec fn sum_sizes(files: Seq<File>) -> int
    decreases files.len(),
{
    if files.len() == 0 {
        0
    } else {
        sum_sizes(files.drop_last()) + files.last().file_size
    }
}

/// Every size is non-negative.
pub open spec fn sizes_nonneg(files: Seq<File>) -> bool {
    forall|i: int| 0 <= i < files.len() ==> 0 <= #[trigger] files[i].file_size
}

impl StoreModel {
    /// Well-formedness of the store: unique file ids, unique usage
    /// triples, every usage owned by a live (non-deleted) file, and sizes
    /// that a signed 64-bit total can carry.
    pub open spec fn wf(self) -> bool {
        &&& file_ids_unique(self.files)
        &&& usage_triples_unique(self.usages)
        &&& (forall|k: int|
            0 <= k < self.usages.len() ==> live_file(self.files, #[trigger] self.usages[k].file_id))
        &&& sizes_nonneg(self.files)
        &&& sum_sizes(self.files) <= i64::MAX
    }

    /// The file status agrees with the ledger: a row is `Used` exactly
    /// when at least one usage references it.
    pub open spec fn consistent(self) -> bool {
        forall|i: int|
            0 <= i < self.files.len() ==> ((#[trigger] self.files[i].status == FileStatus::Used)
                <==> usage_count(self.usages, self.files[i].id) > 0)
    }
}

pub broadcast proof fn lemma_sum_take_succ(files: Seq<File>, i: int)
    requires
        0 <= i < files.len(),
    ensures
        #[trigger] sum_sizes(files.take(i + 1)) == sum_sizes(files.take(i)) + files[i].file_size,
{
    assert(files.take(i + 1).drop_last() =~= files.take(i));
    assert(files.take(i + 1).last() == files[i]);
}

pub proof fn lemma_sum_nonneg(files: Seq<File>)
    requires
        sizes_nonneg(files),
    ensures
        sum_sizes(files) >= 0,
    decreases files.len(),
{
    if files.len() > 0 {
        assert(sizes_nonneg(files.drop_last()));
        lemma_sum_nonneg(files.drop_last());
    }
}

/// The total over any prefix is bounded by the total over the whole
/// sequence, when sizes are non-negative.
pub proof fn lemma_sum_take_le(files: Seq<File>, i: int)
    requires
        sizes_nonneg(files),
        0 <= i <= files.len(),
    ensures
        sum_sizes(files.take(i)) <= sum_sizes(files),
    decreases files.len() - i,
{
    if i == files.len() {
        assert(files.take(i) =~= files);
    } else {
        lemma_sum_take_succ(files, i);
        lemma_sum_take_le(files, i + 1);
    }
}

/// A file id referenced by no usage row is referenced zero times.
pub proof fn lemma_usage_count_zero(usages: Seq<FileUsage>, file_id: u128)
    requires
        forall|k: int| 0 <= k < usages.len() ==> (#[trigger] usages[k].file_id) != file_id,
    ensures
        usage_count(usages, file_id) == 0,
    decreases usages.len(),
{
    reveal(Seq::filter);
    if usages.len() > 0 {
        lemma_usage_count_zero(usages.drop_last(), file_id);
    }
}

/// Appending one usage row raises exactly the count of its file.
pub proof fn lemma_usage_count_push(usages: Seq<FileUsage>, u: FileUsage, file_id: u128)
    ensures
        usage_count(usages.push(u), file_id) == usage_count(usages, file_id) + (
        if u.file_id == file_id {
            1int
        } else {
            0int
        }),
{
    reveal(Seq::filter);
    assert(usages.push(u).drop_last() =~= usages);
}

/// Removing one usage row lowers exactly the count of its file.
pub proof fn lemma_usage_count_remove(usages: Seq<FileUsage>, i: int, file_id: u128)
    requires
        0 <= i < usages.len(),
    ensures
        usage_count(usages.remove(i), file_id) == usage_count(usages, file_id) - (
        if usages[i].file_id == file_id {
            1int
        } else {
            0int
        }),
    decreases usages.len(),
{
    reveal(Seq::filter);
    if i == usages.len() - 1 {
        assert(usages.remove(i) =~= usages.drop_last());
    } else {
        assert(usages.remove(i).drop_last() =~= usages.drop_last().remove(i));
        assert(usages.remove(i).last() == usages.last());
        lemma_usage_count_remove(usages.drop_last(), i, file_id);
    }
}

/// The usage ledger after cascade-deleting one file's rows.
pub open spec fn cascade_usages(usages: Seq<FileUsage>, id: u128) -> Seq<FileUsage> {
    usages.filter(|u: FileUsage| u.file_id != id)
}

/// The ledger after cascade-deleting one file's rows: every remaining row
/// comes from the old ledger, uniqueness is kept, the deleted file's count
/// is zero, and every other file keeps its count.
pub proof fn lemma_cascade(usages: Seq<FileUsage>, id: u128)
    ensures
        forall|j: int|
            0 <= j < cascade_usages(usages, id).len() ==> usages.contains(
                #[trigger] cascade_usages(usages, id)[j],
            ),
        usage_triples_unique(usages) ==> usage_triples_unique(cascade_usages(usages, id)),
        usage_count(cascade_usages(usages, id), id) == 0,
        forall|fid: u128|
            fid != id ==> #[trigger] usage_count(cascade_usages(usages, id), fid) == usage_count(
                usages,
                fid,
            ),
    decreases usages.len(),
{
    let pred = |u: FileUsage| u.file_id != id;
    lemma_filter_elements_belong(usages, pred);
    if usage_triples_unique(usages) {
        lemma_cascade_unique(usages, id);
    }
    lemma_cascade_counts(usages, id);
}

/// Every element of a filtered sequence occurs in the source.
proof fn lemma_filter_elements_belong<A>(s: Seq<A>, pred: spec_fn(A) -> bool)
    ensures
        forall|j: int| 0 <= j < s.filter(pred).len() ==> s.contains(#[trigger] s.filter(pred)[j]),
    decreases s.len(),
{
    reveal(Seq::filter);
    if s.len() > 0 {
        let t = s.drop_last();
        lemma_filter_elements_belong(t, pred);
        assert forall|j: int| 0 <= j < s.filter(pred).len() implies s.contains(
            #[trigger] s.filter(pred)[j],
        ) by {
            if j < t.filter(pred).len() {
                assert(t.contains(t.filter(pred)[j]));
                let k = choose|k: int| 0 <= k < t.len() && t[k] == t.filter(pred)[j];
                assert(s[k] == t[k]);
                assert(s.filter(pred)[j] == t.filter(pred)[j]);
            } else {
                assert(pred(s.last()) && s.filter(pred) == t.filter(pred).push(s.last()));
                assert(s.filter(pred)[j] == s.last());
                assert(s[s.len() - 1] == s.last());
            }
        }
    }
}

proof fn lemma_cascade_unique(usages: Seq<FileUsage>, id: u128)
    requires
        usage_triples_unique(usages),
    ensures
        usage_triples_unique(cascade_usages(usages, id)),
    decreases usages.len(),
{
    reveal(Seq::filter);
    let pred = |u: FileUsage| u.file_id != id;
    if usages.len() > 0 {
        let t = usages.drop_last();
        assert(usage_triples_unique(t));
        lemma_cascade_unique(t, id);
        if pred(usages.last()) {
            assert(usages.filter(pred) == t.filter(pred).push(usages.last()));
            lemma_filter_elements_belong(t, pred);
            assert forall|i: int, j: int|
                0 <= i < j < usages.filter(pred).len() implies !(usages.filter(pred)[i].file_id
                == usages.filter(pred)[j].file_id && usages.filter(pred)[i].usage_type@
                == usages.filter(pred)[j].usage_type@ && usages.filter(pred)[i].usage_id
                == usages.filter(pred)[j].usage_id) by {
                if j == usages.filter(pred).len() - 1 {
                    let x = usages.filter(pred)[i];
                    assert(t.contains(x));
                    let k = choose|k: int| 0 <= k < t.len() && t[k] == x;
                    assert(usages[k] == x);
                    assert(usages[usages.len() - 1] == usages.last());
                }
            }
        }
    }
}

proof fn lemma_cascade_counts(usages: Seq<FileUsage>, id: u128)
    ensures
        usage_count(cascade_usages(usages, id), id) == 0,
        forall|fid: u128|
            fid != id ==> #[trigger] usage_count(cascade_usages(usages, id), fid) == usage_count(
                usages,
                fid,
            ),
    decreases usages.len(),
{
    reveal(Seq::filter);
    let pred = |u: FileUsage| u.file_id != id;
    let c = usages.filter(pred);
    lemma_filter_elements_belong(usages, pred);
    assert(forall|j: int| 0 <= j < c.len() ==> (#[trigger] c[j]).file_id != id) by {
        broadcast use vstd::seq_lib::group_filter_ensures;

    }
    lemma_usage_count_zero(c, id);
    if usages.len() == 0 {
    } else {
        let t = usages.drop_last();
        lemma_cascade_counts(t, id);
        assert forall|fid: u128| fid != id implies #[trigger] usage_count(c, fid) == usage_count(
            usages,
            fid,
        ) by {
            if pred(usages.last()) {
                assert(c == t.filter(pred).push(usages.last()));
                lemma_usage_count_push(t.filter(pred), usages.last(), fid);
            } else {
                assert(c == t.filter(pred));
                assert(usages.last().file_id == id);
            }
            assert(usage_count(usages, fid) == usage_count(t, fid) + (
            if usages.last().file_id == fid {
                1int
            } else {
                0int
            })) by {
                assert(usages == t.push(usages.last()));
                lemma_usage_count_push(t, usages.last(), fid);
            }
        }
    }
}

impl FileStore {
    /// A fresh, empty store.
    pub fn new() -> (r: FileStore)
        ensures
            r@.wf(),
            r@.consistent(),
            r@.files.len() == 0,
            r@.usages.len() == 0,
            r@.cleanup_logs.len() == 0,
            r@.next_usage_id == 0,
    {
        FileStore { files: Vec::new(), usages: Vec::new(), cleanup_logs: Vec::new(), next_usage_id: 0 }
    }

    /// Looks a file id up; under unique ids the returned index is the
    /// row of that id.
    pub fn find_file(&self, id: u128) -> (r: Option<usize>)
        requires
            file_ids_unique(self@.files),
        ensures
            match r {
                Some(i) => i < self@.files.len() && self@.files[i as int].id == id && i
                    == file_index(self@.files, id),
                None => !has_file(self@.files, id),
            },
    {
        let mut i: usize = 0;
        while i < self.files.len()
            invariant
                file_ids_unique(self@.files),
                i <= self@.files.len(),
                forall|k: int| 0 <= k < i ==> self@.files[k].id != id,
            decreases self@.files.len() - i,
        {
            if self.files[i].id == id {
                proof {
                    assert(has_file(self@.files, id));
                    let w = file_index(self@.files, id);
                    assert(self@.files[w].id == id);
                    assert(w == i as int);
                }
                return Some(i);
            }
            i = i + 1;
        }
        None
    }

    /// Total bytes across all file rows, deleted included.
    pub fn total_size(&self) -> (r: i64)
        requires
            sizes_nonneg(self@.files),
            sum_sizes(self@.files) <= i64::MAX,
        ensures
            r == sum_sizes(self@.files),
    {
        let mut acc: i64 = 0;
        let mut i: usize = 0;
        proof {
            assert(self@.files.take(0) =~= Seq::<File>::empty());
        }
        while i < self.files.len()
            invariant
                sizes_nonneg(self@.files),
                sum_sizes(self@.files) <= i64::MAX,
                i <= self@.files.len(),
                acc == sum_sizes(self@.files.take(i as int)),
                acc >= 0,
            decreases self@.files.len() - i,
        {
            proof {
                lemma_sum_take_succ(self@.files, i as int);
                lemma_sum_take_le(self@.files, i + 1 as int);
                lemma_sum_nonneg(self@.files.take(i + 1 as int));
            }
            acc = acc + self.files[i].file_size;
            i = i + 1;
        }
        proof {
            assert(self@.files.take(self@.files.len() as int) =~= self@.files);
        }
        acc
    }

    /// How many usage rows reference this file.
    pub fn count_usages(&self, file_id: u128) -> (r: u64)
        ensures
            r == usage_count(self@.usages, file_id),
    {
        let mut count: u64 = 0;
        let mut i: usize = 0;
        proof {
            assert(self@.usages.take(0) =~= Seq::<FileUsage>::empty());
            reveal(Seq::filter);
        }
        while i < self.usages.len()
            invariant
                i <= self@.usages.len(),
                count == usage_count(self@.usages.take(i as int), file_id),
                count <= i,
            decreases self@.usages.len() - i,
        {
            proof {
                reveal(Seq::filter);
                assert(self@.usages.take(i + 1 as int).drop_last() =~= self@.usages.take(i as int));
            }
            if self.usages[i].file_id == file_id {
                count = count + 1;
            }
            i = i + 1;
        }
        proof {
            assert(self@.usages.take(self@.usages.len() as int) =~= self@.usages);
        }
        count
    }

    /// Looks a usage triple up; under unique triples the returned index
    /// is the row of that triple.
    pub fn find_usage(&self, file_id: u128, usage_type: &str, usage_id: i32) -> (r: Option<usize>)
        requires
            usage_triples_unique(self@.usages),
        ensures
            match r {
                Some(i) => i < self@.usages.len() && usage_matches(
                    self@.usages[i as int],
                    file_id,
                    usage_type@,
                    usage_id,
                ) && i == usage_index(self@.usages, file_id, usage_type@, usage_id),
                None => !has_usage(self@.usages, file_id, usage_type@, usage_id),
            },
    {
        let mut i: usize = 0;
        while i < self.usages.len()
            invariant
                usage_triples_unique(self@.usages),
                i <= self@.usages.len(),
                forall|k: int|
                    0 <= k < i ==> !usage_matches(self@.usages[k], file_id, usage_type@, usage_id),
            decreases self@.usages.len() - i,
        {
            let u = &self.usages[i];
            if u.file_id == file_id && u.usage_id == usage_id && streq(
                u.usage_type.as_str(),
                usage_type,
            ) {
                proof {
                    assert(usage_matches(self@.usages[i as int], file_id, usage_type@, usage_id));
                    let w = usage_index(self@.usages, file_id, usage_type@, usage_id);
                    assert(usage_matches(self@.usages[w], file_id, usage_type@, usage_id));
                    assert(w == i as int);
                }
                return Some(i);
            }
            i = i + 1;
        }
        None
    }
}

} // verus!
