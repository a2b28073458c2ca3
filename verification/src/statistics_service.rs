//! Read-only storage statistics: counts and byte totals grouped by status
//! and by category, derived entirely from the file table. Grouping by
//! status covers every row; the per-category and overall totals exclude
//! soft-deleted rows.

use vstd::prelude::*;

use crate::cleanup_service::{count_where, sum_marked};
use crate::enums::{FileStatus, FileType};
use crate::models::File;
use crate::path_generator::{format_size, spec_format_size};
use crate::store::{
    lemma_sum_nonneg, lemma_sum_take_le, sizes_nonneg, sum_sizes, FileStore,
};

verus! {

/// One aggregate: how many rows matched and how many bytes they hold.
#[derive(Debug)]
pub struct FileStat {
    pub count: u64,
    pub size: i64,
    pub size_pretty: String,
}

/// Aggregates by lifecycle status, deleted rows included.
#[derive(Debug)]
pub struct StatusStatistics {
    pub unused: FileStat,
    pub used: FileStat,
    pub deleted: FileStat,
}

/// Aggregates by category, deleted rows excluded.
#[derive(Debug)]
pub struct TypeStatistics {
    pub avatar: FileStat,
    pub post: FileStat,
    pub reply: FileStat,
    pub section_icon: FileStat,
}

/// The whole statistics answer.
#[derive(Debug)]
pub struct StorageStatistics {
    pub total_files: u64,
    pub total_size: i64,
    pub total_size_pretty: String,
    pub by_status: StatusStatistics,
    pub by_type: TypeStatistics,
}

/// Which rows one aggregate covers: one status (all rows), one category
/// (live rows only), or every live row.
#[derive(Clone, Copy, Debug)]
pub enum StatSelector {
    ByStatus(FileStatus),
    ByTypeLive(FileType),
    Live,
}

/// Whether a row falls under a selector.
pub open spec fn sel_matches(sel: StatSelector, f: File) -> bool {
    match sel {
        StatSelector::ByStatus(st) => f.status == st,
        StatSelector::ByTypeLive(t) => f.file_type == t && f.status != FileStatus::Deleted,
        StatSelector::Live => f.status != FileStatus::Deleted,
    }
}

/// The selection flags of a table under a selector.
pub open spec fn sel_flags(files: Seq<File>, sel: StatSelector) -> Seq<bool> {
    Seq::new(files.len(), |i: int| sel_matches(sel, files[i]))
}

/// How many rows a selector covers.
pub open spec fn spec_count_matching(files: Seq<File>, sel: StatSelector) -> nat {
    count_where(sel_flags(files, sel))
}

/// How many bytes a selector covers.
pub open spec fn spec_sum_matching(files: Seq<File>, sel: StatSelector) -> int {
    sum_marked(files, sel_flags(files, sel))
}

/// One aggregate answers for its selector: the count, the byte total and
/// its rendering.
pub open spec fn stat_ok(files: Seq<File>, sel: StatSelector, st: FileStat) -> bool {
    &&& st.count == spec_count_matching(files, sel)
    &&& st.size == spec_sum_matching(files, sel)
    &&& st.size_pretty@ == spec_format_size(st.size as int)
}

proof fn lemma_sel_take_succ(files: Seq<File>, sel: StatSelector, i: int)
    requires
        0 <= i < files.len(),
    ensures
        count_where(sel_flags(files.take(i + 1), sel)) == count_where(sel_flags(files.take(i), sel))
            + (
        if sel_matches(sel, files[i]) {
            1int
        } else {
            0int
        }),
        sum_marked(files.take(i + 1), sel_flags(files.take(i + 1), sel)) == sum_marked(
            files.take(i),
            sel_flags(files.take(i), sel),
        ) + (
        if sel_matches(sel, files[i]) {
            files[i].file_size as int
        } else {
            0int
        }),
{
    let f1 = sel_flags(files.take(i + 1), sel);
    let f0 = sel_flags(files.take(i), sel);
    assert(f1.drop_last() =~= f0);
    assert(files.take(i + 1).drop_last() =~= files.take(i));
    assert(f1.last() == sel_matches(sel, files[i]));
}

proof fn lemma_sel_full(files: Seq<File>, sel: StatSelector)
    ensures
        sel_flags(files.take(files.len() as int), sel) == sel_flags(files, sel),
        files.take(files.len() as int) == files,
{
    assert(files.take(files.len() as int) =~= files);
    assert(sel_flags(files.take(files.len() as int), sel) =~= sel_flags(files, sel));
}

/// Read-only aggregate queries over the file table.
pub struct StatisticsService;

impl StatisticsService {
    /// One pass computing the count and byte total of a selector.
    fn stat_for(store: &FileStore, sel: StatSelector) -> (r: (u64, i64))
        requires
            sizes_nonneg(store@.files),
            sum_sizes(store@.files) <= i64::MAX,
        ensures
            r.0 == spec_count_matching(store@.files, sel),
            r.1 == spec_sum_matching(store@.files, sel),
            0 <= r.1,
    {
        let files = &store.files;
        let mut count: u64 = 0;
        let mut size: i64 = 0;
        let mut i: usize = 0;
        proof {
            assert(store@.files.take(0) =~= Seq::<File>::empty());
            assert(sel_flags(store@.files.take(0), sel) =~= Seq::<bool>::empty());
        }
        while i < files.len()
            invariant
                files@ == store@.files,
                sizes_nonneg(store@.files),
                sum_sizes(store@.files) <= i64::MAX,
                i <= store@.files.len(),
                count == count_where(sel_flags(store@.files.take(i as int), sel)),
                count <= i,
                size == sum_marked(
                    store@.files.take(i as int),
                    sel_flags(store@.files.take(i as int), sel),
                ),
                0 <= size,
            decreases store@.files.len() - i,
        {
            proof {
                lemma_sel_take_succ(store@.files, sel, i as int);
                crate::cleanup_service::lemma_sum_marked_bounds(
                    store@.files.take(i + 1 as int),
                    sel_flags(store@.files.take(i + 1 as int), sel),
                );
                lemma_sum_take_le(store@.files, i + 1 as int);
                lemma_sum_nonneg(store@.files.take(i + 1 as int));
            }
            let f = &files[i];
            let matched = match sel {
                StatSelector::ByStatus(st) => f.status == st,
                StatSelector::ByTypeLive(t) => f.file_type == t && !(f.status
                    == FileStatus::Deleted),
                StatSelector::Live => !(f.status == FileStatus::Deleted),
            };
            if matched {
                count = count + 1;
                size = size + f.file_size;
            }
            i = i + 1;
        }
        proof {
            lemma_sel_full(store@.files, sel);
        }
        (count, size)
    }

    /// One aggregate with its rendered size.
    fn build_stat(store: &FileStore, sel: StatSelector) -> (r: FileStat)
        requires
            sizes_nonneg(store@.files),
            sum_sizes(store@.files) <= i64::MAX,
        ensures
            stat_ok(store@.files, sel, r),
    {
        let (count, size) = Self::stat_for(store, sel);
        FileStat { count, size, size_pretty: format_size(size) }
    }

    /// The full statistics answer: totals over live rows, aggregates per
    /// status over all rows, aggregates per category over live rows.
    pub fn get_statistics(store: &FileStore) -> (r: StorageStatistics)
        requires
            sizes_nonneg(store@.files),
            sum_sizes(store@.files) <= i64::MAX,
        ensures
            r.total_files == spec_count_matching(store@.files, StatSelector::Live),
            r.total_size == spec_sum_matching(store@.files, StatSelector::Live),
            r.total_size_pretty@ == spec_format_size(r.total_size as int),
            stat_ok(
                store@.files,
                StatSelector::ByStatus(FileStatus::Unused),
                r.by_status.unused,
            ),
            stat_ok(store@.files, StatSelector::ByStatus(FileStatus::Used), r.by_status.used),
            stat_ok(
                store@.files,
                StatSelector::ByStatus(FileStatus::Deleted),
                r.by_status.deleted,
            ),
            stat_ok(store@.files, StatSelector::ByTypeLive(FileType::Avatar), r.by_type.avatar),
            stat_ok(store@.files, StatSelector::ByTypeLive(FileType::Post), r.by_type.post),
            stat_ok(store@.files, StatSelector::ByTypeLive(FileType::Reply), r.by_type.reply),
            stat_ok(
                store@.files,
                StatSelector::ByTypeLive(FileType::SectionIcon),
                r.by_type.section_icon,
            ),
    {
        let (total_files, total_size) = Self::stat_for(store, StatSelector::Live);
        StorageStatistics {
            total_files,
            total_size,
            total_size_pretty: format_size(total_size),
            by_status: StatusStatistics {
                unused: Self::build_stat(store, StatSelector::ByStatus(FileStatus::Unused)),
                used: Self::build_stat(store, StatSelector::ByStatus(FileStatus::Used)),
                deleted: Self::build_stat(store, StatSelector::ByStatus(FileStatus::Deleted)),
            },
            by_type: TypeStatistics {
                avatar: Self::build_stat(store, StatSelector::ByTypeLive(FileType::Avatar)),
                post: Self::build_stat(store, StatSelector::ByTypeLive(FileType::Post)),
                reply: Self::build_stat(store, StatSelector::ByTypeLive(FileType::Reply)),
                section_icon: Self::build_stat(
                    store,
                    StatSelector::ByTypeLive(FileType::SectionIcon),
                ),
            },
        }
    }
}

} // verus!
