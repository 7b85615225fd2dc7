//! Splitting a table into page ranges for a parallel read.
//!
//! A row's `ctid` is its physical (page, tuple) address, so page ranges
//! partition a table without a partition column. These are pure functions; the
//! caller feeds them page counts and reads the ranges.

use vstd::arithmetic::div_mod::*;
use vstd::prelude::*;

verus! {

/// The number of ways a table of `pages` pages is split: `partitions`, at least
/// one, and at most one way for each page.
pub open spec fn ways(pages: u32, partitions: usize) -> int {
    let wanted = if partitions == 0 {
        1int
    } else {
        partitions as int
    };
    if wanted < pages {
        wanted
    } else {
        pages as int
    }
}

/// The first page of the range at `i`, when `pages` pages are split in `count`
/// ways: every range has the same number of pages, and what is left over goes
/// to the first ranges, a page each.
pub open spec fn range_start(pages: int, count: int, i: int) -> int {
    let left_over = pages % count;
    i * (pages / count) + if i < left_over {
        i
    } else {
        left_over
    }
}

/// The half-open page ranges of a table of `pages` pages split in `partitions`
/// ways. The last one extends to the highest page number, so that it takes in
/// rows added since the pages were counted. A table whose pages were never
/// counted is one range.
pub open spec fn page_ranges(pages: u32, partitions: usize) -> Seq<(u32, u32)> {
    if pages == 0 {
        seq![(0u32, u32::MAX)]
    } else {
        let count = ways(pages, partitions);
        Seq::new(
            count as nat,
            |i: int|
                (
                    range_start(pages as int, count, i) as u32,
                    if i + 1 == count {
                        u32::MAX
                    } else {
                        range_start(pages as int, count, i + 1) as u32
                    },
                ),
        )
    }
}

/// One range after the other: where it starts, and how far the next one is.
proof fn lemma_next_start(pages: int, count: int, i: int)
    requires
        0 < count <= pages,
        0 <= i < count,
    ensures
        0 < pages / count,
        0 <= pages % count < count,
        range_start(pages, count, i + 1) == range_start(pages, count, i) + pages / count + (if i
            < pages % count {
            1int
        } else {
            0
        }),
{
    let chunk = pages / count;
    lemma_div_non_zero(pages, count);
    lemma_mod_bound(pages, count);
    assert((i + 1) * chunk == i * chunk + chunk) by (nonlinear_arith);
}

/// The ranges start at page zero, and would end after the last counted page.
proof fn lemma_outer_starts(pages: int, count: int)
    requires
        0 < count <= pages,
    ensures
        range_start(pages, count, 0) == 0,
        range_start(pages, count, count) == pages,
{
    lemma_mod_bound(pages, count);
    lemma_fundamental_div_mod(pages, count);
    assert(0 * (pages / count) == 0);
}

/// A later range starts at least as many pages further on as it is ranges
/// later, so the starts stay within the counted pages.
proof fn lemma_starts_grow(pages: int, count: int, i: int, j: int)
    requires
        0 < count <= pages,
        0 <= i <= j <= count,
    ensures
        range_start(pages, count, i) + (j - i) <= range_start(pages, count, j),
    decreases j - i,
{
    if i < j {
        lemma_starts_grow(pages, count, i, j - 1);
        lemma_next_start(pages, count, j - 1);
    }
}

/// Where a range starts lies among the counted pages.
proof fn lemma_start_bounds(pages: int, count: int, i: int)
    requires
        0 < count <= pages,
        0 <= i <= count,
    ensures
        i <= range_start(pages, count, i) <= pages - (count - i),
{
    lemma_outer_starts(pages, count);
    lemma_starts_grow(pages, count, 0, i);
    lemma_starts_grow(pages, count, i, count);
}

/// Split `[0, pages)` into half-open page ranges for `partitions` readers, no
/// more than there are pages. The last range extends to the highest page, so
/// that rows added since the last count are still covered.
pub fn ctid_ranges(pages: u32, partitions: usize) -> (r: Vec<(u32, u32)>)
    ensures
        r@ == page_ranges(pages, partitions),
        r@.len() == if pages == 0 {
            1
        } else {
            ways(pages, partitions)
        },
{
    if pages == 0 {
        return vec![(0u32, u32::MAX)];
    }
    let wanted: u64 = if partitions == 0 {
        1
    } else {
        partitions as u64
    };
    let count: u32 = if wanted < pages as u64 {
        wanted as u32
    } else {
        pages
    };
    let chunk: u32 = pages / count;
    let left_over: u32 = pages % count;
    let mut ranges: Vec<(u32, u32)> = Vec::new();
    let mut lo: u32 = 0;
    proof {
        lemma_outer_starts(pages as int, count as int);
    }
    for i in 0..count
        invariant
            0 < count <= pages,
            count == ways(pages, partitions),
            chunk == pages as int / count as int,
            left_over == pages as int % count as int,
            lo == range_start(pages as int, count as int, i as int),
            ranges@.len() == i,
            forall|j: int|
                0 <= j < i ==> #[trigger] ranges@[j] == page_ranges(pages, partitions)[j],
    {
        proof {
            lemma_next_start(pages as int, count as int, i as int);
            lemma_start_bounds(pages as int, count as int, i + 1);
        }
        let hi: u32 = if i < left_over {
            lo + chunk + 1
        } else {
            lo + chunk
        };
        if i + 1 == count {
            ranges.push((lo, u32::MAX));
        } else {
            ranges.push((lo, hi));
        }
        lo = hi;
    }
    proof {
        assert(ranges@ =~= page_ranges(pages, partitions));
    }
    ranges
}

/// Whether a half-open range holds a page.
pub open spec fn holds_page(range: (u32, u32), page: int) -> bool {
    range.0 <= page < range.1
}

/// What is known of the range at `i` of a table with pages.
proof fn lemma_range(pages: u32, partitions: usize, i: int)
    requires
        pages > 0,
        0 <= i < ways(pages, partitions),
    ensures
        ({
            let count = ways(pages, partitions);
            let range = page_ranges(pages, partitions)[i];
            &&& range.0 == range_start(pages as int, count, i)
            &&& range.1 == if i + 1 == count {
                u32::MAX as int
            } else {
                range_start(pages as int, count, i + 1)
            }
            &&& range.0 < range.1
        }),
{
    let count = ways(pages, partitions);
    lemma_start_bounds(pages as int, count, i);
    lemma_start_bounds(pages as int, count, i + 1);
    lemma_next_start(pages as int, count, i);
}

/// A table with pages is split into as many ranges as there are partitions,
/// or as there are pages where those are fewer. A partition count of zero
/// counts as one, and so does a table whose pages were never counted.
pub proof fn one_range_per_partition(pages: u32, partitions: usize)
    ensures
        pages == 0 ==> page_ranges(pages, partitions).len() == 1,
        pages > 0 && partitions == 0 ==> page_ranges(pages, partitions).len() == 1,
        pages > 0 && 0 < partitions <= pages ==> page_ranges(pages, partitions).len() == partitions,
        pages > 0 && partitions > pages ==> page_ranges(pages, partitions).len() == pages,
{
}

/// The ranges start at page zero, each begins where the one before it ends,
/// none is empty, and the last extends to the highest page number.
pub proof fn ranges_are_contiguous(pages: u32, partitions: usize)
    ensures
        ({
            let ranges = page_ranges(pages, partitions);
            &&& ranges.len() > 0
            &&& ranges[0].0 == 0
            &&& ranges.last().1 == u32::MAX
            &&& forall|i: int| 0 <= i < ranges.len() ==> (#[trigger] ranges[i]).0 < ranges[i].1
            &&& forall|i: int, j: int|
                0 <= i < ranges.len() && j == i + 1 && j < ranges.len() ==> (#[trigger] ranges[i]).1
                    == (#[trigger] ranges[j]).0
        }),
{
    let ranges = page_ranges(pages, partitions);
    if pages > 0 {
        let count = ways(pages, partitions);
        lemma_outer_starts(pages as int, count);
        lemma_range(pages, partitions, 0);
        lemma_range(pages, partitions, count - 1);
        assert forall|i: int| 0 <= i < ranges.len() implies (#[trigger] ranges[i]).0
            < ranges[i].1 by {
            lemma_range(pages, partitions, i);
        }
        assert forall|i: int, j: int|
            0 <= i < ranges.len() && j == i + 1 && j < ranges.len() implies (#[trigger] ranges[i]).1
            == (#[trigger] ranges[j]).0 by {
            lemma_range(pages, partitions, i);
            lemma_range(pages, partitions, j);
        }
    }
}

/// The counted pages are shared out evenly: but for the pages beyond the
/// count, which the last range takes in, no range has two more than another.
pub proof fn ranges_share_pages_evenly(pages: u32, partitions: usize, i: int)
    requires
        pages > 0,
        0 <= i < ways(pages, partitions),
    ensures
        ({
            let count = ways(pages, partitions);
            let ranges = page_ranges(pages, partitions);
            let end = if i + 1 == count {
                pages as int
            } else {
                ranges[i].1 as int
            };
            pages as int / count <= end - ranges[i].0 <= pages as int / count + 1
        }),
{
    let count = ways(pages, partitions);
    lemma_range(pages, partitions, i);
    lemma_next_start(pages as int, count, i);
    lemma_outer_starts(pages as int, count);
}

/// A page among the first `n` ranges stands in one of them.
proof fn lemma_some_range_holds(pages: u32, partitions: usize, page: int, n: int) -> (i: int)
    requires
        pages > 0,
        0 < n <= ways(pages, partitions),
        0 <= page < page_ranges(pages, partitions)[n - 1].1,
    ensures
        0 <= i < n,
        holds_page(page_ranges(pages, partitions)[i], page),
    decreases n,
{
    let count = ways(pages, partitions);
    lemma_range(pages, partitions, n - 1);
    if page_ranges(pages, partitions)[n - 1].0 <= page {
        n - 1
    } else {
        lemma_outer_starts(pages as int, count);
        lemma_range(pages, partitions, n - 2);
        lemma_some_range_holds(pages, partitions, page, n - 1)
    }
}

/// Every page stands in exactly one range: none is read twice, none is missed,
/// whether or not it was there when the pages were counted.
pub proof fn ranges_cover_each_page_once(pages: u32, partitions: usize, page: u32)
    requires
        page < u32::MAX,
    ensures
        ({
            let ranges = page_ranges(pages, partitions);
            &&& exists|i: int| 0 <= i < ranges.len() && holds_page(#[trigger] ranges[i], page as int)
            &&& forall|i: int, j: int|
                0 <= i < ranges.len() && 0 <= j < ranges.len() && holds_page(
                    #[trigger] ranges[i],
                    page as int,
                ) && holds_page(#[trigger] ranges[j], page as int) ==> i == j
        }),
{
    let ranges = page_ranges(pages, partitions);
    if pages == 0 {
        assert(holds_page(ranges[0], page as int));
    } else {
        let count = ways(pages, partitions);
        lemma_range(pages, partitions, count - 1);
        let k = lemma_some_range_holds(pages, partitions, page as int, count);
        assert(holds_page(ranges[k], page as int));
        assert forall|i: int, j: int|
            0 <= i < ranges.len() && 0 <= j < ranges.len() && holds_page(
                #[trigger] ranges[i],
                page as int,
            ) && holds_page(#[trigger] ranges[j], page as int) implies i == j by {
            lemma_range(pages, partitions, i);
            lemma_range(pages, partitions, j);
            if i < j {
                lemma_starts_grow(pages as int, count, i + 1, j);
            } else if j < i {
                lemma_starts_grow(pages as int, count, j + 1, i);
            }
        }
    }
}

} // verus!
