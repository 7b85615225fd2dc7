//! Page ranges.

use fedqrs::partition::ctid_ranges;

#[test]
fn ranges_cover_and_do_not_overlap() {
    let ranges = ctid_ranges(1000, 4);
    assert_eq!(ranges.len(), 4);
    assert_eq!(ranges[0].0, 0);
    // half-open and contiguous: each hi is the next lo
    for pair in ranges.windows(2) {
        assert_eq!(pair[0].1, pair[1].0);
    }
    // last extends to the max page
    assert_eq!(ranges.last().unwrap().1, u32::MAX);
}

#[test]
fn unanalyzed_table_is_one_range() {
    assert_eq!(ctid_ranges(0, 8), vec![(0, u32::MAX)]);
}

#[test]
fn partitions_capped_at_page_count() {
    // 3 pages cannot be split into 8 ranges
    assert_eq!(ctid_ranges(3, 8).len(), 3);
}

#[test]
fn pages_left_over_go_to_the_first_ranges() {
    assert_eq!(ctid_ranges(10, 4), vec![(0, 3), (3, 6), (6, 8), (8, u32::MAX)]);
    assert_eq!(ctid_ranges(10, 3), vec![(0, 4), (4, 7), (7, u32::MAX)]);
    assert_eq!(ctid_ranges(15, 8).len(), 8);
    assert_eq!(ctid_ranges(15, 8)[6], (12, 14));
    assert_eq!(ctid_ranges(15, 8)[7], (14, u32::MAX));
}

#[test]
fn there_is_one_range_for_each_partition() {
    for pages in [1u32, 2, 7, 10, 15, 16, 17, 1000] {
        for partitions in [1usize, 2, 3, 4, 8, 9, 1000, 5000] {
            let expected = partitions.min(pages as usize);
            assert_eq!(ctid_ranges(pages, partitions).len(), expected);
        }
    }
}

#[test]
fn partition_counts_beyond_the_page_numbers_are_capped() {
    assert_eq!(ctid_ranges(2, 4_294_967_296), vec![(0, 1), (1, u32::MAX)]);
    assert_eq!(ctid_ranges(2, 4_294_967_297), vec![(0, 1), (1, u32::MAX)]);
    assert_eq!(ctid_ranges(1, usize::MAX), vec![(0, u32::MAX)]);
}

#[test]
fn no_partitions_is_one_partition() {
    assert_eq!(ctid_ranges(10, 0), vec![(0, u32::MAX)]);
    assert_eq!(ctid_ranges(10, 1), vec![(0, u32::MAX)]);
}

#[test]
fn ranges_reach_the_highest_page_without_overflow() {
    assert_eq!(
        ctid_ranges(u32::MAX, 2),
        vec![(0, 2_147_483_648), (2_147_483_648, u32::MAX)]
    );
}

#[test]
fn every_page_stands_in_one_range() {
    for pages in [1u32, 2, 7, 15, 16, 17, 1000] {
        for partitions in [1usize, 2, 3, 8, 9] {
            let ranges = ctid_ranges(pages, partitions);
            assert!(ranges.len() as u32 <= pages);
            for page in 0..pages + 3 {
                let holders = ranges.iter().filter(|r| r.0 <= page && page < r.1).count();
                assert_eq!(holders, 1);
            }
        }
    }
}
