use pdftool::chunking::{build_chunk_ranges, use_chunks, MIN_PAGES_PER_CHUNK};

fn check_partition(total: usize, workers: usize) {
    let r = build_chunk_ranges(total, workers);
    let size = std::cmp::max(total / workers, MIN_PAGES_PER_CHUNK);
    if total == 0 {
        assert!(r.is_empty());
        return;
    }
    assert_eq!(r[0].0, 1);
    assert_eq!(r[r.len() - 1].1, total);
    for i in 0..r.len() {
        assert!(r[i].0 <= r[i].1);
        assert!(r[i].1 - r[i].0 + 1 <= size + MIN_PAGES_PER_CHUNK - 1);
        if total >= MIN_PAGES_PER_CHUNK {
            assert!(r[i].1 - r[i].0 + 1 >= MIN_PAGES_PER_CHUNK);
        }
        if i + 1 < r.len() {
            assert_eq!(r[i + 1].0, r[i].1 + 1);
            assert_eq!(r[i].1 - r[i].0 + 1, size);
            assert!(size >= MIN_PAGES_PER_CHUNK);
        }
    }
}

#[test]
fn short_tail_joins_last_chunk() {
    assert_eq!(build_chunk_ranges(25, 2), vec![(1, 12), (13, 25)]);
    assert_eq!(build_chunk_ranges(21, 2), vec![(1, 10), (11, 21)]);
}

#[test]
fn small_share_uses_minimum_chunk() {
    assert_eq!(build_chunk_ranges(25, 8), vec![(1, 10), (11, 25)]);
    assert_eq!(build_chunk_ranges(30, 8), vec![(1, 10), (11, 20), (21, 30)]);
}

#[test]
fn tail_of_minimum_size_is_its_own_chunk() {
    let r = build_chunk_ranges(250, 20);
    assert_eq!(r.len(), 21);
    assert_eq!(r[19], (229, 240));
    assert_eq!(r[20], (241, 250));
    let r = build_chunk_ranges(249, 20);
    assert_eq!(r.len(), 20);
    assert_eq!(r[19], (229, 249));
    assert_eq!(build_chunk_ranges(50, 4), vec![(1, 12), (13, 24), (25, 36), (37, 50)]);
    assert_eq!(build_chunk_ranges(52, 1), vec![(1, 52)]);
    assert_eq!(build_chunk_ranges(35, 3), vec![(1, 11), (12, 22), (23, 35)]);
    assert_eq!(build_chunk_ranges(30, 2), vec![(1, 15), (16, 30)]);
    assert_eq!(build_chunk_ranges(10, 1), vec![(1, 10)]);
    assert_eq!(build_chunk_ranges(20, 1), vec![(1, 20)]);
    assert_eq!(build_chunk_ranges(31, 3), vec![(1, 10), (11, 20), (21, 31)]);
    assert_eq!(build_chunk_ranges(45, 4), vec![(1, 11), (12, 22), (23, 33), (34, 45)]);
    assert_eq!(build_chunk_ranges(60, 5), vec![(1, 12), (13, 24), (25, 36), (37, 48), (49, 60)]);
    assert_eq!(build_chunk_ranges(44, 4), vec![(1, 11), (12, 22), (23, 33), (34, 44)]);
    assert_eq!(build_chunk_ranges(29, 8), vec![(1, 10), (11, 29)]);
    assert_eq!(build_chunk_ranges(41, 8), vec![(1, 10), (11, 20), (21, 30), (31, 41)]);
    assert_eq!(build_chunk_ranges(50, 8), vec![(1, 10), (11, 20), (21, 30), (31, 40), (41, 50)]);
    assert_eq!(build_chunk_ranges(34, 3), vec![(1, 11), (12, 22), (23, 34)]);
    assert_eq!(build_chunk_ranges(40, 3), vec![(1, 13), (14, 26), (27, 40)]);
    assert_eq!(build_chunk_ranges(45, 2), vec![(1, 22), (23, 45)]);
    assert_eq!(build_chunk_ranges(100, 3), vec![(1, 33), (34, 66), (67, 100)]);
}

#[test]
fn even_split() {
    assert_eq!(build_chunk_ranges(100, 4), vec![(1, 25), (26, 50), (51, 75), (76, 100)]);
}

#[test]
fn no_pages_no_chunks() {
    assert_eq!(build_chunk_ranges(0, 4), Vec::<(usize, usize)>::new());
}

#[test]
fn single_chunk_for_few_pages() {
    assert_eq!(build_chunk_ranges(9, 1), vec![(1, 9)]);
}

#[test]
fn huge_page_counts_do_not_overflow() {
    let r = build_chunk_ranges(usize::MAX, 1);
    assert_eq!(r, vec![(1, usize::MAX)]);
    let r = build_chunk_ranges(usize::MAX - 1, 2);
    assert_eq!(r.len(), 2);
    assert_eq!(r[1].1, usize::MAX - 1);
    let r = build_chunk_ranges(usize::MAX - 2, 2);
    assert_eq!(r.len(), 2);
    assert_eq!(r[1], ((usize::MAX - 3) / 2 + 1, usize::MAX - 2));
}

#[test]
fn ranges_partition_pages() {
    for total in 0..130 {
        for workers in 1..9 {
            check_partition(total, workers);
        }
    }
}

#[test]
fn chunking_threshold() {
    assert!(!use_chunks(79, 8));
    assert!(use_chunks(80, 8));
    assert!(!use_chunks(9, 1));
    assert!(use_chunks(10, 1));
    assert!(!use_chunks(0, 4));
}
