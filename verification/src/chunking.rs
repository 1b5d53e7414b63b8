//! Splitting a document's pages into chunks for parallel compression.
use vstd::prelude::*;

verus! {

/// Fewest pages per chunk: below this, chunking costs more than it saves, so no
/// chunk of a document with at least this many pages is shorter.
pub const MIN_PAGES_PER_CHUNK: usize = 10;

/// Pages in every chunk but the last, which also takes a remainder too short to
/// stand as a chunk of its own.
pub open spec fn chunk_size(total_pages: nat, num_workers: nat) -> nat {
    let even = total_pages / num_workers;
    if even >= MIN_PAGES_PER_CHUNK {
        even
    } else {
        MIN_PAGES_PER_CHUNK as nat
    }
}

/// Number of chunks: one per full `size` pages, plus one for a remainder of at
/// least `MIN_PAGES_PER_CHUNK` pages (a shorter remainder joins the last full chunk;
/// a document shorter than `size` is one chunk).
pub open spec fn chunk_count(total_pages: nat, size: nat) -> nat {
    if size == 0 || total_pages == 0 {
        0
    } else {
        let full = total_pages / size;
        let rest = total_pages % size;
        if rest == 0 {
            full
        } else if rest >= MIN_PAGES_PER_CHUNK || full == 0 {
            full + 1
        } else {
            full
        }
    }
}

/// The 1-based inclusive page range of chunk `k` of `count`: `size` pages each, the
/// last running to the final page.
pub open spec fn chunk_range(k: int, size: nat, total_pages: nat, count: nat) -> (int, int) {
    (k * size + 1, if k == count - 1 { total_pages as int } else { (k + 1) * size })
}

/// The page ranges of all chunks.
pub open spec fn chunk_ranges(total_pages: nat, num_workers: nat) -> Seq<(int, int)> {
    let size = chunk_size(total_pages, num_workers);
    let count = chunk_count(total_pages, size);
    Seq::new(count, |k: int| chunk_range(k, size, total_pages, count))
}

pub open spec fn ranges_view(v: Seq<(usize, usize)>) -> Seq<(int, int)> {
    v.map_values(|r: (usize, usize)| (r.0 as int, r.1 as int))
}

/// Whether a document is split into chunks at all: only when each worker gets
/// at least `MIN_PAGES_PER_CHUNK` pages.
pub open spec fn uses_chunks(total_pages: nat, num_workers: nat) -> bool {
    total_pages / num_workers >= MIN_PAGES_PER_CHUNK
}

/// Whether `total_pages` are split into chunks for `num_workers` workers.
pub fn use_chunks(total_pages: usize, num_workers: usize) -> (b: bool)
    requires
        num_workers > 0,
    ensures
        b == uses_chunks(total_pages as nat, num_workers as nat),
{
    total_pages / num_workers >= MIN_PAGES_PER_CHUNK
}

proof fn lemma_div_mod(total: nat, size: nat)
    requires
        size > 0,
    ensures
        total == (total / size) * size + total % size,
        total % size < size,
{
    assert(total == (total / size) * size + total % size) by (nonlinear_arith)
        requires
            size > 0,
    ;
}

proof fn lemma_mul_le(a: int, b: int, size: nat)
    requires
        0 <= a <= b,
    ensures
        a * size <= b * size,
        (a + 1) * size == a * size + size,
{
    assert(a * size <= b * size) by (nonlinear_arith)
        requires
            0 <= a <= b,
            size >= 0,
    ;
    assert((a + 1) * size == a * size + size) by (nonlinear_arith);
}

/// Page ranges of the chunks of a `total_pages`-page document: chunk `k` covers pages
/// `k * size + 1 ..= (k + 1) * size`, the last one running to `total_pages`, where
/// `size` is `max(total_pages / num_workers, MIN_PAGES_PER_CHUNK)`.
pub fn build_chunk_ranges(total_pages: usize, num_workers: usize) -> (ranges: Vec<(usize, usize)>)
    requires
        num_workers > 0,
    ensures
        ranges_view(ranges@) == chunk_ranges(total_pages as nat, num_workers as nat),
{
    let even = total_pages / num_workers;
    let size: usize = if even >= MIN_PAGES_PER_CHUNK {
        even
    } else {
        MIN_PAGES_PER_CHUNK
    };
    let full = total_pages / size;
    let rest = total_pages % size;
    proof {
        lemma_div_mod(total_pages as nat, size as nat);
        assert(full * 10 <= total_pages) by (nonlinear_arith)
            requires
                total_pages == full * size + rest,
                size >= 10,
                rest >= 0,
                full >= 0,
        ;
    }
    let count: usize = if total_pages == 0 {
        0
    } else if rest == 0 {
        full
    } else if rest >= MIN_PAGES_PER_CHUNK || full == 0 {
        full + 1
    } else {
        full
    };
    let ghost total = total_pages as nat;
    let ghost sz = size as nat;
    proof {
        lemma_div_mod(total, sz);
        assert(count == chunk_count(total, sz));
        assert(0 * sz == 0);
        assert(sz == chunk_size(total, num_workers as nat));
    }
    let mut ranges: Vec<(usize, usize)> = Vec::new();
    let mut start: usize = 1;
    for k in 0..count
        invariant
            count == chunk_count(total, sz),
            sz == size,
            size >= MIN_PAGES_PER_CHUNK,
            total == total_pages,
            full == total / sz,
            total == full * sz + total % sz,
            total % sz < sz,
            count <= full + 1,
            count > 0 ==> total > 0,
            count == full ==> total % sz == 0 || full > 0,
            k < count ==> start as int == k * sz + 1,
            k < count ==> start <= total_pages,
            ranges@.len() == k,
            forall|j: int|
                0 <= j < k ==> (#[trigger] ranges@[j].0 as int, ranges@[j].1 as int) == chunk_range(
                    j,
                    sz,
                    total,
                    count as nat,
                ),
    {
        proof {
            lemma_mul_le(k as int, full as int, sz);
        }
        if k + 1 == count {
            ranges.push((start, total_pages));
        } else {
            proof {
                lemma_mul_le(k + 1, full as int, sz);
                if total % sz == 0 {
                    assert(count == full);
                    lemma_mul_le(k + 1, full - 1, sz);
                    lemma_mul_le(full - 1, full - 1, sz);
                }
                assert((k + 1) * sz + 1 <= total);
            }
            ranges.push((start, start + (size - 1)));
            start = start + size;
        }
    }
    proof {
        assert(ranges_view(ranges@) =~= chunk_ranges(total, num_workers as nat));
    }
    ranges
}

/// The chunks partition the pages `1..=total_pages`: the first starts at page 1, the
/// last ends at `total_pages`, each is non-empty and starts right after the one
/// before it ends, and every chunk but the last holds exactly `chunk_size` pages, at
/// least `MIN_PAGES_PER_CHUNK`. When the document has at least
/// `MIN_PAGES_PER_CHUNK` pages, every chunk (the last included) has at least that
/// many pages, and none has more than `chunk_size + MIN_PAGES_PER_CHUNK - 1`. There
/// are no chunks exactly when there are no pages.
pub proof fn chunk_ranges_partition(total_pages: nat, num_workers: nat)
    requires
        num_workers > 0,
    ensures
        ({
            let r = chunk_ranges(total_pages, num_workers);
            let size = chunk_size(total_pages, num_workers);
            &&& size >= MIN_PAGES_PER_CHUNK
            &&& (r.len() == 0 <==> total_pages == 0)
            &&& r.len() > 0 ==> r[0].0 == 1 && r.last().1 == total_pages
            &&& forall|k: int| 0 <= k < r.len() ==> 1 <= #[trigger] r[k].0 <= r[k].1 <= total_pages
            &&& forall|k: int|
                0 <= k < r.len() ==> #[trigger] r[k].1 - r[k].0 + 1 <= size + MIN_PAGES_PER_CHUNK - 1
            &&& total_pages >= MIN_PAGES_PER_CHUNK ==> forall|k: int|
                0 <= k < r.len() ==> #[trigger] r[k].1 - r[k].0 + 1 >= MIN_PAGES_PER_CHUNK
            &&& forall|k: int|
                0 <= k < r.len() - 1 ==> #[trigger] r[k + 1].0 == r[k].1 + 1 && r[k].1 - r[k].0 + 1
                    == size
        }),
{
    let r = chunk_ranges(total_pages, num_workers);
    let size = chunk_size(total_pages, num_workers);
    let n = chunk_count(total_pages, size);
    lemma_div_mod(total_pages, size);
    let full = total_pages / size;
    let rest = total_pages % size;
    assert forall|k: int| 0 <= k < r.len() implies 1 <= #[trigger] r[k].0 <= r[k].1 <= total_pages
        && r[k].1 - r[k].0 + 1 <= size + MIN_PAGES_PER_CHUNK - 1 && (total_pages
        >= MIN_PAGES_PER_CHUNK ==> r[k].1 - r[k].0 + 1 >= MIN_PAGES_PER_CHUNK) by {
        lemma_mul_le(k, full as int, size);
        assert(k * size >= 0) by (nonlinear_arith)
            requires
                k >= 0,
        ;
        if k < n - 1 {
            lemma_mul_le(k + 1, full as int, size);
            if rest == 0 {
                lemma_mul_le(k + 1, full - 1, size);
            }
        } else {
            if rest == 0 {
                assert(n == full);
                lemma_mul_le(k, full - 1, size);
                lemma_mul_le(full - 1, full - 1, size);
            } else if rest >= MIN_PAGES_PER_CHUNK || full == 0 {
                assert(n == full + 1);
                assert(k == full);
            } else {
                assert(n == full);
                lemma_mul_le(full - 1, full - 1, size);
                assert(k == full - 1);
            }
        }
    }
    assert forall|k: int| 0 <= k < r.len() - 1 implies #[trigger] r[k + 1].0 == r[k].1 + 1 && r[k].1
        - r[k].0 + 1 == size by {
        lemma_mul_le(k, k, size);
    }
    if n > 0 {
        assert(r[0].0 == 0 * size + 1);
    }
}

/// When a document is split, every chunk but the last holds exactly
/// `total_pages / num_workers` pages.
pub proof fn chunked_size_is_even_share(total_pages: nat, num_workers: nat)
    requires
        num_workers > 0,
        uses_chunks(total_pages, num_workers),
    ensures
        chunk_size(total_pages, num_workers) == total_pages / num_workers,
{
}

} // verus!
