//! Planning a ranged download: how a file of `total` bytes is cut into at
//! most `num_threads` consecutive byte ranges, and the downloader's
//! settings that decide it.

use vstd::prelude::*;
use crate::range::RangeClient;

verus! {

/// The size of each range: the file split evenly over the threads (rounded
/// up), but never less than the block size, nor less than 1.
pub open spec fn chunk_size(total: u64, block_size: u64, num_threads: usize) -> int {
    let n = if num_threads == 0 {
        1int
    } else {
        num_threads as int
    };
    let even = (total + n - 1) / n;
    let b = if block_size == 0 {
        1int
    } else {
        block_size as int
    };
    if even >= b {
        even
    } else {
        b
    }
}

/// How many ranges a file of `total` bytes gives with ranges of `chunk` bytes.
pub open spec fn block_count(total: int, chunk: int) -> int {
    (total + chunk - 1) / chunk
}

/// The ranges, each `(first byte, last byte)` inclusive.
pub open spec fn blocks_of(total: u64, block_size: u64, num_threads: usize) -> Seq<(u64, u64)> {
    let c = chunk_size(total, block_size, num_threads);
    if total == 0 {
        seq![]
    } else {
        Seq::new(
            block_count(total as int, c) as nat,
            |i: int|
                (
                    (i * c) as u64,
                    (if i * c + c - 1 <= total - 1 {
                        i * c + c - 1
                    } else {
                        total - 1
                    }) as u64,
                ),
        )
    }
}

proof fn lemma_chunk_pos(total: u64, block_size: u64, num_threads: usize)
    ensures
        chunk_size(total, block_size, num_threads) >= 1,
        total > 0 ==> chunk_size(total, block_size, num_threads) * (if num_threads == 0 {
            1int
        } else {
            num_threads as int
        }) >= total,
{
    let n = if num_threads == 0 {
        1int
    } else {
        num_threads as int
    };
    let even = (total + n - 1) / n;
    if total > 0 {
        assert(even * n >= total) by (nonlinear_arith)
            requires
                even == (total + n - 1) / n,
                n >= 1,
                total > 0,
        ;
        assert(chunk_size(total, block_size, num_threads) * n >= even * n) by (nonlinear_arith)
            requires
                chunk_size(total, block_size, num_threads) >= even,
                n >= 1,
        ;
    }
}

/// The chunk size (see [`chunk_size`]) of a file that is not empty.
fn chunk_of(total: u64, block_size: u64, num_threads: usize) -> (chunk: u64)
    requires
        total > 0,
    ensures
        chunk == chunk_size(total, block_size, num_threads),
        chunk >= 1,
{
    let n: u64 = if num_threads == 0 {
        1
    } else {
        num_threads as u64
    };
    proof {
        if total % n != 0 {
            assert(total / n + 1 <= total) by (nonlinear_arith)
                requires
                    n >= 2,
                    total >= 1,
            ;
        }
    }
    let even: u64 = if total % n == 0 {
        total / n
    } else {
        total / n + 1
    };
    let b: u64 = if block_size == 0 {
        1
    } else {
        block_size
    };
    let chunk: u64 = if even >= b {
        even
    } else {
        b
    };
    let ghost c = chunk_size(total, block_size, num_threads);
    proof {
        let ni = if num_threads == 0 {
            1int
        } else {
            num_threads as int
        };
        assert(ni == n);
        assert(even == (total + ni - 1) / ni) by (nonlinear_arith)
            requires
                ni >= 1,
                total >= 0,
                even == (if (total as int) % ni == 0 {
                    (total as int) / ni
                } else {
                    (total as int) / ni + 1
                }),
        ;
        assert(chunk == c);
        lemma_chunk_pos(total, block_size, num_threads);
    }
    chunk
}

/// Cuts `total` bytes into consecutive ranges of the chunk size (the last one
/// shorter), as `(first, last)` byte offsets.
pub fn calculate_blocks(total: u64, block_size: u64, num_threads: usize) -> (r: Vec<(u64, u64)>)
    ensures
        r@ == blocks_of(total, block_size, num_threads),
{
    if total == 0 {
        return Vec::new();
    }
    let chunk = chunk_of(total, block_size, num_threads);
    let ghost c = chunk_size(total, block_size, num_threads);
    let ghost count = block_count(total as int, c);
    let mut blocks: Vec<(u64, u64)> = Vec::new();
    let mut start: u64 = 0;
    let ghost mut k: int = 0;
    proof {
        assert(count >= 1) by (nonlinear_arith)
            requires
                count == (total + c - 1) / c,
                c >= 1,
                total >= 1,
        ;
    }
    while start < total
        invariant
            chunk == c,
            c == chunk_size(total, block_size, num_threads),
            c >= 1,
            total > 0,
            count == block_count(total as int, c),
            0 <= k <= count,
            k < count ==> start == k * c && start < total,
            k == count ==> start >= total,
            blocks@.len() == k,
            forall|i: int| 0 <= i < k ==> #[trigger] blocks@[i] == blocks_of(total, block_size, num_threads)[i],
        decreases total - start,
    {
        let end = if chunk - 1 <= total - 1 - start {
            start + (chunk - 1)
        } else {
            total - 1
        };
        blocks.push((start, end));
        proof {
            assert(k + 1 <= count) by (nonlinear_arith)
                requires
                    start == k * c,
                    start < total,
                    c >= 1,
                    count == (total + c - 1) / c,
            ;
            assert(k + 1 < count ==> (k + 1) * c < total) by (nonlinear_arith)
                requires
                    c >= 1,
                    count == (total + c - 1) / c,
                    k >= 0,
            ;
            assert(k + 1 == count ==> (k + 1) * c >= total) by (nonlinear_arith)
                requires
                    c >= 1,
                    count == (total + c - 1) / c,
            ;
            assert(blocks@[k] == blocks_of(total, block_size, num_threads)[k]);
            k = k + 1;
        }
        if end == total - 1 {
            proof {
                assert(k * c >= total) by (nonlinear_arith)
                    requires
                        end == total - 1,
                        start == (k - 1) * c,
                        start + c - 1 >= end,
                ;
            }
            start = total;
        } else {
            proof {
                assert(start + c == k * c) by (nonlinear_arith)
                    requires
                        start == (k - 1) * c,
                ;
            }
            start = end + 1;
        }
    }
    assert(blocks@ =~= blocks_of(total, block_size, num_threads));
    blocks
}

/// The ranges cover the file exactly, one after another: the first starts
/// at byte 0, each starts right after the one before it ends, none is empty,
/// and the last ends at the last byte.
pub proof fn law_blocks_cover(total: u64, block_size: u64, num_threads: usize)
    requires
        total > 0,
    ensures
        ({
            let b = blocks_of(total, block_size, num_threads);
            &&& b.len() >= 1
            &&& b[0].0 == 0
            &&& b[b.len() - 1].1 == total - 1
            &&& forall|i: int| 0 <= i < b.len() ==> #[trigger] b[i].0 <= b[i].1
            &&& forall|i: int| 0 <= i < b.len() - 1 ==> #[trigger] b[i + 1].0 == b[i].1 + 1
        }),
{
    let c = chunk_size(total, block_size, num_threads);
    lemma_chunk_pos(total, block_size, num_threads);
    let count = block_count(total as int, c);
    let b = blocks_of(total, block_size, num_threads);
    assert(count >= 1) by (nonlinear_arith)
        requires
            count == (total + c - 1) / c,
            c >= 1,
            total >= 1,
    ;
    assert((count - 1) * c < total && count * c >= total) by (nonlinear_arith)
        requires
            count == (total + c - 1) / c,
            c >= 1,
            total >= 1,
    ;
    assert(count - 1 == (total - 1) / c) by (nonlinear_arith)
        requires
            count == (total + c - 1) / c,
            c >= 1,
            total >= 1,
    ;
    assert forall|i: int| 0 <= i < count implies #[trigger] b[i].0 <= b[i].1 && b[i].0 == i * c
        && i * c < total by {
        assert(i * c <= (count - 1) * c) by (nonlinear_arith)
            requires
                i <= count - 1,
                c >= 1,
        ;
    }
    assert forall|i: int| 0 <= i < b.len() - 1 implies #[trigger] b[i + 1].0 == b[i].1 + 1 by {
        assert((i + 1) * c < total) by (nonlinear_arith)
            requires
                i + 1 <= count - 1,
                (count - 1) * c < total,
                c >= 1,
        ;
        assert((i + 1) * c == i * c + c) by (nonlinear_arith);
        assert(b[i].0 <= b[i].1 && b[i].0 == i * c);
        assert(b[i].1 == i * c + c - 1);
        assert(b[i + 1].0 == (i + 1) * c);
    }
    assert(b[0].0 == 0);
    assert(count * c == (count - 1) * c + c) by (nonlinear_arith);
    assert(b[b.len() - 1].1 == total - 1);
}

/// Every range but the last holds at least the block size (at least 1)
/// and at least its share of the file (`total` over the threads, rounded
/// up, counting 0 threads as 1); the last holds what is left, at least 1.
pub proof fn law_blocks_at_least_block_size(total: u64, block_size: u64, num_threads: usize)
    ensures
        ({
            let b = blocks_of(total, block_size, num_threads);
            let n = if num_threads == 0 {
                1int
            } else {
                num_threads as int
            };
            &&& forall|i: int|
                0 <= i < b.len() - 1 ==> #[trigger] b[i].1 - b[i].0 + 1 >= (if block_size == 0 {
                    1int
                } else {
                    block_size as int
                }) && b[i].1 - b[i].0 + 1 >= (total + n - 1) / n
            &&& b.len() > 0 ==> b[b.len() - 1].1 - b[b.len() - 1].0 + 1 >= 1
        }),
{
    let b = blocks_of(total, block_size, num_threads);
    if total > 0 {
        let c = chunk_size(total, block_size, num_threads);
        lemma_chunk_pos(total, block_size, num_threads);
        let count = block_count(total as int, c);
        assert((count - 1) * c < total) by (nonlinear_arith)
            requires
                count == (total + c - 1) / c,
                c >= 1,
                total >= 1,
        ;
        assert forall|i: int| 0 <= i < b.len() - 1 implies #[trigger] b[i].1 - b[i].0 + 1 == c by {
            assert((i + 1) * c <= (count - 1) * c) by (nonlinear_arith)
                requires
                    i + 1 <= count - 1,
                    c >= 1,
            ;
            assert((i + 1) * c == i * c + c) by (nonlinear_arith);
            assert(i * c >= 0) by (nonlinear_arith)
                requires
                    i >= 0,
                    c >= 1,
            ;
        }
        if b.len() > 0 {
            let l = b.len() - 1;
            assert(l * c < total);
            assert(l * c >= 0) by (nonlinear_arith)
                requires
                    l >= 0,
                    c >= 1,
            ;
        }
    }
}

/// There are never more ranges than threads (counting 0 threads as 1).
pub proof fn law_blocks_at_most_threads(total: u64, block_size: u64, num_threads: usize)
    ensures
        blocks_of(total, block_size, num_threads).len() <= (if num_threads == 0 {
            1
        } else {
            num_threads as int
        }),
{
    let c = chunk_size(total, block_size, num_threads);
    lemma_chunk_pos(total, block_size, num_threads);
    let n = if num_threads == 0 {
        1int
    } else {
        num_threads as int
    };
    if total > 0 {
        assert((total + c - 1) / c <= n) by (nonlinear_arith)
            requires
                c * n >= total,
                c >= 1,
                n >= 1,
                total >= 1,
        ;
    }
}

/// The ranged downloader: its client and its default settings (the
/// transfers are the caller's).
pub struct ParallelDownloader {
    range_client: RangeClient,
    num_threads: usize,
    block_size: u64,
}

/// The default number of connections: 4.
pub const DEFAULT_THREADS: usize = 4;

/// The default block size: 1 MiB.
pub const DEFAULT_BLOCK_SIZE: u64 = 1048576;

impl ParallelDownloader {
    /// The default number of connections.
    pub closed spec fn threads_of(&self) -> usize {
        self.num_threads
    }

    /// The default block size.
    pub closed spec fn block_of(&self) -> u64 {
        self.block_size
    }

    /// The client that makes the range requests.
    pub closed spec fn client_of(&self) -> RangeClient {
        self.range_client
    }

    /// A downloader with 4 connections and blocks of 1 MiB.
    pub fn new(range_client: RangeClient) -> (r: ParallelDownloader)
        ensures
            r.threads_of() == DEFAULT_THREADS && r.block_of() == DEFAULT_BLOCK_SIZE,
            r.client_of() == range_client,
    {
        ParallelDownloader {
            range_client,
            num_threads: DEFAULT_THREADS,
            block_size: DEFAULT_BLOCK_SIZE,
        }
    }

    /// The same downloader with `n` connections (at least 1).
    pub fn with_num_threads(self, n: usize) -> (r: ParallelDownloader)
        ensures
            r.threads_of() == (if n >= 1 {
                n
            } else {
                1
            }),
            r.block_of() == self.block_of(),
            r.client_of() == self.client_of(),
    {
        let t = if n >= 1 {
            n
        } else {
            1
        };
        ParallelDownloader { range_client: self.range_client, num_threads: t, block_size: self.block_size }
    }

    /// The same downloader with blocks of `b` bytes (at least 1).
    pub fn with_block_size(self, b: u64) -> (r: ParallelDownloader)
        ensures
            r.block_of() == (if b >= 1 {
                b
            } else {
                1
            }),
            r.threads_of() == self.threads_of(),
            r.client_of() == self.client_of(),
    {
        let s = if b >= 1 {
            b
        } else {
            1
        };
        ParallelDownloader { range_client: self.range_client, num_threads: self.num_threads, block_size: s }
    }

    /// The client that makes the range requests.
    pub fn range_client(&self) -> (r: &RangeClient)
        ensures
            *r == self.client_of(),
    {
        &self.range_client
    }

    /// The connections of a transfer: the one it asks for, the default
    /// where it asks for 0.
    pub fn threads_for(&self, asked: usize) -> (r: usize)
        ensures
            r == (if asked == 0 {
                self.threads_of()
            } else {
                asked
            }),
    {
        if asked == 0 {
            self.num_threads
        } else {
            asked
        }
    }

    /// The block size of a transfer: the one it asks for, the default where
    /// it asks for 0.
    pub fn block_size_for(&self, asked: u64) -> (r: u64)
        ensures
            r == (if asked == 0 {
                self.block_of()
            } else {
                asked
            }),
    {
        if asked == 0 {
            self.block_size
        } else {
            asked
        }
    }
}


} // verus!
