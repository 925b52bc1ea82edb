//! The reading log of a book: where the reader stopped, and the bookmarks.
//!
//! A log is a list of byte offsets. The first is the last reading position; the others are
//! bookmarks. On disk each offset takes four bytes, the most significant first.
use vstd::prelude::*;

use crate::bounded::{
    log_len, log_new, log_offsets, log_push, log_set, log_slice, LogVec, LOG_VEC_MAX,
};

verus! {

/// How many bytes the text of one page takes at most.
pub const ONE_PAGE_CONTENT_LEN: usize = 2000;

/// How many bytes of a log file are read at a time.
pub const LOG_BYTES: usize = 400;

/// Reads and writes the reading log of a book.
pub struct TxtReader;

/// The four bytes of an offset.
pub open spec fn offset_bytes(v: u32) -> Seq<u8> {
    seq![
        (v / 0x1000000) as u8,
        ((v / 0x10000) % 256) as u8,
        ((v / 0x100) % 256) as u8,
        (v % 256) as u8,
    ]
}

/// The offset that four bytes spell.
pub open spec fn offset_of(a: u8, b: u8, c: u8, d: u8) -> int {
    a * 0x1000000 + b * 0x10000 + c * 0x100 + d
}

/// The file that holds the offsets `log`.
pub open spec fn log_file(log: Seq<u32>) -> Seq<u8>
    decreases log.len(),
{
    if log.len() == 0 {
        seq![]
    } else {
        log_file(log.drop_last()) + offset_bytes(log.last())
    }
}

/// The log after `page` was bookmarked: unchanged where the bookmark is there already or the log
/// is full. A first bookmark also becomes the last position.
pub open spec fn log_with_bookmark(log: Seq<u32>, page: u32) -> Seq<u32> {
    if is_bookmark(log, page) || log.len() >= LOG_VEC_MAX {
        log
    } else if log.len() == 0 {
        seq![page, page]
    } else {
        log.push(page)
    }
}

/// `page` is among the bookmarks of `log`.
pub open spec fn is_bookmark(log: Seq<u32>, page: u32) -> bool {
    exists|i: int| 1 <= i < log.len() && log[i] == page
}

/// The log after `page` was noted as the last position.
pub open spec fn log_with_position(log: Seq<u32>, page: u32) -> Seq<u32> {
    if log.len() == 0 {
        seq![page]
    } else {
        log.update(0, page)
    }
}

/// The log after `page` was saved as a bookmark or as the last position.
pub open spec fn saved_log(log: Seq<u32>, page: u32, is_favorite: bool) -> Seq<u32> {
    if is_favorite {
        log_with_bookmark(log, page)
    } else {
        log_with_position(log, page)
    }
}

/// Where the last read of a file of `len` bytes begins.
pub open spec fn last_chunk(len: int) -> int {
    if len <= 0 {
        0
    } else {
        ((len - 1) / (LOG_BYTES as int)) * LOG_BYTES
    }
}

/// The byte at `i` of the read buffer once all of `data` has passed through it.
pub open spec fn buffered(data: Seq<u8>, i: int) -> u8 {
    let s = last_chunk(data.len() as int);
    if s + i < data.len() {
        data[s + i]
    } else if s > 0 {
        data[s - LOG_BYTES + i]
    } else {
        0
    }
}

/// The log that the file `data` holds: the offsets in what the last read brought in. A longer
/// file than a full log loses what earlier reads brought in.
pub open spec fn log_in(data: Seq<u8>) -> Seq<u32> {
    let n = data.len() - last_chunk(data.len() as int);
    Seq::new(
        ((n + 3) / 4) as nat,
        |k: int|
            offset_of(
                buffered(data, 4 * k),
                buffered(data, 4 * k + 1),
                buffered(data, 4 * k + 2),
                buffered(data, 4 * k + 3),
            ) as u32,
    )
}

impl TxtReader {
    /// The bytes that a log is written as.
    pub fn save_log_raw(log_vec: &LogVec) -> (out: Vec<u8>)
        ensures
            out@ == log_file(log_offsets(*log_vec)),
    {
        let log = log_slice(log_vec);
        let mut out: Vec<u8> = Vec::new();
        let mut i: usize = 0;
        while i < log.len()
            invariant
                i <= log@.len(),
                out@ == log_file(log@.take(i as int)),
            decreases log@.len() - i,
        {
            let value: u32 = log[i];
            out.push((value / 0x1000000) as u8);
            out.push(((value / 0x10000) % 256) as u8);
            out.push(((value / 0x100) % 256) as u8);
            out.push((value % 256) as u8);
            i += 1;
            proof {
                assert(log@.take(i as int).drop_last() =~= log@.take(i - 1));
                assert(out@ =~= log_file(log@.take(i - 1)) + offset_bytes(value));
            }
        }
        assert(log@.take(i as int) =~= log@);
        out
    }

    /// Notes `page` in the log, as a bookmark or as the last position, and gives the bytes that
    /// the log is then written as.
    pub fn save_log(log_vec: &mut LogVec, page: u32, is_favorite: bool) -> (out: Vec<u8>)
        ensures
            log_offsets(*final(log_vec)) == saved_log(log_offsets(*old(log_vec)), page, is_favorite),
            out@ == log_file(log_offsets(*final(log_vec))),
    {
        if is_favorite {
            let n: usize = log_len(log_vec);
            if !Self::bookmarked(log_vec, page) && n < LOG_VEC_MAX {
                if n == 0 {
                    let _ = log_push(log_vec, page);
                }
                let _ = log_push(log_vec, page);
                assert(log_offsets(*log_vec) =~= log_with_bookmark(log_offsets(*old(log_vec)), page));
            }
        } else if log_len(log_vec) == 0 {
            let _ = log_push(log_vec, page);
            assert(log_offsets(*log_vec) =~= seq![page]);
        } else {
            log_set(log_vec, 0, page);
        }
        Self::save_log_raw(log_vec)
    }

    /// Whether `page` is bookmarked.
    pub fn bookmarked(log_vec: &LogVec, page: u32) -> (found: bool)
        ensures
            found == is_bookmark(log_offsets(*log_vec), page),
    {
        let log = log_slice(log_vec);
        let mut i: usize = 1;
        while i < log.len()
            invariant
                1 <= i,
                log@ == log_offsets(*log_vec),
                forall|j: int| 1 <= j < i && j < log@.len() ==> log@[j] != page,
            decreases log@.len() - i,
        {
            if log[i] == page {
                return true;
            }
            i += 1;
        }
        false
    }

    /// The log in a file whose contents are `data`.
    pub fn read_log(data: &[u8]) -> (log_vec: LogVec)
        ensures
            log_offsets(log_vec) == log_in(data@),
    {
        let mut log_vec = log_new();
        let len: usize = data.len();
        let start: usize = if len == 0 {
            0
        } else {
            (len - 1) / LOG_BYTES * LOG_BYTES
        };
        let num_read: usize = len - start;
        let mut i: usize = 0;
        let ghost want = log_in(data@);
        while i < num_read
            invariant
                start == last_chunk(len as int),
                len == data@.len(),
                num_read == len - start,
                num_read <= LOG_BYTES,
                i % 4 == 0,
                i <= num_read + 3,
                i <= LOG_BYTES,
                want == log_in(data@),
                log_offsets(log_vec) =~= want.take(i as int / 4),
            decreases num_read + 4 - i,
        {
            let a: u8 = Self::buffer_at(data, start, i);
            let b: u8 = Self::buffer_at(data, start, i + 1);
            let c: u8 = Self::buffer_at(data, start, i + 2);
            let d: u8 = Self::buffer_at(data, start, i + 3);
            let value: u32 = (a as u32) * 0x1000000 + (b as u32) * 0x10000 + (c as u32) * 0x100 + (
            d as u32);
            let ghost k = i as int / 4;
            assert(4 * k == i);
            assert(want[k] == value);
            let _ = log_push(&mut log_vec, value);
            i += 4;
            assert(want.take(k + 1) =~= want.take(k).push(want[k]));
        }
        assert(want.take(i as int / 4) =~= want);
        log_vec
    }

    /// The byte at `i` of the read buffer after the read that began at `start`.
    fn buffer_at(data: &[u8], start: usize, i: usize) -> (b: u8)
        requires
            start == last_chunk(data@.len() as int),
            i < LOG_BYTES,
            start < data@.len(),
        ensures
            b == buffered(data@, i as int),
    {
        if i < data.len() - start {
            data[start + i]
        } else if start > 0 {
            data[start - LOG_BYTES + i]
        } else {
            0
        }
    }
}

/// The bytes of an offset spell that offset.
pub proof fn lemma_offset_bytes(v: u32)
    ensures
        ({
            let b = offset_bytes(v);
            offset_of(b[0], b[1], b[2], b[3]) == v
        }),
{
    assert(v == (v / 0x1000000) * 0x1000000 + ((v / 0x10000) % 256) * 0x10000 + ((v / 0x100) % 256)
        * 0x100 + v % 256);
}

/// A log file has four bytes for each offset, in order.
pub proof fn lemma_log_file(log: Seq<u32>)
    ensures
        log_file(log).len() == 4 * log.len(),
        forall|k: int, j: int|
            0 <= k < log.len() && 0 <= j < 4 ==> #[trigger] log_file(log)[4 * k + j]
                == offset_bytes(log[k])[j],
    decreases log.len(),
{
    if log.len() > 0 {
        lemma_log_file(log.drop_last());
        let n = log.len() - 1;
        assert forall|k: int, j: int| 0 <= k < log.len() && 0 <= j < 4 implies #[trigger] log_file(
            log,
        )[4 * k + j] == offset_bytes(log[k])[j] by {
            if k < n {
                assert(log.drop_last()[k] == log[k]);
                assert(log_file(log.drop_last())[4 * k + j] == offset_bytes(log[k])[j]);
            }
        }
    }
}

/// Reading back a log file gives the log that was written.
pub proof fn law_log_round_trip(log: Seq<u32>)
    requires
        log.len() <= LOG_VEC_MAX,
    ensures
        log_in(log_file(log)) == log,
{
    lemma_log_file(log);
    let data = log_file(log);
    assert(last_chunk(data.len() as int) == 0);
    assert forall|k: int| 0 <= k < log.len() implies log_in(data)[k] == log[k] by {
        lemma_offset_bytes(log[k]);
        assert(data[4 * k + 0] == offset_bytes(log[k])[0]);
        assert(data[4 * k + 1] == offset_bytes(log[k])[1]);
        assert(data[4 * k + 2] == offset_bytes(log[k])[2]);
        assert(data[4 * k + 3] == offset_bytes(log[k])[3]);
    }
    assert(log_in(data) =~= log);
}

/// Bookmarking the same place twice changes nothing the second time.
pub proof fn law_bookmark_once(log: Seq<u32>, page: u32)
    ensures
        log_with_bookmark(log_with_bookmark(log, page), page) == log_with_bookmark(log, page),
{
    let once = log_with_bookmark(log, page);
    if !(is_bookmark(log, page) || log.len() >= LOG_VEC_MAX) {
        assert(once[once.len() - 1] == page);
        assert(is_bookmark(once, page));
    }
}

/// Noting a position keeps every bookmark, and a bookmark keeps the position and the other
/// bookmarks.
pub proof fn law_saves_keep_the_rest(log: Seq<u32>, page: u32)
    ensures
        log.len() > 0 ==> log_with_position(log, page).skip(1) == log.skip(1),
        log.len() > 0 ==> log.is_prefix_of(log_with_bookmark(log, page)),
        log_with_position(log, page)[0] == page,
{
    if log.len() > 0 {
        assert(log_with_position(log, page).skip(1) =~= log.skip(1));
    }
}

/// A log never outgrows its capacity.
pub proof fn law_log_stays_bounded(log: Seq<u32>, page: u32, is_favorite: bool)
    requires
        log.len() <= LOG_VEC_MAX,
    ensures
        saved_log(log, page, is_favorite).len() <= LOG_VEC_MAX,
{
}

/// The log of a book is kept as numbers of four bytes, the most significant first: the place first,
/// and then the bookmarks in their order.
pub proof fn law_log_is_kept_in_order(log: Seq<u32>, i: int)
    requires
        0 <= i < log.len(),
    ensures
        log_file(log).len() == 4 * log.len(),
        ({
            let f = log_file(log);
            f[4 * i] * 16777216 + f[4 * i + 1] * 65536 + f[4 * i + 2] * 256 + f[4 * i + 3] == log[i]
        }),
    decreases log.len(),
{
    let before = log.drop_last();
    if i < before.len() {
        law_log_is_kept_in_order(before, i);
    } else if before.len() > 0 {
        law_log_is_kept_in_order(before, 0);
    }
    assert(before.len() == 0 ==> log_file(before).len() == 0);
}

/// The place of a book is kept first in its log and changes nothing else; a bookmark is added behind
/// all others.
pub proof fn law_place_comes_first(log: Seq<u32>, page: u32)
    ensures
        saved_log(log, page, false)[0] == page,
        log.len() > 0 ==> saved_log(log, page, false).skip(1) == log.skip(1),
        log.len() == 0 ==> saved_log(log, page, false).len() == 1,
        0 < log.len() < LOG_VEC_MAX && !(exists|i: int| 1 <= i < log.len() && log[i] == page) ==> saved_log(
            log,
            page,
            true,
        ) == log.push(page),
        log.len() > 0 ==> saved_log(log, page, true)[0] == log[0],
{
    if log.len() > 0 {
        assert(saved_log(log, page, false).skip(1) =~= log.skip(1));
    }
}

} // verus!
