//! The bookkeeping of one transfer: which requests are made, what is written, and the
//! progress that is reported after each chunk.
//!
//! A run begins with [`begin`], which reads what the server said of the file and decides
//! between a transfer by ranges, which takes up a partial file where it ends, and a
//! single streamed request. The caller makes the requests and writes the bytes; after
//! each answer it tells the transfer, which says what to do with the body and how far
//! the run has come.

use crate::provision::range::{
    header_value, lemma_resume_requests, range_text, spans, PartialRangeIter, ProvisionError, Span,
};
use crate::text::{parse_decimal, parse_u64};
use reqwest::header::HeaderValue;
use vstd::prelude::*;

verus! {

/// The count of bytes on disk after `step` more bytes of a file of `total` bytes were
/// asked for with `downloaded` bytes there: their sum, but never more than the file has.
pub open spec fn advanced(downloaded: int, step: int, total: int) -> int {
    if downloaded + step < total {
        downloaded + step
    } else {
        total
    }
}

/// The size of the ranges in which a file of `total` bytes is asked for: a hundredth of
/// the file, and at least one byte.
pub open spec fn chunk_for(total: int) -> int {
    if total / 100 > 0 {
        total / 100
    } else {
        1
    }
}

/// The count of a transfer by ranges that began with `have` bytes, after the answers to
/// the requests for `ranges` came in; `kept[i]` tells whether the body of the answer to
/// the request for `ranges[i]` was kept. A body that is kept counts with the length of
/// its range, one that is dropped does not count.
pub open spec fn ranged(have: int, ranges: Seq<Span>, kept: Seq<bool>, total: int) -> int
    decreases ranges.len(),
{
    if ranges.len() == 0 {
        have
    } else {
        let before = ranged(have, ranges.drop_last(), kept.drop_last(), total);
        if kept.last() {
            advanced(before, ranges.last().len(), total)
        } else {
            before
        }
    }
}

/// The share of `total` that `downloaded` is, in whole percent, rounded down. A file
/// without bytes is complete.
pub open spec fn percent_of(downloaded: int, total: int) -> int {
    if total <= 0 {
        100
    } else {
        downloaded * 100 / total
    }
}

/// True of the two answers that carry a body to keep: 200 and 206.
pub open spec fn accepted(status: u16) -> bool {
    status == 200 || status == 206
}

/// The count of a streamed transfer after the chunks of the given sizes were written.
pub open spec fn streamed(chunks: Seq<int>, total: int) -> int
    decreases chunks.len(),
{
    if chunks.len() == 0 {
        0
    } else {
        advanced(streamed(chunks.drop_last(), total), chunks.last(), total)
    }
}

/// The sum of the sizes of `chunks`.
pub open spec fn sum(chunks: Seq<int>) -> int
    decreases chunks.len(),
{
    if chunks.len() == 0 {
        0
    } else {
        sum(chunks.drop_last()) + chunks.last()
    }
}

/// The percentage lies between 0 and 100, is 0 with nothing on disk and 100 with
/// everything there.
pub proof fn lemma_percent_bounds(downloaded: int, total: int)
    requires
        0 <= downloaded <= total,
    ensures
        0 <= percent_of(downloaded, total) <= 100,
        percent_of(total, total) == 100,
        total > 0 ==> percent_of(0, total) == 0,
{
    if total > 0 {
        assert(0 <= downloaded * 100 / total <= 100) by (nonlinear_arith)
            requires
                0 <= downloaded <= total,
                total > 0,
        ;
        assert(total * 100 / total == 100) by (nonlinear_arith)
            requires
                total > 0,
        ;
        assert(0int * 100 / total == 0) by (nonlinear_arith)
            requires
                total > 0,
        ;
    }
}

/// More bytes on disk never give a smaller percentage.
pub proof fn lemma_percent_monotone(before: int, after: int, total: int)
    requires
        0 <= before <= after,
    ensures
        percent_of(before, total) <= percent_of(after, total),
{
    if total > 0 {
        assert(before * 100 / total <= after * 100 / total) by (nonlinear_arith)
            requires
                0 <= before <= after,
                total > 0,
        ;
    }
}

/// The count of a streamed transfer is the sum of what was written, capped at the size
/// of the file.
pub proof fn lemma_streamed_is_capped_sum(chunks: Seq<int>, total: int)
    requires
        total >= 0,
        forall|i: int| 0 <= i < chunks.len() ==> #[trigger] chunks[i] >= 0,
    ensures
        sum(chunks) >= 0,
        streamed(chunks, total) == if sum(chunks) < total {
            sum(chunks)
        } else {
            total
        },
    decreases chunks.len(),
{
    if chunks.len() > 0 {
        lemma_streamed_is_capped_sum(chunks.drop_last(), total);
    }
}

/// A streamed transfer whose chunks add up to the size of the file goes from 0 percent,
/// before the first chunk, to 100 percent, after the last; the percentages in between
/// never fall and stay between 0 and 100.
pub proof fn lemma_stream_progress(chunks: Seq<int>, total: int)
    requires
        total > 0,
        forall|i: int| 0 <= i < chunks.len() ==> #[trigger] chunks[i] >= 0,
        sum(chunks) == total,
    ensures
        percent_of(streamed(chunks.take(0), total), total) == 0,
        percent_of(streamed(chunks, total), total) == 100,
        forall|i: int|
            0 <= i <= chunks.len() ==> 0 <= percent_of(
                #[trigger] streamed(chunks.take(i), total),
                total,
            ) <= 100,
        forall|i: int, j: int|
            0 <= i <= j <= chunks.len() ==> percent_of(
                #[trigger] streamed(chunks.take(i), total),
                total,
            ) <= percent_of(#[trigger] streamed(chunks.take(j), total), total),
{
    lemma_streamed_is_capped_sum(chunks, total);
    lemma_percent_bounds(total, total);
    assert(chunks.take(0) =~= Seq::<int>::empty());
    assert forall|i: int| 0 <= i <= chunks.len() implies 0 <= percent_of(
        #[trigger] streamed(chunks.take(i), total),
        total,
    ) <= 100 by {
        lemma_streamed_is_capped_sum(chunks.take(i), total);
        lemma_percent_bounds(streamed(chunks.take(i), total), total);
    }
    assert forall|i: int, j: int| 0 <= i <= j <= chunks.len() implies percent_of(
        #[trigger] streamed(chunks.take(i), total),
        total,
    ) <= percent_of(#[trigger] streamed(chunks.take(j), total), total) by {
        lemma_streamed_grows(chunks.take(j), i, total);
        assert(chunks.take(j).take(i) == chunks.take(i));
        lemma_streamed_is_capped_sum(chunks.take(i), total);
        lemma_percent_monotone(
            streamed(chunks.take(i), total),
            streamed(chunks.take(j), total),
            total,
        );
    }
}

/// Writing more chunks never lowers the count of a streamed transfer.
pub proof fn lemma_streamed_grows(chunks: Seq<int>, k: int, total: int)
    requires
        total >= 0,
        0 <= k <= chunks.len(),
        forall|i: int| 0 <= i < chunks.len() ==> #[trigger] chunks[i] >= 0,
    ensures
        streamed(chunks.take(k), total) <= streamed(chunks, total),
    decreases chunks.len() - k,
{
    if k < chunks.len() {
        lemma_streamed_grows(chunks, k + 1, total);
        assert(chunks.take(k + 1).drop_last() == chunks.take(k));
        lemma_streamed_is_capped_sum(chunks.take(k), total);
    } else {
        assert(chunks.take(k) == chunks);
    }
}

/// After the first `k` ranges of a resumed transfer, each of them kept, the count
/// stands where the last of them ends.
proof fn lemma_ranged_prefix(have: int, total: int, chunk: int, kept: Seq<bool>, k: int)
    requires
        0 <= have < total,
        chunk > 0,
        0 <= k <= spans(have, total - 1, chunk).len(),
        kept.len() == k,
        forall|i: int| 0 <= i < k ==> #[trigger] kept[i],
    ensures
        ranged(have, spans(have, total - 1, chunk).take(k), kept, total) == if k == 0 {
            have
        } else {
            spans(have, total - 1, chunk)[k - 1].last + 1
        },
    decreases k,
{
    let all = spans(have, total - 1, chunk);
    lemma_resume_requests(total, have, chunk);
    if k > 0 {
        lemma_ranged_prefix(have, total, chunk, kept.drop_last(), k - 1);
        assert(all.take(k).drop_last() == all.take(k - 1));
        assert(all.take(k).last() == all[k - 1]);
        assert(kept[k - 1]);
        if k > 1 {
            assert(all[k - 2 + 1].first == all[k - 2].last + 1);
        }
        assert(all[k - 1].last <= total - 1);
    } else {
        assert(all.take(0) =~= Seq::<Span>::empty());
    }
}

/// A transfer by ranges that resumes with `have` bytes of `total` on disk, and in which
/// the body of every answer is kept, ends with the count at the size of the file.
pub proof fn lemma_ranged_counter_completes(have: int, total: int, chunk: int, kept: Seq<bool>)
    requires
        0 <= have < total,
        chunk > 0,
        kept.len() == spans(have, total - 1, chunk).len(),
        forall|i: int| 0 <= i < kept.len() ==> #[trigger] kept[i],
    ensures
        ranged(have, spans(have, total - 1, chunk), kept, total) == total,
{
    let all = spans(have, total - 1, chunk);
    lemma_resume_requests(total, have, chunk);
    lemma_ranged_prefix(have, total, chunk, kept, all.len() as int);
    assert(all.take(all.len() as int) == all);
}

/// The body of an answer that is dropped leaves the count where it was, and one that is
/// kept never lowers it.
pub proof fn lemma_ranged_never_falls(have: int, ranges: Seq<Span>, kept: Seq<bool>, total: int)
    requires
        have <= total,
        ranges.len() > 0,
        ranges.last().len() >= 0,
    ensures
        ranged(have, ranges.drop_last(), kept.drop_last(), total) <= ranged(
            have,
            ranges,
            kept,
            total,
        ),
        !kept.last() ==> ranged(have, ranges, kept, total) == ranged(
            have,
            ranges.drop_last(),
            kept.drop_last(),
            total,
        ),
{
    lemma_ranged_within(have, ranges.drop_last(), kept.drop_last(), total);
}

/// The count of a transfer by ranges never exceeds the size of the file.
pub proof fn lemma_ranged_within(have: int, ranges: Seq<Span>, kept: Seq<bool>, total: int)
    requires
        have <= total,
    ensures
        ranged(have, ranges, kept, total) <= total,
    decreases ranges.len(),
{
    if ranges.len() > 0 {
        lemma_ranged_within(have, ranges.drop_last(), kept.drop_last(), total);
    }
}

/// How far a transfer has come: the bytes on disk and the size of the file.
#[derive(Debug, Clone, Copy, PartialEq, Eq)]
pub struct Progress {
    downloaded: u64,
    total: u64,
}

impl Progress {
    #[verifier::type_invariant]
    spec fn well_formed(&self) -> bool {
        self.downloaded <= self.total
    }

    /// The bytes on disk.
    pub closed spec fn done(&self) -> int {
        self.downloaded as int
    }

    /// The size of the file.
    pub closed spec fn size(&self) -> int {
        self.total as int
    }

    /// `downloaded` bytes of `total`; a count beyond the size of the file is taken as
    /// the whole file.
    pub fn new(downloaded: u64, total: u64) -> (r: Self)
        ensures
            r.done() == advanced(downloaded as int, 0, total as int),
            r.size() == total,
    {
        if downloaded < total {
            Progress { downloaded, total }
        } else {
            Progress { downloaded: total, total }
        }
    }

    /// The bytes on disk.
    pub fn downloaded(&self) -> (r: u64)
        ensures
            r == self.done(),
            self.done() <= self.size(),
    {
        proof {
            use_type_invariant(self);
        }
        self.downloaded
    }

    /// The size of the file.
    pub fn total(&self) -> (r: u64)
        ensures
            r == self.size(),
    {
        self.total
    }

    /// Counts `step` more bytes, up to the size of the file.
    pub fn advance(&mut self, step: u64)
        ensures
            final(self).done() == advanced(old(self).done(), step as int, old(self).size()),
            old(self).done() <= final(self).done() <= final(self).size(),
            final(self).size() == old(self).size(),
    {
        proof {
            use_type_invariant(&*self);
        }
        if self.total - self.downloaded > step {
            self.downloaded = self.downloaded + step;
        } else {
            self.downloaded = self.total;
        }
    }

    /// The share of the file that is on disk, in whole percent, rounded down.
    pub fn percent(&self) -> (r: u64)
        ensures
            r == percent_of(self.done(), self.size()),
            r <= 100,
    {
        proof {
            use_type_invariant(self);
            lemma_percent_bounds(self.downloaded as int, self.total as int);
        }
        if self.total == 0 {
            100
        } else {
            let scaled: u128 = (self.downloaded as u128) * 100;
            (scaled / (self.total as u128)) as u64
        }
    }
}

/// True when an answer with this status carries bytes to append to the file.
pub fn status_accepted(status: u16) -> (r: bool)
    ensures
        r == accepted(status),
{
    status == 200 || status == 206
}

/// What to do with the answer to a range request, and the progress to report after it.
#[derive(Debug, Clone, Copy)]
pub struct RangeOutcome {
    /// Whether the body of the answer is appended to the file.
    pub append: bool,
    /// How far the transfer has come with this range.
    pub progress: Progress,
}

/// A transfer by ranges: it takes up the file where it ends and asks for the rest in
/// chunks of a hundredth of the file, and of at least one byte.
#[derive(Debug)]
pub struct RangedTransfer {
    ranges: PartialRangeIter,
    chunk: u64,
    asked: u64,
    progress: Progress,
}

impl RangedTransfer {
    /// The ranges that are still to be asked for.
    pub closed spec fn pending(&self) -> Seq<Span> {
        self.ranges.pending()
    }

    /// The size of the remote file.
    pub closed spec fn total(&self) -> int {
        self.progress.size()
    }

    /// The size of each range but the last.
    pub closed spec fn chunk(&self) -> int {
        self.chunk as int
    }

    /// The length of the range that was asked for last and whose answer has not been
    /// taken note of; 0 when there is none.
    pub closed spec fn asked(&self) -> int {
        self.asked as int
    }

    /// The bytes of the file that are on disk: those that were there at the start and
    /// those of the ranges whose bodies were kept.
    pub closed spec fn downloaded(&self) -> int {
        self.progress.done()
    }

    /// The transfer of a file of `total` bytes of which `file_size` are on disk.
    pub fn plan(total: u64, file_size: u64) -> (r: Self)
        ensures
            r.total() == total,
            r.chunk() == chunk_for(total as int),
            r.asked() == 0,
            r.downloaded() == advanced(file_size as int, 0, total as int),
            r.pending() == spans(file_size as int, total - 1, chunk_for(total as int)),
    {
        let chunk: u64 = if total / 100 > 0 {
            total / 100
        } else {
            1
        };
        let made = if total == 0 {
            PartialRangeIter::new(1, 0, chunk)
        } else {
            PartialRangeIter::new(file_size, total - 1, chunk)
        };
        match made {
            Ok(ranges) => RangedTransfer {
                ranges,
                chunk,
                asked: 0,
                progress: Progress::new(file_size, total),
            },
            Err(_) => vstd::pervasive::unreached(),
        }
    }

    /// The `Range` header of the next request, or `None` when the last byte has been
    /// asked for: the file is then complete and ready to be unpacked.
    pub fn next_request(&mut self) -> (r: Option<HeaderValue>)
        ensures
            old(self).pending().len() == 0 ==> r is None && final(self).asked() == 0
                && final(self).pending() == old(self).pending(),
            old(self).pending().len() > 0 ==> r == Some(
                header_value(range_text(old(self).pending()[0])),
            ) && final(self).asked() == old(self).pending()[0].len() && final(self).pending()
                == old(self).pending().drop_first(),
            final(self).total() == old(self).total(),
            final(self).chunk() == old(self).chunk(),
            final(self).downloaded() == old(self).downloaded(),
    {
        match self.ranges.next_range() {
            Some(range) => {
                self.asked = range.last - range.first + 1;
                Some(range.header())
            },
            None => {
                self.asked = 0;
                None
            },
        }
    }

    /// Takes note of the answer to the last request. The body is kept when the status is
    /// 200 or 206: it is appended to the file and counts with the length of its range.
    /// With any other status the body is dropped and the count stays where it was; the
    /// transfer goes on with the next range either way.
    pub fn record(&mut self, status: u16) -> (r: RangeOutcome)
        ensures
            r.append == accepted(status),
            final(self).downloaded() == if accepted(status) {
                advanced(old(self).downloaded(), old(self).asked(), old(self).total())
            } else {
                old(self).downloaded()
            },
            old(self).downloaded() <= final(self).downloaded() <= final(self).total(),
            r.progress.done() == final(self).downloaded(),
            r.progress.size() == final(self).total(),
            final(self).asked() == 0,
            final(self).pending() == old(self).pending(),
            final(self).total() == old(self).total(),
            final(self).chunk() == old(self).chunk(),
    {
        let append = status_accepted(status);
        let step: u64 = if append {
            self.asked
        } else {
            0
        };
        self.progress.advance(step);
        self.asked = 0;
        RangeOutcome { append, progress: self.progress }
    }
}

/// A transfer in one streamed request, written chunk by chunk as it arrives. When the
/// answer does not say how long its body is, the bytes are counted all the same, but
/// there is no progress to report.
#[derive(Debug)]
pub struct StreamedTransfer {
    total: Option<u64>,
    downloaded: u64,
}

impl StreamedTransfer {
    #[verifier::type_invariant]
    spec fn well_formed(&self) -> bool {
        self.total is Some ==> self.downloaded <= self.total->Some_0
    }

    /// The length of the body, where the answer gave it.
    pub closed spec fn total(&self) -> Option<int> {
        match self.total {
            Some(total) => Some(total as int),
            None => None,
        }
    }

    /// The bytes written so far, never more than the length of the body where that is
    /// known.
    pub closed spec fn downloaded(&self) -> int {
        self.downloaded as int
    }

    /// The transfer of a body of which nothing has arrived; `content_length` is its
    /// length, where the answer gave it.
    pub fn open(content_length: Option<u64>) -> (r: Self)
        ensures
            r.total() == match content_length {
                Some(total) => Some(total as int),
                None => None,
            },
            r.downloaded() == 0,
    {
        StreamedTransfer { total: content_length, downloaded: 0 }
    }

    /// Takes note of a chunk of `len` bytes that was written to the file, and says how
    /// far the transfer has come, where the length of the body is known.
    pub fn record(&mut self, len: u64) -> (r: Option<Progress>)
        ensures
            final(self).total() == old(self).total(),
            old(self).downloaded() <= final(self).downloaded(),
            match old(self).total() {
                Some(total) => {
                    &&& final(self).downloaded() == advanced(
                        old(self).downloaded(),
                        len as int,
                        total,
                    )
                    &&& r is Some
                    &&& r->Some_0.done() == final(self).downloaded()
                    &&& r->Some_0.size() == total
                },
                None => {
                    &&& final(self).downloaded() == advanced(
                        old(self).downloaded(),
                        len as int,
                        u64::MAX as int,
                    )
                    &&& r is None
                },
            },
    {
        proof {
            use_type_invariant(&*self);
        }
        match self.total {
            Some(total) => {
                if total - self.downloaded > len {
                    self.downloaded = self.downloaded + len;
                } else {
                    self.downloaded = total;
                }
                Some(Progress::new(self.downloaded, total))
            },
            None => {
                if u64::MAX - self.downloaded > len {
                    self.downloaded = self.downloaded + len;
                } else {
                    self.downloaded = u64::MAX;
                }
                None
            },
        }
    }
}

/// How a file is fetched.
#[derive(Debug)]
pub enum Plan {
    /// By ranges, from where the file on disk ends.
    Ranged(RangedTransfer),
    /// In one streamed request.
    Streamed,
    /// Not at all: what the server said cannot be used.
    Refused(ProvisionError),
}

/// The view of optional header bytes.
pub open spec fn header_bytes(content_length: Option<&[u8]>) -> Option<Seq<u8>> {
    match content_length {
        Some(text) => Some(text@),
        None => None,
    }
}

/// What `begin` decides for the header bytes `content_length`, with or without support
/// for ranges: `None` for one streamed request, else the size of the file that is
/// fetched by ranges, or why it cannot be.
pub open spec fn planned(content_length: Option<Seq<u8>>, accept_ranges: bool) -> Option<
    Result<u64, ProvisionError>,
> {
    if !accept_ranges {
        None
    } else {
        match content_length {
            None => None,
            Some(text) => match parse_decimal(text) {
                None => Some(Err(ProvisionError::InvalidContentLength)),
                Some(total) => Some(Ok(total)),
            },
        }
    }
}

/// A server that does not offer ranges is asked for the file once, in one streamed
/// request, whatever it said of the length.
pub proof fn lemma_without_ranges_one_request(content_length: Option<Seq<u8>>)
    ensures
        planned(content_length, false) is None,
{
}

/// Decides how to fetch a file from what the server said of it: the bytes of the
/// `Content-Length` header, if there was one, and whether `Accept-Ranges` was there;
/// `file_size` bytes are on disk.
///
/// Without support for ranges, or without a length, the file is fetched in one streamed
/// request. With both, it is fetched by ranges from `file_size` on; a length that is no
/// number then ends the run.
pub fn begin(content_length: Option<&[u8]>, accept_ranges: bool, file_size: u64) -> (r: Plan)
    ensures
        match planned(header_bytes(content_length), accept_ranges) {
            None => r is Streamed,
            Some(Err(e)) => r == Plan::Refused(e),
            Some(Ok(total)) => {
                &&& r is Ranged
                &&& r->Ranged_0.total() == total
                &&& r->Ranged_0.chunk() == chunk_for(total as int)
                &&& r->Ranged_0.asked() == 0
                &&& r->Ranged_0.downloaded() == advanced(file_size as int, 0, total as int)
                &&& r->Ranged_0.pending() == spans(
                    file_size as int,
                    total - 1,
                    chunk_for(total as int),
                )
            },
        },
{
    if !accept_ranges {
        return Plan::Streamed;
    }
    match content_length {
        None => Plan::Streamed,
        Some(text) => match parse_u64(text) {
            None => Plan::Refused(ProvisionError::InvalidContentLength),
            Some(total) => Plan::Ranged(RangedTransfer::plan(total, file_size)),
        },
    }
}

} // verus!
