//! Byte ranges of a resumable transfer and the header that asks for each.

use crate::text::{decimal, lemma_decimal_digits, push_decimal};
use reqwest::header::{HeaderValue, InvalidHeaderValue};
use vstd::prelude::*;
use vstd::string::StringExecFns;

verus! {

/// An inclusive range of byte offsets, as mathematical integers.
pub struct Span {
    pub first: int,
    pub last: int,
}

impl Span {
    /// The number of bytes in the range.
    pub open spec fn len(self) -> int {
        self.last - self.first + 1
    }
}

/// The number of ranges of `size` bytes that it takes to hold `count` bytes: the
/// quotient, rounded up.
pub open spec fn chunks_needed(count: int, size: int) -> int {
    (count + size - 1) / size
}

/// The ranges that cover the offsets `start..=end` in order, each of `size` bytes but
/// for the last, which holds what is left. There is none when the offsets are none.
pub open spec fn spans(start: int, end: int, size: int) -> Seq<Span> {
    if size <= 0 || start > end {
        Seq::empty()
    } else {
        Seq::new(
            chunks_needed(end - start + 1, size) as nat,
            |i: int|
                Span {
                    first: start + i * size,
                    last: if start + (i + 1) * size - 1 < end {
                        start + (i + 1) * size - 1
                    } else {
                        end
                    },
                },
        )
    }
}

/// The sum of the lengths of `ranges`.
pub open spec fn total_len(ranges: Seq<Span>) -> int
    decreases ranges.len(),
{
    if ranges.len() == 0 {
        0
    } else {
        ranges[0].len() + total_len(ranges.drop_first())
    }
}

/// The ranges over `start..=end` are the first of them, followed by the ranges over
/// what it leaves.
pub proof fn lemma_spans_unfold(start: int, end: int, size: int)
    requires
        size > 0,
        start <= end,
    ensures
        spans(start, end, size).len() >= 1,
        spans(start, end, size)[0].first == start,
        spans(start, end, size)[0].last == if start + size - 1 < end {
            start + size - 1
        } else {
            end
        },
        spans(start, end, size).drop_first() == spans(
            spans(start, end, size)[0].last + 1,
            end,
            size,
        ),
{
    let count = end - start + 1;
    let all = spans(start, end, size);
    assert(chunks_needed(count, size) >= 1) by (nonlinear_arith)
        requires
            count >= 1,
            size > 0,
    ;
    assert(start + 0 * size == start);
    assert(start + (0 + 1) * size - 1 == start + size - 1) by (nonlinear_arith);
    let last = all[0].last;
    let rest = spans(last + 1, end, size);
    if count <= size {
        assert(chunks_needed(count, size) == 1) by (nonlinear_arith)
            requires
                0 < count <= size,
        ;
        assert(all.drop_first() =~= rest);
    } else {
        assert(chunks_needed(count, size) == chunks_needed(count - size, size) + 1)
            by (nonlinear_arith)
            requires
                size > 0,
        ;
        assert forall|i: int| 0 <= i < rest.len() implies all.drop_first()[i] == rest[i] by {
            assert(start + size + i * size == start + (i + 1) * size) by (nonlinear_arith);
            assert(start + size + (i + 1) * size == start + (i + 1 + 1) * size)
                by (nonlinear_arith);
        }
        assert(all.drop_first() =~= rest);
    }
}

/// Together the ranges over `start..=end` hold each of the offsets once.
pub proof fn lemma_spans_total(start: int, end: int, size: int)
    requires
        size > 0,
        start <= end + 1,
    ensures
        total_len(spans(start, end, size)) == end - start + 1,
    decreases end - start + 1,
{
    if start <= end {
        lemma_spans_unfold(start, end, size);
        lemma_spans_total(spans(start, end, size)[0].last + 1, end, size);
    }
}

/// A transfer of `total` bytes that resumes with `have` of them on disk, in chunks of
/// `chunk` bytes, asks for the missing bytes in `(total - have) / chunk` requests,
/// rounded up. The first begins where the file ends, each of the others where the one
/// before it ended, the last ends with the last byte, and the bytes asked for are
/// exactly those that were missing.
pub proof fn lemma_resume_requests(total: int, have: int, chunk: int)
    requires
        0 <= have < total,
        chunk > 0,
    ensures
        spans(have, total - 1, chunk).len() == chunks_needed(total - have, chunk),
        spans(have, total - 1, chunk).len() >= 1,
        have + total_len(spans(have, total - 1, chunk)) == total,
        spans(have, total - 1, chunk)[0].first == have,
        spans(have, total - 1, chunk).last().last == total - 1,
        forall|i: int|
            0 <= i < spans(have, total - 1, chunk).len() - 1 ==> {
                &&& (#[trigger] spans(have, total - 1, chunk)[i]).len() == chunk
                &&& spans(have, total - 1, chunk)[i + 1].first == spans(
                    have,
                    total - 1,
                    chunk,
                )[i].last + 1
            },
{
    let all = spans(have, total - 1, chunk);
    let n = all.len() as int;
    lemma_spans_unfold(have, total - 1, chunk);
    lemma_spans_total(have, total - 1, chunk);
    // The last range cannot stop before the last byte: the ranges before it would then
    // hold fewer bytes than are missing.
    assert(chunks_needed(total - have, chunk) * chunk >= total - have) by (nonlinear_arith)
        requires
            chunk > 0,
            total - have > 0,
    ;
    assert(have + ((n - 1) + 1) * chunk - 1 >= total - 1) by (nonlinear_arith)
        requires
            n * chunk >= total - have,
    ;
    assert(all[n - 1].last == total - 1);
    assert forall|i: int| 0 <= i < n - 1 implies {
        &&& (#[trigger] all[i]).len() == chunk
        &&& all[i + 1].first == all[i].last + 1
    } by {
        // A range that is not the last one ends before the last byte.
        assert((chunks_needed(total - have, chunk) - 1) * chunk < total - have)
            by (nonlinear_arith)
            requires
                chunk > 0,
                total - have > 0,
        ;
        assert(have + (i + 1) * chunk - 1 < total - 1) by (nonlinear_arith)
            requires
                0 <= i < n - 1,
                (n - 1) * chunk < total - have,
                chunk > 0,
        ;
        assert(all[i + 1].first == have + (i + 1) * chunk);
        assert(have + (i + 1) * chunk - 1 - (have + i * chunk) + 1 == chunk) by (nonlinear_arith);
    }
}

/// The value of the `Range` header that asks for `span`.
pub open spec fn range_text(span: Span) -> Seq<char> {
    seq!['b', 'y', 't', 'e', 's', '='] + decimal(span.first as nat) + seq!['-'] + decimal(
        span.last as nat,
    )
}

/// True of the characters that a header value may hold: everything from the space
/// upwards but the delete character, and the tab.
pub open spec fn header_char(c: char) -> bool {
    (' ' <= c && c != '\x7f') || c == '\t'
}

/// Why a transfer could not be planned or carried on.
#[derive(Debug, Clone, Copy, PartialEq, Eq)]
pub enum ProvisionError {
    /// A range iterator was asked for with a chunk size of zero.
    InvalidBufferSize,
    /// The `Content-Length` header does not hold a number that fits 64 bits.
    InvalidContentLength,
}

/// What an error says of itself.
pub open spec fn error_text(error: ProvisionError) -> Seq<char> {
    match error {
        ProvisionError::InvalidBufferSize =>
            "invalid buffer_size, give a value greater than zero."@,
        ProvisionError::InvalidContentLength => "invalid content length"@,
    }
}

impl ProvisionError {
    /// What the error says of itself.
    pub fn to_string(&self) -> (r: String)
        ensures
            r@ == error_text(*self),
    {
        match self {
            ProvisionError::InvalidBufferSize => String::from_str(
                "invalid buffer_size, give a value greater than zero.",
            ),
            ProvisionError::InvalidContentLength => String::from_str("invalid content length"),
        }
    }
}

/// An inclusive range of byte offsets of the remote file.
#[derive(Debug, Clone, Copy, PartialEq, Eq)]
pub struct ByteRange {
    pub first: u64,
    pub last: u64,
}

impl View for ByteRange {
    type V = Span;

    open spec fn view(&self) -> Span {
        Span { first: self.first as int, last: self.last as int }
    }
}

/// The value of a header, as `reqwest` takes it with a request.
#[verifier::external_type_specification]
#[verifier::external_body]
pub struct ExHeaderValue(HeaderValue);

/// The error of `HeaderValue::from_str`.
#[verifier::external_type_specification]
#[verifier::external_body]
pub struct ExInvalidHeaderValue(InvalidHeaderValue);

/// The header value that `HeaderValue::from_str` makes of `text`.
pub uninterp spec fn header_value(text: Seq<char>) -> HeaderValue;

/// `HeaderValue::from_str`: it accepts a text exactly when each of its bytes is 32 or
/// more and not 127, or is the tab, which for a string is a condition on its
/// characters; the value it then returns depends on the text alone.
#[verifier::external_body]
fn header_from_str(text: &str) -> (r: Result<HeaderValue, InvalidHeaderValue>)
    ensures
        r is Ok <==> forall|i: int| 0 <= i < text@.len() ==> header_char(#[trigger] text@[i]),
        r is Ok ==> r->Ok_0 == header_value(text@),
{
    HeaderValue::from_str(text)
}

impl ByteRange {
    /// The text of the `Range` header that asks for this range.
    pub fn text(&self) -> (r: String)
        ensures
            r@ == range_text(self@),
    {
        proof {
            reveal_strlit("bytes=");
            reveal_strlit("-");
        }
        let mut out = String::from_str("bytes=");
        assert(out@ == seq!['b', 'y', 't', 'e', 's', '=']);
        push_decimal(&mut out, self.first);
        out.append("-");
        push_decimal(&mut out, self.last);
        out
    }

    /// The `Range` header that asks for this range.
    pub fn header(&self) -> (r: HeaderValue)
        ensures
            r == header_value(range_text(self@)),
    {
        let text = self.text();
        proof {
            lemma_decimal_digits(self.first as nat);
            lemma_decimal_digits(self.last as nat);
        }
        match header_from_str(text.as_str()) {
            Ok(value) => value,
            Err(_) => vstd::pervasive::unreached(),
        }
    }
}

/// Walks the offsets `start..=end` of a remote file in chunks of `buffer_size` bytes.
#[derive(Debug)]
pub struct PartialRangeIter {
    start: u64,
    end: u64,
    buffer_size: u64,
    exhausted: bool,
}

impl PartialRangeIter {
    #[verifier::type_invariant]
    spec fn well_formed(&self) -> bool {
        self.buffer_size > 0
    }

    /// The ranges that are still to come, in the order in which they come.
    pub closed spec fn pending(&self) -> Seq<Span> {
        if self.exhausted {
            Seq::empty()
        } else {
            spans(self.start as int, self.end as int, self.buffer_size as int)
        }
    }

    /// The size of every range but the last.
    pub closed spec fn chunk_size(&self) -> int {
        self.buffer_size as int
    }

    /// An iterator over `start..=end` in chunks of `buffer_size` bytes; a chunk size of
    /// zero is refused.
    pub fn new(start: u64, end: u64, buffer_size: u64) -> (r: Result<Self, ProvisionError>)
        ensures
            buffer_size == 0 ==> r == Err::<Self, ProvisionError>(ProvisionError::InvalidBufferSize),
            buffer_size > 0 ==> r is Ok && r->Ok_0.pending() == spans(
                start as int,
                end as int,
                buffer_size as int,
            ) && r->Ok_0.chunk_size() == buffer_size,
    {
        if buffer_size == 0 {
            return Err(ProvisionError::InvalidBufferSize);
        }
        Ok(PartialRangeIter { start, end, buffer_size, exhausted: false })
    }

    /// The next range, or `None` once the last offset has been handed out.
    pub fn next_range(&mut self) -> (r: Option<ByteRange>)
        ensures
            old(self).pending().len() == 0 ==> r is None && final(self).pending() == old(
                self,
            ).pending(),
            old(self).pending().len() > 0 ==> r is Some && r->Some_0@ == old(self).pending()[0]
                && final(self).pending() == old(self).pending().drop_first(),
            r is Some ==> 1 <= r->Some_0@.len() <= old(self).chunk_size(),
            r is Some ==> r->Some_0@.len() <= u64::MAX,
            final(self).chunk_size() == old(self).chunk_size(),
    {
        proof {
            use_type_invariant(&*self);
        }
        if self.exhausted || self.start > self.end {
            return None;
        }
        let first = self.start;
        let last = if self.end - first >= self.buffer_size - 1 {
            first + (self.buffer_size - 1)
        } else {
            self.end
        };
        proof {
            lemma_spans_unfold(first as int, self.end as int, self.buffer_size as int);
        }
        if last == u64::MAX {
            self.exhausted = true;
        } else {
            self.start = last + 1;
        }
        Some(ByteRange { first, last })
    }

    /// The `Range` header of the next request, or `None` once the last offset has been
    /// asked for.
    pub fn next(&mut self) -> (r: Option<HeaderValue>)
        ensures
            old(self).pending().len() == 0 ==> r is None && final(self).pending() == old(
                self,
            ).pending(),
            old(self).pending().len() > 0 ==> r == Some(
                header_value(range_text(old(self).pending()[0])),
            ) && final(self).pending() == old(self).pending().drop_first(),
            final(self).chunk_size() == old(self).chunk_size(),
    {
        match self.next_range() {
            Some(range) => Some(range.header()),
            None => None,
        }
    }
}

} // verus!
