use vstd::prelude::*;

verus! {

/// What a `ReadProgress` holds, as plain values.
#[derive(Clone, Copy, Debug, PartialEq, Eq, Structural)]
pub struct ProgressView {
    /// The length that the stream was announced with.
    pub total_len: u64,
    /// The bytes delivered so far by successful reads.
    pub position: u64,
    /// Whether the display has been closed.
    pub finished: bool,
}

/// The state after a read that delivered `delivered` bytes, or failed (`None`).
///
/// A failed read leaves the count as it was. The count stops at `u64::MAX`.
pub open spec fn after_read(p: ProgressView, delivered: Option<u64>) -> ProgressView {
    match delivered {
        Some(n) => ProgressView {
            total_len: p.total_len,
            position: if p.position + n <= u64::MAX { (p.position + n) as u64 } else { u64::MAX },
            finished: p.finished,
        },
        None => p,
    }
}

/// The state after the display is closed, and whether this call is the one
/// that closes it.
pub open spec fn after_finish(p: ProgressView) -> (ProgressView, bool) {
    (ProgressView { total_len: p.total_len, position: p.position, finished: true }, !p.finished)
}

/// The bytes delivered by a sequence of read outcomes.
pub open spec fn delivered_total(reads: Seq<Option<u64>>) -> int
    decreases reads.len(),
{
    if reads.len() == 0 {
        0
    } else {
        delivered_total(reads.drop_last()) + match reads.last() {
            Some(n) => n as int,
            None => 0,
        }
    }
}

/// The state after a sequence of read outcomes, in order.
pub open spec fn after_reads(p: ProgressView, reads: Seq<Option<u64>>) -> ProgressView
    decreases reads.len(),
{
    if reads.len() == 0 {
        p
    } else {
        after_read(after_reads(p, reads.drop_last()), reads.last())
    }
}

/// Reads change neither the announced length nor whether the display is closed,
/// and below `u64::MAX` they add exactly the bytes they delivered.
proof fn lemma_after_reads(p: ProgressView, reads: Seq<Option<u64>>)
    ensures
        after_reads(p, reads).total_len == p.total_len,
        after_reads(p, reads).finished == p.finished,
        delivered_total(reads) >= 0,
        p.position + delivered_total(reads) <= u64::MAX ==> after_reads(p, reads).position
            == p.position + delivered_total(reads),
    decreases reads.len(),
{
    if reads.len() > 0 {
        lemma_after_reads(p, reads.drop_last());
    }
}

/// The count of a fresh tracker is the number of bytes that the reads
/// delivered, failed reads adding nothing; so once a stream of `total_len`
/// bytes has been read through, the count is `total_len`.
pub proof fn lemma_count_is_bytes_delivered(total_len: u64, reads: Seq<Option<u64>>)
    requires
        delivered_total(reads) <= u64::MAX,
    ensures
        after_reads(ProgressView { total_len, position: 0, finished: false }, reads).position
            == delivered_total(reads),
        delivered_total(reads) == total_len ==> after_reads(
            ProgressView { total_len, position: 0, finished: false },
            reads,
        ).position == total_len,
{
    lemma_after_reads(ProgressView { total_len, position: 0, finished: false }, reads);
}

/// However the reading ends, early or on a failed read, the first `finish`
/// after it closes the display and a later one does not.
pub proof fn lemma_finish_once(
    total_len: u64,
    before: Seq<Option<u64>>,
    after: Seq<Option<u64>>,
)
    ensures
        ({
            let p1 = after_reads(ProgressView { total_len, position: 0, finished: false }, before);
            let f1 = after_finish(p1);
            let f2 = after_finish(after_reads(f1.0, after));
            f1.1 && !f2.1 && f2.0.finished
        }),
{
    let p1 = after_reads(ProgressView { total_len, position: 0, finished: false }, before);
    lemma_after_reads(ProgressView { total_len, position: 0, finished: false }, before);
    lemma_after_reads(after_finish(p1).0, after);
}

/// The byte accounting of a stream whose reads are observed from outside.
///
/// It never sees the bytes themselves: after each read the caller reports what
/// the read delivered, and the running total is what a progress display
/// shows. The display is closed once, by the first call of `finish`, however
/// the reading ended.
pub struct ReadProgress {
    total_len: u64,
    position: u64,
    finished: bool,
}

impl View for ReadProgress {
    type V = ProgressView;

    closed spec fn view(&self) -> ProgressView {
        ProgressView { total_len: self.total_len, position: self.position, finished: self.finished }
    }
}

impl ReadProgress {
    /// A tracker for a stream of `total_len` bytes, with nothing read yet.
    pub fn new(total_len: u64) -> (r: ReadProgress)
        ensures
            r@ == (ProgressView { total_len, position: 0, finished: false }),
    {
        ReadProgress { total_len, position: 0, finished: false }
    }

    /// Counts the outcome of one read: `Some(n)` for a read that delivered
    /// `n` bytes, `None` for one that failed, which counts nothing.
    pub fn record(&mut self, delivered: Option<u64>)
        ensures
            final(self)@ == after_read(old(self)@, delivered),
    {
        if let Some(n) = delivered {
            if n <= u64::MAX - self.position {
                self.position = self.position + n;
            } else {
                self.position = u64::MAX;
            }
        }
    }

    /// Closes the display. Returns `true` on the first call only: the caller
    /// finalizes its display exactly when this returns `true`.
    pub fn finish(&mut self) -> (first: bool)
        ensures
            (final(self)@, first) == after_finish(old(self)@),
    {
        let first = !self.finished;
        self.finished = true;
        first
    }

    /// The bytes delivered so far.
    pub fn position(&self) -> (r: u64)
        ensures
            r == self@.position,
    {
        self.position
    }

    /// The length that the stream was announced with.
    pub fn total_len(&self) -> (r: u64)
        ensures
            r == self@.total_len,
    {
        self.total_len
    }

    /// Whether the display has been closed.
    pub fn is_finished(&self) -> (r: bool)
        ensures
            r == self@.finished,
    {
        self.finished
    }
}

} // verus!
