//! Decisions of the resumable, retried download: the size probe's answer, what
//! each attempt asks for, and what follows a failed attempt. The caller performs
//! the requests and the sleeps, and reports back.
use vstd::prelude::*;
use crate::numbers::{decimal, parse_u64, parse_u64_of, push_decimal};
use crate::text::{chars_of, find_char, index_from, push_str, string_of};

verus! {

/// The second `/`-separated field of `s` (what `split('/').nth(1)` gives).
pub open spec fn second_field(s: Seq<char>) -> Option<Seq<char>> {
    let i = index_from(s, '/', 0);
    if i < 0 {
        None
    } else {
        let j = index_from(s, '/', i + 1);
        Some(s.subrange(i + 1, if j < 0 { s.len() as int } else { j }))
    }
}

/// The total size that the probe's headers give: the part of `Content-Range`
/// after its `/`, else `Content-Length`, each only where it reads as a `u64`.
pub open spec fn total_size_of(content_range: Option<Seq<char>>, content_length: Option<Seq<char>>) -> Option<u64> {
    let from_range = match content_range {
        Some(r) => match second_field(r) {
            Some(f) => parse_u64_of(f),
            None => None,
        },
        None => None,
    };
    if from_range is Some {
        from_range
    } else {
        match content_length {
            Some(l) => parse_u64_of(l),
            None => None,
        }
    }
}

fn second_slash_field(s: &str) -> (r: Option<String>)
    ensures
        match r {
            Some(f) => second_field(s@) == Some(f@),
            None => second_field(s@) is None,
        },
{
    let v = chars_of(s);
    let i = match find_char(&v, '/', 0) {
        Some(i) => i,
        None => return None,
    };
    let end = match find_char(&v, '/', i + 1) {
        Some(j) => j,
        None => v.len(),
    };
    let mut f: Vec<char> = Vec::new();
    let mut k: usize = i + 1;
    while k < end
        invariant
            i + 1 <= k <= end <= v@.len(),
            f@ == v@.subrange(i + 1, k as int),
        decreases end - k,
    {
        f.push(v[k]);
        k = k + 1;
    }
    Some(string_of(&f))
}

/// Reads the total size from the probe's `Content-Range` and `Content-Length`
/// header values; `None` means the size is unknown.
pub fn total_size_from_headers(content_range: Option<&str>, content_length: Option<&str>) -> (r: Option<u64>)
    ensures
        r == total_size_of(
            match content_range { Some(s) => Some(s@), None => None },
            match content_length { Some(s) => Some(s@), None => None },
        ),
{
    match content_range {
        Some(cr) => match second_slash_field(cr) {
            Some(f) => {
                let t = parse_u64(f.as_str());
                if t.is_some() {
                    return t;
                }
            },
            None => {},
        },
        None => {},
    }
    match content_length {
        Some(cl) => parse_u64(cl),
        None => None,
    }
}

/// The `Range` header value asking for bytes `start..=end`.
pub open spec fn range_value_of(start: u64, end: u64) -> Seq<char> {
    "bytes="@ + decimal(start as nat) + "-"@ + decimal(end as nat)
}

pub fn range_header_value(start: u64, end: u64) -> (r: String)
    ensures
        r@ == range_value_of(start, end),
{
    let mut v: Vec<char> = Vec::new();
    push_str(&mut v, "bytes=");
    push_decimal(&mut v, start);
    push_str(&mut v, "-");
    push_decimal(&mut v, end);
    string_of(&v)
}

} // verus!

verus! {

#[derive(PartialEq, Eq, Structural, Clone, Copy, Debug)]
pub enum TransferError {
    /// Every allowed attempt failed; carries how many were made.
    TransferFailed { attempts: u32 },
}

/// An inclusive range of byte offsets.
#[derive(PartialEq, Eq, Structural, Clone, Copy, Debug)]
pub struct ByteRange {
    pub first: u64,
    pub last: u64,
}

/// What the caller does next.
#[derive(PartialEq, Eq, Structural, Clone, Copy, Debug)]
pub enum TransferAction {
    /// Send the request and write what arrives at offset `write_at` of the
    /// destination; `range` is the inclusive byte range to ask for, or `None`
    /// for the whole resource.
    Request { write_at: u64, range: Option<ByteRange> },
    /// Wait this many seconds, then report `Ready` again.
    Sleep { secs: u64 },
    /// The destination holds the whole resource.
    Finished,
    Fail(TransferError),
}

/// What the caller reports.
#[derive(PartialEq, Eq, Structural, Clone, Copy, Debug)]
pub enum TransferEvent {
    /// An attempt may start; the destination now holds `on_disk` bytes.
    Ready { on_disk: u64 },
    /// The response was streamed to its end.
    Completed,
    /// A transport error, a status other than success, or a read error mid-stream.
    Failed,
}

/// One download's state: the total size the probe gave, the retry policy and
/// the attempts made so far.
#[derive(PartialEq, Eq, Structural, Clone, Copy, Debug)]
pub struct TransferState {
    pub total: Option<u64>,
    pub max_retries: u32,
    pub delay_secs: u64,
    pub attempts: u32,
}

/// What an attempt asks for when the destination holds `on_disk` bytes.
pub open spec fn request_for(total: Option<u64>, on_disk: u64) -> TransferAction {
    match total {
        Some(t) => TransferAction::Request { write_at: on_disk, range: Some(ByteRange { first: on_disk, last: (t - 1) as u64 }) },
        None => TransferAction::Request { write_at: 0, range: None },
    }
}

pub open spec fn after_failure(s: TransferState) -> (TransferState, TransferAction) {
    if s.attempts >= s.max_retries {
        (s, TransferAction::Fail(TransferError::TransferFailed { attempts: s.attempts }))
    } else {
        let n = TransferState { attempts: (s.attempts + 1) as u32, ..s };
        if n.attempts < s.max_retries {
            (n, TransferAction::Sleep { secs: s.delay_secs })
        } else {
            (n, TransferAction::Fail(TransferError::TransferFailed { attempts: n.attempts }))
        }
    }
}

pub open spec fn transfer_step(s: TransferState, e: TransferEvent) -> (TransferState, TransferAction) {
    match e {
        TransferEvent::Ready { on_disk } => {
            if s.total matches Some(t) && t > 0 && on_disk >= t {
                (s, TransferAction::Finished)
            } else if s.attempts >= s.max_retries {
                (s, TransferAction::Fail(TransferError::TransferFailed { attempts: s.attempts }))
            } else if s.total == Some(0u64) {
                after_failure(s)
            } else {
                (s, request_for(s.total, on_disk))
            }
        },
        TransferEvent::Completed => (s, TransferAction::Finished),
        TransferEvent::Failed => after_failure(s),
    }
}

impl TransferState {
    pub fn new(total: Option<u64>, max_retries: u32, delay_secs: u64) -> (r: TransferState)
        ensures
            r == (TransferState { total, max_retries, delay_secs, attempts: 0 }),
    {
        TransferState { total, max_retries, delay_secs, attempts: 0 }
    }

    fn fail_attempt(&mut self) -> (r: TransferAction)
        ensures
            (*final(self), r) == after_failure(*old(self)),
    {
        if self.attempts >= self.max_retries {
            return TransferAction::Fail(TransferError::TransferFailed { attempts: self.attempts });
        }
        self.attempts = self.attempts + 1;
        if self.attempts < self.max_retries {
            TransferAction::Sleep { secs: self.delay_secs }
        } else {
            TransferAction::Fail(TransferError::TransferFailed { attempts: self.attempts })
        }
    }

    /// Takes in what the caller observed and says what it does next.
    pub fn step(&mut self, e: TransferEvent) -> (r: TransferAction)
        ensures
            (*final(self), r) == transfer_step(*old(self), e),
    {
        match e {
            TransferEvent::Ready { on_disk } => {
                match self.total {
                    Some(t) => {
                        if t > 0 && on_disk >= t {
                            return TransferAction::Finished;
                        }
                    },
                    None => {},
                }
                if self.attempts >= self.max_retries {
                    return TransferAction::Fail(TransferError::TransferFailed { attempts: self.attempts });
                }
                match self.total {
                    Some(t) => {
                        if t == 0 {
                            self.fail_attempt()
                        } else {
                            TransferAction::Request { write_at: on_disk, range: Some(ByteRange { first: on_disk, last: t - 1 }) }
                        }
                    },
                    None => TransferAction::Request { write_at: 0, range: None },
                }
            },
            TransferEvent::Completed => TransferAction::Finished,
            TransferEvent::Failed => self.fail_attempt(),
        }
    }
}

} // verus!

verus! {

/// The destination after an attempt that writes `bytes` at offset `at`: what
/// lay before `at`, then the bytes.
pub open spec fn written(file: Seq<u8>, at: int, bytes: Seq<u8>) -> Seq<u8> {
    file.subrange(0, at) + bytes
}

/// The bytes a request for `range` receives from `source`.
pub open spec fn received(source: Seq<u8>, range: ByteRange) -> Seq<u8> {
    source.subrange(range.first as int, range.last as int + 1)
}

/// Resuming: when the destination already holds the first `n` of the source's
/// `total` bytes, the next attempt asks for exactly the bytes `n..=total-1` and
/// writes them from offset `n`, so the bytes before `n` are not fetched again
/// and the destination ends up equal to the source, `total` bytes long.
pub proof fn lemma_resume(s: TransferState, n: u64, source: Seq<u8>)
    requires
        s.total matches Some(t) && n < t && source.len() == t,
        s.attempts < s.max_retries,
    ensures
        ({
            let t = s.total->Some_0;
            let range = ByteRange { first: n, last: (t - 1) as u64 };
            &&& transfer_step(s, TransferEvent::Ready { on_disk: n })
                == (s, TransferAction::Request { write_at: n, range: Some(range) })
            &&& range.first == n
            &&& written(source.subrange(0, n as int), n as int, received(source, range)) == source
        }),
{
    let t = s.total->Some_0;
    let range = ByteRange { first: n, last: (t - 1) as u64 };
    assert(written(source.subrange(0, n as int), n as int, received(source, range)) =~= source);
}

/// A destination that already holds at least the total size finishes at once,
/// with no request and no attempt used.
pub proof fn lemma_complete_without_request(s: TransferState, n: u64)
    requires
        s.total matches Some(t) && t > 0 && n >= t,
    ensures
        transfer_step(s, TransferEvent::Ready { on_disk: n }) == (s, TransferAction::Finished),
{
}

/// The actions when every attempt fails: each `Ready` is answered, and each
/// request made is reported as failed.
pub open spec fn failing_trace(s: TransferState, n: u64) -> Seq<TransferAction>
    decreases s.max_retries - s.attempts,
{
    let (s1, a1) = transfer_step(s, TransferEvent::Ready { on_disk: n });
    if a1 is Request {
        let (s2, a2) = transfer_step(s1, TransferEvent::Failed);
        if a2 is Sleep && s2.attempts > s.attempts {
            seq![a1, a2] + failing_trace(s2, n)
        } else {
            seq![a1, a2]
        }
    } else {
        seq![a1]
    }
}

proof fn lemma_failing_trace_from(s: TransferState, n: u64)
    requires
        s.attempts < s.max_retries,
        s.total matches Some(t) ==> 0 < t && n < t,
    ensures
        ({
            let k = s.max_retries - s.attempts;
            let tr = failing_trace(s, n);
            &&& tr.len() == 2 * k
            &&& forall|i: int| 0 <= i < k ==> #[trigger] tr[2 * i] == request_for(s.total, n)
            &&& forall|i: int| 0 <= i < k - 1 ==> #[trigger] tr[2 * i + 1] == (TransferAction::Sleep { secs: s.delay_secs })
            &&& tr[2 * k - 1] == TransferAction::Fail(TransferError::TransferFailed { attempts: s.max_retries })
        }),
    decreases s.max_retries - s.attempts,
{
    let s2 = TransferState { attempts: (s.attempts + 1) as u32, ..s };
    if s.attempts + 1 < s.max_retries {
        lemma_failing_trace_from(s2, n);
        let tr = failing_trace(s, n);
        let rest = failing_trace(s2, n);
        assert(tr == seq![request_for(s.total, n), TransferAction::Sleep { secs: s.delay_secs }] + rest);
        let k = s.max_retries - s.attempts;
        assert forall|i: int| 0 <= i < k implies #[trigger] tr[2 * i] == request_for(s.total, n) by {
            if i > 0 {
                assert(tr[2 * i] == rest[2 * (i - 1)]);
            }
        }
        assert forall|i: int| 0 <= i < k - 1 implies #[trigger] tr[2 * i + 1] == (TransferAction::Sleep { secs: s.delay_secs }) by {
            if i > 0 {
                assert(tr[2 * i + 1] == rest[2 * (i - 1) + 1]);
            }
        }
        assert(tr[2 * k - 1] == rest[2 * (k - 1) - 1]);
    } else {
        let tr = failing_trace(s, n);
        assert(tr == seq![request_for(s.total, n), TransferAction::Fail(TransferError::TransferFailed { attempts: s.max_retries })]);
    }
}

/// Bounded retries: when every attempt of a fresh download fails, exactly
/// `max_retries` requests are made, a pause of `delay_secs` separates each from
/// the next (none follows the last), and the download then fails naming
/// `max_retries` attempts.
pub proof fn lemma_bounded_retries(total: Option<u64>, max_retries: u32, delay_secs: u64, n: u64)
    requires
        max_retries > 0,
        total matches Some(t) ==> 0 < t && n < t,
    ensures
        ({
            let tr = failing_trace(TransferState { total, max_retries, delay_secs, attempts: 0 }, n);
            let m = max_retries as int;
            &&& tr.len() == 2 * m
            &&& forall|i: int| 0 <= i < m ==> #[trigger] tr[2 * i] == request_for(total, n)
            &&& forall|i: int| 0 <= i < m - 1 ==> #[trigger] tr[2 * i + 1] == (TransferAction::Sleep { secs: delay_secs })
            &&& tr[2 * m - 1] == TransferAction::Fail(TransferError::TransferFailed { attempts: max_retries })
        }),
{
    lemma_failing_trace_from(TransferState { total, max_retries, delay_secs, attempts: 0 }, n);
}

} // verus!
