use vstd::prelude::*;
use vstd::string::{StringExecFns, StringSliceAdditionalSpecFns};

use crate::decimal::{dec_u64, spec_dec};
use crate::error::ZipError;

verus! {

/// The ASCII bytes of the token that a server's range-support header must
/// contain.
pub open spec fn bytes_token() -> Seq<u8> {
    seq![0x62u8, 0x79u8, 0x74u8, 0x65u8, 0x73u8]
}

/// Whether the header value `h` contains the token "bytes".
pub open spec fn spec_contains_bytes(h: Seq<u8>) -> bool {
    exists|i: int| 0 <= i && i + 5 <= h.len() && #[trigger] h.subrange(i, i + 5) == bytes_token()
}

/// Search a header value for the token "bytes".
fn contains_bytes_token(h: &[u8]) -> (r: bool)
    ensures
        r == spec_contains_bytes(h@),
{
    let len: usize = h.len();
    if len < 5 {
        return false;
    }
    let mut i: usize = 0;
    while i <= len - 5
        invariant
            5 <= len == h@.len(),
            i <= len - 4,
            forall|j: int| 0 <= j < i ==> #[trigger] h@.subrange(j, j + 5) != bytes_token(),
        decreases len - i,
    {
        if h[i] == 0x62 && h[i + 1] == 0x79 && h[i + 2] == 0x74 && h[i + 3] == 0x65 && h[i + 4]
            == 0x73 {
            proof {
                assert(h@.subrange(i as int, i as int + 5) =~= bytes_token());
            }
            return true;
        }
        proof {
            let sub = h@.subrange(i as int, i as int + 5);
            assert(sub[0] == h@[i as int]);
            assert(sub[1] == h@[i as int + 1]);
            assert(sub[2] == h@[i as int + 2]);
            assert(sub[3] == h@[i as int + 3]);
            assert(sub[4] == h@[i as int + 4]);
        }
        i = i + 1;
    }
    false
}

/// The numeric value of a run of decimal digit bytes.
pub open spec fn spec_digits_value(s: Seq<u8>) -> int
    decreases s.len(),
{
    if s.len() == 0 {
        0
    } else {
        spec_digits_value(s.drop_last()) * 10 + (s.last() - 0x30)
    }
}

/// Whether every byte of `s` is a decimal digit.
pub open spec fn spec_all_digits(s: Seq<u8>) -> bool {
    forall|i: int| 0 <= i < s.len() ==> 0x30 <= #[trigger] s[i] <= 0x39
}

/// The unsigned value that a decimal string denotes: an optional leading
/// '+', then at least one digit, with the value within 64 bits.
pub open spec fn spec_parse_u64(s: Seq<u8>) -> Option<u64> {
    let digits = if s.len() > 0 && s[0] == 0x2Bu8 {
        s.skip(1)
    } else {
        s
    };
    if digits.len() == 0 || !spec_all_digits(digits) {
        None
    } else if spec_digits_value(digits) > u64::MAX {
        None
    } else {
        Some(spec_digits_value(digits) as u64)
    }
}

proof fn lemma_digits_value_nonneg(s: Seq<u8>)
    requires
        spec_all_digits(s),
    ensures
        spec_digits_value(s) >= 0,
    decreases s.len(),
{
    if s.len() > 0 {
        assert(spec_all_digits(s.drop_last()));
        lemma_digits_value_nonneg(s.drop_last());
    }
}

proof fn lemma_digits_value_grows(s: Seq<u8>, i: int)
    requires
        spec_all_digits(s),
        0 <= i <= s.len(),
    ensures
        spec_digits_value(s) >= spec_digits_value(s.take(i)),
    decreases s.len() - i,
{
    if i < s.len() {
        lemma_digits_value_grows(s, i + 1);
        let t = s.take(i + 1);
        assert(t.drop_last() =~= s.take(i));
        assert(t.last() == s[i]);
        assert(spec_all_digits(s.take(i)));
        lemma_digits_value_nonneg(s.take(i));
        assert(spec_digits_value(t) == spec_digits_value(s.take(i)) * 10 + (s[i] - 0x30));
    } else {
        assert(s.take(i) =~= s);
    }
}

/// Parse a decimal string as an unsigned 64-bit value, accepting an
/// optional leading '+', as a content-length header is read.
pub fn parse_u64(s: &[u8]) -> (r: Option<u64>)
    ensures
        r == spec_parse_u64(s@),
{
    let len: usize = s.len();
    let start: usize = if len > 0 && s[0] == 0x2B {
        1
    } else {
        0
    };
    let ghost digits = if s@.len() > 0 && s@[0] == 0x2Bu8 {
        s@.skip(1)
    } else {
        s@
    };
    proof {
        assert(digits =~= s@.subrange(start as int, len as int));
    }
    if len == start {
        return None;
    }
    let mut acc: u64 = 0;
    let mut i: usize = start;
    while i < len
        invariant
            start <= i <= len,
            len == s@.len(),
            start <= 1,
            digits == s@.subrange(start as int, len as int),
            digits == (if s@.len() > 0 && s@[0] == 0x2Bu8 {
                s@.skip(1)
            } else {
                s@
            }),
            spec_all_digits(digits.take(i - start)),
            acc == spec_digits_value(digits.take(i - start)),
        decreases len - i,
    {
        let b = s[i];
        if b < 0x30 || b > 0x39 {
            proof {
                assert(digits[i - start] == b);
                assert(!(0x30 <= digits[i - start] <= 0x39));
                assert(!spec_all_digits(digits));
            }
            return None;
        }
        let d = (b - 0x30) as u64;
        let ghost pre = digits.take(i - start);
        proof {
            assert(digits.take(i - start + 1).drop_last() =~= pre);
            assert(digits.take(i - start + 1).last() == b);
        }
        if acc > (u64::MAX - d) / 10 {
            proof {
                assert(spec_digits_value(digits.take(i - start + 1)) == acc * 10 + d > u64::MAX);
                if spec_all_digits(digits) {
                    lemma_digits_value_grows(digits, i - start + 1);
                    assert(digits.take(digits.len() as int) =~= digits);
                }
            }
            return None;
        }
        acc = acc * 10 + d;
        i = i + 1;
    }
    proof {
        assert(digits.take(digits.len() as int) =~= digits);
        lemma_digits_value_nonneg(digits);
    }
    Some(acc)
}

/// Judge a HEAD probe of a remote source: the status must be a success,
/// the server must advertise byte-range support, and a numeric content
/// length must be present; its value becomes the source's size.
pub open spec fn spec_validate_head(
    status: u16,
    accept_ranges: Option<Seq<u8>>,
    content_length: Option<Seq<u8>>,
) -> Result<u64, ZipError> {
    if !(200 <= status < 300) {
        Err(ZipError::HeadStatus(status))
    } else if !(accept_ranges matches Some(a) && spec_contains_bytes(a)) {
        Err(ZipError::NoRangeSupport)
    } else {
        match content_length {
            Some(s) => match spec_parse_u64(s) {
                Some(n) => Ok(n),
                None => Err(ZipError::NoContentLength),
            },
            None => Err(ZipError::NoContentLength),
        }
    }
}

/// Validate what a HEAD probe returned and extract the source's size.
pub fn validate_head(status: u16, accept_ranges: Option<&str>, content_length: Option<&str>) -> (r:
    Result<u64, ZipError>)
    ensures
        r == spec_validate_head(
            status,
            match accept_ranges {
                Some(a) => Some(a.spec_bytes()),
                None => None,
            },
            match content_length {
                Some(c) => Some(c.spec_bytes()),
                None => None,
            },
        ),
{
    if !(200 <= status && status < 300) {
        return Err(ZipError::HeadStatus(status));
    }
    let ranges_ok = match accept_ranges {
        Some(a) => contains_bytes_token(a.as_bytes()),
        None => false,
    };
    if !ranges_ok {
        return Err(ZipError::NoRangeSupport);
    }
    match content_length {
        Some(c) => match parse_u64(c.as_bytes()) {
            Some(n) => Ok(n),
            None => Err(ZipError::NoContentLength),
        },
        None => Err(ZipError::NoContentLength),
    }
}

/// The value of a Range header asking for bytes `start` through `end`,
/// both inclusive.
pub open spec fn spec_range_header(start: u64, end: u64) -> Seq<char> {
    "bytes="@ + spec_dec(start as nat) + "-"@ + spec_dec(end as nat)
}

/// Render the Range header value for an inclusive byte range.
pub fn range_header(start: u64, end: u64) -> (s: String)
    ensures
        s@ == spec_range_header(start, end),
{
    let mut s = String::new();
    s.append("bytes=");
    let a = dec_u64(start);
    s.append(a.as_str());
    s.append("-");
    let b = dec_u64(end);
    s.append(b.as_str());
    s
}

/// What a ranged request loop observes after issuing one request.
#[derive(Debug, Clone, Copy, PartialEq, Eq, Structural)]
pub enum RangeEvent {
    /// A partial-content response arrived whose body held this many bytes
    Chunk { len: usize },
    /// A response arrived with a status other than 206
    Status { code: u16 },
    /// The request timed out or could not connect
    Transient,
    /// Any other transport failure
    Fatal,
}

/// What the loop must do next.
#[derive(Debug, Clone, Copy, PartialEq, Eq, Structural)]
pub enum RangeStep {
    /// Sleep `backoff_ms`, then request bytes `start..=end` of the source
    Fetch { start: u64, end: u64, backoff_ms: u64 },
    /// The read is complete with this many bytes in the buffer
    Done { count: usize },
    /// The read has failed
    Failed { error: ZipError },
}

/// The state of one ranged read: which bytes of the request have arrived,
/// how many consecutive transient failures are pending against the retry
/// budget, and how many bytes this read has added to the reader's
/// transferred-byte counter. The loop that owns the transport asks this
/// state what to do after every response; every decision of the retry
/// policy lives here.
#[derive(Debug, Clone, Copy, PartialEq, Eq, Structural)]
pub struct RangeRead {
    /// Offset in the source of the first byte the read asks for
    pub offset: u64,
    /// Offset in the source of the last byte the read asks for, inclusive
    pub end: u64,
    /// How many bytes have arrived so far
    pub received: usize,
    /// How many bytes the whole read expects
    pub expected: usize,
    /// Consecutive transient failures since the last successful response
    pub retry_count: u32,
    /// How many consecutive transient failures exhaust the read
    pub max_retry: u32,
    /// Bytes this read has successfully copied so far
    pub transferred: u64,
}

impl RangeRead {
    /// The state is consistent: it expects exactly the bytes of
    /// `offset..=end`, has received no more than that, and its pending
    /// failures are within the budget.
    pub open spec fn wf(self) -> bool {
        &&& self.offset <= self.end
        &&& self.expected == self.end - self.offset + 1
        &&& self.received <= self.expected
        &&& self.retry_count <= self.max_retry
    }

    /// How many of a chunk's bytes the read keeps: all of them, bounded by
    /// what is still owed.
    pub open spec fn spec_chunk_len(self, len: usize) -> int {
        if len <= self.expected - self.received {
            len as int
        } else {
            self.expected - self.received
        }
    }

    /// The transition of the read on one event. A chunk advances the read
    /// by the bytes it keeps, clears the pending failure count, and counts
    /// the bytes; when bytes are still owed, the next fetch resumes at the
    /// first byte not yet received, with no backoff. A transient failure
    /// within the budget asks for the same range again after a backoff
    /// that grows linearly with the count of consecutive failures; one
    /// that exhausts the budget fails the read. A bad status or another
    /// transport failure fails the read at once.
    pub open spec fn spec_step(self, ev: RangeEvent) -> (RangeRead, RangeStep) {
        match ev {
            RangeEvent::Chunk { len } => {
                let chunk = self.spec_chunk_len(len);
                let s2 = RangeRead {
                    received: (self.received + chunk) as usize,
                    retry_count: 0u32,
                    transferred: self.transferred.wrapping_add(chunk as u64),
                    ..self
                };
                if s2.received == self.expected {
                    (s2, RangeStep::Done { count: self.expected })
                } else {
                    (
                        s2,
                        RangeStep::Fetch {
                            start: (self.offset + s2.received) as u64,
                            end: self.end,
                            backoff_ms: 0u64,
                        },
                    )
                }
            },
            RangeEvent::Status { code } => (
                self,
                RangeStep::Failed { error: ZipError::BadStatus(code) },
            ),
            RangeEvent::Transient => {
                if self.retry_count + 1 >= self.max_retry {
                    (
                        RangeRead { retry_count: self.max_retry, ..self },
                        RangeStep::Failed { error: ZipError::MaxRetriesExceeded },
                    )
                } else {
                    let s2 = RangeRead { retry_count: (self.retry_count + 1) as u32, ..self };
                    (
                        s2,
                        RangeStep::Fetch {
                            start: (self.offset + self.received) as u64,
                            end: self.end,
                            backoff_ms: (500 * (self.retry_count + 1)) as u64,
                        },
                    )
                }
            },
            RangeEvent::Fatal => (self, RangeStep::Failed { error: ZipError::Transport }),
        }
    }

    /// Start a ranged read of `buflen` bytes at `offset` from a source of
    /// `size` bytes. The first fetch asks for the whole range
    /// `offset ..= min(offset + buflen - 1, size - 1)`, clamped so that
    /// nothing past the end of the source is ever requested.
    pub fn begin(offset: u64, buflen: usize, size: u64, max_retry: u32) -> (r: (
        RangeRead,
        RangeStep,
    ))
        requires
            offset < size,
            1 <= buflen,
        ensures
            r.0.wf(),
            r.0.offset == offset,
            r.0.end == if offset + buflen - 1 <= size - 1 {
                offset + buflen as u64 - 1
            } else {
                size - 1
            },
            r.0.received == 0,
            r.0.expected == r.0.end - offset + 1,
            r.0.retry_count == 0,
            r.0.max_retry == max_retry,
            r.0.transferred == 0,
            r.1 == (RangeStep::Fetch { start: offset, end: r.0.end, backoff_ms: 0u64 }),
    {
        let avail: u64 = size - 1 - offset;
        let want: u64 = buflen as u64 - 1;
        let end: u64 = if want <= avail {
            offset + want
        } else {
            size - 1
        };
        let expected: usize = (end - offset) as usize + 1;
        (
            RangeRead {
                offset,
                end,
                received: 0,
                expected,
                retry_count: 0,
                max_retry,
                transferred: 0,
            },
            RangeStep::Fetch { start: offset, end, backoff_ms: 0 },
        )
    }

    /// Land a response body: copy the bytes the read still owes into the
    /// buffer at the position where they belong, and step the state.
    pub fn apply_chunk(self, buf: &mut Vec<u8>, bytes: &Vec<u8>) -> (r: (RangeRead, RangeStep))
        requires
            self.wf(),
            self.received < self.expected,
            self.expected <= old(buf)@.len(),
        ensures
            r == self.spec_step(RangeEvent::Chunk { len: bytes@.len() as usize }),
            r.0.wf(),
            final(buf)@.len() == old(buf)@.len(),
            forall|j: int|
                self.received <= j < r.0.received ==> final(buf)@[j] == bytes@[j - self.received],
            forall|j: int|
                (0 <= j < self.received || r.0.received <= j < old(buf)@.len()) ==> final(buf)@[j]
                    == old(buf)@[j],
    {
        let blen: usize = buf.len();
        let owed = self.expected - self.received;
        let chunk: usize = if bytes.len() <= owed {
            bytes.len()
        } else {
            owed
        };
        let mut t: usize = 0;
        while t < chunk
            invariant
                t <= chunk,
                chunk <= bytes@.len(),
                self.received + chunk <= buf@.len(),
                buf@.len() <= usize::MAX,
                buf@.len() == old(buf)@.len(),
                forall|j: int|
                    self.received <= j < self.received + t ==> buf@[j] == bytes@[j - self.received],
                forall|j: int|
                    (0 <= j < self.received || self.received + t <= j < buf@.len()) ==> buf@[j]
                        == old(buf)@[j],
            decreases chunk - t,
        {
            buf[self.received + t] = bytes[t];
            t = t + 1;
        }
        let received = self.received + chunk;
        let state = RangeRead {
            received,
            retry_count: 0,
            transferred: self.transferred.wrapping_add(chunk as u64),
            ..self
        };
        if received == self.expected {
            (state, RangeStep::Done { count: self.expected })
        } else {
            (
                state,
                RangeStep::Fetch { start: self.offset + received as u64, end: self.end, backoff_ms: 0 },
            )
        }
    }

    /// Step the state on a failed request.
    pub fn on_error(self, ev: RangeEvent) -> (r: (RangeRead, RangeStep))
        requires
            self.wf(),
            self.received < self.expected,
            !(ev is Chunk),
        ensures
            r == self.spec_step(ev),
            r.0.wf(),
    {
        match ev {
            RangeEvent::Chunk { len: _ } => (self, RangeStep::Failed { error: ZipError::Transport }),
            RangeEvent::Status { code } => (
                self,
                RangeStep::Failed { error: ZipError::BadStatus(code) },
            ),
            RangeEvent::Transient => {
                if self.retry_count >= self.max_retry || self.max_retry - self.retry_count == 1 {
                    (
                        RangeRead { retry_count: self.max_retry, ..self },
                        RangeStep::Failed { error: ZipError::MaxRetriesExceeded },
                    )
                } else {
                    let rc = self.retry_count + 1;
                    (
                        RangeRead { retry_count: rc, ..self },
                        RangeStep::Fetch {
                            start: self.offset + self.received as u64,
                            end: self.end,
                            backoff_ms: 500 * (rc as u64),
                        },
                    )
                }
            },
            RangeEvent::Fatal => (self, RangeStep::Failed { error: ZipError::Transport }),
        }
    }
}

/// The state after `k` consecutive transient failures.
pub open spec fn spec_transients(s: RangeRead, k: nat) -> RangeRead
    decreases k,
{
    if k == 0 {
        s
    } else {
        spec_transients(s, (k - 1) as nat).spec_step(RangeEvent::Transient).0
    }
}

/// Law: with a fresh retry budget of `n` failures, the first `n - 1`
/// consecutive transient failures each ask for another fetch, and the
/// `n`-th fails the read with the retry-budget error.
pub proof fn lemma_retry_budget(s: RangeRead, k: nat)
    requires
        s.wf(),
        s.retry_count == 0,
        s.max_retry >= 1,
        1 <= k <= s.max_retry,
    ensures
        spec_transients(s, (k - 1) as nat) == (RangeRead { retry_count: (k - 1) as u32, ..s }),
        k < s.max_retry ==> spec_transients(s, (k - 1) as nat).spec_step(
            RangeEvent::Transient,
        ).1 is Fetch,
        k == s.max_retry ==> spec_transients(s, (k - 1) as nat).spec_step(RangeEvent::Transient).1
            == (RangeStep::Failed { error: ZipError::MaxRetriesExceeded }),
    decreases k,
{
    if k == 1 {
        assert(spec_transients(s, 0) == s);
    } else {
        lemma_retry_budget(s, (k - 1) as nat);
        let prev = spec_transients(s, (k - 2) as nat);
        assert(spec_transients(s, (k - 1) as nat) == prev.spec_step(RangeEvent::Transient).0);
    }
}

/// Law: only consecutive failures count, and only landed bytes count. A
/// successful chunk clears the pending failure count and grows the
/// transferred-byte counter by exactly the bytes it landed; every other
/// event leaves the counter untouched.
pub proof fn lemma_transferred_counts_chunks(s: RangeRead, ev: RangeEvent)
    requires
        s.wf(),
    ensures
        ev matches RangeEvent::Chunk { len } ==> {
            &&& s.spec_step(ev).0.retry_count == 0
            &&& (s.transferred + s.spec_chunk_len(len) <= u64::MAX ==> s.spec_step(ev).0.transferred
                == s.transferred + s.spec_chunk_len(len))
            &&& s.spec_step(ev).0.received == s.received + s.spec_chunk_len(len)
        },
        !(ev is Chunk) ==> s.spec_step(ev).0.transferred == s.transferred,
{
}

} // verus!
