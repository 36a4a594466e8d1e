//! Progress accounting for background jobs: reading the percentages that
//! `7z` prints, and deciding when a job reports the bytes it has done.
use vstd::prelude::*;
use vstd::utf8::{decode_first_codepoint, length_of_first_scalar, pop_first_scalar, valid_first_scalar, valid_utf8};

verus! {

/// Whether `bytes[i..]` starts with one well-formed UTF-8 scalar, and its
/// length when it does.
fn first_scalar_len(bytes: &[u8], i: usize) -> (r: Option<usize>)
    requires
        i < bytes@.len(),
    ensures
        r is Some <==> valid_first_scalar(bytes@.subrange(i as int, bytes@.len() as int)),
        r matches Some(l) ==> l == length_of_first_scalar(bytes@.subrange(i as int, bytes@.len() as int)),
{
    let ghost s = bytes@.subrange(i as int, bytes@.len() as int);
    let n = bytes.len();
    let b0 = bytes[i];
    assert(s[0] == b0);
    if b0 <= 0x7f {
        return Some(1);
    }
    if 0xc0 <= b0 && b0 <= 0xdf {
        if n - i <= 1 {
            return None;
        }
        let b1 = bytes[i + 1];
        assert(s[1] == b1);
        if !(0x80 <= b1 && b1 <= 0xbf) {
            return None;
        }
        let cp: u32 = (((b0 & 0x1F) as u32) << 6) | ((b1 & 0x3f) as u32);
        assert(cp == decode_first_codepoint(s));
        assert((((b0 & 0x1F) as u32) << 6) | ((b1 & 0x3f) as u32) <= 0x7ff) by (bit_vector);
        if cp < 0x80 {
            return None;
        }
        return Some(2);
    }
    if 0xe0 <= b0 && b0 <= 0xef {
        if n - i <= 2 {
            return None;
        }
        let b1 = bytes[i + 1];
        let b2 = bytes[i + 2];
        assert(s[1] == b1 && s[2] == b2);
        if !(0x80 <= b1 && b1 <= 0xbf) || !(0x80 <= b2 && b2 <= 0xbf) {
            return None;
        }
        let cp: u32 = (((b0 & 0x0F) as u32) << 12) | (((b1 & 0x3f) as u32) << 6) | ((b2
            & 0x3f) as u32);
        assert(cp == decode_first_codepoint(s));
        if cp < 0x800 || (0xD800 <= cp && cp <= 0xDFFF) {
            return None;
        }
        return Some(3);
    }
    if 0xf0 <= b0 && b0 <= 0xf7 {
        if n - i <= 3 {
            return None;
        }
        let b1 = bytes[i + 1];
        let b2 = bytes[i + 2];
        let b3 = bytes[i + 3];
        assert(s[1] == b1 && s[2] == b2 && s[3] == b3);
        if !(0x80 <= b1 && b1 <= 0xbf) || !(0x80 <= b2 && b2 <= 0xbf) || !(0x80 <= b3 && b3
            <= 0xbf) {
            return None;
        }
        let cp: u32 = (((b0 & 0x07) as u32) << 18) | (((b1 & 0x3f) as u32) << 12) | (((b2
            & 0x3f) as u32) << 6) | ((b3 & 0x3f) as u32);
        assert(cp == decode_first_codepoint(s));
        if cp < 0x10000 || cp > 0x10ffff || (0xD800 <= cp && cp <= 0xDFFF) {
            return None;
        }
        return Some(4);
    }
    None
}

/// Whether `bytes` is well-formed UTF-8 (`std::str::from_utf8` succeeds).
pub fn is_utf8(bytes: &[u8]) -> (b: bool)
    ensures
        b == valid_utf8(bytes@),
{
    let n = bytes.len();
    let mut i: usize = 0;
    assert(bytes@.subrange(0, n as int) =~= bytes@);
    while i < n
        invariant
            n == bytes@.len(),
            i <= n,
            valid_utf8(bytes@) == valid_utf8(bytes@.subrange(i as int, n as int)),
        decreases n - i,
    {
        let ghost s = bytes@.subrange(i as int, n as int);
        match first_scalar_len(bytes, i) {
            None => {
                return false;
            },
            Some(l) => {
                assert(pop_first_scalar(s) =~= bytes@.subrange(i + l, n as int));
                i = i + l;
            },
        }
    }
    assert(bytes@.subrange(n as int, n as int).len() == 0);
    true
}

/// The position of the last `b` in `s`.
pub open spec fn last_index_of(s: Seq<u8>, b: u8) -> Option<int>
    decreases s.len(),
{
    if s.len() == 0 {
        None
    } else if s.last() == b {
        Some(s.len() - 1)
    } else {
        last_index_of(s.drop_last(), b)
    }
}

proof fn lemma_last_index_of(s: Seq<u8>, b: u8)
    ensures
        last_index_of(s, b) matches Some(k) ==> 0 <= k < s.len() && s[k] == b,
    decreases s.len(),
{
    if s.len() > 0 && s.last() != b {
        lemma_last_index_of(s.drop_last(), b);
    }
}

fn rfind_byte(s: &[u8], end: usize, b: u8) -> (r: Option<usize>)
    requires
        end <= s@.len(),
    ensures
        r matches Some(k) ==> last_index_of(s@.take(end as int), b) == Some(k as int),
        r is None ==> last_index_of(s@.take(end as int), b) is None,
{
    let mut j = end;
    while j > 0
        invariant
            j <= end <= s@.len(),
            last_index_of(s@.take(end as int), b) == last_index_of(s@.take(j as int), b),
        decreases j,
    {
        assert(s@.take(j as int).drop_last() =~= s@.take(j - 1));
        if s[j - 1] == b {
            return Some(j - 1);
        }
        j = j - 1;
    }
    None
}

/// The decimal value of ASCII digits.
pub open spec fn digits_value(s: Seq<u8>) -> nat
    decreases s.len(),
{
    if s.len() == 0 {
        0
    } else {
        digits_value(s.drop_last()) * 10 + (s.last() - 48) as nat
    }
}

pub open spec fn all_digits(s: Seq<u8>) -> bool {
    forall|i: int| 0 <= i < s.len() ==> 48 <= #[trigger] s[i] <= 57
}

/// What `u64::from_str` gives for the text `s`: an optional `+`, then at
/// least one ASCII digit and nothing else, with a value that fits.
pub open spec fn parse_u64(s: Seq<u8>) -> Option<u64> {
    let body = if s.len() > 0 && s[0] == 43 {
        s.drop_first()
    } else {
        s
    };
    if body.len() == 0 || !all_digits(body) || digits_value(body) > u64::MAX {
        None
    } else {
        Some(digits_value(body) as u64)
    }
}

proof fn lemma_digits_value_mono(s: Seq<u8>, k: int)
    requires
        0 <= k <= s.len(),
        all_digits(s),
    ensures
        digits_value(s.take(k)) <= digits_value(s),
    decreases s.len() - k,
{
    if k < s.len() {
        lemma_digits_value_mono(s, k + 1);
        assert(s.take(k + 1).drop_last() =~= s.take(k));
        assert(48 <= s[k] <= 57);
    }
    assert(s.take(s.len() as int) =~= s);
}

/// Parses `s[from..to]` as [`parse_u64`] does.
fn parse_u64_range(s: &[u8], from: usize, to: usize) -> (r: Option<u64>)
    requires
        from <= to <= s@.len(),
    ensures
        r == parse_u64(s@.subrange(from as int, to as int)),
{
    let ghost t = s@.subrange(from as int, to as int);
    let mut start = from;
    if from < to && s[from] == 43 {
        start = from + 1;
    }
    let ghost body = s@.subrange(start as int, to as int);
    proof {
        if t.len() > 0 && t[0] == 43 {
            assert(body =~= t.drop_first());
        } else {
            assert(body =~= t);
        }
    }
    if start == to {
        return None;
    }
    let mut v: u128 = 0;
    let mut i = start;
    assert(body.take(0) =~= Seq::<u8>::empty());
    while i < to
        invariant
            start < to <= s@.len(),
            start <= i <= to,
            body == s@.subrange(start as int, to as int),
            t == s@.subrange(from as int, to as int),
            body == (if t.len() > 0 && t[0] == 43 {
                t.drop_first()
            } else {
                t
            }),
            all_digits(body.take(i - start)),
            v == digits_value(body.take(i - start)),
            v <= u64::MAX,
        decreases to - i,
    {
        let c = s[i];
        assert(body[i - start] == c);
        if c < 48 || c > 57 {
            assert(!(48 <= body[i - start] <= 57));
            assert(!all_digits(body));
            return None;
        }
        let ghost prefix = body.take(i + 1 - start);
        assert(prefix.drop_last() =~= body.take(i - start));
        assert(prefix.last() == c);
        v = v * 10 + (c - 48) as u128;
        assert(v == digits_value(prefix));
        assert(all_digits(prefix)) by {
            assert forall|k: int| 0 <= k < prefix.len() implies 48 <= #[trigger] prefix[k] <= 57 by {
                if k < prefix.len() - 1 {
                    assert(prefix[k] == body.take(i - start)[k]);
                }
            }
        }
        i = i + 1;
        if v > u64::MAX as u128 {
            proof {
                if all_digits(body) {
                    lemma_digits_value_mono(body, i - start);
                }
            }
            return None;
        }
    }
    assert(body.take(to - start) =~= body);
    Some(v as u64)
}

/// The percentage that a line of `7z` progress output shows: the number
/// right before the line's last `%`, after the last space before it, when the
/// line is valid UTF-8.
pub open spec fn line_percent(line: Seq<u8>) -> Option<u64> {
    if !valid_utf8(line) {
        None
    } else {
        match last_index_of(line, 37) {
            None => None,
            Some(p) => {
                let start = match last_index_of(line.take(p), 32) {
                    Some(k) => k + 1,
                    None => 0,
                };
                parse_u64(line.subrange(start, p))
            },
        }
    }
}

/// Reads the percentage of a `7z` progress line, as [`line_percent`] states.
pub fn parse_percent_line(line: &[u8]) -> (r: Option<u64>)
    ensures
        r == line_percent(line@),
{
    if !is_utf8(line) {
        return None;
    }
    let n = line.len();
    assert(line@.take(n as int) =~= line@);
    match rfind_byte(line, n, 37) {
        None => None,
        Some(p) => {
            proof {
                lemma_last_index_of(line@, 37);
            }
            let start = match rfind_byte(line, p, 32) {
                Some(k) => {
                    proof {
                        lemma_last_index_of(line@.take(p as int), 32);
                    }
                    k + 1
                },
                None => 0,
            };
            parse_u64_range(line, start, p)
        },
    }
}

/// The longest partial line that is kept while reading `7z` output.
pub const LINE_LIMIT: usize = 64;

/// The bytes that end a `7z` progress line: carriage return, line feed and
/// backspace.
pub open spec fn ends_line(b: u8) -> bool {
    b == 13 || b == 10 || b == 8
}

/// A line-end byte `b` closes the partial `line`: always while following
/// an extraction (`every_line`), and only when the line is valid UTF-8
/// while following a compression.
pub open spec fn closes_line(line: Seq<u8>, b: u8, every_line: bool) -> bool {
    ends_line(b) && (every_line || valid_utf8(line))
}

/// The bytes a percentage step stands for: `total * (p - last) / 100`.
pub open spec fn percent_chunk(total: u64, last: u64, p: u64) -> nat {
    (total * (p - last)) as nat / 100
}

/// Follows the progress output of a `7z` run and turns rising percentages
/// into byte counts.
pub struct SevenZipProgress {
    line: Vec<u8>,
    last_percent: u64,
    total_bytes: u64,
    /// Every line end clears the partial line (extraction), not only one
    /// after valid UTF-8 (compression).
    every_line: bool,
    /// The bytes reported so far.
    reported: Ghost<nat>,
}

impl SevenZipProgress {
    pub closed spec fn line(&self) -> Seq<u8> {
        self.line@
    }

    pub closed spec fn last_percent(&self) -> u64 {
        self.last_percent
    }

    pub closed spec fn total_bytes(&self) -> u64 {
        self.total_bytes
    }

    /// Whether every line end clears the partial line.
    pub closed spec fn every_line(&self) -> bool {
        self.every_line
    }

    /// The sum of the byte counts handed out so far.
    pub closed spec fn reported(&self) -> nat {
        self.reported@
    }

    /// The state stays coherent: the partial line is bounded, the percentage
    /// is at most 100, and what was reported is at most its share of the
    /// total.
    pub closed spec fn wf(&self) -> bool {
        &&& self.line@.len() <= LINE_LIMIT
        &&& self.last_percent <= 100
        &&& self.total_bytes <= u64::MAX / 100
        &&& self.reported@ <= (self.total_bytes as nat * self.last_percent as nat) / 100
    }

    /// A tracker for a compression of `total_bytes` bytes: a line end
    /// after output that is not valid UTF-8 is kept with the line.
    pub fn new(total_bytes: u64) -> (p: Self)
        requires
            total_bytes <= u64::MAX / 100,
        ensures
            p.wf(),
            p.line() == Seq::<u8>::empty(),
            p.last_percent() == 0,
            p.total_bytes() == total_bytes,
            p.reported() == 0,
            !p.every_line(),
    {
        SevenZipProgress {
            line: Vec::new(),
            last_percent: 0,
            total_bytes,
            every_line: false,
            reported: Ghost(0),
        }
    }

    /// A tracker for an extraction of an archive of `total_bytes` bytes:
    /// every line end clears the partial line.
    pub fn for_extraction(total_bytes: u64) -> (p: Self)
        requires
            total_bytes <= u64::MAX / 100,
        ensures
            p.wf(),
            p.line() == Seq::<u8>::empty(),
            p.last_percent() == 0,
            p.total_bytes() == total_bytes,
            p.reported() == 0,
            p.every_line(),
    {
        SevenZipProgress {
            line: Vec::new(),
            last_percent: 0,
            total_bytes,
            every_line: true,
            reported: Ghost(0),
        }
    }

    /// Takes one byte of `7z` output. A line-end byte closes the partial
    /// line as [`closes_line`] states: when its percentage rose (and is at
    /// most 100) the bytes that the rise stands for are returned, and the
    /// partial line is cleared. Every other byte (while compressing, a
    /// line-end byte after a line that is not valid UTF-8 too) is kept, up
    /// to [`LINE_LIMIT`] of them.
    pub fn push_byte(&mut self, b: u8) -> (chunk: Option<u64>)
        requires
            old(self).wf(),
        ensures
            final(self).wf(),
            final(self).total_bytes() == old(self).total_bytes(),
            final(self).every_line() == old(self).every_line(),
            closes_line(old(self).line(), b, old(self).every_line()) ==> final(self).line() == Seq::<u8>::empty(),
            !closes_line(old(self).line(), b, old(self).every_line()) && old(self).line().len() < LINE_LIMIT
                ==> final(self).line() == old(self).line().push(b),
            !closes_line(old(self).line(), b, old(self).every_line()) && old(self).line().len() >= LINE_LIMIT
                ==> final(self).line() == old(self).line(),
            ({
                let lp = line_percent(old(self).line());
                let rises = ends_line(b) && lp is Some && lp->Some_0 > old(self).last_percent()
                    && lp->Some_0 <= 100;
                &&& rises ==> chunk == Some(
                    percent_chunk(
                        old(self).total_bytes(),
                        old(self).last_percent(),
                        lp->Some_0,
                    ) as u64,
                )
                &&& rises ==> final(self).last_percent() == lp->Some_0
                &&& !rises ==> chunk is None && final(self).last_percent()
                    == old(self).last_percent()
            }),
            final(self).reported() == old(self).reported() + match chunk {
                Some(c) => c as nat,
                None => 0,
            },
    {
        if (b == 13 || b == 10 || b == 8) && (self.every_line || is_utf8(&self.line)) {
            let p = parse_percent_line(&self.line);
            self.line = Vec::new();
            match p {
                Some(p) => {
                    if p > self.last_percent && p <= 100 {
                        let last = self.last_percent;
                        let total = self.total_bytes;
                        proof {
                            lemma_chunk_bound(total, last, p, self.reported@);
                        }
                        let chunk = total * (p - last) / 100;
                        self.last_percent = p;
                        self.reported = Ghost(self.reported@ + chunk as nat);
                        return Some(chunk);
                    }
                    None
                },
                None => None,
            }
        } else {
            if self.line.len() < LINE_LIMIT {
                self.line.push(b);
            }
            None
        }
    }
}

proof fn lemma_chunk_bound(total: u64, last: u64, p: u64, reported: nat)
    requires
        last < p <= 100,
        total <= u64::MAX / 100,
        reported <= (total as nat * last as nat) / 100,
    ensures
        total * (p - last) <= u64::MAX,
        reported + (total * (p - last)) as nat / 100 <= (total as nat * p as nat) / 100,
{
    let t = total as int;
    let d = (p - last) as int;
    let l = last as int;
    assert(t * d <= t * 100) by (nonlinear_arith)
        requires
            0 <= t,
            0 <= d <= 100,
    ;
    assert(t * l + t * d == t * (p as int)) by (nonlinear_arith)
        requires
            d == p - l,
    ;
    assert((t * l) / 100 + (t * d) / 100 <= (t * l + t * d) / 100) by (nonlinear_arith)
        requires
            0 <= t * l,
            0 <= t * d,
    ;
}

/// The bytes after which a job checks whether to report: 512 KB.
pub const REPORT_BYTES: u64 = 524_288;

/// Counts the bytes a job has done and decides when they are due for a
/// report. A report goes out when, at a check, more than the report interval
/// has passed since the last one; the caller measures that time.
pub struct ProgressCounter {
    /// Bytes done and not reported yet.
    pub bytes_acc: u64,
    /// Bytes done since the last check.
    pub bytes_since_check: u64,
}

impl ProgressCounter {
    /// A counter with nothing done.
    pub fn new() -> (c: Self)
        ensures
            c.bytes_acc == 0,
            c.bytes_since_check == 0,
    {
        ProgressCounter { bytes_acc: 0, bytes_since_check: 0 }
    }

    /// Records `n` more bytes. Returns whether a check is due (at least
    /// [`REPORT_BYTES`] since the last one), and then starts counting anew.
    pub fn record(&mut self, n: u64) -> (due: bool)
        requires
            old(self).bytes_acc + n <= u64::MAX,
            old(self).bytes_since_check + n <= u64::MAX,
        ensures
            final(self).bytes_acc == old(self).bytes_acc + n,
            due == (old(self).bytes_since_check + n >= REPORT_BYTES),
            due ==> final(self).bytes_since_check == 0,
            !due ==> final(self).bytes_since_check == old(self).bytes_since_check + n,
    {
        self.bytes_acc = self.bytes_acc + n;
        self.bytes_since_check = self.bytes_since_check + n;
        if self.bytes_since_check >= REPORT_BYTES {
            self.bytes_since_check = 0;
            true
        } else {
            false
        }
    }

    /// The bytes to report, and the counter is cleared; to be called when the
    /// report was accepted.
    pub fn take_report(&mut self) -> (n: u64)
        ensures
            n == old(self).bytes_acc,
            final(self).bytes_acc == 0,
            final(self).bytes_since_check == old(self).bytes_since_check,
    {
        let n = self.bytes_acc;
        self.bytes_acc = 0;
        n
    }

    /// Whether bytes are left to report when the job ends.
    pub fn has_pending(&self) -> (b: bool)
        ensures
            b == (self.bytes_acc > 0),
    {
        self.bytes_acc > 0
    }
}

/// The bytes after which a file copy reports: 1 MiB.
pub const COPY_REPORT_BYTES: u64 = 1_048_576;

/// The milliseconds that must pass between two reports.
pub const REPORT_INTERVAL_MS: u64 = 50;

/// Whether a copy reports the bytes it has done: more than
/// [`COPY_REPORT_BYTES`] are pending and more than [`REPORT_INTERVAL_MS`]
/// have passed since the last report.
pub fn copy_report_due(bytes_acc: u64, elapsed_ms: u64) -> (b: bool)
    ensures
        b == (bytes_acc > COPY_REPORT_BYTES && elapsed_ms > REPORT_INTERVAL_MS),
{
    bytes_acc > COPY_REPORT_BYTES && elapsed_ms > REPORT_INTERVAL_MS
}

} // verus!
