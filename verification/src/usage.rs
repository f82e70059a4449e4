use vstd::prelude::*;

use crate::json::{as_i64, as_text, get, parse_json, spec_parse_json, Json};
use crate::text::{
    chars_of, has_prefix, has_substring, spec_utf8_lossy, starts_with, string_of, trim, trimmed,
    utf8_lossy, contains,
};

verus! {

/// Token usage parsed from a response body.
pub struct Usage {
    pub prompt_tokens: i64,
    pub completion_tokens: i64,
    /// Anthropic prompt caching: input tokens read from the cache (not part of `prompt_tokens`).
    pub cache_read_tokens: i64,
    /// Anthropic prompt caching: input tokens newly written to the cache.
    pub cache_creation_tokens: i64,
    pub total_tokens: i64,
}

impl Usage {
    /// The usage of a response that reports none.
    pub open spec fn spec_zero() -> Usage {
        Usage {
            prompt_tokens: 0,
            completion_tokens: 0,
            cache_read_tokens: 0,
            cache_creation_tokens: 0,
            total_tokens: 0,
        }
    }

    /// All counts zero.
    pub fn zero() -> (r: Usage)
        ensures
            r == Usage::spec_zero(),
    {
        Usage {
            prompt_tokens: 0,
            completion_tokens: 0,
            cache_read_tokens: 0,
            cache_creation_tokens: 0,
            total_tokens: 0,
        }
    }
}

impl Default for Usage {
    fn default() -> (r: Usage)
        ensures
            r == Usage::spec_zero(),
    {
        Usage::zero()
    }
}

/// The optional counts one `usage` object reports.
pub struct RawUsage {
    pub prompt: Option<i64>,
    pub completion: Option<i64>,
    pub total: Option<i64>,
    pub cache_read: Option<i64>,
    pub cache_creation: Option<i64>,
}

/// Nothing reported.
pub open spec fn raw_none() -> RawUsage {
    RawUsage { prompt: None, completion: None, total: None, cache_read: None, cache_creation: None }
}

/// The `usage` object of a response value: top level (OpenAI, Anthropic `message_delta`) or
/// nested in `message` (Anthropic `message_start`); `None` unless it is an object.
pub open spec fn usage_object(v: Json) -> Option<Json> {
    let u = match get(v, "usage"@) {
        Some(u) => Some(u),
        None => match get(v, "message"@) {
            Some(m) => get(m, "usage"@),
            None => None,
        },
    };
    match u {
        Some(u) => if u is Object {
            Some(u)
        } else {
            None
        },
        None => None,
    }
}

/// The integer at `primary`, or at `fallback` when `primary` is absent.
pub open spec fn count_of(u: Json, primary: Seq<char>, fallback: Seq<char>) -> Option<i64> {
    match get(u, primary) {
        Some(x) => as_i64(x),
        None => match get(u, fallback) {
            Some(x) => as_i64(x),
            None => None,
        },
    }
}

/// The counts of a response value, accepting the OpenAI (`prompt_tokens`, `completion_tokens`,
/// `total_tokens`) and Anthropic (`input_tokens`, `output_tokens`, cache fields) formats.
pub open spec fn normalize(v: Json) -> RawUsage {
    match usage_object(v) {
        None => raw_none(),
        Some(u) => RawUsage {
            prompt: count_of(u, "prompt_tokens"@, "input_tokens"@),
            completion: count_of(u, "completion_tokens"@, "output_tokens"@),
            total: match get(u, "total_tokens"@) {
                Some(x) => as_i64(x),
                None => None,
            },
            cache_read: match get(u, "cache_read_input_tokens"@) {
                Some(x) => as_i64(x),
                None => None,
            },
            cache_creation: match get(u, "cache_creation_input_tokens"@) {
                Some(x) => as_i64(x),
                None => None,
            },
        },
    }
}

/// `o`, or 0 when absent.
pub open spec fn or_zero(o: Option<i64>) -> i64 {
    match o {
        Some(x) => x,
        None => 0,
    }
}

/// Final counts: missing ones are 0 and a missing total is the (wrapping) sum of the four
/// parts, cache included.
pub open spec fn finalize(r: RawUsage) -> Usage {
    let p = or_zero(r.prompt);
    let c = or_zero(r.completion);
    let cr = or_zero(r.cache_read);
    let cc = or_zero(r.cache_creation);
    Usage {
        prompt_tokens: p,
        completion_tokens: c,
        cache_read_tokens: cr,
        cache_creation_tokens: cc,
        total_tokens: match r.total {
            Some(t) => t,
            None => p.wrapping_add(c).wrapping_add(cr).wrapping_add(cc),
        },
    }
}

/// Later reports override earlier ones, field by field.
pub open spec fn merge(acc: RawUsage, r: RawUsage) -> RawUsage {
    RawUsage {
        prompt: if r.prompt is Some { r.prompt } else { acc.prompt },
        completion: if r.completion is Some { r.completion } else { acc.completion },
        total: if r.total is Some { r.total } else { acc.total },
        cache_read: if r.cache_read is Some { r.cache_read } else { acc.cache_read },
        cache_creation: if r.cache_creation is Some { r.cache_creation } else { acc.cache_creation },
    }
}

/// Usage of a non-streaming JSON body.
pub open spec fn json_usage(body: Seq<char>) -> Usage {
    match spec_parse_json(body) {
        Some(v) => finalize(normalize(v)),
        None => Usage::spec_zero(),
    }
}

/// The payload of an SSE `data:` line (trimmed), if the line is one.
pub open spec fn data_payload(line: Seq<char>) -> Option<Seq<char>> {
    if starts_with(line, "data:"@) {
        Some(trim(line.skip("data:"@.len() as int)))
    } else {
        None
    }
}

/// Folds one decoded SSE line into the counts seen so far.
pub open spec fn absorb(acc: RawUsage, line: Seq<char>) -> RawUsage {
    match data_payload(line) {
        None => acc,
        Some(d) => if d.len() == 0 || d == "[DONE]"@ {
            acc
        } else {
            match spec_parse_json(d) {
                Some(v) => merge(acc, normalize(v)),
                None => acc,
            }
        },
    }
}

/// Folds one raw SSE line (bytes without its newline, decoded lossily) into the counts seen
/// so far; an empty line counts nothing.
pub open spec fn absorb_bytes(acc: RawUsage, line: Seq<u8>) -> RawUsage {
    if line.len() == 0 {
        acc
    } else {
        absorb(acc, spec_utf8_lossy(line))
    }
}

/// Scans `rest` byte by byte after the incomplete line `line`: every completed line (ending in
/// `\n`) is folded into the counts; the result is the counts and the new incomplete line.
pub open spec fn scan(acc: RawUsage, line: Seq<u8>, rest: Seq<u8>) -> (RawUsage, Seq<u8>)
    decreases rest.len(),
{
    if rest.len() == 0 {
        (acc, line)
    } else {
        if rest[0] == 10u8 {
            scan(absorb_bytes(acc, line), Seq::empty(), rest.drop_first())
        } else {
            scan(acc, line.push(rest[0]), rest.drop_first())
        }
    }
}

/// Longest incomplete line kept between chunks; a longer one is dropped.
pub const MAX_PENDING: usize = 4194304;

/// Tracker state after feeding `chunk`.
pub open spec fn fed(state: (RawUsage, Seq<u8>), chunk: Seq<u8>) -> (RawUsage, Seq<u8>) {
    let (acc, line) = scan(state.0, state.1, chunk);
    (acc, if line.len() > MAX_PENDING { Seq::empty() } else { line })
}

/// Final usage of a tracker state: a last unterminated line is parsed too.
pub open spec fn finished(state: (RawUsage, Seq<u8>)) -> Usage {
    finalize(absorb_bytes(state.0, state.1))
}

/// Usage of a whole SSE body.
pub open spec fn sse_usage(body: Seq<u8>) -> Usage {
    finished(fed((raw_none(), Seq::empty()), body))
}

/// Usage of a body according to its content type.
pub open spec fn usage_for(content_type: Seq<char>, body: Seq<char>) -> Usage {
    if body.len() == 0 {
        Usage::spec_zero()
    } else if contains(content_type, "text/event-stream"@) {
        sse_usage(vstd::utf8::encode_utf8(body))
    } else {
        json_usage(body)
    }
}

fn count_of_exec(u: &Json, primary: &str, fallback: &str) -> (r: Option<i64>)
    ensures
        r == count_of(*u, primary@, fallback@),
{
    match u.get(primary) {
        Some(x) => x.as_i64(),
        None => match u.get(fallback) {
            Some(x) => x.as_i64(),
            None => None,
        },
    }
}

fn int_member(u: &Json, key: &str) -> (r: Option<i64>)
    ensures
        r == (match get(*u, key@) {
            Some(x) => as_i64(x),
            None => None,
        }),
{
    match u.get(key) {
        Some(x) => x.as_i64(),
        None => None,
    }
}

/// The counts a response value reports.
pub fn normalize_usage(v: &Json) -> (r: RawUsage)
    ensures
        r == normalize(*v),
{
    let usage = match v.get("usage") {
        Some(u) => Some(u),
        None => match v.get("message") {
            Some(m) => m.get("usage"),
            None => None,
        },
    };
    let u = match usage {
        Some(u) => u,
        None => {
            return RawUsage {
                prompt: None,
                completion: None,
                total: None,
                cache_read: None,
                cache_creation: None,
            };
        },
    };
    if !u.is_object() {
        return RawUsage {
            prompt: None,
            completion: None,
            total: None,
            cache_read: None,
            cache_creation: None,
        };
    }
    RawUsage {
        prompt: count_of_exec(u, "prompt_tokens", "input_tokens"),
        completion: count_of_exec(u, "completion_tokens", "output_tokens"),
        total: int_member(u, "total_tokens"),
        cache_read: int_member(u, "cache_read_input_tokens"),
        cache_creation: int_member(u, "cache_creation_input_tokens"),
    }
}

fn or_zero_exec(o: Option<i64>) -> (r: i64)
    ensures
        r == or_zero(o),
{
    match o {
        Some(x) => x,
        None => 0,
    }
}

/// Final counts of `r`.
pub fn finalize_usage(r: &RawUsage) -> (u: Usage)
    ensures
        u == finalize(*r),
{
    let p = or_zero_exec(r.prompt);
    let c = or_zero_exec(r.completion);
    let cr = or_zero_exec(r.cache_read);
    let cc = or_zero_exec(r.cache_creation);
    let total = match r.total {
        Some(t) => t,
        None => p.wrapping_add(c).wrapping_add(cr).wrapping_add(cc),
    };
    Usage {
        prompt_tokens: p,
        completion_tokens: c,
        cache_read_tokens: cr,
        cache_creation_tokens: cc,
        total_tokens: total,
    }
}

/// Parses the usage of a non-streaming JSON response body (all zero when the body is not
/// JSON or reports no usage).
pub fn parse_json_usage(body: &str) -> (u: Usage)
    ensures
        u == json_usage(body@),
{
    match parse_json(body) {
        Some(v) => {
            let r = normalize_usage(&v);
            finalize_usage(&r)
        },
        None => Usage::zero(),
    }
}

fn merge_into(acc: &mut RawUsage, r: RawUsage)
    ensures
        *final(acc) == merge(*old(acc), r),
{
    if r.prompt.is_some() {
        acc.prompt = r.prompt;
    }
    if r.completion.is_some() {
        acc.completion = r.completion;
    }
    if r.total.is_some() {
        acc.total = r.total;
    }
    if r.cache_read.is_some() {
        acc.cache_read = r.cache_read;
    }
    if r.cache_creation.is_some() {
        acc.cache_creation = r.cache_creation;
    }
}

/// The characters of `s` from position `n` on.
pub fn skip_chars(s: &[char], n: usize) -> (r: Vec<char>)
    requires
        n <= s@.len(),
    ensures
        r@ == s@.skip(n as int),
{
    let mut r: Vec<char> = Vec::new();
    let mut k: usize = n;
    while k < s.len()
        invariant
            n <= k <= s@.len(),
            r@ == s@.subrange(n as int, k as int),
        decreases s.len() - k,
    {
        r.push(s[k]);
        assert(r@ =~= s@.subrange(n as int, k + 1));
        k = k + 1;
    }
    assert(s@.subrange(n as int, s@.len() as int) =~= s@.skip(n as int));
    r
}

/// Whether `a` and `b` hold the same characters.
pub fn same_chars(a: &[char], b: &[char]) -> (r: bool)
    ensures
        r == (a@ == b@),
{
    if a.len() != b.len() {
        return false;
    }
    let mut i: usize = 0;
    while i < a.len()
        invariant
            a@.len() == b@.len(),
            0 <= i <= a@.len(),
            forall|j: int| 0 <= j < i ==> a@[j] == b@[j],
        decreases a.len() - i,
    {
        if a[i] != b[i] {
            return false;
        }
        i = i + 1;
    }
    assert(a@ =~= b@);
    true
}

/// The trimmed payload of a `data:` line.
fn data_payload_exec(line: &[char]) -> (r: Option<Vec<char>>)
    ensures
        match r {
            Some(d) => data_payload(line@) == Some(d@),
            None => data_payload(line@) is None,
        },
{
    let prefix = chars_of("data:");
    if !has_prefix(line, prefix.as_slice()) {
        return None;
    }
    let rest = skip_chars(line, prefix.len());
    Some(trimmed(rest.as_slice()))
}

/// The payload of an SSE `data:` line that may carry JSON (not empty, not `[DONE]`).
fn json_payload(line: &[char]) -> (r: Option<Vec<char>>)
    ensures
        match r {
            Some(d) => data_payload(line@) == Some(d@) && d@.len() > 0 && d@ != "[DONE]"@,
            None => match data_payload(line@) {
                Some(d) => d.len() == 0 || d == "[DONE]"@,
                None => true,
            },
        },
{
    match data_payload_exec(line) {
        None => None,
        Some(d) => {
            let done = chars_of("[DONE]");
            if d.len() == 0 || same_chars(d.as_slice(), done.as_slice()) {
                None
            } else {
                Some(d)
            }
        },
    }
}

/// Folds one decoded SSE line into `acc`.
fn absorb_line(acc: &mut RawUsage, line: &[char])
    ensures
        *final(acc) == absorb(*old(acc), line@),
{
    if let Some(d) = json_payload(line) {
        let text = string_of(d.as_slice());
        if let Some(v) = parse_json(text.as_str()) {
            let r = normalize_usage(&v);
            merge_into(acc, r);
        }
    }
}

/// Incremental SSE usage parser: chunks are fed as they are forwarded, complete lines are
/// parsed at once and only the incomplete last line is kept.
pub struct SseUsageTracker {
    pending: Vec<u8>,
    usage: RawUsage,
}

impl SseUsageTracker {
    /// Counts seen so far and the incomplete line.
    pub closed spec fn state(&self) -> (RawUsage, Seq<u8>) {
        (self.usage, self.pending@)
    }

    /// A tracker that has seen nothing.
    pub fn new() -> (t: SseUsageTracker)
        ensures
            t.state() == (raw_none(), Seq::<u8>::empty()),
    {
        SseUsageTracker {
            pending: Vec::new(),
            usage: RawUsage {
                prompt: None,
                completion: None,
                total: None,
                cache_read: None,
                cache_creation: None,
            },
        }
    }

    /// Feeds one upstream chunk: complete lines are parsed now (each without its newline, so a
    /// line reads the same whether or not it was terminated), the rest is kept for the next
    /// chunk (and dropped if it grows beyond `MAX_PENDING` bytes).
    pub fn feed(&mut self, chunk: &[u8])
        ensures
            final(self).state() == fed(old(self).state(), chunk@),
    {
        let ghost start = self.state();
        let mut i: usize = 0;
        assert(chunk@.skip(0) =~= chunk@);
        while i < chunk.len()
            invariant
                0 <= i <= chunk@.len(),
                scan(start.0, start.1, chunk@) == scan(self.usage, self.pending@, chunk@.skip(i as int)),
            decreases chunk.len() - i,
        {
            let b = chunk[i];
            proof {
                let rest = chunk@.skip(i as int);
                assert(rest[0] == b);
                assert(rest.drop_first() =~= chunk@.skip(i + 1));
            }
            if b == 10u8 {
                if self.pending.len() > 0 {
                    let text = utf8_lossy(self.pending.as_slice());
                    let line = chars_of(text.as_str());
                    absorb_line(&mut self.usage, line.as_slice());
                }
                self.pending = Vec::new();
            } else {
                self.pending.push(b);
            }
            i = i + 1;
        }
        if self.pending.len() > MAX_PENDING {
            self.pending = Vec::new();
        }
        proof {
            assert(chunk@.skip(chunk@.len() as int) =~= Seq::<u8>::empty());
        }
    }

    /// Ends the stream: parses the last line (which may lack a newline) and returns the totals.
    pub fn finish(&self) -> (u: Usage)
        ensures
            u == finished(self.state()),
    {
        let mut acc = RawUsage {
            prompt: self.usage.prompt,
            completion: self.usage.completion,
            total: self.usage.total,
            cache_read: self.usage.cache_read,
            cache_creation: self.usage.cache_creation,
        };
        if self.pending.len() > 0 {
            let text = utf8_lossy(self.pending.as_slice());
            let line = chars_of(text.as_str());
            absorb_line(&mut acc, line.as_slice());
        }
        finalize_usage(&acc)
    }
}

/// Parses the usage of a whole SSE body: every `data:` line is parsed and later reports
/// override earlier ones (Anthropic `message_start` carries input and cache counts,
/// `message_delta` updates output; OpenAI reports in the last chunk).
pub fn parse_sse_usage(body: &str) -> (u: Usage)
    ensures
        u == sse_usage(vstd::utf8::encode_utf8(body@)),
{
    let mut tracker = SseUsageTracker::new();
    tracker.feed(body.as_bytes());
    tracker.finish()
}

/// Parses the usage of a response body according to its content type.
pub fn parse_usage(content_type: &str, body: &str) -> (u: Usage)
    ensures
        u == usage_for(content_type@, body@),
{
    if body.is_empty() {
        return Usage::zero();
    }
    let ct = chars_of(content_type);
    let sse = chars_of("text/event-stream");
    if has_substring(ct.as_slice(), sse.as_slice()) {
        parse_sse_usage(body)
    } else {
        parse_json_usage(body)
    }
}


// ---------------------------------------------------------------------------
// Laws of incremental parsing
// ---------------------------------------------------------------------------

/// Scanning `a + b` is scanning `a` and then `b` from where `a` left off.
pub proof fn lemma_scan_append(acc: RawUsage, line: Seq<u8>, a: Seq<u8>, b: Seq<u8>)
    ensures
        scan(acc, line, a + b) == ({
            let (acc1, line1) = scan(acc, line, a);
            scan(acc1, line1, b)
        }),
    decreases a.len(),
{
    if a.len() == 0 {
        assert(a + b =~= b);
    } else {
        assert((a + b)[0] == a[0]);
        assert((a + b).drop_first() =~= a.drop_first() + b);
        if a[0] == 10u8 {
            lemma_scan_append(absorb_bytes(acc, line), Seq::empty(), a.drop_first(), b);
        } else {
            lemma_scan_append(acc, line.push(a[0]), a.drop_first(), b);
        }
    }
}

/// Feeding a stream in two chunks gives the same tracker state as feeding it at once, as long
/// as the incomplete line between them was not dropped for exceeding `MAX_PENDING`: usage
/// does not depend on where the upstream splits its chunks.
pub proof fn lemma_feed_split(state: (RawUsage, Seq<u8>), a: Seq<u8>, b: Seq<u8>)
    requires
        scan(state.0, state.1, a).1.len() <= MAX_PENDING,
    ensures
        fed(fed(state, a), b) == fed(state, a + b),
{
    lemma_scan_append(state.0, state.1, a, b);
}

/// Feeding a body byte by byte (or in any chunks that each keep the pending line within
/// `MAX_PENDING`) and finishing yields `parse_sse_usage` of the whole body.
pub proof fn lemma_chunked_equals_whole(body: Seq<u8>, split: int)
    requires
        0 <= split <= body.len(),
        scan(raw_none(), Seq::empty(), body.take(split)).1.len() <= MAX_PENDING,
    ensures
        finished(fed(fed((raw_none(), Seq::empty()), body.take(split)), body.skip(split)))
            == sse_usage(body),
{
    assert(body.take(split) + body.skip(split) =~= body);
    lemma_feed_split((raw_none(), Seq::empty()), body.take(split), body.skip(split));
}

/// The tracker state after feeding `chunks` in order.
pub open spec fn fed_all(state: (RawUsage, Seq<u8>), chunks: Seq<Seq<u8>>) -> (RawUsage, Seq<u8>)
    decreases chunks.len(),
{
    if chunks.len() == 0 {
        state
    } else {
        fed(fed_all(state, chunks.drop_last()), chunks.last())
    }
}

/// The bytes of `chunks` one after the other.
pub open spec fn joined(chunks: Seq<Seq<u8>>) -> Seq<u8>
    decreases chunks.len(),
{
    if chunks.len() == 0 {
        Seq::empty()
    } else {
        joined(chunks.drop_last()) + chunks.last()
    }
}

/// Feeding a stream in any number of chunks gives the same tracker state as feeding it at
/// once, as long as the incomplete line at no chunk boundary exceeded `MAX_PENDING`.
pub proof fn lemma_feed_chunks(state: (RawUsage, Seq<u8>), chunks: Seq<Seq<u8>>)
    requires
        chunks.len() >= 1,
        forall|j: int|
            1 <= j < chunks.len() ==> (#[trigger] scan(state.0, state.1, joined(chunks.take(j)))).1.len()
                <= MAX_PENDING,
    ensures
        fed_all(state, chunks) == fed(state, joined(chunks)),
    decreases chunks.len(),
{
    let init = chunks.drop_last();
    if chunks.len() == 1 {
        assert(init =~= Seq::<Seq<u8>>::empty());
        assert(fed_all(state, init) == state);
        assert(joined(init) =~= Seq::<u8>::empty());
        assert(joined(chunks) =~= chunks.last());
    } else {
        assert forall|j: int| 1 <= j < init.len() implies (#[trigger] scan(
            state.0,
            state.1,
            joined(init.take(j)),
        )).1.len() <= MAX_PENDING by {
            assert(init.take(j) =~= chunks.take(j));
        }
        lemma_feed_chunks(state, init);
        assert(chunks.take(init.len() as int) =~= init);
        assert(scan(state.0, state.1, joined(chunks.take(init.len() as int))).1.len() <= MAX_PENDING);
        lemma_feed_split(state, joined(init), chunks.last());
    }
}

/// The usage of a stream fed in any chunks (none of whose boundaries fell after an incomplete
/// line longer than `MAX_PENDING`) is the usage of the whole body.
pub proof fn lemma_chunks_equal_whole(chunks: Seq<Seq<u8>>)
    requires
        chunks.len() >= 1,
        forall|j: int|
            1 <= j < chunks.len() ==> (#[trigger] scan(raw_none(), Seq::empty(), joined(chunks.take(j)))).1.len()
                <= MAX_PENDING,
    ensures
        finished(fed_all((raw_none(), Seq::empty()), chunks)) == sse_usage(joined(chunks)),
{
    lemma_feed_chunks((raw_none(), Seq::empty()), chunks);
}

/// `s` holds no newline byte.
pub open spec fn no_newline(s: Seq<u8>) -> bool {
    forall|i: int| 0 <= i < s.len() ==> s[i] != 10u8
}

/// No stretch of `b` without a newline is longer than `MAX_PENDING` bytes.
pub open spec fn short_lines(b: Seq<u8>) -> bool {
    forall|i: int, j: int|
        0 <= i <= j <= b.len() && #[trigger] no_newline(b.subrange(i, j)) ==> j - i <= MAX_PENDING
}

/// What a scan keeps as its incomplete line is the end of the bytes scanned (after the
/// incomplete line it started from) that holds no newline.
pub proof fn lemma_scan_residue(acc: RawUsage, line: Seq<u8>, s: Seq<u8>)
    requires
        no_newline(line),
    ensures
        exists|t: int|
            0 <= t <= line.len() + s.len() && scan(acc, line, s).1 == #[trigger] (line + s).skip(t)
                && no_newline((line + s).skip(t)),
    decreases s.len(),
{
    if s.len() == 0 {
        assert((line + s).skip(0) =~= line);
    } else {
        let line2 = line.push(s[0]);
        if s[0] == 10u8 {
            let acc2 = absorb_bytes(acc, line);
            let e = Seq::<u8>::empty();
            lemma_scan_residue(acc2, e, s.drop_first());
            let t2 = choose|t: int|
                0 <= t <= e.len() + s.drop_first().len() && scan(acc2, e, s.drop_first()).1
                    == #[trigger] (e + s.drop_first()).skip(t) && no_newline((e + s.drop_first()).skip(t));
            let t = line.len() + 1 + t2;
            assert((line + s).skip(t) =~= (e + s.drop_first()).skip(t2));
        } else {
            lemma_scan_residue(acc, line2, s.drop_first());
            assert(line2 + s.drop_first() =~= line + s);
        }
    }
}

/// The bytes of the first `j` chunks begin the bytes of all of them.
pub proof fn lemma_joined_prefix(chunks: Seq<Seq<u8>>, j: int)
    requires
        0 <= j <= chunks.len(),
    ensures
        joined(chunks.take(j)).len() <= joined(chunks).len(),
        joined(chunks).take(joined(chunks.take(j)).len() as int) == joined(chunks.take(j)),
    decreases chunks.len(),
{
    if j == chunks.len() {
        assert(chunks.take(j) =~= chunks);
        assert(joined(chunks).take(joined(chunks).len() as int) =~= joined(chunks));
    } else {
        let init = chunks.drop_last();
        lemma_joined_prefix(init, j);
        assert(init.take(j) =~= chunks.take(j));
        assert(joined(chunks) == joined(init) + chunks.last());
        assert(joined(chunks).take(joined(chunks.take(j)).len() as int) =~= joined(init).take(
            joined(chunks.take(j)).len() as int,
        ));
    }
}

/// The usage counted while a stream is forwarded in any chunks (split anywhere, even inside a
/// character) is the usage of the whole stream, as long as no line of it is longer than
/// `MAX_PENDING` bytes.
pub proof fn lemma_stream_usage_chunk_independent(chunks: Seq<Seq<u8>>)
    requires
        short_lines(joined(chunks)),
    ensures
        finished(fed_all((raw_none(), Seq::empty()), chunks)) == sse_usage(joined(chunks)),
{
    let b = joined(chunks);
    if chunks.len() == 0 {
        assert(b =~= Seq::<u8>::empty());
        assert(scan(raw_none(), Seq::<u8>::empty(), b) == (raw_none(), Seq::<u8>::empty()));
    } else {
        assert forall|j: int| 1 <= j < chunks.len() implies (#[trigger] scan(
            raw_none(),
            Seq::empty(),
            joined(chunks.take(j)),
        )).1.len() <= MAX_PENDING by {
            let p = joined(chunks.take(j));
            let e = Seq::<u8>::empty();
            lemma_joined_prefix(chunks, j);
            lemma_scan_residue(raw_none(), e, p);
            let t = choose|t: int|
                0 <= t <= e.len() + p.len() && scan(raw_none(), e, p).1 == #[trigger] (e + p).skip(t)
                    && no_newline((e + p).skip(t));
            assert((e + p).skip(t) =~= b.subrange(t, p.len() as int));
            assert(no_newline(b.subrange(t, p.len() as int)));
        }
        lemma_chunks_equal_whole(chunks);
    }
}

/// Scanning one newline-terminated line (with nothing else) folds exactly that line.
pub proof fn lemma_scan_one_line(acc: RawUsage, line: Seq<u8>, s: Seq<u8>)
    requires
        s.len() > 0,
        s.last() == 10u8,
        no_newline(s.drop_last()),
    ensures
        scan(acc, line, s) == (absorb_bytes(acc, line + s.drop_last()), Seq::<u8>::empty()),
    decreases s.len(),
{
    if s.len() == 1 {
        assert(s[0] == s.last());
        assert(line + s.drop_last() =~= line);
        assert(s.drop_first() =~= Seq::<u8>::empty());
        assert(scan(absorb_bytes(acc, line), Seq::empty(), s.drop_first()) == (
            absorb_bytes(acc, line),
            Seq::<u8>::empty(),
        ));
    } else {
        assert(s[0] == s.drop_last()[0]);
        assert(s[0] != 10u8);
        assert(s.drop_first().last() == s.last());
        assert(s.drop_first().drop_last() =~= s.drop_last().drop_first());
        assert(no_newline(s.drop_first().drop_last())) by {
            assert forall|i: int| 0 <= i < s.drop_first().drop_last().len() implies s.drop_first().drop_last()[i]
                != 10u8 by {
                assert(s.drop_first().drop_last()[i] == s.drop_last()[i + 1]);
            }
        }
        lemma_scan_one_line(acc, line.push(s[0]), s.drop_first());
        assert(line.push(s[0]) + s.drop_first().drop_last() =~= line + s.drop_last());
    }
}

/// After bytes that are empty or end with a newline, no incomplete line is left.
pub proof fn lemma_scan_line_end(a: Seq<u8>)
    requires
        a.len() == 0 || a.last() == 10u8,
    ensures
        scan(raw_none(), Seq::empty(), a).1 == Seq::<u8>::empty(),
{
    let e = Seq::<u8>::empty();
    lemma_scan_residue(raw_none(), e, a);
    let t = choose|t: int|
        0 <= t <= e.len() + a.len() && scan(raw_none(), e, a).1 == #[trigger] (e + a).skip(t)
            && no_newline((e + a).skip(t));
    assert(e + a =~= a);
    if t < a.len() {
        assert((e + a).skip(t)[a.len() - 1 - t] == a.last());
    }
    assert((e + a).skip(t) =~= Seq::<u8>::empty());
}

/// Inserting, at the start of a stream or right after one of its newlines, a line that counts
/// nothing (an `event:` line, a comment, a blank line, `data: [DONE]`, a payload without usage)
/// leaves the usage of the stream unchanged.
pub proof fn lemma_ignored_line_inserted(a: Seq<u8>, line: Seq<u8>, b: Seq<u8>)
    requires
        a.len() == 0 || a.last() == 10u8,
        line.len() > 0,
        line.last() == 10u8,
        no_newline(line.drop_last()),
        forall|acc: RawUsage| #[trigger] absorb_bytes(acc, line.drop_last()) == acc,
    ensures
        sse_usage(a + line + b) == sse_usage(a + b),
{
    let e = Seq::<u8>::empty();
    lemma_scan_append(raw_none(), e, a, line + b);
    lemma_scan_append(raw_none(), e, a, b);
    assert(a + line + b =~= a + (line + b));
    let (acc1, line1) = scan(raw_none(), e, a);
    lemma_scan_line_end(a);
    lemma_scan_append(acc1, e, line, b);
    lemma_scan_one_line(acc1, e, line);
    assert(e + line.drop_last() =~= line.drop_last());
}

/// Scanning bytes without a newline only extends the incomplete line.
pub proof fn lemma_scan_no_newline(acc: RawUsage, line: Seq<u8>, x: Seq<u8>)
    requires
        no_newline(x),
    ensures
        scan(acc, line, x) == (acc, line + x),
    decreases x.len(),
{
    if x.len() == 0 {
        assert(line + x =~= line);
    } else {
        assert(x[0] != 10u8);
        assert(no_newline(x.drop_first())) by {
            assert forall|i: int| 0 <= i < x.drop_first().len() implies x.drop_first()[i] != 10u8 by {
                assert(x.drop_first()[i] == x[i + 1]);
            }
        }
        lemma_scan_no_newline(acc, line.push(x[0]), x.drop_first());
        assert(line.push(x[0]) + x.drop_first() =~= line + x);
    }
}

/// An unterminated last line is counted at the end of the stream exactly as if it had ended
/// with a newline (as long as it was not dropped for exceeding `MAX_PENDING`).
pub proof fn lemma_unterminated_last_line(state: (RawUsage, Seq<u8>), x: Seq<u8>)
    requires
        no_newline(x),
        state.1.len() + x.len() <= MAX_PENDING,
    ensures
        finished(fed(state, x)) == finished(fed(state, x.push(10u8))),
{
    lemma_scan_no_newline(state.0, state.1, x);
    lemma_scan_append(state.0, state.1, x, seq![10u8]);
    let (acc1, line1) = scan(state.0, state.1, x);
    let nl = seq![10u8];
    assert(nl.len() == 1 && nl[0] == 10u8);
    assert(nl.drop_first() =~= Seq::<u8>::empty());
    assert(scan(absorb_bytes(acc1, line1), Seq::empty(), nl.drop_first()) == (
        absorb_bytes(acc1, line1),
        Seq::<u8>::empty(),
    ));
    assert(scan(acc1, line1, nl) == (absorb_bytes(acc1, line1), Seq::<u8>::empty()));
    assert(x + nl =~= x.push(10u8));
}

/// A `data:` line, with or without blanks after the colon, whose payload is a JSON value
/// (other than `[DONE]`) is merged into the counts: the value's usage overrides what was seen.
pub proof fn lemma_data_line_counts(acc: RawUsage, rest: Seq<char>, v: Json)
    requires
        trim(rest).len() > 0,
        trim(rest) != "[DONE]"@,
        spec_parse_json(trim(rest)) == Some(v),
    ensures
        absorb(acc, "data:"@ + rest) == merge(acc, normalize(v)),
{
    reveal_strlit("data:");
    let line = "data:"@ + rest;
    assert(line.take(5) =~= "data:"@);
    assert(line.skip(5) =~= rest);
}

/// A decoded line that is not a `data:` line (an `event:` line, a comment, a blank line)
/// changes nothing.
pub proof fn lemma_other_lines_ignored(acc: RawUsage, line: Seq<char>)
    requires
        !starts_with(line, "data:"@),
    ensures
        absorb(acc, line) == acc,
{
}

// ---------------------------------------------------------------------------
// Model extraction
// ---------------------------------------------------------------------------

/// The model a value names at the top level or in `message` (Anthropic `message_start`).
pub open spec fn value_model(v: Json) -> Option<Seq<char>> {
    match get(v, "model"@) {
        Some(m) => as_text(m),
        None => match get(v, "message"@) {
            Some(msg) => match get(msg, "model"@) {
                Some(m) => as_text(m),
                None => None,
            },
            None => None,
        },
    }
}

/// The model named by one SSE line.
pub open spec fn line_model(line: Seq<char>) -> Option<Seq<char>> {
    match data_payload(line) {
        None => None,
        Some(d) => if d.len() == 0 || d == "[DONE]"@ {
            None
        } else {
            match spec_parse_json(d) {
                Some(v) => value_model(v),
                None => None,
            }
        },
    }
}

/// A line ended by `\n` loses one trailing `\r` (as `str::lines` does).
pub open spec fn strip_cr(line: Seq<char>) -> Seq<char> {
    if line.len() > 0 && line.last() == '\r' {
        line.drop_last()
    } else {
        line
    }
}

/// The first model named by the lines of `rest`, `line` being the start of the current line.
pub open spec fn scan_model(line: Seq<char>, rest: Seq<char>) -> Option<Seq<char>>
    decreases rest.len(),
{
    if rest.len() == 0 {
        line_model(line)
    } else if rest[0] == '\n' {
        match line_model(strip_cr(line)) {
            Some(m) => Some(m),
            None => scan_model(Seq::empty(), rest.drop_first()),
        }
    } else {
        scan_model(line.push(rest[0]), rest.drop_first())
    }
}

/// The model named by a body: the top-level `model` of a JSON body, else the first SSE line
/// naming one.
pub open spec fn text_model(body: Seq<char>) -> Option<Seq<char>> {
    let whole = match spec_parse_json(body) {
        Some(v) => match get(v, "model"@) {
            Some(m) => as_text(m),
            None => None,
        },
        None => None,
    };
    match whole {
        Some(m) => Some(m),
        None => scan_model(Seq::empty(), body),
    }
}

/// The model of an exchange: the request's, else the response's, else empty.
pub open spec fn exchange_model(req: Seq<char>, resp: Seq<char>) -> Seq<char> {
    match text_model(req) {
        Some(m) => m,
        None => match text_model(resp) {
            Some(m) => m,
            None => Seq::empty(),
        },
    }
}

fn value_model_exec(v: &Json) -> (r: Option<String>)
    ensures
        match r {
            Some(m) => value_model(*v) == Some(m@),
            None => value_model(*v) is None,
        },
{
    let m = match v.get("model") {
        Some(m) => Some(m),
        None => match v.get("message") {
            Some(msg) => msg.get("model"),
            None => None,
        },
    };
    match m {
        Some(m) => match m.as_str() {
            Some(s) => Some(s.clone()),
            None => None,
        },
        None => None,
    }
}

fn line_model_exec(line: &[char]) -> (r: Option<String>)
    ensures
        match r {
            Some(m) => line_model(line@) == Some(m@),
            None => line_model(line@) is None,
        },
{
    match json_payload(line) {
        None => None,
        Some(d) => {
            let text = string_of(d.as_slice());
            match parse_json(text.as_str()) {
                Some(v) => value_model_exec(&v),
                None => None,
            }
        },
    }
}

fn strip_cr_exec(line: Vec<char>) -> (r: Vec<char>)
    ensures
        r@ == strip_cr(line@),
{
    let mut line = line;
    if line.len() > 0 && line[line.len() - 1] == '\r' {
        line.pop();
    }
    line
}

fn model_from_text(body: &str) -> (r: Option<String>)
    ensures
        match r {
            Some(m) => text_model(body@) == Some(m@),
            None => text_model(body@) is None,
        },
{
    if let Some(v) = parse_json(body) {
        if let Some(m) = v.get("model") {
            if let Some(s) = m.as_str() {
                return Some(s.clone());
            }
        }
    }
    let cs = chars_of(body);
    let mut line: Vec<char> = Vec::new();
    let mut i: usize = 0;
    assert(cs@.skip(0) =~= cs@);
    while i < cs.len()
        invariant
            0 <= i <= cs@.len(),
            cs@ == body@,
            text_model(body@) == scan_model(line@, cs@.skip(i as int)),
        decreases cs.len() - i,
    {
        let c = cs[i];
        proof {
            let rest = cs@.skip(i as int);
            assert(rest[0] == c);
            assert(rest.drop_first() =~= cs@.skip(i + 1));
        }
        if c == '\n' {
            let l = strip_cr_exec(line);
            if let Some(m) = line_model_exec(l.as_slice()) {
                return Some(m);
            }
            line = Vec::new();
        } else {
            line.push(c);
        }
        i = i + 1;
    }
    assert(cs@.skip(cs@.len() as int) =~= Seq::<char>::empty());
    line_model_exec(line.as_slice())
}

/// The model of an exchange: the request body's `model` (Anthropic and OpenAI requests carry
/// it), else the response's (JSON top level or SSE `message_start`), else empty.
pub fn extract_model(req_body: &str, resp_body: &str) -> (r: String)
    ensures
        r@ == exchange_model(req_body@, resp_body@),
{
    match model_from_text(req_body) {
        Some(m) => m,
        None => match model_from_text(resp_body) {
            Some(m) => m,
            None => String::new(),
        },
    }
}

} // verus!
