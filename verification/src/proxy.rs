use vstd::prelude::*;
use crate::sqlite::{Db, Sent};
use vstd::utf8::{encode_scalar, encode_utf8};

use crate::json::json_quoted;
use crate::db::{
    add_binding_usage, add_usage_write, get_message, insert_message, insert_message_write, message_row,
    stored_message, Aggregator, MessageRow, NewMessage, GET_MESSAGE_SQL,
};
use crate::strategy::StrategyPick;
use crate::text::{chars_of, contains, has_substring, spec_utf8_lossy, string_of, trim, trimmed, utf8_lossy};
use crate::usage::{
    exchange_model, extract_model, fed, finished, parse_usage, raw_none, same_chars, usage_for, RawUsage,
    SseUsageTracker, Usage,
};

verus! {

/// Largest request body read from a client (10 MiB).
pub const MAX_REQUEST_BODY: usize = 10485760;

/// Largest request/response body stored with a message (2 MiB); longer ones are cut and marked.
pub const MAX_STORED_BODY: usize = 2097152;

/// Largest non-streaming upstream response read (64 MiB).
pub const MAX_RESPONSE_BODY: usize = 67108864;

/// Marker appended to a stored body that was cut.
pub const TRUNCATION_MARK: &'static str = "\n…[已截断]";

// ---------------------------------------------------------------------------
// UTF-8 lengths
// ---------------------------------------------------------------------------

/// Length in bytes of the UTF-8 encoding of `cs` (what `str::len` counts).
pub open spec fn utf8_len(cs: Seq<char>) -> nat {
    encode_utf8(cs).len()
}

proof fn lemma_encode_push(cs: Seq<char>, c: char)
    ensures
        encode_utf8(cs.push(c)) == encode_utf8(cs) + encode_scalar(c as u32),
    decreases cs.len(),
{
    if cs.len() == 0 {
        assert(cs.push(c).drop_first() =~= Seq::<char>::empty());
        assert(encode_utf8(Seq::<char>::empty()) =~= Seq::<u8>::empty());
        assert(encode_utf8(cs.push(c)) =~= encode_scalar(c as u32) + encode_utf8(
            Seq::<char>::empty(),
        ));
        assert(encode_utf8(cs) =~= Seq::<u8>::empty());
        assert(encode_utf8(cs.push(c)) =~= encode_utf8(cs) + encode_scalar(c as u32));
    } else {
        assert(cs.push(c).drop_first() =~= cs.drop_first().push(c));
        assert(cs.push(c)[0] == cs[0]);
        lemma_encode_push(cs.drop_first(), c);
        assert(encode_utf8(cs.push(c)) =~= encode_scalar(cs[0] as u32) + (encode_utf8(
            cs.drop_first(),
        ) + encode_scalar(c as u32)));
        assert(encode_utf8(cs.push(c)) =~= encode_utf8(cs) + encode_scalar(c as u32));
    }
}

/// Adding a character adds its encoded width.
proof fn lemma_utf8_len_take(cs: Seq<char>, k: int)
    requires
        0 <= k < cs.len(),
    ensures
        utf8_len(cs.take(k + 1)) == utf8_len(cs.take(k)) + encode_scalar(cs[k] as u32).len(),
{
    assert(cs.take(k + 1) =~= cs.take(k).push(cs[k]));
    lemma_encode_push(cs.take(k), cs[k]);
}

/// Bytes needed to encode `c` in UTF-8.
fn char_width(c: char) -> (r: usize)
    ensures
        r == encode_scalar(c as u32).len(),
        1 <= r <= 4,
{
    proof {
        vstd::utf8::char_is_scalar(c);
    }
    let u = c as u32;
    if u <= 0x7F {
        1
    } else if u <= 0x7FF {
        2
    } else if u <= 0xFFFF {
        3
    } else {
        4
    }
}

/// `k` is the number of leading characters of `cs` that fit in `limit` bytes.
pub open spec fn fitting_prefix(cs: Seq<char>, limit: nat, k: int) -> bool {
    &&& 0 <= k <= cs.len()
    &&& utf8_len(cs.take(k)) <= limit
    &&& (k == cs.len() || utf8_len(cs.take(k + 1)) > limit)
}

/// What `cap_store` keeps of a text: the text itself when it fits in `MAX_STORED_BODY` bytes,
/// else its longest prefix that fits (cut at a character boundary) followed by the marker.
pub open spec fn capped(s: Seq<char>) -> Seq<char> {
    if utf8_len(s) <= MAX_STORED_BODY {
        s
    } else {
        let k = choose|k: int| fitting_prefix(s, MAX_STORED_BODY as nat, k);
        s.take(k) + TRUNCATION_MARK@
    }
}

/// The number of leading characters of `cs` that fit in `limit` bytes, and their byte length.
fn fitting_prefix_len(cs: &[char], limit: usize) -> (r: (usize, usize))
    ensures
        fitting_prefix(cs@, limit as nat, r.0 as int),
        r.1 == utf8_len(cs@.take(r.0 as int)),
{
    let mut k: usize = 0;
    let mut bytes: usize = 0;
    assert(cs@.take(0) =~= Seq::<char>::empty());
    assert(encode_utf8(Seq::<char>::empty()) =~= Seq::<u8>::empty());
    while k < cs.len()
        invariant
            0 <= k <= cs@.len(),
            bytes == utf8_len(cs@.take(k as int)),
            bytes <= limit,
        decreases cs.len() - k,
    {
        let w = char_width(cs[k]);
        proof {
            lemma_utf8_len_take(cs@, k as int);
        }
        if w > limit - bytes {
            return (k, bytes);
        }
        bytes = bytes + w;
        k = k + 1;
    }
    (k, bytes)
}

/// The stored text of a request body received as bytes: decoded lossily (invalid UTF-8
/// becomes U+FFFD), then capped as [`cap_store`] does.
pub fn stored_request(body: &[u8]) -> (r: String)
    ensures
        r@ == capped(spec_utf8_lossy(body@)),
{
    let text = utf8_lossy(body);
    cap_store(text.as_str())
}

/// The text of a request or response body as stored with a message: cut to
/// `MAX_STORED_BODY` bytes at a character boundary and marked when longer.
pub fn cap_store(s: &str) -> (r: String)
    ensures
        r@ == capped(s@),
{
    if s.as_bytes().len() <= MAX_STORED_BODY {
        return s.to_owned();
    }
    let cs = chars_of(s);
    let (k, _) = fitting_prefix_len(cs.as_slice(), MAX_STORED_BODY);
    proof {
        let k2 = choose|k: int| fitting_prefix(s@, MAX_STORED_BODY as nat, k);
        assert(fitting_prefix(s@, MAX_STORED_BODY as nat, k2));
        if k2 < k {
            lemma_prefix_len_monotone(s@, k2 + 1, k as int);
        } else if k < k2 {
            lemma_prefix_len_monotone(s@, k + 1, k2);
        }
    }
    let mut kept = cs;
    kept.truncate(k);
    let mut out = string_of(kept.as_slice());
    out.append(TRUNCATION_MARK);
    assert(kept@ =~= s@.take(k as int));
    out
}

/// Longer prefixes need at least as many bytes.
proof fn lemma_prefix_len_monotone(cs: Seq<char>, a: int, b: int)
    requires
        0 <= a <= b <= cs.len(),
    ensures
        utf8_len(cs.take(a)) <= utf8_len(cs.take(b)),
    decreases b - a,
{
    if a < b {
        lemma_prefix_len_monotone(cs, a, b - 1);
        lemma_utf8_len_take(cs, b - 1);
    }
}

proof fn lemma_fitting_prefix_exists(cs: Seq<char>, limit: nat)
    ensures
        exists|k: int| fitting_prefix(cs, limit, k),
    decreases cs.len(),
{
    if utf8_len(cs) <= limit {
        assert(cs.take(cs.len() as int) =~= cs);
        assert(fitting_prefix(cs, limit, cs.len() as int));
    } else {
        let d = cs.drop_last();
        assert(cs.take(cs.len() - 1) =~= d);
        if utf8_len(d) <= limit {
            assert(cs.take(cs.len() as int) =~= cs);
            assert(fitting_prefix(cs, limit, cs.len() - 1));
        } else {
            lemma_fitting_prefix_exists(d, limit);
            let k = choose|k: int| fitting_prefix(d, limit, k);
            assert(d.take(d.len() as int) =~= d);
            assert(k < d.len());
            assert(cs.take(k) =~= d.take(k));
            assert(cs.take(k + 1) =~= d.take(k + 1));
            assert(fitting_prefix(cs, limit, k));
        }
    }
}

/// A stored body is the text itself when it fits in `MAX_STORED_BODY` bytes; otherwise it is
/// the longest prefix of whole characters that fits, then the marker: never more than
/// `MAX_STORED_BODY` bytes of the text, and never a torn character.
pub proof fn lemma_stored_body_bounded(s: Seq<char>)
    ensures
        utf8_len(s) <= MAX_STORED_BODY ==> capped(s) == s,
        utf8_len(s) > MAX_STORED_BODY ==> exists|k: int|
            0 <= k < s.len() && capped(s) == s.take(k) + TRUNCATION_MARK@ && utf8_len(
                #[trigger] s.take(k),
            ) <= MAX_STORED_BODY && utf8_len(s.take(k + 1)) > MAX_STORED_BODY,
{
    if utf8_len(s) > MAX_STORED_BODY {
        lemma_fitting_prefix_exists(s, MAX_STORED_BODY as nat);
        let k = choose|k: int| fitting_prefix(s, MAX_STORED_BODY as nat, k);
        assert(s.take(s.len() as int) =~= s);
        assert(k < s.len());
        assert(capped(s) == s.take(k) + TRUNCATION_MARK@);
    }
}

/// `b` is a UTF-8 continuation byte.
pub open spec fn is_continuation(b: u8) -> bool {
    0x80 <= b <= 0xBF
}

/// `b1` may follow the lead byte `b0` of a three-byte UTF-8 sequence.
pub open spec fn second_of_three(b0: u8, b1: u8) -> bool {
    if b0 == 0xE0 {
        0xA0 <= b1 <= 0xBF
    } else if b0 == 0xED {
        0x80 <= b1 <= 0x9F
    } else {
        is_continuation(b1)
    }
}

/// `b1` may follow the lead byte `b0` of a four-byte UTF-8 sequence.
pub open spec fn second_of_four(b0: u8, b1: u8) -> bool {
    if b0 == 0xF0 {
        0x90 <= b1 <= 0xBF
    } else if b0 == 0xF4 {
        0x80 <= b1 <= 0x8F
    } else {
        is_continuation(b1)
    }
}

/// `t` is the start of the UTF-8 encoding of a character without its end: a lead byte and
/// fewer continuation bytes than the character needs.
pub open spec fn incomplete_char(t: Seq<u8>) -> bool {
    &&& t.len() >= 1
    &&& {
        ||| (0xC2 <= t[0] <= 0xDF && t.len() == 1)
        ||| (0xE0 <= t[0] <= 0xEF && t.len() <= 2 && (t.len() == 2 ==> second_of_three(t[0], t[1])))
        ||| (0xF0 <= t[0] <= 0xF4 && t.len() <= 3 && (t.len() >= 2 ==> second_of_four(t[0], t[1]))
            && (t.len() == 3 ==> is_continuation(t[2])))
    }
}

/// The bytes end in a character torn at its end (what a cut inside a character leaves).
pub open spec fn ends_torn(buf: Seq<u8>) -> bool {
    exists|k: int| 1 <= k <= 3 && k <= buf.len() && #[trigger] incomplete_char(buf.subrange(buf.len() - k, buf.len() as int))
}

/// The text stored for a streamed response: the captured bytes decoded lossily as a whole
/// (so chunk boundaries cannot tear characters); when capture was cut, the replacement
/// character that a character torn by the cut decodes to is dropped, and the marker appended.
/// A complete U+FFFD the stream itself carried is kept.
pub open spec fn stored_stream_text(buf: Seq<u8>, truncated: bool) -> Seq<char> {
    let s = spec_utf8_lossy(buf);
    if truncated {
        let kept = if ends_torn(buf) && s.len() > 0 && s.last() == '\u{FFFD}' {
            s.drop_last()
        } else {
            s
        };
        kept + TRUNCATION_MARK@
    } else {
        s
    }
}

fn incomplete_tail(buf: &[u8], k: usize) -> (r: bool)
    requires
        1 <= k <= 3,
        k <= buf@.len(),
    ensures
        r == incomplete_char(buf@.subrange(buf@.len() - k, buf@.len() as int)),
{
    let n = buf.len();
    let ghost t = buf@.subrange(n - k, n as int);
    assert(t.len() == k);
    let b0 = buf[n - k];
    assert(t[0] == b0);
    if 0xC2 <= b0 && b0 <= 0xDF {
        return k == 1;
    }
    if 0xE0 <= b0 && b0 <= 0xEF {
        if k == 3 {
            return false;
        }
        if k == 1 {
            return true;
        }
        let b1 = buf[n - 1];
        assert(t[1] == b1);
        return if b0 == 0xE0 {
            0xA0 <= b1 && b1 <= 0xBF
        } else if b0 == 0xED {
            0x80 <= b1 && b1 <= 0x9F
        } else {
            0x80 <= b1 && b1 <= 0xBF
        };
    }
    if 0xF0 <= b0 && b0 <= 0xF4 {
        if k == 1 {
            return true;
        }
        let b1 = buf[n - k + 1];
        assert(t[1] == b1);
        let second = if b0 == 0xF0 {
            0x90 <= b1 && b1 <= 0xBF
        } else if b0 == 0xF4 {
            0x80 <= b1 && b1 <= 0x8F
        } else {
            0x80 <= b1 && b1 <= 0xBF
        };
        if k == 2 {
            return second;
        }
        let b2 = buf[n - 1];
        assert(t[2] == b2);
        return second && 0x80 <= b2 && b2 <= 0xBF;
    }
    false
}

/// Whether the bytes end in a character torn at its end.
pub fn torn_at_end(buf: &[u8]) -> (r: bool)
    ensures
        r == ends_torn(buf@),
{
    let mut k: usize = 1;
    while k <= 3 && k <= buf.len()
        invariant
            1 <= k <= 4,
            forall|j: int| 1 <= j < k && j <= buf@.len() ==> !#[trigger] incomplete_char(
                buf@.subrange(buf@.len() - j, buf@.len() as int),
            ),
        decreases 4 - k,
    {
        if incomplete_tail(buf, k) {
            return true;
        }
        k = k + 1;
    }
    false
}

/// Decodes the bytes captured from a stream for storage.
pub fn decode_sse_stored(buf: &[u8], truncated: bool) -> (r: String)
    ensures
        r@ == stored_stream_text(buf@, truncated),
{
    let s = utf8_lossy(buf);
    if !truncated {
        return s;
    }
    let torn = torn_at_end(buf);
    let mut cs = chars_of(s.as_str());
    if torn && cs.len() > 0 && cs[cs.len() - 1] == '\u{FFFD}' {
        cs.pop();
    }
    let mut out = string_of(cs.as_slice());
    out.append(TRUNCATION_MARK);
    out
}


// ---------------------------------------------------------------------------
// Capturing a streamed response for storage
// ---------------------------------------------------------------------------

/// One forwarded chunk recorded into the capture `state` (kept bytes, cut): bytes beyond
/// `MAX_STORED_BODY` are not kept, and a chunk arriving when the capture is full or
/// overflowing it marks the capture as cut.
pub open spec fn capture_step(state: (Seq<u8>, bool), chunk: Seq<u8>) -> (Seq<u8>, bool) {
    let (before, was_cut) = state;
    let kept = if before.len() + chunk.len() <= MAX_STORED_BODY {
        (before.len() + chunk.len()) as int
    } else {
        MAX_STORED_BODY as int
    };
    (
        (before + chunk).take(kept),
        was_cut || before.len() == MAX_STORED_BODY || before.len() + chunk.len() > MAX_STORED_BODY,
    )
}

/// The capture of a whole stream, chunk by chunk from an empty capture.
pub open spec fn capture_all(chunks: Seq<Seq<u8>>) -> (Seq<u8>, bool)
    decreases chunks.len(),
{
    if chunks.len() == 0 {
        (Seq::empty(), false)
    } else {
        capture_step(capture_all(chunks.drop_last()), chunks.last())
    }
}

/// The bytes of a stream sent as `chunks`.
pub open spec fn stream_bytes(chunks: Seq<Seq<u8>>) -> Seq<u8>
    decreases chunks.len(),
{
    if chunks.len() == 0 {
        Seq::empty()
    } else {
        stream_bytes(chunks.drop_last()) + chunks.last()
    }
}

/// However a stream is cut into chunks, the capture keeps exactly its first
/// `MAX_STORED_BODY` bytes (all of them when it is shorter); it is marked cut whenever the
/// stream is longer, and only when at least `MAX_STORED_BODY` bytes came.
pub proof fn lemma_capture_keeps_stream_prefix(chunks: Seq<Seq<u8>>)
    ensures
        ({
            let bytes = stream_bytes(chunks);
            let (kept, cut) = capture_all(chunks);
            &&& kept == bytes.take(
                if bytes.len() <= MAX_STORED_BODY {
                    bytes.len() as int
                } else {
                    MAX_STORED_BODY as int
                },
            )
            &&& bytes.len() > MAX_STORED_BODY ==> cut
            &&& cut ==> bytes.len() >= MAX_STORED_BODY
        }),
    decreases chunks.len(),
{
    if chunks.len() > 0 {
        let rest = chunks.drop_last();
        let last = chunks.last();
        lemma_capture_keeps_stream_prefix(rest);
        let before = stream_bytes(rest);
        let bytes = stream_bytes(chunks);
        let (kept0, cut0) = capture_all(rest);
        assert(bytes == before + last);
        if before.len() <= MAX_STORED_BODY {
            assert(kept0 =~= before);
            if before.len() + last.len() <= MAX_STORED_BODY {
                assert((kept0 + last).take((kept0.len() + last.len()) as int) =~= bytes);
            } else {
                assert((kept0 + last).take(MAX_STORED_BODY as int) =~= bytes.take(MAX_STORED_BODY as int));
            }
        } else {
            assert(kept0.len() == MAX_STORED_BODY);
            assert((kept0 + last).take(MAX_STORED_BODY as int) =~= bytes.take(MAX_STORED_BODY as int));
        }
    }
}

/// What is kept of a streamed response while it is forwarded: the bytes for storage (capped)
/// and the usage counted over every forwarded chunk.
pub struct StreamCapture {
    buf: Vec<u8>,
    truncated: bool,
    tracker: SseUsageTracker,
}

impl StreamCapture {
    /// Never more than `MAX_STORED_BODY` bytes are kept.
    #[verifier::type_invariant]
    spec fn kept_bounded(self) -> bool {
        self.buf@.len() <= MAX_STORED_BODY
    }

    /// The kept bytes and whether anything was cut.
    pub closed spec fn state(&self) -> (Seq<u8>, bool) {
        (self.buf@, self.truncated)
    }

    /// The state of the usage count over the chunks forwarded so far.
    pub closed spec fn usage_state(&self) -> (RawUsage, Seq<u8>) {
        self.tracker.state()
    }

    /// Nothing captured yet.
    pub fn new() -> (c: StreamCapture)
        ensures
            c.state() == (Seq::<u8>::empty(), false),
            c.usage_state() == (raw_none(), Seq::<u8>::empty()),
    {
        StreamCapture { buf: Vec::new(), truncated: false, tracker: SseUsageTracker::new() }
    }

    /// Records one forwarded chunk: its usage is counted (the whole chunk, whatever is
    /// stored); bytes beyond `MAX_STORED_BODY` are not kept, and a chunk arriving when the
    /// capture is full or overflowing it marks the capture as cut.
    pub fn push(&mut self, chunk: &[u8])
        ensures
            final(self).state() == capture_step(old(self).state(), chunk@),
            final(self).usage_state() == fed(old(self).usage_state(), chunk@),
    {
        proof {
            use_type_invariant(&*self);
        }
        let mut tracker = SseUsageTracker::new();
        std::mem::swap(&mut tracker, &mut self.tracker);
        tracker.feed(chunk);
        self.tracker = tracker;
        let ghost before = self.buf@;
        let ghost was_cut = self.truncated;
        if self.buf.len() < MAX_STORED_BODY {
            let remain = MAX_STORED_BODY - self.buf.len();
            let take = if chunk.len() > remain {
                remain
            } else {
                chunk.len()
            };
            let mut buf: Vec<u8> = Vec::new();
            std::mem::swap(&mut buf, &mut self.buf);
            let mut i: usize = 0;
            while i < take
                invariant
                    0 <= i <= take <= chunk@.len(),
                    take <= remain,
                    before.len() + remain == MAX_STORED_BODY,
                    buf@ == before + chunk@.take(i as int),
                decreases take - i,
            {
                buf.push(chunk[i]);
                assert(chunk@.take(i + 1) =~= chunk@.take(i as int).push(chunk@[i as int]));
                i = i + 1;
            }
            assert(buf@ =~= (before + chunk@).take(before.len() + take));
            proof {
                if before.len() + chunk@.len() <= MAX_STORED_BODY as int {
                    assert(take == chunk.len());
                } else {
                    assert(take == remain);
                    assert(before.len() + take == MAX_STORED_BODY);
                }
            }
            self.buf = buf;
            if chunk.len() > remain {
                self.truncated = true;
            }
        } else {
            self.truncated = true;
            assert(self.buf@ =~= (self.buf@ + chunk@).take(MAX_STORED_BODY as int));
        }
    }

    /// The text stored for the captured stream.
    pub fn stored_text(&self) -> (r: String)
        ensures
            r@ == stored_stream_text(self.state().0, self.state().1),
    {
        decode_sse_stored(self.buf.as_slice(), self.truncated)
    }

    /// The usage of the stream forwarded so far (an unterminated last line counted too).
    pub fn usage(&self) -> (u: Usage)
        ensures
            u == finished(self.usage_state()),
    {
        self.tracker.finish()
    }
}

/// Whether an upstream response with this content type is a server-sent event stream (relayed
/// chunk by chunk rather than read whole).
pub fn is_event_stream(content_type: &str) -> (r: bool)
    ensures
        r == contains(content_type@, "text/event-stream"@),
{
    let ct = chars_of(content_type);
    let sse = chars_of("text/event-stream");
    has_substring(ct.as_slice(), sse.as_slice())
}

/// Whether a non-streaming response may take `chunk_len` more bytes after `read_len` without
/// exceeding `MAX_RESPONSE_BODY`.
pub fn response_fits(read_len: usize, chunk_len: usize) -> (r: bool)
    ensures
        r == (read_len + chunk_len <= MAX_RESPONSE_BODY),
{
    chunk_len <= MAX_RESPONSE_BODY && read_len <= MAX_RESPONSE_BODY - chunk_len
}

// ---------------------------------------------------------------------------
// Client authentication
// ---------------------------------------------------------------------------

/// ASCII lower case of `c`.
pub open spec fn ascii_lower(c: char) -> char {
    if 'A' <= c <= 'Z' {
        ((c as u32) + 32) as char
    } else {
        c
    }
}

/// `a` and `b` are equal ignoring ASCII case.
pub open spec fn eq_ignore_ascii_case(a: Seq<char>, b: Seq<char>) -> bool {
    a.len() == b.len() && forall|i: int| 0 <= i < a.len() ==> ascii_lower(#[trigger] a[i])
        == ascii_lower(b[i])
}

fn lower_exec(c: char) -> (r: char)
    ensures
        r == ascii_lower(c),
{
    if 'A' <= c && c <= 'Z' {
        ((c as u8) + 32) as char
    } else {
        c
    }
}

/// The token a client presents: the `Authorization` value without a `Bearer ` prefix (any
/// case), else the `x-api-key` value; both trimmed.
pub open spec fn presented(authorization: Option<Seq<char>>, api_key: Option<Seq<char>>) -> Option<
    Seq<char>,
> {
    match authorization {
        Some(v) => if v.len() > 7 && eq_ignore_ascii_case(v.take(7), "bearer "@) {
            Some(trim(v.skip(7)))
        } else {
            Some(trim(v))
        },
        None => match api_key {
            Some(k) => Some(trim(k)),
            None => None,
        },
    }
}

/// Extracts the token a client presents from its `Authorization` and `x-api-key` header
/// values (each as `HeaderValue::to_str` gives it, `None` when absent or not visible ASCII).
pub fn presented_token(authorization: Option<&str>, api_key: Option<&str>) -> (r: Option<String>)
    ensures
        match r {
            Some(t) => presented(
                match authorization {
                    Some(a) => Some(a@),
                    None => None,
                },
                match api_key {
                    Some(k) => Some(k@),
                    None => None,
                },
            ) == Some(t@),
            None => authorization is None && api_key is None,
        },
{
    match authorization {
        Some(a) => {
            let cs = chars_of(a);
            let bearer = chars_of("bearer ");
            proof {
                reveal_strlit("bearer ");
            }
            let mut is_bearer = cs.len() > 7;
            if is_bearer {
                let mut i: usize = 0;
                while i < 7
                    invariant
                        0 <= i <= 7,
                        cs@.len() > 7,
                        bearer@ == "bearer "@,
                        bearer@.len() == 7,
                        is_bearer == forall|j: int| 0 <= j < i ==> ascii_lower(#[trigger] cs@[j])
                            == ascii_lower(bearer@[j]),
                    decreases 7 - i,
                {
                    if lower_exec(cs[i]) != lower_exec(bearer[i]) {
                        is_bearer = false;
                    }
                    i = i + 1;
                }
                proof {
                    assert(cs@.take(7).len() == 7);
                    assert forall|j: int| 0 <= j < 7 implies cs@.take(7)[j] == cs@[j] by {}
                }
            }
            proof {
                reveal_strlit("bearer ");
            }
            let body = if is_bearer {
                crate::usage::skip_chars(cs.as_slice(), 7)
            } else {
                crate::usage::skip_chars(cs.as_slice(), 0)
            };
            proof {
                assert(cs@.skip(0) =~= cs@);
            }
            let t = trimmed(body.as_slice());
            Some(string_of(t.as_slice()))
        },
        None => match api_key {
            Some(k) => {
                let cs = chars_of(k);
                let t = trimmed(cs.as_slice());
                Some(string_of(t.as_slice()))
            },
            None => None,
        },
    }
}

/// A request is accepted when the presented token equals the aggregator's token.
pub fn is_authorized(presented: &Option<String>, expected: &String) -> (r: bool)
    ensures
        r == (presented matches Some(t) && t@ == expected@),
{
    match presented {
        Some(t) => *t == *expected,
        None => false,
    }
}

// ---------------------------------------------------------------------------
// Building the upstream request
// ---------------------------------------------------------------------------

/// Request headers not forwarded upstream: hop-by-hop headers, the client's credentials
/// and encoding negotiation.
pub open spec fn skipped_request_header(name: Seq<char>) -> bool {
    ||| name == "host"@
    ||| name == "authorization"@
    ||| name == "x-api-key"@
    ||| name == "content-length"@
    ||| name == "transfer-encoding"@
    ||| name == "connection"@
    ||| name == "keep-alive"@
    ||| name == "proxy-authorization"@
    ||| name == "proxy-authenticate"@
    ||| name == "te"@
    ||| name == "trailer"@
    ||| name == "upgrade"@
    ||| name == "accept-encoding"@
}

/// Response headers not passed back to the client.
pub open spec fn skipped_response_header(name: Seq<char>) -> bool {
    ||| name == "content-length"@
    ||| name == "transfer-encoding"@
    ||| name == "connection"@
    ||| name == "keep-alive"@
}

fn text_is(a: &[char], b: &str) -> (r: bool)
    ensures
        r == (a@ == b@),
{
    let bc = chars_of(b);
    same_chars(a, bc.as_slice())
}

/// Whether a request header (lower-case name) is forwarded upstream.
pub fn forward_request_header(name: &str) -> (r: bool)
    ensures
        r == !skipped_request_header(name@),
{
    let n = chars_of(name);
    let n = n.as_slice();
    !(text_is(n, "host") || text_is(n, "authorization") || text_is(n, "x-api-key") || text_is(
        n,
        "content-length",
    ) || text_is(n, "transfer-encoding") || text_is(n, "connection") || text_is(n, "keep-alive")
        || text_is(n, "proxy-authorization") || text_is(n, "proxy-authenticate") || text_is(n, "te")
        || text_is(n, "trailer") || text_is(n, "upgrade") || text_is(n, "accept-encoding"))
}

/// Whether an upstream response header (lower-case name) is passed back to the client.
pub fn forward_response_header(name: &str) -> (r: bool)
    ensures
        r == !skipped_response_header(name@),
{
    let n = chars_of(name);
    let n = n.as_slice();
    !(text_is(n, "content-length") || text_is(n, "transfer-encoding") || text_is(n, "connection")
        || text_is(n, "keep-alive"))
}

/// `s` without trailing `/` characters.
pub open spec fn trim_end_slashes(s: Seq<char>) -> Seq<char>
    decreases s.len(),
{
    if s.len() > 0 && s.last() == '/' {
        trim_end_slashes(s.drop_last())
    } else {
        s
    }
}

/// The upstream URL of a request: the plan's base URL without trailing slashes, followed by
/// the request's path and query.
pub fn upstream_url(base_url: &str, path: &str) -> (r: String)
    ensures
        r@ == trim_end_slashes(base_url@) + path@,
{
    let mut cs = chars_of(base_url);
    while cs.len() > 0 && cs[cs.len() - 1] == '/'
        invariant
            trim_end_slashes(base_url@) == trim_end_slashes(cs@),
        decreases cs.len(),
    {
        cs.pop();
    }
    let mut out = string_of(cs.as_slice());
    out.append(path);
    out
}

/// The `Authorization` value sent upstream: `Bearer <plan token>`.
pub fn bearer_value(token: &str) -> (r: String)
    ensures
        r@ == "Bearer "@ + token@,
{
    let mut out = "Bearer ".to_owned();
    out.append(token);
    out
}

/// A body is sent upstream when the client sent one or the method is POST, PUT or PATCH.
pub fn sends_body(body_len: usize, method: &str) -> (r: bool)
    ensures
        r == (body_len > 0 || method@ == "POST"@ || method@ == "PUT"@ || method@ == "PATCH"@),
{
    if body_len > 0 {
        return true;
    }
    let m = chars_of(method);
    text_is(m.as_slice(), "POST") || text_is(m.as_slice(), "PUT") || text_is(m.as_slice(), "PATCH")
}

// ---------------------------------------------------------------------------
// Error replies
// ---------------------------------------------------------------------------

/// `serde_json::to_string` of a string. Trusted: the text is the quoted, escaped string (see
/// [`json_quoted`]; serializing a `&str` cannot fail).
#[verifier::external_body]
fn json_quote(s: &str) -> (r: String)
    ensures
        r@ == json_quoted(s@),
{
    serde_json::to_string(s).unwrap_or_default()
}

/// The Anthropic-style error body `{"error":{"message":..,"type":..}}`, compact and with its
/// keys sorted, as serde_json writes the object.
pub open spec fn spec_error_body(err_type: Seq<char>, message: Seq<char>) -> Seq<char> {
    "{\"error\":{\"message\":"@ + json_quoted(message) + ",\"type\":"@ + json_quoted(err_type)
        + "}}"@
}

/// Builds [`spec_error_body`].
pub fn error_body(err_type: &str, message: &str) -> (r: String)
    ensures
        r@ == spec_error_body(err_type@, message@),
{
    let mut out = "{\"error\":{\"message\":".to_owned();
    let m = json_quote(message);
    out.append(m.as_str());
    out.append(",\"type\":");
    let t = json_quote(err_type);
    out.append(t.as_str());
    out.append("}}");
    out
}

/// An error answered to the client without forwarding.
pub struct ErrorReply {
    pub status: u16,
    pub err_type: String,
    pub message: String,
}

impl ErrorReply {
    /// The aggregator's configuration could not be read.
    pub fn config_unavailable() -> (r: ErrorReply)
        ensures
            r.status == 500 && r.err_type@ == "api_error"@ && r.message@ == "聚合器配置读取失败"@,
    {
        ErrorReply {
            status: 500,
            err_type: "api_error".to_owned(),
            message: "聚合器配置读取失败".to_owned(),
        }
    }

    /// The client presented no or a wrong token.
    pub fn unauthorized() -> (r: ErrorReply)
        ensures
            r.status == 401 && r.err_type@ == "authentication_error"@ && r.message@
                == "无效的 AUTH_TOKEN"@,
    {
        ErrorReply {
            status: 401,
            err_type: "authentication_error".to_owned(),
            message: "无效的 AUTH_TOKEN".to_owned(),
        }
    }

    /// The request body could not be read (`detail` is the reader's error text).
    pub fn bad_request_body(detail: &str) -> (r: ErrorReply)
        ensures
            r.status == 400 && r.err_type@ == "invalid_request_error"@ && r.message@
                == "请求体读取失败: "@ + detail@,
    {
        let mut message = "请求体读取失败: ".to_owned();
        message.append(detail);
        ErrorReply { status: 400, err_type: "invalid_request_error".to_owned(), message }
    }

    /// No bound plan is enabled.
    pub fn no_plan() -> (r: ErrorReply)
        ensures
            r.status == 503 && r.err_type@ == "overloaded_error"@ && r.message@
                == NO_PLAN_MESSAGE@,
    {
        ErrorReply {
            status: 503,
            err_type: "overloaded_error".to_owned(),
            message: NO_PLAN_MESSAGE.to_owned(),
        }
    }

    /// Running the routing strategy failed (`detail` is the storage error text).
    pub fn strategy_failed(detail: &str) -> (r: ErrorReply)
        ensures
            r.status == 500 && r.err_type@ == "api_error"@ && r.message@ == "转发策略执行失败: "@
                + detail@,
    {
        let mut message = "转发策略执行失败: ".to_owned();
        message.append(detail);
        ErrorReply { status: 500, err_type: "api_error".to_owned(), message }
    }

    /// The HTTP method cannot be forwarded.
    pub fn bad_method() -> (r: ErrorReply)
        ensures
            r.status == 405 && r.err_type@ == "invalid_request_error"@ && r.message@
                == "不支持的 HTTP 方法"@,
    {
        ErrorReply {
            status: 405,
            err_type: "invalid_request_error".to_owned(),
            message: "不支持的 HTTP 方法".to_owned(),
        }
    }

    /// The upstream could not be reached or its response could not be read.
    pub fn bad_gateway(message: String) -> (r: ErrorReply)
        ensures
            r.status == 502 && r.err_type@ == "api_error"@ && r.message == message,
    {
        ErrorReply { status: 502, err_type: "api_error".to_owned(), message }
    }

    /// The JSON body of the reply.
    pub fn body(&self) -> (r: String)
        ensures
            r@ == spec_error_body(self.err_type@, self.message@),
    {
        error_body(self.err_type.as_str(), self.message.as_str())
    }
}

/// Message stored and answered when no plan can take a request.
pub const NO_PLAN_MESSAGE: &'static str = "没有可用的 Coding Plan（未绑定或已全部禁用）";

/// Message stored for a request refused for its token.
pub const UNAUTHORIZED_RECORD: &'static str = "鉴权失败：无效的 AUTH_TOKEN";

/// Text of an upstream request failure (`detail` is the client's error text).
pub fn upstream_failure(detail: &str) -> (r: String)
    ensures
        r@ == "上游请求失败: "@ + detail@,
{
    let mut message = "上游请求失败: ".to_owned();
    message.append(detail);
    message
}

/// Text of an upstream response read failure (`detail` is the stream's error text).
pub fn upstream_read_failure(detail: &str) -> (r: String)
    ensures
        r@ == "上游响应读取失败: "@ + detail@,
{
    let mut message = "上游响应读取失败: ".to_owned();
    message.append(detail);
    message
}

/// Text of an oversized upstream response.
pub fn upstream_too_large() -> (r: String)
    ensures
        r@ == "上游响应过大"@,
{
    "上游响应过大".to_owned()
}


// ---------------------------------------------------------------------------
// Recording exchanges
// ---------------------------------------------------------------------------

/// What a forwarded or refused exchange leaves on record.
pub struct ExchangeRecord {
    pub aggregator_id: i64,
    pub plan_id: Option<i64>,
    /// The binding the exchange's usage counts on (answered forwards only).
    pub binding_id: Option<i64>,
    pub status: i64,
    pub request_body: String,
    pub response_body: String,
    pub model: String,
    pub usage: Usage,
}

/// The outcome of one decision of the proxy: answer the client now (recording the exchange
/// when a record is given), or go on.
pub enum Step {
    Refuse { reply: ErrorReply, record: Option<ExchangeRecord> },
    Proceed,
}

/// The message stored for `rec` (a request `method` on `path` that took `duration_ms`).
pub open spec fn message_records(method: Seq<char>, path: Seq<char>, rec: ExchangeRecord, duration_ms: i64, m: NewMessage) -> bool {
    &&& m.aggregator_id == rec.aggregator_id
    &&& m.plan_id == rec.plan_id
    &&& m.method@ == method
    &&& m.path@ == path
    &&& m.status == rec.status
    &&& m.request_body == rec.request_body
    &&& m.response_body == rec.response_body
    &&& m.model == rec.model
    &&& m.prompt_tokens == rec.usage.prompt_tokens
    &&& m.completion_tokens == rec.usage.completion_tokens
    &&& m.cache_read_tokens == rec.usage.cache_read_tokens
    &&& m.cache_creation_tokens == rec.usage.cache_creation_tokens
    &&& m.total_tokens == rec.usage.total_tokens
    &&& m.duration_ms == duration_ms
}

/// The duration stored for an exchange that took `elapsed_ms` milliseconds (as `as i64`
/// converts it, never negative).
pub open spec fn stored_duration(elapsed_ms: u128) -> i64 {
    let d = elapsed_ms as i64;
    if d < 0 { 0 } else { d }
}

/// The message to store for `rec`.
pub fn message_for(method: &str, path: &str, rec: ExchangeRecord, elapsed_ms: u128) -> (m: NewMessage)
    ensures
        message_records(method@, path@, rec, stored_duration(elapsed_ms), m),
{
    #[verifier::truncate]
    let d = elapsed_ms as i64;
    let duration_ms = if d < 0 { 0 } else { d };
    NewMessage {
        aggregator_id: rec.aggregator_id,
        plan_id: rec.plan_id,
        method: method.to_owned(),
        path: path.to_owned(),
        status: rec.status,
        request_body: rec.request_body,
        response_body: rec.response_body,
        model: rec.model,
        prompt_tokens: rec.usage.prompt_tokens,
        completion_tokens: rec.usage.completion_tokens,
        cache_read_tokens: rec.usage.cache_read_tokens,
        cache_creation_tokens: rec.usage.cache_creation_tokens,
        total_tokens: rec.usage.total_tokens,
        duration_ms,
    }
}

/// Whether recording `rec` adds its tokens to its binding's usage: only an answered forward
/// (it has a binding) that used tokens counts.
pub open spec fn counts_usage(rec: ExchangeRecord) -> bool {
    rec.binding_id is Some && rec.usage.total_tokens > 0
}

/// The binding and the tokens recording `rec` adds to it, if any (see [`counts_usage`]).
pub fn usage_to_count(rec: &ExchangeRecord) -> (r: Option<(i64, i64)>)
    ensures
        r == (if counts_usage(*rec) {
            Some((rec.binding_id->0, rec.usage.total_tokens))
        } else {
            None
        }),
{
    match rec.binding_id {
        Some(binding) => if rec.usage.total_tokens > 0 {
            Some((binding, rec.usage.total_tokens))
        } else {
            None
        },
        None => None,
    }
}

/// Records an exchange: adds its tokens to the binding it was forwarded through (see
/// [`usage_to_count`]; a binding removed meanwhile is skipped, and a failure there does not
/// stop the record), stores the message (see [`message_for`]) and reads it back with the
/// names of its aggregator and plan. `None` when storing or reading failed.
pub fn record_exchange(db: &mut Db, method: &str, path: &str, rec: ExchangeRecord, elapsed_ms: u128) -> (r: Option<MessageRow>)
    ensures
        ({
            let h = final(db).history();
            let n = old(db).history().len() + usage_changes(rec).len() as int;
            &&& h.take(n) == old(db).history() + usage_changes(rec)
            &&& exists|m: NewMessage, t: String|
                message_records(method@, path@, rec, stored_duration(elapsed_ms), m)
                && h[n] == #[trigger] insert_message_write(m, t)
            &&& r matches Some(row) ==> {
                &&& h.len() == n + 2
                &&& h[n + 1].query && h[n + 1].sql == GET_MESSAGE_SQL@
                &&& h[n + 1].rows.len() > 0 && message_row(h[n + 1].rows[0], row)
            }
        }),
        r matches Some(m) ==> stored_message(m),
{
    let ghost h0 = db.history();
    if let Some((binding, tokens)) = usage_to_count(&rec) {
        let _ = add_binding_usage(db, binding, tokens);
    }
    let ghost h1 = db.history();
    assert(h1 =~= h0 + usage_changes(rec));
    let msg = message_for(method, path, rec, elapsed_ms);
    let stored = insert_message(db, &msg);
    let ghost h2 = db.history();
    proof {
        let t = choose|t: String| h2 == h1.push(#[trigger] insert_message_write(msg, t));
        assert(h2[h1.len() as int] == insert_message_write(msg, t));
        assert(h2.take(h1.len() as int) =~= h1);
    }
    match stored {
        Ok(id) => match get_message(db, id) {
            Ok(found) => {
                proof {
                    assert(db.history().take(h1.len() as int) =~= h1);
                    assert(db.history()[h1.len() as int] == h2[h1.len() as int]);
                }
                found
            },
            Err(_) => {
                assert(db.history().take(h1.len() as int) =~= h1);
                assert(db.history()[h1.len() as int] == h2[h1.len() as int]);
                None
            },
        },
        Err(_) => None,
    }
}

/// The usage write that recording `rec` sends first (see [`counts_usage`]), if any.
pub open spec fn usage_changes(rec: ExchangeRecord) -> Seq<Sent> {
    if counts_usage(rec) {
        seq![add_usage_write(rec.binding_id->0, rec.usage.total_tokens)]
    } else {
        Seq::empty()
    }
}

/// The empty text.
pub open spec fn empty_text() -> Seq<char> {
    Seq::empty()
}

/// `rec` records a refusal answered with `status` and `response` (no binding, no usage).
pub open spec fn refusal_record(rec: ExchangeRecord, aggregator_id: i64, plan_id: Option<i64>, status: i64, request: Seq<char>, response: Seq<char>) -> bool {
    &&& rec.aggregator_id == aggregator_id
    &&& rec.plan_id == plan_id
    &&& rec.binding_id is None
    &&& rec.status == status
    &&& rec.request_body@ == request
    &&& rec.response_body@ == response
    &&& rec.usage == Usage::spec_zero()
}

/// Recording a refused request adds no usage to any binding: the only write it sends is the
/// stored message.
pub proof fn lemma_refusal_counts_no_usage(rec: ExchangeRecord, aggregator_id: i64, plan_id: Option<i64>, status: i64, request: Seq<char>, response: Seq<char>)
    requires
        refusal_record(rec, aggregator_id, plan_id, status, request, response),
    ensures
        usage_changes(rec) == Seq::<Sent>::empty(),
{
}

/// First decision: the aggregator's configuration must be readable and the client must
/// present its token. A refused token is recorded (status 401, nothing forwarded).
pub fn admission(aggregator_id: i64, config: &Option<Aggregator>, presented: &Option<String>) -> (r: Step)
    ensures
        match config {
            None => r is Refuse && r->reply.status == 500 && r->reply.err_type@ == "api_error"@
                && r->reply.message@ == "聚合器配置读取失败"@ && r->record is None,
            Some(a) => if presented matches Some(t) && t@ == a.auth_token@ {
                r is Proceed
            } else {
                &&& r is Refuse
                &&& r->reply.status == 401 && r->reply.message@ == "无效的 AUTH_TOKEN"@
                &&& r->reply.err_type@ == "authentication_error"@
                &&& r->record is Some
                &&& refusal_record(r->record->0, aggregator_id, None, 401, empty_text(), UNAUTHORIZED_RECORD@)
                &&& r->record->0.model@ == empty_text()
            },
        },
{
    match config {
        None => Step::Refuse { reply: ErrorReply::config_unavailable(), record: None },
        Some(a) => {
            if is_authorized(presented, &a.auth_token) {
                Step::Proceed
            } else {
                let rec = ExchangeRecord {
                    aggregator_id,
                    plan_id: None,
                    binding_id: None,
                    status: 401,
                    request_body: String::new(),
                    response_body: UNAUTHORIZED_RECORD.to_owned(),
                    model: String::new(),
                    usage: Usage::zero(),
                };
                Step::Refuse { reply: ErrorReply::unauthorized(), record: Some(rec) }
            }
        },
    }
}

/// Decision after routing: forward when a plan was picked; a refusal for want of a plan is
/// recorded (status 503, with the request and its model); a storage failure is answered
/// without record. `outcome` is the routing result, its error as text.
pub fn route_step(aggregator_id: i64, outcome: &Result<Option<StrategyPick>, String>, request_stored: &String) -> (r: Step)
    ensures
        match outcome {
            Ok(Some(_)) => r is Proceed,
            Ok(None) => {
                &&& r is Refuse
                &&& r->reply.status == 503 && r->reply.message@ == NO_PLAN_MESSAGE@
                &&& r->reply.err_type@ == "overloaded_error"@
                &&& r->record is Some
                &&& refusal_record(r->record->0, aggregator_id, None, 503, request_stored@, NO_PLAN_MESSAGE@)
                &&& r->record->0.model@ == exchange_model(request_stored@, empty_text())
            },
            Err(e) => r is Refuse && r->reply.status == 500 && r->reply.err_type@ == "api_error"@
                && r->reply.message@ == "转发策略执行失败: "@ + e@ && r->record is None,
        },
{
    proof {
        reveal_strlit("");
        assert(""@ =~= empty_text());
    }
    match outcome {
        Ok(Some(_)) => Step::Proceed,
        Ok(None) => {
            let rec = ExchangeRecord {
                aggregator_id,
                plan_id: None,
                binding_id: None,
                status: 503,
                request_body: request_stored.clone(),
                response_body: NO_PLAN_MESSAGE.to_owned(),
                model: extract_model(request_stored.as_str(), ""),
                usage: Usage::zero(),
            };
            Step::Refuse { reply: ErrorReply::no_plan(), record: Some(rec) }
        },
        Err(e) => Step::Refuse { reply: ErrorReply::strategy_failed(e.as_str()), record: None },
    }
}

/// The upstream could not be reached (`detail` is the client's error text): answered with
/// 502 and recorded against the plan, with no usage counted.
pub fn send_failed(aggregator_id: i64, plan_id: i64, request_stored: &String, detail: &str) -> (r: (ErrorReply, ExchangeRecord))
    ensures
        r.0.status == 502 && r.0.err_type@ == "api_error"@ && r.0.message@ == "上游请求失败: "@ + detail@,
        r.1.aggregator_id == aggregator_id && r.1.plan_id == Some(plan_id) && r.1.binding_id is None,
        r.1.status == 502 && r.1.request_body == *request_stored && r.1.response_body == r.0.message,
        r.1.model@ == exchange_model(request_stored@, empty_text()) && r.1.usage == Usage::spec_zero(),
{
    proof {
        reveal_strlit("");
        assert(""@ =~= empty_text());
    }
    let message = upstream_failure(detail);
    let rec = ExchangeRecord {
        aggregator_id,
        plan_id: Some(plan_id),
        binding_id: None,
        status: 502,
        request_body: request_stored.clone(),
        response_body: message.clone(),
        model: extract_model(request_stored.as_str(), ""),
        usage: Usage::zero(),
    };
    (ErrorReply::bad_gateway(message), rec)
}

/// A buffered upstream response could not be read whole (`message` says why): answered with
/// 502 and recorded against the plan and binding, with no usage counted.
pub fn read_failed(aggregator_id: i64, pick: &StrategyPick, request_stored: &String, message: String) -> (r: (ErrorReply, ExchangeRecord))
    ensures
        r.0.status == 502 && r.0.err_type@ == "api_error"@ && r.0.message == message,
        r.1.aggregator_id == aggregator_id && r.1.plan_id == Some(pick.plan.id)
            && r.1.binding_id == Some(pick.binding_id),
        r.1.status == 502 && r.1.request_body == *request_stored && r.1.response_body == message,
        r.1.model@ == exchange_model(request_stored@, empty_text()) && r.1.usage == Usage::spec_zero(),
{
    proof {
        reveal_strlit("");
        assert(""@ =~= empty_text());
    }
    let rec = ExchangeRecord {
        aggregator_id,
        plan_id: Some(pick.plan.id),
        binding_id: Some(pick.binding_id),
        status: 502,
        request_body: request_stored.clone(),
        response_body: message.clone(),
        model: extract_model(request_stored.as_str(), ""),
        usage: Usage::zero(),
    };
    (ErrorReply::bad_gateway(message), rec)
}

/// The record of an answered buffered response (`body` its text): usage parsed by content
/// type, the body stored capped, the model from the request or else the response.
pub fn buffered_record(aggregator_id: i64, pick: &StrategyPick, status: i64, content_type: &str, request_stored: &String, body: &str) -> (r: ExchangeRecord)
    ensures
        r.aggregator_id == aggregator_id && r.plan_id == Some(pick.plan.id)
            && r.binding_id == Some(pick.binding_id) && r.status == status,
        r.request_body == *request_stored && r.response_body@ == capped(body@),
        r.model@ == exchange_model(request_stored@, body@),
        r.usage == usage_for(content_type@, body@),
{
    ExchangeRecord {
        aggregator_id,
        plan_id: Some(pick.plan.id),
        binding_id: Some(pick.binding_id),
        status,
        request_body: request_stored.clone(),
        response_body: cap_store(body),
        model: extract_model(request_stored.as_str(), body),
        usage: parse_usage(content_type, body),
    }
}

/// The record of a server-sent event stream once it ended: the captured text (see
/// [`stored_stream_text`]) is stored and gives the model; the usage is the one counted over
/// every forwarded chunk, not over the capped text (see [`StreamCapture::push`] and
/// `lemma_stream_usage_chunk_independent`).
pub fn streamed_record(aggregator_id: i64, pick: &StrategyPick, status: i64, request_stored: &String, capture: &StreamCapture) -> (r: ExchangeRecord)
    ensures
        ({
            let text = stored_stream_text(capture.state().0, capture.state().1);
            &&& r.aggregator_id == aggregator_id && r.plan_id == Some(pick.plan.id)
            &&& r.binding_id == Some(pick.binding_id) && r.status == status
            &&& r.request_body == *request_stored && r.response_body@ == text
            &&& r.model@ == exchange_model(request_stored@, text)
            &&& r.usage == finished(capture.usage_state())
        }),
{
    let collected = capture.stored_text();
    let usage = capture.usage();
    let model = extract_model(request_stored.as_str(), collected.as_str());
    ExchangeRecord {
        aggregator_id,
        plan_id: Some(pick.plan.id),
        binding_id: Some(pick.binding_id),
        status,
        request_body: request_stored.clone(),
        response_body: collected,
        model,
        usage,
    }
}

} // verus!
