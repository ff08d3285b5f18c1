//! Which local debugging endpoints and pages the gaze bridge may talk to, and how a reply to an
//! evaluation request is recognised.
use crate::text::{chars_equal, copy_range, index_of_or_len, index_or_len, occurs_at, starts_with};
use vstd::prelude::*;
use vstd::string::*;

verus! {

/// The local debugging port Codex is started with.
pub const PORT: u16 = 19227;
/// The largest reply body or message accepted.
pub const LIMIT: usize = 524288;
/// The only accepted origin of a page's WebSocket address.
pub const ORIGIN: &'static str = "ws://127.0.0.1:19227";
/// The only accepted page path prefix of a WebSocket address.
pub const PAGE_PREFIX: &'static str = "ws://127.0.0.1:19227/devtools/page/";

pub open spec fn id_char(c: char) -> bool {
    ('0' <= c <= '9') || ('a' <= c <= 'z') || ('A' <= c <= 'Z') || c == '-'
}

/// The path to attach to for a page address: only `ws://127.0.0.1:19227/devtools/page/<id>`
/// with a non-empty id of ASCII letters, digits and dashes is accepted.
pub open spec fn websocket_path_of(url: Seq<char>) -> Option<Seq<char>> {
    let p = PAGE_PREFIX@;
    if url.len() > p.len() && starts_with(url, p) && (forall|i: int|
        p.len() <= i < url.len() ==> id_char(#[trigger] url[i])) {
        Some(url.subrange(ORIGIN@.len() as int, url.len() as int))
    } else {
        None
    }
}

pub fn websocket_path(url: &str) -> (r: Option<&str>)
    ensures
        match r {
            Some(p) => websocket_path_of(url@) == Some(p@),
            None => websocket_path_of(url@) is None,
        },
{
    let n = url.unicode_len();
    let m = PAGE_PREFIX.unicode_len();
    if n <= m {
        return None;
    }
    let mut i: usize = 0;
    while i < m
        invariant
            n == url@.len(),
            m == PAGE_PREFIX@.len(),
            m < n,
            i <= m,
            forall|q: int| 0 <= q < i ==> url@[q] == PAGE_PREFIX@[q],
        decreases m - i,
    {
        if url.get_char(i) != PAGE_PREFIX.get_char(i) {
            assert(url@.subrange(0, m as int)[i as int] != PAGE_PREFIX@[i as int]);
            return None;
        }
        i = i + 1;
    }
    assert(url@.subrange(0, m as int) =~= PAGE_PREFIX@);
    let mut j = m;
    while j < n
        invariant
            n == url@.len(),
            m == PAGE_PREFIX@.len(),
            m < n,
            url@.subrange(0, m as int) == PAGE_PREFIX@,
            m <= j <= n,
            forall|q: int| m <= q < j ==> id_char(#[trigger] url@[q]),
        decreases n - j,
    {
        let c = url.get_char(j);
        if !(('0' <= c && c <= '9') || ('a' <= c && c <= 'z') || ('A' <= c && c <= 'Z') || c
            == '-') {
            assert(!id_char(url@[j as int]));
            return None;
        }
        j = j + 1;
    }
    let start = ORIGIN.unicode_len();
    proof {
        reveal_strlit("ws://127.0.0.1:19227");
        reveal_strlit("ws://127.0.0.1:19227/devtools/page/");
    }
    Some(url.substring_char(start, n))
}

pub const ROUTE_KEY: &'static str = "initialRoute=";
pub const OVERLAY_ROUTE: &'static str = "/avatar-overlay";

/// The values of the `initialRoute=` parameters of a query string, in order.
pub open spec fn route_values(q: Seq<char>) -> Seq<Seq<char>>
    decreases q.len(),
{
    if q.len() == 0 {
        Seq::empty()
    } else {
        let j = index_or_len(q, '&');
        proof {
            lemma_index_bound(q, '&');
        }
        let part = q.subrange(0, j);
        let rest = if j < q.len() {
            route_values(q.subrange(j + 1, q.len() as int))
        } else {
            Seq::empty()
        };
        if starts_with(part, ROUTE_KEY@) {
            seq![part.subrange(ROUTE_KEY@.len() as int, part.len() as int)] + rest
        } else {
            rest
        }
    }
}

pub open spec fn overlay_route(v: Seq<char>) -> bool {
    v == OVERLAY_ROUTE@ || v == "%2Favatar-overlay"@ || v == "%2favatar-overlay"@
}

/// Whether a page address is the pet overlay: an `app://` or `file://` page whose single
/// `initialRoute` is the overlay route, or, without such a parameter, an `app://` page whose
/// path is exactly `/avatar-overlay`.
pub open spec fn overlay_url_of(url: Seq<char>) -> bool {
    let q_at = index_or_len(url, '?');
    let base = url.subrange(0, q_at);
    let query = if q_at < url.len() {
        url.subrange(q_at + 1, url.len() as int)
    } else {
        Seq::empty()
    };
    let routes = route_values(query);
    if !(starts_with(url, "app://"@) || starts_with(url, "file://"@)) {
        false
    } else if routes.len() > 0 {
        routes.len() == 1 && overlay_route(routes[0])
    } else if starts_with(base, "app://"@) {
        let p = base.subrange(6, base.len() as int);
        let slash = index_or_len(p, '/');
        slash < p.len() && p.subrange(slash, p.len() as int) == OVERLAY_ROUTE@
    } else {
        false
    }
}

pub proof fn lemma_index_bound(s: Seq<char>, c: char)
    ensures
        0 <= index_or_len(s, c) <= s.len(),
        index_or_len(s, c) < s.len() ==> s[index_or_len(s, c)] == c,
    decreases s.len(),
{
    if s.len() > 0 && s[0] != c {
        let t = s.subrange(1, s.len() as int);
        lemma_index_bound(t, c);
        if index_or_len(t, c) < t.len() {
            assert(t[index_or_len(t, c)] == s[1 + index_or_len(t, c)]);
        }
    }
}

fn is_overlay_route(v: &[char]) -> (r: bool)
    ensures
        r == overlay_route(v@),
{
    chars_equal(v, OVERLAY_ROUTE) || chars_equal(v, "%2Favatar-overlay") || chars_equal(
        v,
        "%2favatar-overlay",
    )
}

pub fn overlay_url(url: &str) -> (r: bool)
    ensures
        r == overlay_url_of(url@),
{
    let chars = crate::text::chars_of(url);
    let s = chars.as_slice();
    let n = s.len();
    if !(occurs_at(s, "app://", 0) || occurs_at(s, "file://", 0)) {
        return false;
    }
    let q_at = index_of_or_len(s, '?');
    proof {
        lemma_index_bound(url@, '?');
    }
    let query = if q_at < n {
        copy_range(s, q_at + 1, n)
    } else {
        Vec::new()
    };
    proof {
        if q_at >= n {
            assert(query@ =~= Seq::<char>::empty());
        }
    }
    // Walk the `&`-separated parts, counting route values and keeping the first.
    let ghost qs = query@;
    let qn = query.len();
    let mut start: usize = 0;
    let mut count: usize = 0;
    let mut first: Vec<char> = Vec::new();
    let ghost mut found: Seq<Seq<char>> = Seq::empty();
    proof {
        assert(qs.subrange(0, qn as int) =~= qs);
        assert(Seq::<Seq<char>>::empty() + route_values(qs) =~= route_values(qs));
    }
    while start < qn
        invariant
            qn == qs.len(),
            query@ == qs,
            start <= qn,
            route_values(qs) == found + route_values(qs.subrange(start as int, qn as int)),
            count == found.len(),
            count <= start,
            count > 0 ==> first@ == found[0],
        decreases qn - start,
    {
        let ghost t = qs.subrange(start as int, qn as int);
        let rel = index_of_or_len(copy_range(query.as_slice(), start, qn).as_slice(), '&');
        proof {
            lemma_index_bound(t, '&');
        }
        let end = start + rel;
        let part = copy_range(query.as_slice(), start, end);
        proof {
            assert(part@ =~= t.subrange(0, rel as int));
        }
        let key_len = ROUTE_KEY.unicode_len();
        let is_route = occurs_at(part.as_slice(), ROUTE_KEY, 0);
        if is_route {
            let value = copy_range(part.as_slice(), key_len, part.len());
            if count == 0 {
                first = value;
            }
            proof {
                found = found.push(value@);
            }
            count = count + 1;
        }
        proof {
            if end < qn {
                assert(t.subrange(rel + 1, t.len() as int) =~= qs.subrange(end + 1, qn as int));
            }
            let rest = if end < qn {
                route_values(qs.subrange(end + 1, qn as int))
            } else {
                Seq::empty()
            };
            if is_route {
                assert(found.drop_last() + (seq![found.last()] + rest) =~= found + rest);
            }
            if end >= qn {
                assert(qs.subrange(qn as int, qn as int) =~= Seq::<char>::empty());
                assert(found + Seq::<Seq<char>>::empty() =~= found);
            }
        }
        start = if end < qn {
            end + 1
        } else {
            qn
        };
    }
    proof {
        assert(qs.subrange(qn as int, qn as int) =~= Seq::<char>::empty());
        assert(found + Seq::<Seq<char>>::empty() =~= found);
    }
    if count > 0 {
        return count == 1 && is_overlay_route(first.as_slice());
    }
    let base = copy_range(s, 0, q_at);
    if !occurs_at(base.as_slice(), "app://", 0) {
        return false;
    }
    proof {
        reveal_strlit("app://");
    }
    let p = copy_range(base.as_slice(), 6, base.len());
    let slash = index_of_or_len(p.as_slice(), '/');
    if slash >= p.len() {
        return false;
    }
    let tail = copy_range(p.as_slice(), slash, p.len());
    chars_equal(tail.as_slice(), OVERLAY_ROUTE)
}

/// What to do with a message read while waiting for the reply to request `sequence`.
#[derive(Debug, PartialEq, Eq, Structural)]
pub enum Reply {
    /// Not the reply: keep reading.
    Skip,
    /// The reply reports an error or a thrown exception.
    Failed,
    /// The reply carries the result.
    Accepted,
}

/// A reply is the message carrying the request's id; it fails when it has an `error` or an
/// `exceptionDetails` in its result.
pub fn reply_kind(id: Option<u64>, sequence: u64, error: bool, exception: bool) -> (r: Reply)
    ensures
        r == (if id != Some(sequence) {
            Reply::Skip
        } else if error || exception {
            Reply::Failed
        } else {
            Reply::Accepted
        }),
{
    match id {
        Some(i) => if i != sequence {
            Reply::Skip
        } else if error || exception {
            Reply::Failed
        } else {
            Reply::Accepted
        },
        None => Reply::Skip,
    }
}

/// The kinds of WebSocket message the bridge distinguishes.
#[derive(Debug, PartialEq, Eq, Structural)]
pub enum Frame {
    Text,
    Control,
    Other,
}

/// Text messages are read, pings and pongs are skipped, anything else ends the exchange.
pub fn frame_error(f: &Frame) -> (r: Option<&'static str>)
    ensures
        match f {
            Frame::Other => r is Some && r.unwrap()@ == "websocket_closed_or_binary"@,
            _ => r is None,
        },
{
    match f {
        Frame::Other => Some("websocket_closed_or_binary"),
        _ => None,
    }
}


/// A response body or message is refused once it grows past `LIMIT` bytes.
pub fn within_limit(len: usize) -> (r: bool)
    ensures
        r == (len <= LIMIT),
{
    len <= LIMIT
}
/// What a WebSocket text message says as JSON, as serde_json reads it: `None` when it is not
/// JSON; otherwise its `id` when that is an unsigned integer, whether it has an `error` key,
/// and whether its `result` has an `exceptionDetails` key.
pub uninterp spec fn frame_fields(text: Seq<char>) -> Option<(Option<u64>, bool, bool)>;

/// `serde_json::from_str` into a `serde_json::Value`, then `Value::as_u64` of `id` and
/// `Value::get` of `error` and of `result.exceptionDetails`. The result is named by
/// `frame_fields`.
#[verifier::external_body]
fn read_frame_fields(text: &str) -> (r: Option<(Option<u64>, bool, bool)>)
    ensures
        r == frame_fields(text@),
{
    let v = serde_json::from_str::<serde_json::Value>(text).ok()?;
    Some((v["id"].as_u64(), v.get("error").is_some(), v["result"].get("exceptionDetails").is_some()))
}

/// How a text message read while waiting for the reply to request `sequence` is taken.
pub fn reply_of(text: &str, sequence: u64) -> (r: Result<Reply, &'static str>)
    ensures
        match frame_fields(text@) {
            None => r is Err && r->Err_0@ == "websocket_invalid_json"@,
            Some((id, error, exception)) => r == Ok::<Reply, &'static str>(
                if id != Some(sequence) {
                    Reply::Skip
                } else if error || exception {
                    Reply::Failed
                } else {
                    Reply::Accepted
                },
            ),
        },
{
    match read_frame_fields(text) {
        None => Err("websocket_invalid_json"),
        Some((id, error, exception)) => Ok(reply_kind(id, sequence, error, exception)),
    }
}

/// What the renderer's answer (the reply's `result.result.value`) says, as serde_json reads
/// the reply: its `code` when that is a string, `moves` and `resizes` when they are unsigned
/// integers, and `inputRegion` when it is a boolean. Text that is not JSON says nothing.
pub uninterp spec fn answer_fields(text: Seq<char>) -> (Option<Seq<char>>, Option<u64>, Option<u64>, Option<bool>);

/// `serde_json::from_str` into a `serde_json::Value`, then `Value::as_str`, `Value::as_u64` and
/// `Value::as_bool` of the answer's fields. The result is named by `answer_fields`.
#[verifier::external_body]
fn read_answer_fields(text: &str) -> (r: (Option<String>, Option<u64>, Option<u64>, Option<bool>))
    ensures
        (match r.0 {
            Some(c) => Some(c@),
            None => None,
        }, r.1, r.2, r.3) == answer_fields(text@),
{
    let v = serde_json::from_str::<serde_json::Value>(text).unwrap_or_default();
    let a = &v["result"]["result"]["value"];
    (a["code"].as_str().map(String::from), a["moves"].as_u64(), a["resizes"].as_u64(), a["inputRegion"].as_bool())
}

/// The renderer's answer to an evaluation.
pub struct Answer {
    pub code: Option<String>,
    pub moves: Option<u64>,
    pub resizes: Option<u64>,
    /// The answer marks the pointer as over the pet's solid pixels.
    pub input_region: bool,
}

/// The answer carried by an accepted reply.
pub fn answer_of(reply: &str) -> (r: Answer)
    ensures
        (match r.code {
            Some(c) => Some(c@),
            None => None,
        }, r.moves, r.resizes) == (answer_fields(reply@).0, answer_fields(reply@).1, answer_fields(
            reply@,
        ).2),
        r.input_region == (answer_fields(reply@).3 == Some(true)),
{
    let (code, moves, resizes, region) = read_answer_fields(reply);
    let input_region = match region {
        Some(b) => b,
        None => false,
    };
    Answer { code, moves, resizes, input_region }
}

impl Answer {
    /// The answer's code, or `invalid_response` when it has none.
    pub fn code_or_invalid(&self) -> (r: &str)
        ensures
            r@ == (match self.code {
                Some(c) => c@,
                None => "invalid_response"@,
            }),
    {
        match &self.code {
            Some(c) => c.as_str(),
            None => "invalid_response",
        }
    }
}

} // verus!
