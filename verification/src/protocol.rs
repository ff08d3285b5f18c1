//! The light state the background publishes to the interface, and the local IPC framing.
use crate::text::{
    chars_of, decimal, eq_ignore_ascii_case, same_ignoring_ascii_case, str_eq, string_of, with_number,
};
use vstd::prelude::*;
use vstd::string::*;

verus! {

/// What the interface shows; it carries no diagnostics, paths or wall-clock text.
#[derive(Clone, Debug)]
pub struct UiState {
    pub status: String,
    pub hint: String,
    pub automatic_status: String,
    pub automatic: bool,
    pub autostart: bool,
    pub tray_only: bool,
    pub look_at_mouse: bool,
    pub busy: bool,
    pub can_repair: bool,
    pub awaiting_confirmation: bool,
    pub revision: u64,
    pub wait_remaining_ms: u64,
}

impl Default for UiState {
    fn default() -> (r: UiState)
        ensures
            r.status@ == Seq::<char>::empty() && r.hint@ == Seq::<char>::empty()
                && r.automatic_status@ == Seq::<char>::empty(),
            !r.automatic && !r.autostart && !r.tray_only && !r.look_at_mouse && !r.busy && !r.can_repair
                && !r.awaiting_confirmation,
            r.revision == 0 && r.wait_remaining_ms == 0,
    {
        UiState {
            status: String::new(),
            hint: String::new(),
            automatic_status: String::new(),
            automatic: false,
            autostart: false,
            tray_only: false,
            look_at_mouse: false,
            busy: false,
            can_repair: false,
            awaiting_confirmation: false,
            revision: 0,
            wait_remaining_ms: 0,
        }
    }
}

pub open spec fn same_state(a: UiState, b: UiState) -> bool {
    &&& a.status@ == b.status@
    &&& a.hint@ == b.hint@
    &&& a.automatic_status@ == b.automatic_status@
    &&& a.automatic == b.automatic
    &&& a.autostart == b.autostart
    &&& a.tray_only == b.tray_only
    &&& a.look_at_mouse == b.look_at_mouse
    &&& a.busy == b.busy
    &&& a.can_repair == b.can_repair
    &&& a.awaiting_confirmation == b.awaiting_confirmation
    &&& a.revision == b.revision
    &&& a.wait_remaining_ms == b.wait_remaining_ms
}

impl UiState {
    /// Field-by-field equality.
    pub fn same_as(&self, other: &UiState) -> (r: bool)
        ensures
            r == same_state(*self, *other),
    {
        str_eq(self.status.as_str(), other.status.as_str()) && str_eq(
            self.hint.as_str(),
            other.hint.as_str(),
        ) && str_eq(self.automatic_status.as_str(), other.automatic_status.as_str())
            && self.automatic == other.automatic && self.autostart == other.autostart
            && self.tray_only == other.tray_only && self.look_at_mouse == other.look_at_mouse
            && self.busy == other.busy && self.can_repair
            == other.can_repair && self.awaiting_confirmation == other.awaiting_confirmation
            && self.revision == other.revision && self.wait_remaining_ms == other.wait_remaining_ms
    }
}

/// The name of the session-wide event that announces a state change (it carries no data).
pub fn change_event(session: u32) -> (r: String)
    ensures
        r@ == "Local\\CodexPetRepair-ui-state-v1-"@ + decimal(session as nat),
{
    with_number("Local\\CodexPetRepair-ui-state-v1-", session as u128)
}

/// The name of the background's command pipe in this session.
pub fn pipe_name(session: u32) -> (r: String)
    ensures
        r@ == "CodexPetRepair-v2-"@ + decimal(session as nat),
{
    with_number("CodexPetRepair-v2-", session as u128)
}

/// The full path of the background's command pipe in this session.
pub fn pipe_path(session: u32) -> (r: String)
    ensures
        r@ == "\\\\.\\pipe\\CodexPetRepair-v2-"@ + decimal(session as nat),
{
    with_number("\\\\.\\pipe\\CodexPetRepair-v2-", session as u128)
}

/// The longest request line the background reads from the pipe.
/// Only this installation's own programs may talk over the pipe: the peer's image path must
/// be the background's or the interface's (ignoring ASCII case).
pub fn trusted_peer(path: &str, own: &str, interface: &str) -> (r: bool)
    ensures
        r == (same_ignoring_ascii_case(path@, own@) || same_ignoring_ascii_case(path@, interface@)),
{
    eq_ignore_ascii_case(path, own) || eq_ignore_ascii_case(path, interface)
}

pub const REQUEST_LINE_LIMIT: usize = 16384;
/// The longest reply the interface reads from the pipe.
pub const REPLY_LIMIT: usize = 32768;

/// What reading one more byte of a request line means.
#[derive(Debug, PartialEq, Eq, Structural)]
pub enum LineStep {
    /// The line is complete (the newline is not part of it).
    Complete,
    /// Keep reading.
    More,
    /// The line exceeds the limit.
    TooLarge,
}

/// Take one byte of a request line read one byte at a time; `data` holds the line so far.
pub fn accept_byte(data: &mut Vec<u8>, b: u8) -> (r: LineStep)
    requires
        old(data)@.len() < REQUEST_LINE_LIMIT,
    ensures
        b == 10u8 ==> r == LineStep::Complete && final(data)@ == old(data)@,
        b != 10u8 ==> final(data)@ == old(data)@.push(b) && r == (if final(data)@.len()
            >= REQUEST_LINE_LIMIT {
            LineStep::TooLarge
        } else {
            LineStep::More
        }),
{
    if b == 10u8 {
        return LineStep::Complete;
    }
    data.push(b);
    if data.len() >= REQUEST_LINE_LIMIT {
        LineStep::TooLarge
    } else {
        LineStep::More
    }
}

/// Take one chunk of a reply read in chunks: the bytes up to the first newline are kept. The
/// reply is complete at the newline, and too long when more than `REPLY_LIMIT` bytes were kept.
pub fn accept_chunk(bytes: &mut Vec<u8>, chunk: &[u8]) -> (r: LineStep)
    ensures
        ({
            let keep = match first_newline(chunk@) {
                Some(i) => chunk@.subrange(0, i),
                None => chunk@,
            };
            &&& final(bytes)@ == old(bytes)@ + keep
            &&& r == (if final(bytes)@.len() > REPLY_LIMIT {
                LineStep::TooLarge
            } else if first_newline(chunk@) is Some {
                LineStep::Complete
            } else {
                LineStep::More
            })
        }),
{
    let n = chunk.len();
    let mut i: usize = 0;
    while i < n && chunk[i] != 10u8
        invariant
            n == chunk@.len(),
            i <= n,
            forall|j: int| 0 <= j < i ==> chunk@[j] != 10u8,
            first_newline(chunk@) == first_newline_from(chunk@, i as int),
        decreases n - i,
    {
        i = i + 1;
    }
    let ghost before = bytes@;
    let mut j: usize = 0;
    while j < i
        invariant
            i <= n,
            n == chunk@.len(),
            j <= i,
            bytes@ == before + chunk@.subrange(0, j as int),
        decreases i - j,
    {
        bytes.push(chunk[j]);
        proof {
            assert(chunk@.subrange(0, j + 1) =~= chunk@.subrange(0, j as int).push(chunk@[j as int]));
        }
        j = j + 1;
    }
    proof {
        if i == n {
            assert(chunk@.subrange(0, n as int) =~= chunk@);
        }
    }
    if bytes.len() > REPLY_LIMIT {
        LineStep::TooLarge
    } else if i < n {
        LineStep::Complete
    } else {
        LineStep::More
    }
}

/// The index of the first newline in `chunk` at or after `i`.
pub open spec fn first_newline_from(chunk: Seq<u8>, i: int) -> Option<int>
    decreases chunk.len() - i,
{
    if i < 0 || i >= chunk.len() {
        None
    } else if chunk[i] == 10u8 {
        Some(i)
    } else {
        first_newline_from(chunk, i + 1)
    }
}

/// The index of the first newline in `chunk`.
pub open spec fn first_newline(chunk: Seq<u8>) -> Option<int> {
    first_newline_from(chunk, 0)
}

/// A command sent through the pipe.
#[derive(Clone, Debug)]
pub struct Request {
    pub command: String,
    pub enabled: Option<bool>,
}

/// The commands whose request carries the switch value.
pub open spec fn takes_flag(command: Seq<char>) -> bool {
    command == "automatic"@ || command == "autostart"@ || command == "tray_only"@ || command
        == "look_at_mouse"@ || command == "confirm"@
}

/// The request the interface sends for a command; only switch commands carry their value.
pub fn request_for(command: &str, enabled: bool) -> (r: Request)
    ensures
        r.command@ == command@,
        r.enabled == (if takes_flag(command@) {
            Some(enabled)
        } else {
            None
        }),
{
    let flag = str_eq(command, "automatic") || str_eq(command, "autostart") || str_eq(
        command,
        "tray_only",
    ) || str_eq(command, "look_at_mouse") || str_eq(command, "confirm");
    Request {
        command: String::from_str(command),
        enabled: if flag {
            Some(enabled)
        } else {
            None
        },
    }
}

/// Why the interface could not use a reply.
#[derive(Debug)]
pub enum ClientError {
    /// No usable connection or reply; the message explains it.
    Connection(String),
    /// The background refused the action; the state it sent, if any, is authoritative.
    Action(String, Option<UiState>),
}

/// What a reply decoded to: `parsed` says whether it was JSON at all, `state` is the state it
/// carried (`None` without a `status` field, `Some(None)` when that state was malformed), and
/// `error` its error message, if any.
pub open spec fn reply_outcome_is(
    parsed: bool,
    state: Option<Option<UiState>>,
    error: Option<Seq<char>>,
    r: Result<UiState, ClientError>,
) -> bool {
    if !parsed {
        r matches Err(ClientError::Connection(m)) && m@ == "后台响应格式无效"@
    } else if state == Some(None::<UiState>) {
        r matches Err(ClientError::Connection(m)) && m@ == "后台状态格式无效"@
    } else if error is Some {
        r matches Err(ClientError::Action(m, s)) && m@ == error.unwrap() && s == (match state {
            Some(Some(st)) => Some(st),
            _ => None,
        })
    } else {
        match state {
            Some(Some(st)) => r == Ok::<UiState, ClientError>(st),
            _ => r matches Err(ClientError::Connection(m)) && m@
                == "后台版本不匹配，请使用同一候选包中的主程序和界面"@,
        }
    }
}

pub fn reply_outcome(parsed: bool, state: Option<Option<UiState>>, error: Option<String>) -> (r: Result<
    UiState,
    ClientError,
>)
    ensures
        reply_outcome_is(
            parsed,
            state,
            match error {
                Some(e) => Some(e@),
                None => None,
            },
            r,
        ),
{
    if !parsed {
        return Err(ClientError::Connection(String::from_str("后台响应格式无效")));
    }
    let state = match state {
        Some(None) => return Err(ClientError::Connection(String::from_str("后台状态格式无效"))),
        Some(Some(s)) => Some(s),
        None => None,
    };
    if let Some(e) = error {
        return Err(ClientError::Action(e, state));
    }
    match state {
        Some(s) => Ok(s),
        None => Err(
            ClientError::Connection(String::from_str("后台版本不匹配，请使用同一候选包中的主程序和界面")),
        ),
    }
}

/// What a reply line says as JSON, as serde_json reads it: `None` when the bytes are not a
/// JSON value; otherwise whether the value has a `status` key, and the text of its `error`
/// key when that is a string.
pub uninterp spec fn reply_fields(bytes: Seq<u8>) -> Option<(bool, Option<Seq<char>>)>;

/// `serde_json::from_slice` into a `serde_json::Value`, then `Value::get` of the `status` and
/// `error` keys and `Value::as_str` of the latter. The result is named by `reply_fields`.
#[verifier::external_body]
fn read_reply_fields(bytes: &[u8]) -> (r: Option<(bool, Option<String>)>)
    ensures
        match r {
            None => reply_fields(bytes@) is None,
            Some((status, error)) => reply_fields(bytes@) == Some(
                (
                    status,
                    match error {
                        Some(e) => Some(e@),
                        None => None,
                    },
                ),
            ),
        },
{
    let value = serde_json::from_slice::<serde_json::Value>(bytes).ok()?;
    let error = value.get("error").and_then(|e| e.as_str()).map(String::from);
    Some((value.get("status").is_some(), error))
}

/// The interface's reading of a reply line. `state` is the same line read as the published
/// state (`None` when it does not read as one); it counts only when the line has a `status`.
pub fn decode(bytes: &[u8], state: Option<UiState>) -> (r: Result<UiState, ClientError>)
    ensures
        match reply_fields(bytes@) {
            None => reply_outcome_is(false, None, None, r),
            Some((s, e)) => reply_outcome_is(
                true,
                if s {
                    Some(state)
                } else {
                    None
                },
                e,
                r,
            ),
        },
{
    match read_reply_fields(bytes) {
        None => reply_outcome(false, None, None),
        Some((s, e)) => reply_outcome(
            true,
            if s {
                Some(state)
            } else {
                None
            },
            e,
        ),
    }
}

/// Whether opening the pipe is tried again: only while the pipe is busy (231) or not there
/// yet (2), and only before `limit_ms` have passed since the first try.
pub fn retry_open(error: u32, elapsed_ms: u64, limit_ms: u64) -> (r: bool)
    ensures
        r == ((error == 231 || error == 2) && elapsed_ms < limit_ms),
{
    (error == 231 || error == 2) && elapsed_ms < limit_ms
}

pub open spec fn is_separator(c: char) -> bool {
    c == '\\' || c == '/'
}

/// The position of the last path separator among the first `n` characters.
pub open spec fn last_separator(s: Seq<char>, n: int) -> Option<int>
    decreases n,
{
    if n <= 0 {
        None
    } else if is_separator(s[n - 1]) {
        Some(n - 1)
    } else {
        last_separator(s, n - 1)
    }
}

/// The directory part of a path: everything before its last separator.
pub open spec fn parent_of(s: Seq<char>) -> Option<Seq<char>> {
    match last_separator(s, s.len() as int) {
        Some(i) => Some(s.subrange(0, i)),
        None => None,
    }
}

/// Where the background program lies for an interface running from `interface_exe` (an
/// absolute path): `PetRepair.exe` in the directory above the interface's own.
pub open spec fn backend_path_of(interface_exe: Seq<char>) -> Option<Seq<char>> {
    match parent_of(interface_exe) {
        Some(dir) => match parent_of(dir) {
            Some(top) => Some(top + "\\PetRepair.exe"@),
            None => None,
        },
        None => None,
    }
}

fn last_separator_in(s: &[char], n: usize) -> (r: Option<usize>)
    requires
        n <= s@.len(),
    ensures
        match r {
            Some(i) => last_separator(s@, n as int) == Some(i as int) && i < n,
            None => last_separator(s@, n as int) is None,
        },
{
    let mut k = n;
    while k > 0
        invariant
            k <= n <= s@.len(),
            last_separator(s@, n as int) == last_separator(s@, k as int),
        decreases k,
    {
        if s[k - 1] == '\\' || s[k - 1] == '/' {
            return Some(k - 1);
        }
        k = k - 1;
    }
    None
}

pub fn backend_path(interface_exe: &str) -> (r: Option<String>)
    ensures
        match r {
            Some(p) => backend_path_of(interface_exe@) == Some(p@),
            None => backend_path_of(interface_exe@) is None,
        },
{
    let chars = chars_of(interface_exe);
    let Some(d1) = last_separator_in(chars.as_slice(), chars.len()) else {
        return None;
    };
    let ghost dir = chars@.subrange(0, d1 as int);
    let Some(d2) = last_separator_in(chars.as_slice(), d1) else {
        proof {
            lemma_last_separator_prefix(chars@, d1 as int);
        }
        return None;
    };
    proof {
        lemma_last_separator_prefix(chars@, d1 as int);
    }
    let mut p = string_of(chars.as_slice(), 0, d2);
    p.append("\\PetRepair.exe");
    proof {
        assert(dir.subrange(0, d2 as int) =~= chars@.subrange(0, d2 as int));
    }
    Some(p)
}

/// Looking among the first `n` characters of `s` is looking in that prefix.
proof fn lemma_last_separator_prefix(s: Seq<char>, n: int)
    requires
        0 <= n <= s.len(),
    ensures
        last_separator(s.subrange(0, n), n) == last_separator(s, n),
    decreases n,
{
    if n > 0 {
        assert(s.subrange(0, n)[n - 1] == s[n - 1]);
        lemma_last_separator_prefix_step(s, n, n - 1);
    }
}

proof fn lemma_last_separator_prefix_step(s: Seq<char>, n: int, k: int)
    requires
        0 <= k < n <= s.len(),
    ensures
        last_separator(s.subrange(0, n), k + 1) == last_separator(s, k + 1),
    decreases k,
{
    assert(s.subrange(0, n)[k] == s[k]);
    if k > 0 {
        lemma_last_separator_prefix_step(s, n, k - 1);
    }
}

} // verus!
