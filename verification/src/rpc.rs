//! Decision core of the language-server RPC client.
//!
//! One external language-server process is driven over a single
//! newline-delimited JSON-RPC stream.  Everything the client decides —
//! the lifecycle state machine, the strictly increasing request ids,
//! which waiter a correlated response resolves, what a timed-out
//! request yields, and the exact bytes of every line written to the
//! server — is here and verified.  The hosting process performs the
//! spawning, writing, reading and waiting, and hands events back.

use vstd::prelude::*;
use vstd::string::StringSliceAdditionalSpecFns;

use crate::digits::spec_dec_bytes;
use crate::digits::spec_dec_bytes_signed;
use crate::digits::append_u64_dec;
use crate::digits::append_i64_dec;
use crate::host::str_eq;

verus! {

/// Lifecycle of the language-server session.  `ensure_started` is
/// idempotent: once `Ready`, the session stays `Ready`.
#[derive(Clone, Copy, PartialEq, Eq, Structural, Debug)]
pub enum RpcPhase {
    NotStarted,
    Initializing,
    Ready,
}

// ---------------------------------------------------------------------
// Wire framing: the exact bytes of every line sent to the server.
// ---------------------------------------------------------------------

/// Append a byte slice.
fn append_bytes(out: &mut Vec<u8>, s: &[u8])
    ensures
        final(out)@ == old(out)@ + s@,
{
    let ghost base = out@;
    let n = s.len();
    for i in 0..n
        invariant
            n == s@.len(),
            out@ == base + s@.take(i as int),
    {
        proof {
            assert(s@.take(i as int).push(s@[i as int]) =~= s@.take(i + 1));
        }
        out.push(s[i]);
    }
    proof {
        assert(s@.take(n as int) =~= s@);
    }
}

/// A lowercase hexadecimal digit.
pub open spec fn spec_hex_digit(d: int) -> u8 {
    if d < 10 {
        (48 + d) as u8
    } else {
        (87 + d) as u8
    }
}

/// The JSON string escaping of one byte of UTF-8 text: quote and
/// backslash are escaped, control bytes become `\n`, `\r`, `\t` or a
/// `\u00xx` sequence, every other byte stands as itself.
pub open spec fn spec_esc_byte(b: u8) -> Seq<u8> {
    if b == 34 {
        seq![92u8, 34u8]
    } else if b == 92 {
        seq![92u8, 92u8]
    } else if b == 10 {
        seq![92u8, 110u8]
    } else if b == 13 {
        seq![92u8, 114u8]
    } else if b == 9 {
        seq![92u8, 116u8]
    } else if b < 32 {
        seq![92u8, 117u8, 48u8, 48u8, spec_hex_digit(b as int / 16), spec_hex_digit(b as int % 16)]
    } else {
        seq![b]
    }
}

/// The JSON string escaping of `s[i..]`.
pub open spec fn spec_escaped_from(s: Seq<u8>, i: int) -> Seq<u8>
    decreases s.len() - i,
{
    if i < 0 || i >= s.len() {
        Seq::empty()
    } else {
        spec_esc_byte(s[i]) + spec_escaped_from(s, i + 1)
    }
}

/// The JSON string escaping of a text's bytes.
pub open spec fn spec_escaped(s: Seq<u8>) -> Seq<u8> {
    spec_escaped_from(s, 0)
}

/// Escape a text's bytes for a JSON string literal.
pub fn escape_json(s: &[u8]) -> (r: Vec<u8>)
    ensures
        r@ == spec_escaped(s@),
{
    let mut out: Vec<u8> = Vec::new();
    let n = s.len();
    for i in 0..n
        invariant
            n == s@.len(),
            spec_escaped(s@) =~= out@ + spec_escaped_from(s@, i as int),
    {
        let ghost out0 = out@;
        let b = s[i];
        let mut e: Vec<u8> = Vec::new();
        if b == 34 {
            e.push(92);
            e.push(34);
        } else if b == 92 {
            e.push(92);
            e.push(92);
        } else if b == 10 {
            e.push(92);
            e.push(110);
        } else if b == 13 {
            e.push(92);
            e.push(114);
        } else if b == 9 {
            e.push(92);
            e.push(116);
        } else if b < 32 {
            e.push(92);
            e.push(117);
            e.push(48);
            e.push(48);
            let hi = b / 16;
            let lo = b % 16;
            e.push(if hi < 10 {
                48 + hi
            } else {
                87 + hi
            });
            e.push(if lo < 10 {
                48 + lo
            } else {
                87 + lo
            });
        } else {
            e.push(b);
        }
        proof {
            assert(e@ =~= spec_esc_byte(s@[i as int]));
        }
        out.append(&mut e);
        proof {
            assert(out0 + (spec_esc_byte(s@[i as int]) + spec_escaped_from(s@, i + 1)) =~= (out0
                + spec_esc_byte(s@[i as int])) + spec_escaped_from(s@, i + 1));
        }
    }
    out
}

/// One request line: `{"jsonrpc":"2.0","id":N,"method":"M","params":P}`
/// followed by the newline that delimits the stream.  A request without
/// parameters omits the `params` member; a notification is a request
/// whose id is zero.
pub open spec fn spec_request_line(id: u64, method: Seq<u8>, params: Option<Seq<u8>>) -> Seq<u8> {
    "{\"jsonrpc\":\"2.0\",\"id\":".spec_bytes() + spec_dec_bytes(id as nat)
        + ",\"method\":\"".spec_bytes() + method + "\"".spec_bytes() + (match params {
        Some(p) => ",\"params\":".spec_bytes() + p,
        None => Seq::empty(),
    }) + "}\n".spec_bytes()
}

/// Frame one request line; see [`spec_request_line`].
pub fn request_line(id: u64, method: &str, params: Option<&Vec<u8>>) -> (r: Vec<u8>)
    ensures
        r@ == spec_request_line(
            id,
            method.spec_bytes(),
            match params {
                Some(p) => Some(p@),
                None => None,
            },
        ),
{
    let mut out: Vec<u8> = Vec::new();
    append_bytes(&mut out, "{\"jsonrpc\":\"2.0\",\"id\":".as_bytes());
    append_u64_dec(&mut out, id);
    append_bytes(&mut out, ",\"method\":\"".as_bytes());
    append_bytes(&mut out, method.as_bytes());
    append_bytes(&mut out, "\"".as_bytes());
    if let Some(p) = params {
        append_bytes(&mut out, ",\"params\":".as_bytes());
        append_bytes(&mut out, p.as_slice());
    }
    append_bytes(&mut out, "}\n".as_bytes());
    proof {
        assert(out@ =~= spec_request_line(
            id,
            method.spec_bytes(),
            match params {
                Some(p) => Some(p@),
                None => None::<Seq<u8>>,
            },
        ));
    }
    out
}

/// The `textDocument`/`position` parameter object shared by the query
/// helpers.
pub open spec fn spec_position_params(
    uri: Seq<u8>,
    line: u64,
    character: u64,
    version: int,
) -> Seq<u8> {
    "{\"textDocument\":{\"uri\":\"".spec_bytes() + spec_escaped(uri) + "\",\"version\":".spec_bytes()
        + spec_dec_bytes_signed(version) + "},\"position\":{\"line\":".spec_bytes() + spec_dec_bytes(
        line as nat,
    ) + ",\"character\":".spec_bytes() + spec_dec_bytes(character as nat) + "}}".spec_bytes()
}

/// Build the URI+position parameters; see [`spec_position_params`].
pub fn position_params(uri: &str, line: u64, character: u64, version: i64) -> (r: Vec<u8>)
    ensures
        r@ == spec_position_params(uri.spec_bytes(), line, character, version as int),
{
    let mut out: Vec<u8> = Vec::new();
    append_bytes(&mut out, "{\"textDocument\":{\"uri\":\"".as_bytes());
    let mut esc = escape_json(uri.as_bytes());
    out.append(&mut esc);
    append_bytes(&mut out, "\",\"version\":".as_bytes());
    append_i64_dec(&mut out, version);
    append_bytes(&mut out, "},\"position\":{\"line\":".as_bytes());
    append_u64_dec(&mut out, line);
    append_bytes(&mut out, ",\"character\":".as_bytes());
    append_u64_dec(&mut out, character);
    append_bytes(&mut out, "}}".as_bytes());
    proof {
        assert(out@ =~= spec_position_params(uri.spec_bytes(), line, character, version as int));
    }
    out
}

/// The whole-document-replace change parameters of `update_document`.
pub open spec fn spec_did_change_params(uri: Seq<u8>, content: Seq<u8>, version: int) -> Seq<u8> {
    "{\"textDocument\":{\"uri\":\"".spec_bytes() + spec_escaped(uri) + "\",\"version\":".spec_bytes()
        + spec_dec_bytes_signed(version) + "},\"contentChanges\":[{\"text\":\"".spec_bytes()
        + spec_escaped(content) + "\"}]}".spec_bytes()
}

/// Build the didChange parameters; see [`spec_did_change_params`].
pub fn did_change_params(uri: &str, content: &str, version: i64) -> (r: Vec<u8>)
    ensures
        r@ == spec_did_change_params(uri.spec_bytes(), content.spec_bytes(), version as int),
{
    let mut out: Vec<u8> = Vec::new();
    append_bytes(&mut out, "{\"textDocument\":{\"uri\":\"".as_bytes());
    let mut esc = escape_json(uri.as_bytes());
    out.append(&mut esc);
    append_bytes(&mut out, "\",\"version\":".as_bytes());
    append_i64_dec(&mut out, version);
    append_bytes(&mut out, "},\"contentChanges\":[{\"text\":\"".as_bytes());
    let mut esc2 = escape_json(content.as_bytes());
    out.append(&mut esc2);
    append_bytes(&mut out, "\"}]}".as_bytes());
    proof {
        assert(out@ =~= spec_did_change_params(
            uri.spec_bytes(),
            content.spec_bytes(),
            version as int,
        ));
    }
    out
}

/// The fixed parameters of the `initialize` request.
pub fn initialize_params() -> (r: Vec<u8>)
    ensures
        r@ == "{\"rootUri\":\"file:///workspace\",\"workspaceFolders\":[],\"capabilities\":{}}".spec_bytes(),
{
    "{\"rootUri\":\"file:///workspace\",\"workspaceFolders\":[],\"capabilities\":{}}".as_bytes_vec()
}

// ---------------------------------------------------------------------
// Choosing the server executable.
// ---------------------------------------------------------------------

/// Index of the first newline at or after `i`, else `s.len()`.
pub open spec fn spec_newline_at(s: Seq<char>, i: int) -> int
    decreases s.len() - i,
{
    if i < 0 || i >= s.len() {
        s.len() as int
    } else if s[i] == '\n' {
        i
    } else {
        spec_newline_at(s, i + 1)
    }
}

/// Everything before the first newline.
pub open spec fn spec_first_line(s: Seq<char>) -> Seq<char> {
    s.take(spec_newline_at(s, 0))
}

/// Choose the language-server executable from the probe results: the
/// first line of a non-empty path-search output, else the well-known
/// install location where one was found, else the literal command
/// name.  The probes themselves — running the search command, reading
/// the environment, testing the file — are the hosting process's.
pub fn choose_server_executable(search_output: Option<&str>, installed: Option<&str>) -> (r:
    String)
    ensures
        ({
            match search_output {
                Some(out) => {
                    if out@.len() > 0 {
                        r@ == spec_first_line(out@)
                    } else {
                        r@ == spec_fallback_executable(installed)
                    }
                },
                None => r@ == spec_fallback_executable(installed),
            }
        }),
{
    if let Some(out) = search_output {
        let n = out.unicode_len();
        if n > 0 {
            let mut k: usize = 0;
            while k < n && out.get_char(k) != '\n'
                invariant
                    n == out@.len(),
                    k <= n,
                    spec_newline_at(out@, 0) == spec_newline_at(out@, k as int),
                decreases n - k,
            {
                k = k + 1;
            }
            proof {
                assert(spec_newline_at(out@, k as int) == k as int);
            }
            let first = out.substring_char(0, k);
            return first.to_owned();
        }
    }
    match installed {
        Some(p) => p.to_owned(),
        None => String::from_str("tinymist"),
    }
}

/// The executable when the path search found nothing.
pub open spec fn spec_fallback_executable(installed: Option<&str>) -> Seq<char> {
    match installed {
        Some(p) => p@,
        None => "tinymist"@,
    }
}

// ---------------------------------------------------------------------
// Request correlation and timeout.
// ---------------------------------------------------------------------

/// What a waiter observed on the shared response channel.
#[derive(Clone, Copy, PartialEq, Eq, Structural, Debug)]
pub enum WaitOutcome {
    /// A response with this correlation id arrived.
    Response(u64),
    /// The channel closed.
    Closed,
    /// The timeout ceiling elapsed first.
    TimedOut,
}

/// How the waiter settles.
#[derive(Clone, Copy, PartialEq, Eq, Structural, Debug)]
pub enum WaitDecision {
    /// Take the correlated response as the request's result.
    Accept,
    /// Degrade to the empty/null result — never an error, never a hang.
    Fallback,
}

/// Settle a waiting request: a response is accepted exactly when its
/// id matches the request's own; a mismatched id, a closed channel and
/// a timeout all degrade to the empty result.
pub fn resolve_wait(expected: u64, outcome: WaitOutcome) -> (r: WaitDecision)
    ensures
        r is Accept <==> outcome == WaitOutcome::Response(expected),
{
    match outcome {
        WaitOutcome::Response(id) => {
            if id == expected {
                WaitDecision::Accept
            } else {
                WaitDecision::Fallback
            }
        },
        WaitOutcome::Closed => WaitDecision::Fallback,
        WaitOutcome::TimedOut => WaitDecision::Fallback,
    }
}

// ---------------------------------------------------------------------
// The session state.
// ---------------------------------------------------------------------

/// First index in `v[i..]` whose key equals `uri`, else `v.len()`.
pub open spec fn spec_ver_find(v: Seq<(String, i64)>, uri: Seq<char>, i: int) -> int
    decreases v.len() - i,
{
    if i < 0 || i >= v.len() {
        v.len() as int
    } else if v[i].0@ == uri {
        i
    } else {
        spec_ver_find(v, uri, i + 1)
    }
}

/// The last-synced version recorded for `uri`, if any.
pub open spec fn spec_ver_get(v: Seq<(String, i64)>, uri: Seq<char>) -> Option<i64> {
    let j = spec_ver_find(v, uri, 0);
    if j < v.len() {
        Some(v[j].1)
    } else {
        None
    }
}

/// No document URI occurs twice.
pub open spec fn spec_ver_keys_unique(v: Seq<(String, i64)>) -> bool {
    forall|j: int, k: int| 0 <= j < k < v.len() ==> (#[trigger] v[j]).0@ != (#[trigger] v[k]).0@
}

/// The language-server session's decision state: lifecycle phase, the
/// next request id, the outstanding request ids, and the per-document
/// version table.
pub struct LspManager {
    pub phase: RpcPhase,
    pub next_request_id: u64,
    pub pending: Vec<u64>,
    pub document_versions: Vec<(String, i64)>,
}

/// Well-formed session: outstanding ids and document URIs unique, and
/// every outstanding id below the next to be issued.
pub open spec fn spec_manager_wf(m: LspManager) -> bool {
    &&& forall|j: int, k: int|
        0 <= j < k < m.pending@.len() ==> m.pending@[j] != m.pending@[k]
    &&& forall|j: int| 0 <= j < m.pending@.len() ==> #[trigger] m.pending@[j] < m.next_request_id
    &&& spec_ver_keys_unique(m.document_versions@)
}

impl LspManager {
    /// A fresh, unstarted session; request ids begin at one.
    pub fn new() -> (m: LspManager)
        ensures
            m.phase == RpcPhase::NotStarted,
            m.next_request_id == 1,
            m.pending@.len() == 0,
            m.document_versions@.len() == 0,
            spec_manager_wf(m),
    {
        LspManager {
            phase: RpcPhase::NotStarted,
            next_request_id: 1,
            pending: Vec::new(),
            document_versions: Vec::new(),
        }
    }

    /// Idempotent start: `true` asks the caller to run the
    /// initialization sequence, claimed by moving to `Initializing`;
    /// concurrent callers collapse — only the first is told to start.
    /// Once `Ready`, the session stays `Ready`.
    pub fn ensure_started(&mut self) -> (r: bool)
        ensures
            r == (old(self).phase == RpcPhase::NotStarted),
            final(self).phase == if old(self).phase == RpcPhase::NotStarted {
                RpcPhase::Initializing
            } else {
                old(self).phase
            },
            final(self).next_request_id == old(self).next_request_id,
            final(self).pending == old(self).pending,
            final(self).document_versions == old(self).document_versions,
    {
        match self.phase {
            RpcPhase::NotStarted => {
                self.phase = RpcPhase::Initializing;
                true
            },
            RpcPhase::Initializing => false,
            RpcPhase::Ready => false,
        }
    }

    /// The initialization sequence is done: the session is `Ready`.
    pub fn mark_ready(&mut self)
        ensures
            final(self).phase == RpcPhase::Ready,
            final(self).next_request_id == old(self).next_request_id,
            final(self).pending == old(self).pending,
            final(self).document_versions == old(self).document_versions,
    {
        self.phase = RpcPhase::Ready;
    }

    /// Frame a request: allocate the next id — strictly increasing —
    /// record it outstanding, and return the id with the exact line to
    /// write to the server.
    pub fn send_request(&mut self, method: &str, params: Option<&Vec<u8>>) -> (r: (u64, Vec<u8>))
        requires
            spec_manager_wf(*old(self)),
            old(self).next_request_id < u64::MAX,
        ensures
            spec_manager_wf(*final(self)),
            r.0 == old(self).next_request_id,
            final(self).next_request_id == old(self).next_request_id + 1,
            final(self).pending@ == old(self).pending@.push(r.0),
            r.1@ == spec_request_line(
                r.0,
                method.spec_bytes(),
                match params {
                    Some(p) => Some(p@),
                    None => None,
                },
            ),
            final(self).phase == old(self).phase,
            final(self).document_versions == old(self).document_versions,
    {
        let id = self.next_request_id;
        self.next_request_id = self.next_request_id + 1;
        self.pending.push(id);
        let line = request_line(id, method, params);
        (id, line)
    }

    /// Frame a notification: a request line with id zero, leaving the
    /// session state untouched.
    pub fn send_notification(&self, method: &str, params: Option<&Vec<u8>>) -> (r: Vec<u8>)
        ensures
            r@ == spec_request_line(
                0,
                method.spec_bytes(),
                match params {
                    Some(p) => Some(p@),
                    None => None,
                },
            ),
    {
        request_line(0, method, params)
    }

    /// Frame the initialization sequence: the `initialize` request —
    /// under a fresh id, with the fixed parameters — and the
    /// `initialized` notification to send once the grace period has
    /// passed.
    pub fn initialize(&mut self) -> (r: (u64, Vec<u8>, Vec<u8>))
        requires
            spec_manager_wf(*old(self)),
            old(self).next_request_id < u64::MAX,
        ensures
            spec_manager_wf(*final(self)),
            r.0 == old(self).next_request_id,
            final(self).next_request_id == old(self).next_request_id + 1,
            final(self).pending@ == old(self).pending@.push(r.0),
            r.1@ == spec_request_line(
                r.0,
                "initialize".spec_bytes(),
                Some(
                    "{\"rootUri\":\"file:///workspace\",\"workspaceFolders\":[],\"capabilities\":{}}".spec_bytes(),
                ),
            ),
            r.2@ == spec_request_line(0, "initialized".spec_bytes(), None),
            final(self).phase == old(self).phase,
            final(self).document_versions == old(self).document_versions,
    {
        let params = initialize_params();
        let (id, init_line) = self.send_request("initialize", Some(&params));
        let done_line = self.send_notification("initialized", None);
        (id, init_line, done_line)
    }

    /// Frame a completion query at a position.
    pub fn get_completion(&mut self, uri: &str, line: u64, character: u64, version: i64) -> (r: (
        u64,
        Vec<u8>,
    ))
        requires
            spec_manager_wf(*old(self)),
            old(self).next_request_id < u64::MAX,
        ensures
            spec_manager_wf(*final(self)),
            r.0 == old(self).next_request_id,
            final(self).pending@ == old(self).pending@.push(r.0),
            r.1@ == spec_request_line(
                r.0,
                "textDocument/completion".spec_bytes(),
                Some(spec_position_params(uri.spec_bytes(), line, character, version as int)),
            ),
    {
        let params = position_params(uri, line, character, version);
        self.send_request("textDocument/completion", Some(&params))
    }

    /// Frame a hover query at a position.
    pub fn get_hover(&mut self, uri: &str, line: u64, character: u64, version: i64) -> (r: (
        u64,
        Vec<u8>,
    ))
        requires
            spec_manager_wf(*old(self)),
            old(self).next_request_id < u64::MAX,
        ensures
            spec_manager_wf(*final(self)),
            r.0 == old(self).next_request_id,
            final(self).pending@ == old(self).pending@.push(r.0),
            r.1@ == spec_request_line(
                r.0,
                "textDocument/hover".spec_bytes(),
                Some(spec_position_params(uri.spec_bytes(), line, character, version as int)),
            ),
    {
        let params = position_params(uri, line, character, version);
        self.send_request("textDocument/hover", Some(&params))
    }

    /// Frame a go-to-definition query at a position.
    pub fn goto_definition(&mut self, uri: &str, line: u64, character: u64, version: i64) -> (r: (
        u64,
        Vec<u8>,
    ))
        requires
            spec_manager_wf(*old(self)),
            old(self).next_request_id < u64::MAX,
        ensures
            spec_manager_wf(*final(self)),
            r.0 == old(self).next_request_id,
            final(self).pending@ == old(self).pending@.push(r.0),
            r.1@ == spec_request_line(
                r.0,
                "textDocument/definition".spec_bytes(),
                Some(spec_position_params(uri.spec_bytes(), line, character, version as int)),
            ),
    {
        let params = position_params(uri, line, character, version);
        self.send_request("textDocument/definition", Some(&params))
    }

    /// Resolve one outstanding request by id: `true` exactly when the
    /// id was outstanding, which removes it — one response resolves at
    /// most one waiter, the one with the matching id.
    pub fn take_pending(&mut self, id: u64) -> (r: bool)
        requires
            spec_manager_wf(*old(self)),
        ensures
            spec_manager_wf(*final(self)),
            r == old(self).pending@.contains(id),
            !final(self).pending@.contains(id),
            forall|q: u64|
                q != id ==> final(self).pending@.contains(q) == old(self).pending@.contains(q),
            final(self).phase == old(self).phase,
            final(self).next_request_id == old(self).next_request_id,
            final(self).document_versions == old(self).document_versions,
    {
        let n = self.pending.len();
        for i in 0..n
            invariant
                n == self.pending@.len(),
                self == old(self),
                spec_manager_wf(*old(self)),
                forall|j: int| 0 <= j < i ==> self.pending@[j] != id,
        {
            if self.pending[i] == id {
                self.pending.remove(i);
                proof {
                    let p0 = old(self).pending@;
                    let p1 = self.pending@;
                    assert(p1 =~= p0.subrange(0, i as int) + p0.subrange(i + 1, p0.len() as int));
                    assert(p0[i as int] == id);
                    assert(forall|j: int, k: int|
                        0 <= j < k < p1.len() ==> p1[j] != p1[k]) by {
                        assert(forall|j: int|
                            0 <= j < p1.len() ==> #[trigger] p1[j] == (if j < i {
                                p0[j]
                            } else {
                                p0[j + 1]
                            }));
                    }
                    assert(!p1.contains(id)) by {
                        if p1.contains(id) {
                            let w = choose|w: int| 0 <= w < p1.len() && p1[w] == id;
                            if w < i {
                                assert(p0[w] == id);
                            } else {
                                assert(p0[w + 1] == id);
                            }
                        }
                    }
                    assert(forall|q: u64|
                        q != id ==> p1.contains(q) == p0.contains(q)) by {
                        assert forall|q: u64| q != id implies p1.contains(q) == p0.contains(
                            q,
                        ) by {
                            if p0.contains(q) {
                                let w = choose|w: int| 0 <= w < p0.len() && p0[w] == q;
                                if w < i {
                                    assert(p1[w] == q);
                                } else {
                                    assert(w != i);
                                    assert(p1[w - 1] == q);
                                }
                            }
                            if p1.contains(q) {
                                let w = choose|w: int| 0 <= w < p1.len() && p1[w] == q;
                                if w < i {
                                    assert(p0[w] == q);
                                } else {
                                    assert(p0[w + 1] == q);
                                }
                            }
                        }
                    }
                    assert(old(self).pending@.contains(id)) by {
                        assert(p0[i as int] == id);
                    }
                }
                return true;
            }
        }
        proof {
            if old(self).pending@.contains(id) {
                let w = choose|w: int|
                    0 <= w < old(self).pending@.len() && old(self).pending@[w] == id;
                assert(false);
            }
        }
        false
    }

    /// Record a document's last-synced version — never decreasing —
    /// and frame the whole-document-replace change notification.
    pub fn update_document(&mut self, uri: &str, content: &str, version: i64) -> (r: Vec<u8>)
        requires
            spec_manager_wf(*old(self)),
        ensures
            spec_manager_wf(*final(self)),
            r@ == spec_request_line(
                0,
                "textDocument/didChange".spec_bytes(),
                Some(spec_did_change_params(uri.spec_bytes(), content.spec_bytes(), version as int)),
            ),
            ({
                let stored = spec_ver_get(final(self).document_versions@, uri@);
                match spec_ver_get(old(self).document_versions@, uri@) {
                    Some(v0) => stored == Some(if v0 > version {
                        v0
                    } else {
                        version
                    }),
                    None => stored == Some(version),
                }
            }),
            forall|u: Seq<char>|
                u != uri@ ==> #[trigger] spec_ver_get(final(self).document_versions@, u)
                    == spec_ver_get(old(self).document_versions@, u),
            final(self).phase == old(self).phase,
            final(self).next_request_id == old(self).next_request_id,
            final(self).pending == old(self).pending,
    {
        self.record_version(uri, version);
        let params = did_change_params(uri, content, version);
        self.send_notification("textDocument/didChange", Some(&params))
    }

    /// The version recorded for a document, if any.
    pub fn version_of(&self, uri: &str) -> (r: Option<i64>)
        ensures
            r == spec_ver_get(self.document_versions@, uri@),
    {
        let n = self.document_versions.len();
        for i in 0..n
            invariant
                n == self.document_versions@.len(),
                spec_ver_find(self.document_versions@, uri@, 0) == spec_ver_find(
                    self.document_versions@,
                    uri@,
                    i as int,
                ),
        {
            if str_eq(self.document_versions[i].0.as_str(), uri) {
                proof {
                    assert(spec_ver_find(self.document_versions@, uri@, i as int) == i as int);
                }
                return Some(self.document_versions[i].1);
            }
        }
        None
    }

    fn record_version(&mut self, uri: &str, version: i64)
        requires
            spec_manager_wf(*old(self)),
        ensures
            spec_manager_wf(*final(self)),
            ({
                let stored = spec_ver_get(final(self).document_versions@, uri@);
                match spec_ver_get(old(self).document_versions@, uri@) {
                    Some(v0) => stored == Some(if v0 > version {
                        v0
                    } else {
                        version
                    }),
                    None => stored == Some(version),
                }
            }),
            forall|u: Seq<char>|
                u != uri@ ==> #[trigger] spec_ver_get(final(self).document_versions@, u)
                    == spec_ver_get(old(self).document_versions@, u),
            final(self).phase == old(self).phase,
            final(self).next_request_id == old(self).next_request_id,
            final(self).pending == old(self).pending,
    {
        let n = self.document_versions.len();
        for i in 0..n
            invariant
                n == self.document_versions@.len(),
                self == old(self),
                spec_manager_wf(*old(self)),
                spec_ver_find(self.document_versions@, uri@, 0) == spec_ver_find(
                    self.document_versions@,
                    uri@,
                    i as int,
                ),
        {
            if str_eq(self.document_versions[i].0.as_str(), uri) {
                proof {
                    assert(spec_ver_find(self.document_versions@, uri@, i as int) == i as int);
                }
                let v0 = self.document_versions[i].1;
                let stored = if v0 > version {
                    v0
                } else {
                    version
                };
                let entry = self.document_versions.remove(i);
                self.document_versions.insert(i, (entry.0, stored));
                proof {
                    let v1 = self.document_versions@;
                    let p0 = old(self).document_versions@;
                    assert(v1 =~= p0.update(i as int, (p0[i as int].0, stored)));
                    lemma_ver_update(p0, i as int, stored, uri@);
                }
                return ;
            }
        }
        let key = uri.to_owned();
        self.document_versions.push((key, version));
        proof {
            lemma_ver_push(old(self).document_versions@, uri@, version,
                self.document_versions@[self.document_versions@.len() - 1].0);
        }
    }
}

proof fn lemma_ver_find_props(v: Seq<(String, i64)>, uri: Seq<char>, i: int)
    requires
        0 <= i <= v.len(),
    ensures
        i <= spec_ver_find(v, uri, i) <= v.len(),
        spec_ver_find(v, uri, i) < v.len() ==> v[spec_ver_find(v, uri, i)].0@ == uri,
        forall|j: int| i <= j < spec_ver_find(v, uri, i) ==> (#[trigger] v[j]).0@ != uri,
    decreases v.len() - i,
{
    if i < v.len() && v[i].0@ != uri {
        lemma_ver_find_props(v, uri, i + 1);
    }
}

proof fn lemma_ver_find_same(v: Seq<(String, i64)>, v2: Seq<(String, i64)>, uri: Seq<char>, i: int)
    requires
        0 <= i <= v.len(),
        v2.len() == v.len() || v2.len() == v.len() + 1,
        forall|k: int| 0 <= k < v.len() ==> (#[trigger] v2[k]).0@ == v[k].0@,
        v2.len() == v.len() + 1 ==> v2[v.len() as int].0@ != uri,
    ensures
        ({
            let j = spec_ver_find(v, uri, i);
            let j2 = spec_ver_find(v2, uri, i);
            if j < v.len() {
                j2 == j
            } else {
                j2 >= v2.len()
            }
        }),
    decreases v.len() - i,
{
    if i < v.len() {
        if v[i].0@ != uri {
            lemma_ver_find_same(v, v2, uri, i + 1);
        }
    } else {
        if v2.len() == v.len() + 1 {
            assert(spec_ver_find(v2, uri, i + 1) == v2.len());
            assert(spec_ver_find(v2, uri, i) == v2.len());
        }
    }
}

proof fn lemma_ver_update(p0: Seq<(String, i64)>, i: int, stored: i64, uri: Seq<char>)
    requires
        spec_ver_keys_unique(p0),
        0 <= i < p0.len(),
        p0[i].0@ == uri,
        spec_ver_find(p0, uri, 0) == i,
    ensures
        ({
            let v1 = p0.update(i, (p0[i].0, stored));
            &&& spec_ver_keys_unique(v1)
            &&& spec_ver_get(v1, uri) == Some(stored)
            &&& forall|u: Seq<char>|
                u != uri ==> #[trigger] spec_ver_get(v1, u) == spec_ver_get(p0, u)
        }),
{
    let v1 = p0.update(i, (p0[i].0, stored));
    lemma_ver_find_same(p0, v1, uri, 0);
    assert forall|u: Seq<char>| u != uri implies #[trigger] spec_ver_get(v1, u) == spec_ver_get(
        p0,
        u,
    ) by {
        lemma_ver_find_same(p0, v1, u, 0);
        lemma_ver_find_props(p0, u, 0);
        lemma_ver_find_props(v1, u, 0);
    }
}

proof fn lemma_ver_push(p0: Seq<(String, i64)>, uri: Seq<char>, version: i64, key: String)
    requires
        spec_ver_keys_unique(p0),
        spec_ver_find(p0, uri, 0) == p0.len(),
        key@ == uri,
    ensures
        ({
            let v1 = p0.push((key, version));
            &&& spec_ver_keys_unique(v1)
            &&& spec_ver_get(v1, uri) == Some(version)
            &&& forall|u: Seq<char>|
                u != uri ==> #[trigger] spec_ver_get(v1, u) == spec_ver_get(p0, u)
        }),
{
    let v1 = p0.push((key, version));
    lemma_ver_find_props(p0, uri, 0);
    assert forall|j: int, k: int| 0 <= j < k < v1.len() implies (#[trigger] v1[j]).0@ != (
    #[trigger] v1[k]).0@ by {
        if k == p0.len() {
            assert(v1[j].0@ == p0[j].0@);
        }
    }
    lemma_ver_find_end(v1, uri);
    assert forall|u: Seq<char>| u != uri implies #[trigger] spec_ver_get(v1, u) == spec_ver_get(
        p0,
        u,
    ) by {
        lemma_ver_find_same(p0, v1, u, 0);
        lemma_ver_find_props(p0, u, 0);
        lemma_ver_find_props(v1, u, 0);
    }
}

proof fn lemma_ver_find_end(v1: Seq<(String, i64)>, uri: Seq<char>)
    requires
        v1.len() > 0,
        v1[v1.len() - 1].0@ == uri,
        forall|j: int| 0 <= j < v1.len() - 1 ==> (#[trigger] v1[j]).0@ != uri,
    ensures
        spec_ver_find(v1, uri, 0) == v1.len() - 1,
{
    lemma_ver_find_props(v1, uri, 0);
    let f = spec_ver_find(v1, uri, 0);
    if f < v1.len() - 1 {
        assert(v1[f].0@ != uri);
    }
}

} // verus!
