//! The steps of a client connection.
//!
//! The application owns the sockets. It asks here where to listen, whether
//! to let a client in, and what to do with each frame.
use vstd::prelude::*;

use super::auth::{header_accepted, AuthConfig};
use super::dispatch::{dispatch_with_auth_async, refusal, routed, Dispatch, DispatchView};
use super::error::{
    invalid_request_view, limits_tell_the_wait, rate_limited_view, RpcError, RATE_LIMITED,
};
use super::json::{Json, JsonView};
use super::method;
use super::ratelimit::{Bucket, Decision, RateLimiter};
use super::rpc::{
    err_view, notice_notification, notice_view, AuthState, BridgeNotice, RequestView, RpcNotification,
    RpcRequest, RpcResponse,
};
use crate::text::{decimal, decimal_round_trip, parse_u64, parsed_u64, same_text};

verus! {

/// Seconds that a client without a header has for its `auth.hello`.
pub const PENDING_AUTH_TIMEOUT: u64 = 5;

/// Port where none is given.
pub const DEFAULT_PORT: u16 = 8765;

/// The address that only this machine can reach.
pub const LOOPBACK: &'static str = "127.0.0.1";

/// Close code for a client that broke the rules.
pub const CLOSE_POLICY: u16 = 1008;

/// Where to listen.
#[derive(Debug, Clone)]
pub struct BindAddr {
    pub host: String,
    pub port: u16,
}

/// Where to listen and which token to ask for.
#[derive(Debug, Clone)]
pub struct BridgeConfig {
    pub bind_addr: BindAddr,
    pub auth: AuthConfig,
}

/// The port in a text; the default where it holds none.
pub open spec fn port_of(text: Option<Seq<char>>) -> u16 {
    match text {
        Some(s) => match parsed_u64(s) {
            Some(n) => if n <= u16::MAX {
                n as u16
            } else {
                DEFAULT_PORT
            },
            None => DEFAULT_PORT,
        },
        None => DEFAULT_PORT,
    }
}

/// The port in a text; the default where it holds none.
pub fn port_from(text: Option<&str>) -> (r: u16)
    ensures
        r == port_of(
            match text {
                Some(s) => Some(s@),
                None => None,
            },
        ),
{
    match text {
        Some(s) => match parse_u64(s) {
            Some(n) => {
                if n <= u16::MAX as u64 {
                    n as u16
                } else {
                    DEFAULT_PORT
                }
            },
            None => DEFAULT_PORT,
        },
        None => DEFAULT_PORT,
    }
}

impl BridgeConfig {
    /// The configuration for values of the environment: the port, the whole
    /// address, which wins over the port, and the token. `bind_addr` is the
    /// address that its variable holds, where it holds one.
    pub fn from_env(port: Option<&str>, bind_addr: Option<BindAddr>, token: Option<String>) -> (r:
        Self)
        ensures
            r.auth.token() == (match token {
                Some(v) => if v@.len() == 0 {
                    None
                } else {
                    Some(v@)
                },
                None => None,
            }),
            bind_addr matches Some(a) ==> r.bind_addr.port == a.port,
            bind_addr is None ==> r.bind_addr.port == port_of(
                match port {
                    Some(s) => Some(s@),
                    None => None,
                },
            ),
            r.bind_addr.host@ == (match bind_addr {
                Some(a) => if r.auth.token() is Some {
                    a.host@
                } else {
                    LOOPBACK@
                },
                None => LOOPBACK@,
            }),
    {
        let auth: AuthConfig = AuthConfig::from_env(token);
        let addr: BindAddr = match bind_addr {
            Some(a) => a,
            None => BindAddr { host: LOOPBACK.to_owned(), port: port_from(port) },
        };
        BridgeConfig::resolve_bind_addr(addr, auth)
    }

    /// Listen where asked if clients must show a token; else on this machine
    /// only.
    pub fn resolve_bind_addr(addr: BindAddr, auth: AuthConfig) -> (r: Self)
        ensures
            r.auth == auth,
            r.bind_addr.port == addr.port,
            r.bind_addr.host@ == (if auth.token() is Some {
                addr.host@
            } else {
                LOOPBACK@
            }),
    {
        if auth.requires_auth() {
            BridgeConfig { bind_addr: addr, auth }
        } else {
            BridgeConfig { bind_addr: BindAddr { host: LOOPBACK.to_owned(), port: addr.port }, auth }
        }
    }
}

/// Answer to a handshake.
#[derive(Debug, Clone, Copy, PartialEq, Eq, Structural)]
pub enum Handshake {
    /// Let the client in; the connection starts in that state.
    Accept(AuthState),
    /// Refuse with status 401.
    Unauthorized,
}

/// Answer to a handshake with that `Authorization` header: with the right
/// token the client is in, with a wrong one it is refused, and without one
/// it has to send `auth.hello`. Where no token is asked for, it is in.
pub open spec fn handshake_outcome(
    token: Option<Seq<char>>,
    header: Option<Seq<char>>,
) -> Handshake {
    if token is None {
        Handshake::Accept(AuthState::Authed)
    } else if header is None {
        Handshake::Accept(AuthState::PendingAuth)
    } else if header_accepted(token, header) {
        Handshake::Accept(AuthState::Authed)
    } else {
        Handshake::Unauthorized
    }
}

/// Answer a handshake with that `Authorization` header.
pub fn handshake(auth: &AuthConfig, header: Option<&str>) -> (r: Handshake)
    ensures
        r == handshake_outcome(
            auth.token(),
            match header {
                Some(h) => Some(h@),
                None => None,
            },
        ),
{
    if !auth.requires_auth() {
        return Handshake::Accept(AuthState::Authed);
    }
    match header {
        None => Handshake::Accept(AuthState::PendingAuth),
        Some(h) => {
            if auth.check_header(Some(h)) {
                Handshake::Accept(AuthState::Authed)
            } else {
                Handshake::Unauthorized
            }
        },
    }
}

/// What the socket gave.
#[derive(Debug)]
pub enum ClientEvent {
    /// Nothing in time, or the time was up already.
    TimedOut,
    /// The end of the stream.
    Ended,
    ReadError,
    Text,
    Binary,
    Ping(Vec<u8>),
    Pong,
    Close,
}

/// What to do with it.
#[derive(Debug)]
pub enum ClientAction {
    /// Dispatch the text as a request.
    HandleText,
    /// Send an answer.
    Reply(RpcResponse),
    /// Send the payload back.
    Pong(Vec<u8>),
    /// Read on.
    Ignore,
    /// Close the connection with that code and reason.
    Close { code: u16, reason: &'static str },
    /// End the connection.
    Stop,
}

/// How long to wait for the next frame.
#[derive(Debug, Clone, Copy, PartialEq, Eq, Structural)]
pub enum ReadWait {
    /// As long as it takes.
    Unlimited,
    /// So many milliseconds.
    AtMost(u64),
    /// Not at all: the time is up.
    Over,
}

/// How long to wait for the next frame of a connection that was accepted so
/// many milliseconds ago: for an open one as long as it takes, for one that
/// has not shown its token what is left of its time. Frames that come
/// meanwhile do not prolong it.
pub open spec fn wait_spec(state: AuthState, since_accepted_ms: u64) -> ReadWait {
    match state {
        AuthState::Authed => ReadWait::Unlimited,
        AuthState::PendingAuth => if since_accepted_ms < PENDING_AUTH_TIMEOUT * 1000 {
            ReadWait::AtMost((PENDING_AUTH_TIMEOUT * 1000 - since_accepted_ms) as u64)
        } else {
            ReadWait::Over
        },
    }
}

/// How long to wait for the next frame of a connection that was accepted so
/// many milliseconds ago.
pub fn read_timeout(state: AuthState, since_accepted_ms: u64) -> (r: ReadWait)
    ensures
        r == wait_spec(state, since_accepted_ms),
{
    match state {
        AuthState::Authed => ReadWait::Unlimited,
        AuthState::PendingAuth => {
            let all: u64 = PENDING_AUTH_TIMEOUT * 1000;
            if since_accepted_ms < all {
                ReadWait::AtMost(all - since_accepted_ms)
            } else {
                ReadWait::Over
            }
        },
    }
}

/// A connection that does not show its token is closed in time, whatever it
/// sends: no wait ends later than its time allows, and once that is up there
/// is none.
pub proof fn pending_connections_end_in_time(since_accepted_ms: u64)
    ensures
        match wait_spec(AuthState::PendingAuth, since_accepted_ms) {
            ReadWait::Unlimited => false,
            ReadWait::AtMost(ms) => ms > 0 && since_accepted_ms + ms == PENDING_AUTH_TIMEOUT * 1000,
            ReadWait::Over => since_accepted_ms >= PENDING_AUTH_TIMEOUT * 1000,
        },
{
}

/// An action is the right one for an event.
pub open spec fn acts_on(event: ClientEvent, action: ClientAction) -> bool {
    match event {
        ClientEvent::TimedOut => action matches ClientAction::Close { code, reason } && code
            == CLOSE_POLICY && reason@ == "auth.hello timeout"@,
        ClientEvent::Ended => action is Stop,
        ClientEvent::ReadError => action is Stop,
        ClientEvent::Close => action is Stop,
        ClientEvent::Text => action is HandleText,
        ClientEvent::Binary => action matches ClientAction::Reply(r) && r@ == err_view(
            None,
            invalid_request_view("binary frames not supported; send JSON text"@),
        ),
        ClientEvent::Ping(payload) => action == ClientAction::Pong(payload),
        ClientEvent::Pong => action is Ignore,
    }
}

/// What to do with what the socket gave.
pub fn client_step(event: ClientEvent) -> (r: ClientAction)
    ensures
        acts_on(event, r),
{
    match event {
        ClientEvent::TimedOut => ClientAction::Close {
            code: CLOSE_POLICY,
            reason: "auth.hello timeout",
        },
        ClientEvent::Ended => ClientAction::Stop,
        ClientEvent::ReadError => ClientAction::Stop,
        ClientEvent::Close => ClientAction::Stop,
        ClientEvent::Text => ClientAction::HandleText,
        ClientEvent::Binary => ClientAction::Reply(
            RpcResponse::err(
                None,
                RpcError::invalid_request("binary frames not supported; send JSON text"),
            ),
        ),
        ClientEvent::Ping(payload) => ClientAction::Pong(payload),
        ClientEvent::Pong => ClientAction::Ignore,
    }
}

/// What the notice channel gave.
#[derive(Debug)]
pub enum NoticeEvent {
    Notice(BridgeNotice),
    /// The client was too slow, and some notices are gone.
    Lagged(u64),
    Closed,
}

/// What to do with it.
#[derive(Debug)]
pub enum NoticeAction {
    Send(RpcNotification),
    Skip,
    Stop,
}

/// What to do with what the notice channel gave; `state` is the state of the
/// notice, where it carries one, as JSON.
pub fn notice_step(event: NoticeEvent, state: Json) -> (r: NoticeAction)
    ensures
        match event {
            NoticeEvent::Notice(n) => r matches NoticeAction::Send(m) && m@ == notice_view(
                n,
                state@,
            ),
            NoticeEvent::Lagged(_) => r is Skip,
            NoticeEvent::Closed => r is Stop,
        },
{
    match event {
        NoticeEvent::Notice(n) => NoticeAction::Send(notice_notification(&n, state)),
        NoticeEvent::Lagged(_) => NoticeAction::Skip,
        NoticeEvent::Closed => NoticeAction::Stop,
    }
}

/// A frame that takes a token: an event submitted on an open connection.
pub open spec fn is_metered(state: AuthState, req: RequestView) -> bool {
    state is Authed && req.method == method::SUBMIT_EVENT@
}

/// What a request asks for, and what it leaves of the bucket: a submission
/// takes a token, if the limit is on, and without one it is refused.
pub open spec fn frame_route(
    state: AuthState,
    req: RequestView,
    off: bool,
    bucket: Bucket,
    now_ns: int,
) -> (DispatchView, Bucket) {
    if is_metered(state, req) && !off {
        let (left, decision) = bucket.step(now_ns);
        match decision {
            Decision::Deny { retry_after_ms } => (
                refusal(req.id, rate_limited_view(retry_after_ms)),
                left,
            ),
            Decision::Allow => (routed(state, req), left),
        }
    } else {
        (routed(state, req), bucket)
    }
}

/// What a text frame asks for: `parsed` is the request in it, or why there
/// is none. Submitting an event takes a token of the limiter, before
/// anything else happens to the request; no other frame does.
pub fn handle_request_frame(
    state: AuthState,
    limiter: &mut RateLimiter,
    now_ns: u64,
    parsed: Result<RpcRequest, String>,
) -> (r: Dispatch)
    ensures
        parsed matches Err(e) ==> r@ == refusal(
            None,
            invalid_request_view("malformed JSON-RPC payload: "@ + e@),
        ) && final(limiter).bucket() == old(limiter).bucket(),
        parsed matches Ok(req) ==> (r@, final(limiter).bucket()) == frame_route(
            state,
            req@,
            old(limiter).off(),
            old(limiter).bucket(),
            now_ns as int,
        ),
        final(limiter).off() == old(limiter).off(),
{
    match parsed {
        Err(e) => {
            let text: String = "malformed JSON-RPC payload: ".to_owned().concat(e.as_str());
            Dispatch::Reply(RpcResponse::err(None, RpcError::invalid_request(text.as_str())))
        },
        Ok(req) => {
            if state == AuthState::Authed && same_text(
                req.method.as_str(),
                method::SUBMIT_EVENT,
            ) {
                match limiter.try_acquire_at(now_ns) {
                    Decision::Deny { retry_after_ms } => {
                        return Dispatch::Reply(
                            RpcResponse::err(req.id, RpcError::rate_limited(retry_after_ms)),
                        );
                    },
                    Decision::Allow => {},
                }
            }
            dispatch_with_auth_async(state, req)
        },
    }
}

/// A client gets an open connection at the handshake only where no token is
/// asked for, or where its header carries the token; and with a header that
/// does not it gets none at all.
pub proof fn handshakes_open_for_the_token_only(
    token: Option<Seq<char>>,
    header: Option<Seq<char>>,
)
    ensures
        handshake_outcome(token, header) == Handshake::Accept(AuthState::Authed)
            <==> header_accepted(token, header),
        handshake_outcome(token, header) is Unauthorized <==> header is Some && !header_accepted(
            token,
            header,
        ),
{
}

/// Only submissions on an open connection are ever told that they come too
/// fast, and only when the bucket is empty; no other request touches the
/// bucket.
pub proof fn limits_meet_submissions_only(
    state: AuthState,
    req: RequestView,
    off: bool,
    bucket: Bucket,
    now_ns: int,
)
    ensures
        ({
            let (route, left) = frame_route(state, req, off, bucket, now_ns);
            let denied = route matches DispatchView::Reply(r) && r.error matches Some(e) && e.code
                == RATE_LIMITED;
            &&& denied <==> is_metered(state, req) && !off && bucket.step(now_ns).1 is Deny
            &&& !is_metered(state, req) ==> left == bucket
        }),
{
}

/// A port is read from its number; without one, or with one that is no port,
/// it is 8765.
pub proof fn ports_are_read_from_their_number(n: u64, text: Seq<char>)
    ensures
        n <= 65_535 ==> port_of(Some(decimal(n as nat))) == n,
        n > 65_535 ==> port_of(Some(decimal(n as nat))) == 8765,
        parsed_u64(text) is None ==> port_of(Some(text)) == 8765,
        port_of(None) == 8765,
{
    decimal_round_trip(n);
}

/// Where a token is asked for, a client without a header gets the chance to
/// show it later; where none is, it is in at once.
pub proof fn handshakes_without_a_header(token: Seq<char>, header: Option<Seq<char>>)
    ensures
        handshake_outcome(None, header) == Handshake::Accept(AuthState::Authed),
        handshake_outcome(Some(token), None) == Handshake::Accept(AuthState::PendingAuth),
        header is Some ==> handshake_outcome(Some(token), header) != Handshake::Accept(
            AuthState::PendingAuth,
        ),
{
}

/// An open connection is waited for as long as it takes; one that has not
/// shown its token for what is left of five seconds.
pub proof fn waits_last_five_seconds_at_most(since_accepted_ms: u64)
    ensures
        wait_spec(AuthState::Authed, since_accepted_ms) == ReadWait::Unlimited,
        since_accepted_ms < 5000 ==> wait_spec(AuthState::PendingAuth, since_accepted_ms)
            == ReadWait::AtMost((5000 - since_accepted_ms) as u64),
        since_accepted_ms >= 5000 ==> wait_spec(AuthState::PendingAuth, since_accepted_ms)
            == ReadWait::Over,
{
}

/// Text is dispatched, a ping gets its own payload back, a binary frame is
/// refused, and a client that does not show its token in time is closed out;
/// nothing but the end of the stream or an error ends a connection at once.
pub proof fn frames_are_acted_on(event: ClientEvent, action: ClientAction)
    requires
        acts_on(event, action),
    ensures
        action is HandleText <==> event is Text,
        event matches ClientEvent::Ping(p) ==> action == ClientAction::Pong(p),
        action is Pong ==> event is Ping,
        action is Ignore <==> event is Pong,
        action is Stop <==> event is Ended || event is ReadError || event is Close,
        action is Close <==> event is TimedOut,
        action matches ClientAction::Close { code, .. } ==> code == 1008,
        action is Reply <==> event is Binary,
        action matches ClientAction::Reply(r) ==> {
            &&& r@.id is None
            &&& r@.result is None
            &&& r@.error matches Some(e)
            &&& e.code == -32600
        },
{
}

/// Only events that are submitted on an open connection are metered.
pub proof fn only_submissions_are_metered(state: AuthState, req: RequestView)
    ensures
        is_metered(state, req) <==> state == AuthState::Authed && req.method
            == "engine.submit_event"@,
{
}

/// A submission that finds no token is answered at once, with its own id and
/// with how long to wait; every other request is routed as if there were no
/// limit. Only a submission under the limit takes a token.
pub proof fn limited_submissions_are_told_to_wait(
    state: AuthState,
    req: RequestView,
    off: bool,
    bucket: Bucket,
    now_ns: int,
)
    ensures
        ({
            let (route, left) = frame_route(state, req, off, bucket, now_ns);
            let (after, decision) = bucket.step(now_ns);
            let metered = state == AuthState::Authed && req.method == "engine.submit_event"@ && !off;
            &&& !metered ==> route == routed(state, req) && left == bucket
            &&& metered ==> left == after
            &&& metered && decision is Allow ==> route == routed(state, req)
            &&& metered ==> (decision matches Decision::Deny { retry_after_ms } ==> {
                &&& route matches DispatchView::Reply(r)
                &&& r.id == req.id
                &&& r.result is None
                &&& r.error matches Some(e)
                &&& e.code == -32003
                &&& e.data matches Some(d)
                &&& d.field("retry_after_ms"@) == Some(JsonView::UInt(retry_after_ms))
            })
        }),
{
    if let Decision::Deny { retry_after_ms } = bucket.step(now_ns).1 {
        limits_tell_the_wait(retry_after_ms);
    }
}

} // verus!
