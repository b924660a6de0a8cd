//! What the server does with a connection before and after the request itself:
//! where it listens, what it clears away, which way a request goes, and what it
//! notes of the response.

use crate::cache::CACHE_DIR;
use crate::config::{EnvMode, ListenConfig};
use crate::http_proxy::upstream::{address, address_of};
use crate::text::same;
use vstd::prelude::*;

verus! {

/// The address that the server listens on.
pub fn listen_address(listen: &ListenConfig) -> (r: String)
    ensures
        r@ == address_of(listen.host@, listen.port),
{
    address(listen.host.as_str(), listen.port)
}

/// The directory that is cleared away before the server starts: in development
/// the cache starts afresh, in production it stays as it is.
pub fn directory_to_clear(mode: EnvMode) -> (r: Option<&'static str>)
    ensures
        match mode {
            EnvMode::Dev => r matches Some(dir) && dir@ == CACHE_DIR@,
            EnvMode::Prod => r is None,
        },
{
    match mode {
        EnvMode::Dev => Some(CACHE_DIR),
        EnvMode::Prod => None,
    }
}

/// The way that a request goes.
#[derive(Debug, Clone, Copy, PartialEq, Eq, Structural)]
pub enum Route {
    /// A tunnel is opened.
    Tunnel,
    /// It is forwarded.
    Forward,
}

/// The way that a request with the method goes.
pub open spec fn route_of(method: Seq<char>) -> Route {
    if method == "CONNECT"@ {
        Route::Tunnel
    } else {
        Route::Forward
    }
}

/// The way that a request with the method goes.
pub fn route(method: &str) -> (r: Route)
    ensures
        r == route_of(method@),
        r == (if method@ == "CONNECT"@ {
            Route::Tunnel
        } else {
            Route::Forward
        }),
{
    if same(method, "CONNECT") {
        Route::Tunnel
    } else {
        Route::Forward
    }
}

// ---------------------------------------------------------------------------
// Timing
// ---------------------------------------------------------------------------

/// What is noted of a response while it is sent: how long it took until its
/// first part, its length so far, and whether its end was noted.
#[derive(Debug, Clone, Copy, PartialEq, Eq, Structural)]
pub struct ResponseTimer {
    pub ttfb_ms: Option<u128>,
    pub bytes: u64,
    pub logged: bool,
}

/// What is said of a response that was sent.
#[derive(Debug, Clone, Copy, PartialEq, Eq, Structural)]
pub struct ResponseSummary {
    pub duration_ms: u128,
    pub ttfb_ms: Option<u128>,
    pub bytes: u64,
}

impl ResponseTimer {
    /// A response of which nothing was sent yet.
    pub open spec fn started() -> ResponseTimer {
        ResponseTimer { ttfb_ms: None, bytes: 0, logged: false }
    }

    /// What is noted after a first sign of the response: only the first counts.
    pub open spec fn after_sign(self, elapsed_ms: u128) -> ResponseTimer {
        ResponseTimer {
            ttfb_ms: match self.ttfb_ms {
                Some(ms) => Some(ms),
                None => Some(elapsed_ms),
            },
            ..self
        }
    }

    /// What is noted after a part of the response.
    pub open spec fn after_data(self, elapsed_ms: u128, len: u64) -> ResponseTimer {
        let noted = self.after_sign(elapsed_ms);
        ResponseTimer { bytes: (self.bytes + len) as u64, ..noted }
    }

    /// What is noted after the end of the response.
    pub open spec fn after_end(self) -> ResponseTimer {
        ResponseTimer { logged: true, ..self }
    }

    /// What there is to say of the response at its end: nothing if it was said
    /// before.
    pub open spec fn summary(self, elapsed_ms: u128) -> Option<ResponseSummary> {
        if self.logged {
            None
        } else {
            Some(
                ResponseSummary {
                    duration_ms: elapsed_ms,
                    ttfb_ms: self.ttfb_ms,
                    bytes: self.bytes,
                },
            )
        }
    }

    /// A response of which nothing was sent yet.
    pub fn new() -> (r: Self)
        ensures
            r == ResponseTimer::started(),
    {
        ResponseTimer { ttfb_ms: None, bytes: 0, logged: false }
    }

    /// Notes that something of the response came, be it a failure.
    pub fn note_first_byte(&mut self, elapsed_ms: u128)
        ensures
            *final(self) == old(self).after_sign(elapsed_ms),
    {
        if self.ttfb_ms.is_none() {
            self.ttfb_ms = Some(elapsed_ms);
        }
    }

    /// Notes a part of the response, `len` bytes long.
    pub fn note_data(&mut self, elapsed_ms: u128, len: u64)
        requires
            old(self).bytes + len <= u64::MAX,
        ensures
            *final(self) == old(self).after_data(elapsed_ms, len),
            *final(self) == (ResponseTimer {
                bytes: (old(self).bytes + len) as u64,
                ..old(self).after_sign(elapsed_ms)
            }),
    {
        self.note_first_byte(elapsed_ms);
        self.bytes = self.bytes + len;
    }

    /// Notes the end of the response, and says what there is to say of it the
    /// first time.
    pub fn log_complete(&mut self, elapsed_ms: u128) -> (r: Option<ResponseSummary>)
        ensures
            *final(self) == old(self).after_end(),
            r == old(self).summary(elapsed_ms),
    {
        if self.logged {
            return None;
        }
        self.logged = true;
        Some(
            ResponseSummary {
                duration_ms: elapsed_ms,
                ttfb_ms: self.ttfb_ms,
                bytes: self.bytes,
            },
        )
    }
}

/// A response is summed up once, with the time of the first sign of it, however
/// often its end is noted and whatever comes of it after that.
pub proof fn a_response_is_summed_up_once(timer: ResponseTimer, at_ms: u128, later_ms: u128)
    ensures
        timer.after_end().summary(later_ms) is None,
        timer.after_end().after_sign(at_ms).summary(later_ms) is None,
        timer.after_sign(at_ms).after_sign(later_ms) == timer.after_sign(at_ms),
{
}

/// What is noted of a response: the time of the first sign of it and of no later one. What
/// is said at its end is how long it took, that time, and how long it was.
pub proof fn what_is_noted_of_a_response(timer: ResponseTimer, at_ms: u128)
    ensures
        timer.ttfb_ms is None ==> timer.after_sign(at_ms).ttfb_ms == Some(at_ms),
        timer.ttfb_ms is Some ==> timer.after_sign(at_ms).ttfb_ms == timer.ttfb_ms,
        timer.after_sign(at_ms).bytes == timer.bytes,
        timer.after_sign(at_ms).logged == timer.logged,
        timer.after_end().bytes == timer.bytes,
        timer.after_end().ttfb_ms == timer.ttfb_ms,
        timer.summary(at_ms) is Some <==> !timer.logged,
        timer.summary(at_ms) matches Some(s) ==> s.duration_ms == at_ms && s.ttfb_ms
            == timer.ttfb_ms && s.bytes == timer.bytes,
        ResponseTimer::started().ttfb_ms is None,
        ResponseTimer::started().bytes == 0,
        !ResponseTimer::started().logged,
{
}

/// A part of a response adds its length, and is a sign of the response; the lengths of two
/// parts add up, whatever the order in which they come.
pub proof fn what_a_part_adds(timer: ResponseTimer, at_ms: u128, later_ms: u128, a: u64, b: u64)
    requires
        timer.bytes + a + b <= u64::MAX,
    ensures
        timer.after_data(at_ms, a).bytes == timer.bytes + a,
        timer.after_data(at_ms, a).logged == timer.logged,
        timer.after_data(at_ms, a).ttfb_ms == timer.after_sign(at_ms).ttfb_ms,
        timer.after_data(at_ms, a).after_data(later_ms, b).bytes == timer.bytes + a + b,
        timer.after_data(at_ms, a).after_data(later_ms, b).ttfb_ms == timer.after_sign(
            at_ms,
        ).ttfb_ms,
{
}

/// A tunnel is opened for CONNECT, in capitals, and for no other method.
pub proof fn which_requests_open_a_tunnel(method: Seq<char>)
    ensures
        route_of(method) == Route::Tunnel <==> method == seq!['C', 'O', 'N', 'N', 'E', 'C', 'T'],
{
    reveal_strlit("CONNECT");
    assert("CONNECT"@ =~= seq!['C', 'O', 'N', 'N', 'E', 'C', 'T']);
}

} // verus!
