//! The life of a connection as a state machine: what to do next, given what
//! happened. Connecting, sending, waiting and delivering are left to whoever
//! runs it.

use crate::config::DataSourceConfig;
use crate::items::IngestError;
use crate::items::IngestErrorView;
use crate::text::decimal;
use crate::text::unsigned_text;
use crate::wsloop::attempt_limit;
use crate::wsloop::double_wait;
use crate::wsloop::double_wait_of;
use crate::wsloop::normalize_max_attempts;
use crate::wsloop::DISABLED_SILENCE_SECS;
use vstd::prelude::*;

verus! {

/// Nanoseconds in a millisecond.
pub const NANOS_PER_MILLI: u128 = 1_000_000;

/// Nanoseconds in a second.
pub const NANOS_PER_SEC: u128 = 1_000_000_000;

/// Where a connection stands.
#[derive(Debug, Clone, Copy, PartialEq, Eq, Structural)]
pub enum Phase {
    /// The connection is being made.
    Connecting,
    /// The requests that authenticate are being sent.
    Greeting,
    /// The authentication is to be confirmed.
    Authenticating,
    /// The subscriptions are being sent.
    Subscribing,
    /// Messages are being read.
    Reading,
    /// A ping is being sent.
    Pinging,
    /// The missing pong is being reported.
    Complaining,
    /// The connection was lost and the next one is being prepared.
    Recovering,
    /// The next attempt is being put off.
    Waiting,
    /// The attempts are used up.
    GivenUp,
    /// The receiver is gone.
    Stopped,
}

/// What became of the item that a message gave.
#[derive(Debug, Clone, Copy, PartialEq, Eq, Structural)]
pub enum Delivery {
    /// The message gave no item.
    NoItem,
    /// The receiver took the item.
    Taken,
    /// The receiver is gone.
    Refused,
}

/// What happened.
#[derive(Debug, Clone, Copy, PartialEq, Eq, Structural)]
pub enum Event {
    /// What was being done succeeded: the connection is made, the requests or
    /// the ping are sent, the next connection is prepared, or the delay is
    /// over.
    Done,
    /// What was being done failed.
    Failed,
    /// A message that could be read: whether it answers a ping, whether it
    /// confirms the authentication, and what became of its item.
    Text { pong: bool, confirmed: bool, delivery: Delivery },
    /// A pong of the WebSocket.
    Pong,
    /// Anything else that was received and that leaves the connection up.
    Noise,
    /// The connection was closed, ended or broke.
    Closed,
    /// The receiver is gone.
    ReceiverGone,
    /// The authentication was not confirmed in time.
    AuthTimeout,
    /// A ping is due.
    PingDue,
    /// No item was delivered for the time that is allowed.
    SilenceDue,
}

/// What to do next.
#[derive(Debug, Clone, Copy, PartialEq, Eq, Structural)]
pub enum Action {
    /// Connect.
    Connect,
    /// Send the requests that authenticate.
    SendAuth,
    /// Read until the authentication is confirmed or its time is over.
    AwaitAuth,
    /// Send the subscriptions.
    Subscribe,
    /// Read until something happens or a timer is due.
    Read,
    /// Send a ping.
    Ping,
    /// Report the missing pong.
    Complain,
    /// Close the connection, prepare the next one, and deliver what that gives.
    Recover,
    /// Put off the next attempt, after so many failures before the last one.
    Wait { failures: u64 },
    /// Report that the attempts, so many, are used up, and end.
    GiveUp { attempts: u32 },
    /// End.
    Stop,
}

/// The state of a connection. Moments are in nanoseconds since the start.
#[derive(Debug, Clone, Copy, PartialEq, Eq, Structural)]
pub struct Session {
    /// The limit on attempts in a row, if there is one.
    pub limit: Option<u64>,
    /// Whether to authenticate before subscribing.
    pub auth: bool,
    /// Seconds without items after which the connection counts as lost.
    pub silence_secs: Option<u64>,
    /// Milliseconds between pings.
    pub keepalive_ms: u64,
    pub phase: Phase,
    /// The attempts that failed in a row.
    pub attempt: u64,
    /// When the last pong came.
    pub last_pong: u64,
    /// When the next ping is due.
    pub ping_due: u128,
    /// When silence has lasted too long.
    pub silence_due: u128,
}

impl Session {
    /// The time that silence may last, in nanoseconds: a year where it is not
    /// watched.
    pub open spec fn silence_span(self) -> int {
        NANOS_PER_SEC * match self.silence_secs {
            Some(s) => s as int,
            None => DISABLED_SILENCE_SECS as int,
        }
    }

    /// The time between pings, in nanoseconds.
    pub open spec fn keepalive_span(self) -> int {
        self.keepalive_ms * NANOS_PER_MILLI
    }

    /// The time that a pong may take, in nanoseconds.
    pub open spec fn pong_span(self) -> int {
        double_wait(self.keepalive_ms) * NANOS_PER_MILLI
    }

    /// Messages are being read, or a ping is sent in between.
    pub open spec fn is_open(self) -> bool {
        self.phase == Phase::Reading || self.phase == Phase::Pinging || self.phase
            == Phase::Complaining
    }

    /// An end was reached.
    pub open spec fn is_over(self) -> bool {
        self.phase == Phase::GivenUp || self.phase == Phase::Stopped
    }

    /// The attempts that failed are fewer than allowed, and as many only where
    /// they are used up; an open connection has wiped them out, and a
    /// connection that is put off has failed before.
    pub open spec fn wf(self) -> bool {
        &&& self.limit matches Some(m) ==> 1 <= m <= u32::MAX
        &&& self.phase == Phase::GivenUp <==> self.limit == Some(self.attempt)
        &&& self.limit matches Some(m) ==> self.attempt <= m
        &&& self.is_open() ==> self.attempt == 0
        &&& self.phase == Phase::Waiting || self.phase == Phase::Recovering ==> self.attempt >= 1
    }

    /// The state in another phase.
    pub open spec fn to(self, phase: Phase) -> Session {
        Session { phase, ..self }
    }

    /// The state after one more failure: given up where the limit is reached,
    /// and otherwise in the phase `next`.
    pub open spec fn failed(self, next: Phase) -> Session {
        let attempt = (self.attempt + 1) as u64;
        Session {
            attempt,
            phase: if self.limit matches Some(m) && attempt >= m {
                Phase::GivenUp
            } else {
                next
            },
            ..self
        }
    }

    /// The state of a connection that has just been subscribed: no failures,
    /// and all timers started.
    pub open spec fn opened(self, now: u64) -> Session {
        Session {
            phase: Phase::Reading,
            attempt: 0,
            last_pong: now,
            ping_due: (now + self.keepalive_span()) as u128,
            silence_due: (now + self.silence_span()) as u128,
            ..self
        }
    }

    /// The state after an event while the authentication is awaited.
    pub open spec fn after_auth_event(self, event: Event) -> Session {
        match event {
            Event::Text { pong, confirmed, delivery } => if confirmed {
                self.to(Phase::Subscribing)
            } else if delivery == Delivery::Refused {
                self.to(Phase::Stopped)
            } else {
                self
            },
            Event::ReceiverGone => self.to(Phase::Stopped),
            Event::Closed | Event::AuthTimeout => self.failed(Phase::Waiting),
            _ => self,
        }
    }

    /// The state after an event while messages are read.
    pub open spec fn after_read_event(self, event: Event, now: u64) -> Session {
        match event {
            Event::Text { pong, confirmed, delivery } => {
                let heard = if pong {
                    Session { last_pong: now, ..self }
                } else {
                    self
                };
                match delivery {
                    Delivery::NoItem => heard,
                    Delivery::Taken => Session {
                        silence_due: (now + self.silence_span()) as u128,
                        ..heard
                    },
                    Delivery::Refused => heard.to(Phase::Stopped),
                }
            },
            Event::Pong => Session { last_pong: now, ..self },
            Event::ReceiverGone => self.to(Phase::Stopped),
            Event::Closed => self.failed(Phase::Recovering),
            Event::PingDue => if now - self.last_pong > self.pong_span() {
                self.to(Phase::Complaining)
            } else {
                self.to(Phase::Pinging)
            },
            Event::SilenceDue => if self.silence_secs is Some {
                self.failed(Phase::Recovering)
            } else {
                self
            },
            _ => self,
        }
    }

    /// The state after an event.
    pub open spec fn next(self, event: Event, now: u64) -> Session {
        match self.phase {
            Phase::Connecting => match event {
                Event::Done => if self.auth {
                    self.to(Phase::Greeting)
                } else {
                    self.to(Phase::Subscribing)
                },
                Event::Failed => self.failed(Phase::Waiting),
                _ => self,
            },
            Phase::Greeting => match event {
                Event::Done => self.to(Phase::Authenticating),
                Event::Failed => self.failed(Phase::Waiting),
                _ => self,
            },
            Phase::Authenticating => self.after_auth_event(event),
            Phase::Subscribing => match event {
                Event::Done => self.opened(now),
                Event::Failed => self.failed(Phase::Waiting),
                _ => self,
            },
            Phase::Reading => self.after_read_event(event, now),
            Phase::Pinging => match event {
                Event::Done => Session {
                    phase: Phase::Reading,
                    ping_due: (now + self.keepalive_span()) as u128,
                    ..self
                },
                Event::Failed => self.failed(Phase::Recovering),
                _ => self,
            },
            Phase::Complaining => self.failed(Phase::Recovering),
            Phase::Recovering => match event {
                Event::Done | Event::Failed => self.to(Phase::Waiting),
                Event::ReceiverGone => self.to(Phase::Stopped),
                _ => self,
            },
            Phase::Waiting => match event {
                Event::Done => self.to(Phase::Connecting),
                _ => self,
            },
            Phase::GivenUp | Phase::Stopped => self,
        }
    }

    /// What to do in a state.
    pub open spec fn action_due(self) -> Action {
        match self.phase {
            Phase::Connecting => Action::Connect,
            Phase::Greeting => Action::SendAuth,
            Phase::Authenticating => Action::AwaitAuth,
            Phase::Subscribing => Action::Subscribe,
            Phase::Reading => Action::Read,
            Phase::Pinging => Action::Ping,
            Phase::Complaining => Action::Complain,
            Phase::Recovering => Action::Recover,
            Phase::Waiting => Action::Wait { failures: (self.attempt - 1) as u64 },
            Phase::GivenUp => Action::GiveUp { attempts: self.attempt as u32 },
            Phase::Stopped => Action::Stop,
        }
    }

    /// The state at the start.
    pub open spec fn initial(
        max_attempts: Option<u32>,
        silence_secs: Option<u64>,
        auth: bool,
        keepalive_ms: u64,
    ) -> Session {
        Session {
            limit: attempt_limit(max_attempts),
            auth,
            silence_secs,
            keepalive_ms,
            phase: Phase::Connecting,
            attempt: 0,
            last_pong: 0,
            ping_due: 0,
            silence_due: 0,
        }
    }

    /// Starts, where the configuration is valid. `auth` says whether to
    /// authenticate before subscribing, and `keepalive_ms` how many
    /// milliseconds lie between pings.
    pub fn start(config: &DataSourceConfig, auth: bool, keepalive_ms: u64) -> (r: Result<
        Session,
        IngestError,
    >)
        ensures
            r is Ok <==> config.fault() is None,
            r matches Ok(s) ==> s.wf() && s == Session::initial(
                config.resilience.max_attempts,
                config.resilience.silence_timeout_secs,
                auth,
                keepalive_ms,
            ),
            r matches Err(e) ==> e@ == IngestErrorView::Config(config.fault()->0.message()),
    {
        match config.validate() {
            Ok(_) => Ok(
                Session {
                    limit: normalize_max_attempts(config.resilience.max_attempts),
                    auth,
                    silence_secs: config.resilience.silence_timeout_secs,
                    keepalive_ms,
                    phase: Phase::Connecting,
                    attempt: 0,
                    last_pong: 0,
                    ping_due: 0,
                    silence_due: 0,
                },
            ),
            Err(e) => Err(IngestError::Config(e.to_string())),
        }
    }

    fn fail(&mut self, next: Phase)
        requires
            old(self).attempt < u64::MAX,
        ensures
            *final(self) == old(self).failed(next),
    {
        self.attempt = self.attempt + 1;
        let used_up: bool = match self.limit {
            Some(m) => self.attempt >= m,
            None => false,
        };
        self.phase = if used_up {
            Phase::GivenUp
        } else {
            next
        };
    }

    fn restart_silence(&mut self, now: u64)
        ensures
            *final(self) == (Session {
                silence_due: (now + old(self).silence_span()) as u128,
                ..*old(self)
            }),
    {
        let secs: u64 = self.silence_secs.unwrap_or(DISABLED_SILENCE_SECS);
        self.silence_due = now as u128 + NANOS_PER_SEC * (secs as u128);
    }

    fn restart_ping(&mut self, now: u64)
        ensures
            *final(self) == (Session {
                ping_due: (now + old(self).keepalive_span()) as u128,
                ..*old(self)
            }),
    {
        self.ping_due = now as u128 + (self.keepalive_ms as u128) * NANOS_PER_MILLI;
    }

    fn take_auth_event(&mut self, event: Event)
        requires
            old(self).attempt < u64::MAX,
        ensures
            *final(self) == old(self).after_auth_event(event),
    {
        match event {
            Event::Text { pong: _, confirmed, delivery } => {
                if confirmed {
                    self.phase = Phase::Subscribing;
                } else if delivery == Delivery::Refused {
                    self.phase = Phase::Stopped;
                }
            },
            Event::ReceiverGone => {
                self.phase = Phase::Stopped;
            },
            Event::Closed | Event::AuthTimeout => self.fail(Phase::Waiting),
            _ => {},
        }
    }

    fn take_read_event(&mut self, event: Event, now: u64)
        requires
            old(self).attempt < u64::MAX,
        ensures
            *final(self) == old(self).after_read_event(event, now),
    {
        match event {
            Event::Text { pong, confirmed: _, delivery } => {
                if pong {
                    self.last_pong = now;
                }
                match delivery {
                    Delivery::NoItem => {},
                    Delivery::Taken => self.restart_silence(now),
                    Delivery::Refused => {
                        self.phase = Phase::Stopped;
                    },
                }
            },
            Event::Pong => {
                self.last_pong = now;
            },
            Event::ReceiverGone => {
                self.phase = Phase::Stopped;
            },
            Event::Closed => self.fail(Phase::Recovering),
            Event::PingDue => {
                let waited: u128 = if now > self.last_pong {
                    (now - self.last_pong) as u128
                } else {
                    0
                };
                let allowed: u128 = (double_wait_of(self.keepalive_ms) as u128) * NANOS_PER_MILLI;
                self.phase = if waited > allowed {
                    Phase::Complaining
                } else {
                    Phase::Pinging
                };
            },
            Event::SilenceDue => {
                if self.silence_secs.is_some() {
                    self.fail(Phase::Recovering);
                }
            },
            _ => {},
        }
    }

    /// Takes in what happened at a moment.
    pub fn step(&mut self, event: Event, now: u64)
        requires
            old(self).wf(),
            old(self).attempt < u64::MAX,
        ensures
            final(self).wf(),
            *final(self) == old(self).next(event, now),
    {
        match self.phase {
            Phase::Connecting => match event {
                Event::Done => {
                    self.phase = if self.auth {
                        Phase::Greeting
                    } else {
                        Phase::Subscribing
                    };
                },
                Event::Failed => self.fail(Phase::Waiting),
                _ => {},
            },
            Phase::Greeting => match event {
                Event::Done => {
                    self.phase = Phase::Authenticating;
                },
                Event::Failed => self.fail(Phase::Waiting),
                _ => {},
            },
            Phase::Authenticating => self.take_auth_event(event),
            Phase::Subscribing => match event {
                Event::Done => {
                    self.phase = Phase::Reading;
                    self.attempt = 0;
                    self.last_pong = now;
                    self.restart_ping(now);
                    self.restart_silence(now);
                },
                Event::Failed => self.fail(Phase::Waiting),
                _ => {},
            },
            Phase::Reading => self.take_read_event(event, now),
            Phase::Pinging => match event {
                Event::Done => {
                    self.phase = Phase::Reading;
                    self.restart_ping(now);
                },
                Event::Failed => self.fail(Phase::Recovering),
                _ => {},
            },
            Phase::Complaining => self.fail(Phase::Recovering),
            Phase::Recovering => match event {
                Event::Done | Event::Failed => {
                    self.phase = Phase::Waiting;
                },
                Event::ReceiverGone => {
                    self.phase = Phase::Stopped;
                },
                _ => {},
            },
            Phase::Waiting => match event {
                Event::Done => {
                    self.phase = Phase::Connecting;
                },
                _ => {},
            },
            Phase::GivenUp | Phase::Stopped => {},
        }
    }

    /// What to do next.
    pub fn action(&self) -> (r: Action)
        requires
            self.wf(),
        ensures
            r == self.action_due(),
    {
        match self.phase {
            Phase::Connecting => Action::Connect,
            Phase::Greeting => Action::SendAuth,
            Phase::Authenticating => Action::AwaitAuth,
            Phase::Subscribing => Action::Subscribe,
            Phase::Reading => Action::Read,
            Phase::Pinging => Action::Ping,
            Phase::Complaining => Action::Complain,
            Phase::Recovering => Action::Recover,
            Phase::Waiting => Action::Wait { failures: self.attempt - 1 },
            Phase::GivenUp => Action::GiveUp { attempts: self.attempt as u32 },
            Phase::Stopped => Action::Stop,
        }
    }

    /// What is reported where no pong came in time.
    pub open spec fn no_pong_text(self, exchange: Seq<char>, instrument: Seq<char>) -> Seq<char> {
        "no pong received within "@ + decimal(double_wait(self.keepalive_ms) as nat)
            + "ms (keepalive="@ + decimal(self.keepalive_ms as nat) + "ms) for exchange="@
            + exchange + " instrument="@ + instrument
    }

    /// The error to report where no pong came in time.
    pub fn no_pong_error(&self, exchange: &str, instrument: &str) -> (r: IngestError)
        ensures
            r@ == IngestErrorView::RequestTimeout(self.no_pong_text(exchange@, instrument@)),
    {
        let text: String = "no pong received within ".to_owned().concat(
            unsigned_text(double_wait_of(self.keepalive_ms)).as_str(),
        ).concat("ms (keepalive=").concat(unsigned_text(self.keepalive_ms).as_str()).concat(
            "ms) for exchange=",
        ).concat(exchange).concat(" instrument=").concat(instrument);
        IngestError::RequestTimeout(text)
    }

    /// The state after events, each with its moment.
    pub open spec fn after(self, events: Seq<(Event, u64)>) -> Session
        decreases events.len(),
    {
        if events.len() == 0 {
            self
        } else {
            self.after(events.drop_last()).next(events.last().0, events.last().1)
        }
    }
}

/// What holds at the start holds after any events: the failures in a row stay
/// below the limit until the attempts are used up, and an open connection has
/// none.
pub proof fn always_well_formed(s: Session, events: Seq<(Event, u64)>)
    requires
        s.wf(),
        s.attempt + events.len() < u64::MAX,
    ensures
        s.after(events).wf(),
        s.after(events).attempt <= s.attempt + events.len(),
        s.after(events).limit == s.limit,
        s.after(events).auth == s.auth,
        s.after(events).silence_secs == s.silence_secs,
        s.after(events).keepalive_ms == s.keepalive_ms,
    decreases events.len(),
{
    if events.len() > 0 {
        always_well_formed(s, events.drop_last());
    }
}

/// Without a limit the attempts are never used up.
pub proof fn unlimited_never_gives_up(s: Session, events: Seq<(Event, u64)>)
    requires
        s.wf(),
        s.limit is None,
        s.attempt + events.len() < u64::MAX,
    ensures
        s.after(events).phase != Phase::GivenUp,
{
    always_well_formed(s, events);
}

/// The attempts are used up by exactly that failure that makes as many in a
/// row as the limit allows, and the number reported is the limit.
pub proof fn gives_up_at_the_limit(s: Session, event: Event, now: u64)
    requires
        s.wf(),
        !s.is_over(),
        s.attempt < u64::MAX,
    ensures
        s.next(event, now).phase == Phase::GivenUp <==> s.next(event, now).attempt == s.attempt + 1
            && s.limit == Some(s.next(event, now).attempt),
        s.next(event, now).phase == Phase::GivenUp ==> s.next(event, now).action_due()
            == (Action::GiveUp { attempts: s.limit->0 as u32 }),
{
}

/// So many failed attempts to connect, each with the delay after it.
pub open spec fn failures(n: nat) -> Seq<(Event, u64)>
    decreases n,
{
    if n == 0 {
        Seq::empty()
    } else {
        failures((n - 1) as nat).push((Event::Failed, 0)).push((Event::Done, 0))
    }
}

/// Where no connection can be made, the first attempts up to the limit are
/// followed by delays, and the one that reaches the limit ends it.
pub proof fn failing_connections_end_at_the_limit(
    max_attempts: Option<u32>,
    silence_secs: Option<u64>,
    auth: bool,
    keepalive_ms: u64,
    n: nat,
)
    requires
        n < u32::MAX,
        attempt_limit(max_attempts) matches Some(m) ==> n < m,
    ensures
        ({
            let s = Session::initial(max_attempts, silence_secs, auth, keepalive_ms).after(
                failures(n),
            );
            &&& s.phase == Phase::Connecting
            &&& s.attempt == n
            &&& s.limit == attempt_limit(max_attempts)
            &&& if attempt_limit(max_attempts) == Some((n + 1) as u64) {
                s.next(Event::Failed, 0).action_due() == (Action::GiveUp { attempts: (n + 1) as u32 })
            } else {
                s.next(Event::Failed, 0).action_due() == (Action::Wait { failures: n as u64 })
            }
        }),
    decreases n,
{
    let first = Session::initial(max_attempts, silence_secs, auth, keepalive_ms);
    if n > 0 {
        let m = (n - 1) as nat;
        failing_connections_end_at_the_limit(max_attempts, silence_secs, auth, keepalive_ms, m);
        let one = failures(m).push((Event::Failed, 0));
        let two = one.push((Event::Done, 0));
        assert(one.drop_last() =~= failures(m));
        assert(two.drop_last() =~= one);
        assert(first.after(one) == first.after(failures(m)).next(Event::Failed, 0));
        assert(first.after(two) == first.after(one).next(Event::Done, 0));
    }
}

/// A connection that was open and is lost is tried again, unless the limit is
/// a single attempt: its failures were wiped out when it was subscribed.
pub proof fn lost_connection_is_tried_again(s: Session, event: Event, now: u64)
    requires
        s.wf(),
        s.is_open(),
        s.limit != Some(1u64),
    ensures
        s.next(event, now).phase != Phase::GivenUp,
        s.next(event, now).attempt > 0 ==> s.next(event, now).action_due() == Action::Recover,
{
}

/// Only an item that the receiver takes puts off the silence timer: pongs,
/// messages without items and anything else leave it as it is.
pub proof fn only_items_break_silence(s: Session, event: Event, now: u64)
    requires
        s.is_open(),
    ensures
        s.next(event, now).silence_due != s.silence_due ==> (event matches Event::Text {
            delivery,
            ..
        } && delivery == Delivery::Taken),
        s.phase == Phase::Reading && (event matches Event::Text { delivery, .. } && delivery
            == Delivery::Taken) ==> s.next(event, now).silence_due == (now + s.silence_span())
            as u128,
{
}

/// Where silence is watched, it ends the connection when it has lasted too
/// long; where it is not, it never does.
pub proof fn silence_ends_the_connection(s: Session, now: u64)
    requires
        s.wf(),
        s.phase == Phase::Reading,
    ensures
        s.silence_secs is None ==> s.next(Event::SilenceDue, now) == s,
        s.silence_secs is Some ==> s.next(Event::SilenceDue, now).attempt == 1 && !s.next(
            Event::SilenceDue,
            now,
        ).is_open(),
{
}

/// Where a pong came within twice the keepalive interval, a ping is sent when
/// it is due; where none did, that is reported and the connection is lost.
pub proof fn missing_pong_is_reported(s: Session, now: u64, later: u64, event: Event)
    requires
        s.wf(),
        s.phase == Phase::Reading,
        s.keepalive_ms <= 0x20_0000_0000_0000,
    ensures
        now - s.last_pong <= 2 * s.keepalive_ms * NANOS_PER_MILLI ==> s.next(
            Event::PingDue,
            now,
        ).action_due() == Action::Ping,
        now - s.last_pong > 2 * s.keepalive_ms * NANOS_PER_MILLI ==> s.next(
            Event::PingDue,
            now,
        ).action_due() == Action::Complain && s.next(Event::PingDue, now).next(
            event,
            later,
        ).attempt == 1,
{
    crate::wsloop::wait_is_exact(s.keepalive_ms);
}

impl Session {
    /// The subscriptions are being sent, or were sent on this connection.
    pub open spec fn is_subscribed(self) -> bool {
        self.phase == Phase::Subscribing || self.is_open()
    }

    /// The event at a place confirms the authentication that was awaited, and
    /// the connection has been subscribed to without a break since.
    pub open spec fn confirmed_at(self, events: Seq<(Event, u64)>, i: int) -> bool {
        &&& 0 <= i < events.len()
        &&& self.after(events.take(i)).phase == Phase::Authenticating
        &&& events[i].0 matches Event::Text { confirmed, .. } && confirmed
        &&& forall|j: int|
            i < j <= events.len() ==> (#[trigger] self.after(events.take(j))).is_subscribed()
    }
}

/// Where authentication is called for, whatever happens from the first attempt
/// on, subscriptions are sent and messages are read only on a connection on
/// which a message has confirmed the authentication before.
pub proof fn subscribes_only_once_confirmed(s: Session, events: Seq<(Event, u64)>)
    requires
        s.auth,
        s.phase == Phase::Connecting,
    ensures
        s.after(events).auth,
        s.after(events).is_subscribed() ==> exists|i: int| #[trigger] s.confirmed_at(events, i),
    decreases events.len(),
{
    if events.len() > 0 {
        let t = events.drop_last();
        subscribes_only_once_confirmed(s, t);
        let before = s.after(t);
        if s.after(events).is_subscribed() {
            let i = if before.is_subscribed() {
                choose|i: int| #[trigger] s.confirmed_at(t, i)
            } else {
                events.len() - 1
            };
            assert(events.take(events.len() - 1) =~= t);
            if i < t.len() {
                assert(events[i] == t[i]);
                assert(events.take(i) =~= t.take(i));
            }
            assert forall|j: int| i < j <= events.len() implies (#[trigger] s.after(
                events.take(j),
            )).is_subscribed() by {
                if j < events.len() {
                    assert(events.take(j) =~= t.take(j));
                } else {
                    assert(events.take(j) =~= events);
                }
            }
            assert(s.confirmed_at(events, i));
        }
    }
}

/// Once the receiver is gone, nothing more is tried.
pub proof fn gone_receiver_ends_it(s: Session, event: Event, now: u64)
    requires
        s.phase == Phase::Reading || s.phase == Phase::Authenticating || s.phase
            == Phase::Recovering,
        s.phase != Phase::Recovering && (event matches Event::Text { confirmed, delivery, .. }
            && !confirmed && delivery == Delivery::Refused) || event == Event::ReceiverGone,
    ensures
        s.next(event, now).action_due() == Action::Stop,
{
}

/// An end is final.
pub proof fn ends_are_final(s: Session, events: Seq<(Event, u64)>)
    requires
        s.is_over(),
    ensures
        s.after(events) == s,
    decreases events.len(),
{
    if events.len() > 0 {
        ends_are_final(s, events.drop_last());
    }
}

/// Whether an event answers a ping.
pub open spec fn answers_ping(event: Event) -> bool {
    event == Event::Pong || (event is Text && event->pong)
}

/// Whether an event is a message whose item the receiver took.
pub open spec fn brings_item(event: Event) -> bool {
    event is Text && event->delivery == Delivery::Taken
}

/// Whether an event tells that the receiver is gone.
pub open spec fn loses_receiver(event: Event) -> bool {
    event == Event::ReceiverGone || (event is Text && event->delivery == Delivery::Refused)
}

/// While messages are read, an event that answers a ping sets the moment of
/// the last pong to its own, and no other event moves it. It starts with the
/// moment at which the subscriptions are sent.
pub proof fn pongs_are_heard(s: Session, event: Event, now: u64)
    ensures
        s.action_due() == Action::Read && answers_ping(event) ==> s.next(event, now).last_pong
            == now,
        s.action_due() == Action::Subscribe && event == Event::Done ==> s.next(event, now).last_pong
            == now,
        !(s.action_due() == Action::Read && answers_ping(event)) && !(s.action_due()
            == Action::Subscribe && event == Event::Done) ==> s.next(event, now).last_pong
            == s.last_pong,
{
}

/// After a pong, a ping that is due within twice the interval between pings is
/// sent, and one that is due later is not: the missing pong is reported.
pub proof fn pong_keeps_the_connection(s: Session, event: Event, now: u64, due: u64)
    requires
        s.action_due() == Action::Read,
        answers_ping(event),
        !loses_receiver(event),
        s.keepalive_ms <= 0x20_0000_0000_0000,
    ensures
        due <= now + 2 * s.keepalive_ms * 1_000_000 ==> s.next(event, now).next(
            Event::PingDue,
            due,
        ).action_due() == Action::Ping,
        due > now + 2 * s.keepalive_ms * 1_000_000 ==> s.next(event, now).next(
            Event::PingDue,
            due,
        ).action_due() == Action::Complain,
{
    crate::wsloop::wait_is_exact(s.keepalive_ms);
}

/// A ping is due one interval after the subscriptions or the last ping were
/// sent, and nothing else moves that.
pub proof fn pings_keep_their_interval(s: Session, event: Event, now: u64)
    ensures
        (s.action_due() == Action::Subscribe || s.action_due() == Action::Ping) && event
            == Event::Done ==> s.next(event, now).ping_due == now + s.keepalive_ms
            * 1_000_000,
        !((s.action_due() == Action::Subscribe || s.action_due() == Action::Ping) && event
            == Event::Done) ==> s.next(event, now).ping_due == s.ping_due,
{
    assert(s.keepalive_ms * 1_000_000 <= 0xffff_ffff_ffff_ffff * 1_000_000) by (nonlinear_arith)
        requires
            s.keepalive_ms <= 0xffff_ffff_ffff_ffff,
    ;
}

/// Silence is counted from the moment at which the subscriptions are sent and
/// from every item that is taken while messages are read, and nothing else
/// moves its end.
pub proof fn silence_is_counted_from_the_last_item(s: Session, event: Event, now: u64)
    ensures
        ((s.action_due() == Action::Subscribe && event == Event::Done) || (s.action_due()
            == Action::Read && brings_item(event))) ==> (s.silence_secs matches Some(secs)
            ==> s.next(event, now).silence_due == now + secs * 1_000_000_000) && (s.silence_secs is None
            ==> s.next(event, now).silence_due == now + 31_536_000 * 1_000_000_000),
        !(s.action_due() == Action::Subscribe && event == Event::Done) && !(s.action_due()
            == Action::Read && brings_item(event)) ==> s.next(event, now).silence_due
            == s.silence_due,
{
    assert forall|secs: u64| now + #[trigger] (secs * NANOS_PER_SEC) <= u128::MAX by {
        assert(secs * 1_000_000_000 <= 0xffff_ffff_ffff_ffff * 1_000_000_000) by (nonlinear_arith)
            requires
                secs <= 0xffff_ffff_ffff_ffff,
        ;
    }
}

/// Whether an event ends the attempt at a connection.
pub open spec fn ends_attempt(s: Session, event: Event) -> bool {
    match s.action_due() {
        Action::Connect | Action::SendAuth | Action::Subscribe | Action::Ping => event
            == Event::Failed,
        Action::AwaitAuth => event == Event::Closed || event == Event::AuthTimeout,
        Action::Read => event == Event::Closed || (event == Event::SilenceDue
            && s.silence_secs is Some),
        Action::Complain => true,
        _ => false,
    }
}

/// The attempts that failed in a row grow by one with each that fails, start
/// anew once subscribed, and stay as they are otherwise. After a failure the
/// session gives up where that was the last attempt allowed; otherwise it
/// recovers where messages were being read, and waits, knowing how many
/// failures came before, where not.
pub proof fn failures_are_counted(s: Session, event: Event, now: u64)
    requires
        s.wf(),
        s.attempt < u64::MAX,
    ensures
        ends_attempt(s, event) ==> {
            &&& s.next(event, now).attempt == s.attempt + 1
            &&& if s.limit == Some((s.attempt + 1) as u64) {
                s.next(event, now).action_due() == (Action::GiveUp {
                    attempts: (s.attempt + 1) as u32,
                })
            } else if s.is_open() {
                s.next(event, now).action_due() == Action::Recover
            } else {
                s.next(event, now).action_due() == (Action::Wait { failures: s.attempt })
            }
        },
        s.action_due() == Action::Subscribe && event == Event::Done ==> s.next(event, now).attempt
            == 0,
        !ends_attempt(s, event) && !(s.action_due() == Action::Subscribe && event == Event::Done)
            ==> s.next(event, now).attempt == s.attempt,
{
}

/// What is done after something succeeded: once connected, the requests that
/// authenticate are sent where that is asked for, and else the subscriptions;
/// the authentication is awaited after its requests; messages are read after
/// the subscriptions and after a ping; the delay comes after recovering,
/// whether or not that succeeded, and the next connection after the delay.
pub proof fn success_leads_on(s: Session, now: u64)
    ensures
        s.action_due() == Action::Connect ==> s.next(Event::Done, now).action_due() == (if s.auth {
            Action::SendAuth
        } else {
            Action::Subscribe
        }),
        s.action_due() == Action::SendAuth ==> s.next(Event::Done, now).action_due()
            == Action::AwaitAuth,
        s.action_due() == Action::Subscribe ==> s.next(Event::Done, now).action_due()
            == Action::Read,
        s.action_due() == Action::Ping ==> s.next(Event::Done, now).action_due() == Action::Read,
        s.action_due() == Action::Recover ==> s.next(Event::Done, now).action_due() is Wait
            && s.next(Event::Failed, now).action_due() is Wait,
        s.action_due() is Wait ==> s.next(Event::Done, now).action_due() == Action::Connect,
{
}

/// While the authentication is awaited, a message that confirms it leads to
/// the subscriptions. Whatever else is received leaves the session as it is,
/// unless the receiver is gone or the attempt is over.
pub proof fn confirmation_leads_to_subscribing(s: Session, event: Event, now: u64)
    requires
        s.action_due() == Action::AwaitAuth,
    ensures
        event is Text && event->confirmed ==> s.next(event, now).action_due() == Action::Subscribe,
        !(event is Text && event->confirmed) && loses_receiver(event) ==> s.next(
            event,
            now,
        ).action_due() == Action::Stop,
        !(event is Text && event->confirmed) && !loses_receiver(event) && !ends_attempt(s, event)
            ==> s.next(event, now) == s,
{
}

/// While messages are read, reading goes on until a ping is due, the receiver
/// is gone, the connection is lost or silence has lasted too long.
pub proof fn reading_goes_on(s: Session, event: Event, now: u64)
    requires
        s.action_due() == Action::Read,
    ensures
        loses_receiver(event) ==> s.next(event, now).action_due() == Action::Stop,
        event != Event::PingDue && !loses_receiver(event) && !ends_attempt(s, event) ==> s.next(
            event,
            now,
        ).action_due() == Action::Read,
        event == Event::PingDue ==> s.next(event, now).action_due() == Action::Ping || s.next(
            event,
            now,
        ).action_due() == Action::Complain,
        !answers_ping(event) && !brings_item(event) && event != Event::PingDue && !loses_receiver(
            event,
        ) && !ends_attempt(s, event) ==> s.next(event, now) == s,
{
}

/// An event that is no answer to what is being done leaves the session as it
/// is.
pub proof fn other_events_change_nothing(s: Session, event: Event, now: u64)
    ensures
        (s.action_due() == Action::Connect || s.action_due() == Action::SendAuth || s.action_due()
            == Action::Subscribe || s.action_due() == Action::Ping) && event != Event::Done && event
            != Event::Failed ==> s.next(event, now) == s,
        s.action_due() == Action::Recover && event != Event::Done && event != Event::Failed && event
            != Event::ReceiverGone ==> s.next(event, now) == s,
        s.action_due() is Wait && event != Event::Done ==> s.next(event, now) == s,
        s.action_due() == Action::Stop || s.action_due() is GiveUp ==> s.next(event, now) == s,
{
}

/// A session starts by connecting, with no failed attempt. No limit and a
/// limit of zero both mean that the attempts are not limited.
pub proof fn session_starts_by_connecting(
    max_attempts: Option<u32>,
    silence_secs: Option<u64>,
    auth: bool,
    keepalive_ms: u64,
)
    ensures
        ({
            let s = Session::initial(max_attempts, silence_secs, auth, keepalive_ms);
            &&& s.wf()
            &&& s.action_due() == Action::Connect
            &&& s.attempt == 0
            &&& s.auth == auth
            &&& s.silence_secs == silence_secs
            &&& s.keepalive_ms == keepalive_ms
            &&& max_attempts is None || max_attempts == Some(0u32) ==> s.limit is None
            &&& max_attempts matches Some(n) ==> (n > 0 ==> s.limit == Some(n as u64))
        }),
{
}

/// The report of a missing pong tells how long was waited, twice the interval,
/// the interval, the exchange and the instrument.
pub proof fn missing_pong_tells_how_long(s: Session, exchange: Seq<char>, instrument: Seq<char>)
    requires
        s.keepalive_ms <= 0x20_0000_0000_0000,
    ensures
        s.no_pong_text(exchange, instrument) == "no pong received within "@ + decimal(
            (2 * s.keepalive_ms) as nat,
        ) + "ms (keepalive="@ + decimal(s.keepalive_ms as nat) + "ms) for exchange="@ + exchange
            + " instrument="@ + instrument,
{
    crate::wsloop::wait_is_exact(s.keepalive_ms);
}

} // verus!
