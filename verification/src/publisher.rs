//! The publisher loop of a sink as a state machine.
//!
//! Both sinks run the same loop; what differs is when a sink is switched on
//! and what it connects to. The loop itself sleeps, connects and sends, none
//! of which happens here. Here is what the loop decides:
//! [`SinkLoop::step`] takes the outcome of the last action and answers with
//! the next action. The caller performs the action and comes back with its
//! outcome.
//!
//! The states are `Disabled` (the sink is switched off), `Connecting`, the
//! four states of an active session (`Waiting` for the tick, `Draining` the
//! queue, `Collecting` a snapshot and `Publishing` it) and `Backoff`.

use vstd::prelude::*;
use crate::backoff::SINK_RETRY_SECS;
use crate::config::{AppState, AppStateView, Config, ConfigView};
use crate::envelope::{monitor_envelope, wire_form, Envelope, EnvelopeView};
use crate::queue::{lemma_offers_keep_order, spec_offer_all, DeliveryQueue, QUEUE_CAPACITY};
use crate::uart_reader::{
    envelopes_of, lemma_lines_delivered_in_order, spec_read_lines, IngestPhase, IngestionView,
    LineRead,
};

verus! {

/// Length of one polling tick of an active session, in milliseconds.
pub const TICK_MS: u64 = 100;

/// Seconds between two looks at the configuration while the sink is switched
/// off. The queue is drained at each look.
pub const DISABLED_POLL_SECS: u64 = 5;

/// The kind of a sink.
#[derive(Clone, Copy, Debug, PartialEq, Eq, Structural)]
pub enum SinkKind {
    /// The message-broker sink.
    Mqtt,
    /// The HTTP sink.
    Http,
}

/// What a sink connects to.
#[derive(Debug)]
pub enum SinkTarget {
    /// A session with a broker. With `tls` the session is secured and the
    /// broker is authenticated against the standard certificate authorities.
    /// Bodies are published to `topic`, to be delivered at least once.
    Broker { identity: String, host: String, port: u16, tls: bool, topic: String },
    /// An endpoint to which bodies are posted as `application/json`.
    Endpoint { url: String },
}

/// Mathematical value of a [`SinkTarget`].
pub enum SinkTargetView {
    Broker { identity: Seq<char>, host: Seq<char>, port: u16, tls: bool, topic: Seq<char> },
    Endpoint { url: Seq<char> },
}

impl View for SinkTarget {
    type V = SinkTargetView;

    open spec fn view(&self) -> SinkTargetView {
        match self {
            SinkTarget::Broker { identity, host, port, tls, topic } => SinkTargetView::Broker {
                identity: identity@,
                host: host@,
                port: *port,
                tls: *tls,
                topic: topic@,
            },
            SinkTarget::Endpoint { url } => SinkTargetView::Endpoint { url: url@ },
        }
    }
}

/// Where the publisher loop stands.
#[derive(Clone, Copy, Debug, PartialEq, Eq, Structural)]
pub enum SinkPhase {
    /// The sink is switched off, or the loop has used up its attempt
    /// numbers; the loop drains its queue, waits and looks again.
    Disabled,
    /// A session is being set up.
    Connecting,
    /// The session is active and the loop waits for the next tick.
    Waiting,
    /// The session is active and an envelope from the queue is being sent.
    Draining,
    /// The session is active and a snapshot is being collected.
    Collecting,
    /// The session is active and a snapshot is being sent.
    Publishing,
    /// The loop waits after a failure of the transport.
    Backoff,
}

/// What the caller reports to the loop.
#[derive(Debug)]
pub enum SinkEvent {
    /// The loop starts, or a sleep has ended.
    Woke,
    /// The session is set up.
    Connected,
    /// The transport failed: the session could not be set up, or a body could
    /// not be sent.
    Failed,
    /// A polling tick has passed.
    Tick,
    /// The body was sent.
    Sent,
    /// A snapshot of the metrics was collected; `payload` is its wire form.
    /// It travels as an envelope that carries the time of the report.
    Snapshot { payload: String },
}

/// Mathematical value of a [`SinkEvent`].
pub enum SinkEventView {
    Woke,
    Connected,
    Failed,
    Tick,
    Sent,
    Snapshot { payload: Seq<char> },
}

impl View for SinkEvent {
    type V = SinkEventView;

    open spec fn view(&self) -> SinkEventView {
        match self {
            SinkEvent::Woke => SinkEventView::Woke,
            SinkEvent::Connected => SinkEventView::Connected,
            SinkEvent::Failed => SinkEventView::Failed,
            SinkEvent::Tick => SinkEventView::Tick,
            SinkEvent::Sent => SinkEventView::Sent,
            SinkEvent::Snapshot { payload } => SinkEventView::Snapshot { payload: payload@ },
        }
    }
}

/// What the loop asks the caller to do next.
#[derive(Debug)]
pub enum SinkAction {
    /// Drop the session if there is one, sleep for `secs` seconds, then
    /// report `Woke`.
    Sleep { secs: u64 },
    /// Drop the session if there is one, set up a new one with `target`, and
    /// report `Connected` or `Failed`. No two sessions that the loop asks
    /// for have one identity.
    Connect { target: SinkTarget },
    /// Wait for one tick and report `Tick`.
    WaitTick,
    /// Send `body` over the session and report `Sent` or `Failed`.
    Send { body: String },
    /// Collect a snapshot of the metrics and report `Snapshot`.
    Collect,
}

/// Mathematical value of a [`SinkAction`].
pub enum SinkActionView {
    Sleep { secs: u64 },
    Connect { target: SinkTargetView },
    WaitTick,
    Send { body: Seq<char> },
    Collect,
}

impl View for SinkAction {
    type V = SinkActionView;

    open spec fn view(&self) -> SinkActionView {
        match self {
            SinkAction::Sleep { secs } => SinkActionView::Sleep { secs: *secs },
            SinkAction::Connect { target } => SinkActionView::Connect { target: target@ },
            SinkAction::WaitTick => SinkActionView::WaitTick,
            SinkAction::Send { body } => SinkActionView::Send { body: body@ },
            SinkAction::Collect => SinkActionView::Collect,
        }
    }
}

/// The state of the publisher loop of one sink.
pub struct SinkLoop {
    kind: SinkKind,
    phase: SinkPhase,
    token: u32,
    elapsed_ms: u64,
    interval_secs: u64,
    attempts: u64,
}

/// Mathematical value of a [`SinkLoop`].
pub struct SinkLoopView {
    /// The kind of the sink.
    pub kind: SinkKind,
    /// Where the loop stands.
    pub phase: SinkPhase,
    /// The token of the generation under which the loop works.
    pub token: u32,
    /// Milliseconds counted since the session was set up or the last
    /// snapshot was due; the count stops at the largest number.
    pub elapsed_ms: u64,
    /// The sampling interval of the generation under which the loop works.
    pub interval_secs: u64,
    /// The number of sessions that the loop has asked for so far.
    pub attempts: u64,
}

impl View for SinkLoop {
    type V = SinkLoopView;

    closed spec fn view(&self) -> SinkLoopView {
        SinkLoopView {
            kind: self.kind,
            phase: self.phase,
            token: self.token,
            elapsed_ms: self.elapsed_ms,
            interval_secs: self.interval_secs,
            attempts: self.attempts,
        }
    }
}

/// A step of the loop: the state and the queue that it leaves, and the action
/// to perform next.
pub struct SinkOutcome {
    pub state: SinkLoopView,
    pub queue: Seq<EnvelopeView>,
    pub action: SinkActionView,
}

/// The state in which the loop of a sink of kind `kind` starts.
pub open spec fn initial_sink(kind: SinkKind) -> SinkLoopView {
    SinkLoopView {
        kind,
        phase: SinkPhase::Disabled,
        token: 0,
        elapsed_ms: 0,
        interval_secs: 1,
        attempts: 0,
    }
}

/// Whether `config` switches the sink of kind `kind` on.
pub open spec fn spec_is_enabled(kind: SinkKind, config: ConfigView) -> bool {
    match kind {
        SinkKind::Mqtt => crate::mqtt_publisher::spec_is_enabled(config),
        SinkKind::Http => crate::http_publisher::spec_is_enabled(config),
    }
}

/// What the sink of kind `kind` connects to under `config` at `now_ms`, at
/// its attempt number `attempt`.
pub open spec fn spec_target(
    kind: SinkKind,
    config: ConfigView,
    now_ms: u64,
    attempt: u64,
) -> SinkTargetView {
    match kind {
        SinkKind::Mqtt => crate::mqtt_publisher::spec_target(config, now_ms, attempt),
        SinkKind::Http => crate::http_publisher::spec_target(config),
    }
}

/// Whether a snapshot is due: the time counted has reached the sampling
/// interval, which is taken as one second where it is configured as zero.
pub open spec fn is_due(elapsed_ms: u64, interval_secs: u64) -> bool {
    elapsed_ms >= (if interval_secs == 0 { 1 } else { interval_secs as int }) * 1000
}

/// One tick more on the count, which stops at the largest number.
pub open spec fn tick_elapsed(elapsed_ms: u64) -> u64 {
    if elapsed_ms + TICK_MS > u64::MAX {
        u64::MAX
    } else {
        (elapsed_ms + TICK_MS) as u64
    }
}

/// The state `s` moved to `phase`.
pub open spec fn in_phase(s: SinkLoopView, phase: SinkPhase) -> SinkLoopView {
    SinkLoopView {
        kind: s.kind,
        phase,
        token: s.token,
        elapsed_ms: s.elapsed_ms,
        interval_secs: s.interval_secs,
        attempts: s.attempts,
    }
}

/// The largest attempt number. Every session has a number of its own, so a
/// loop that has reached this one asks for no session any more.
pub const LAST_ATTEMPT: u64 = 0xffff_ffff_ffff_ffff;

/// Whether the loop sets up a session under `config`: the sink is switched
/// on, and the loop has an attempt number left.
pub open spec fn can_connect(s: SinkLoopView, config: ConfigView) -> bool {
    spec_is_enabled(s.kind, config) && s.attempts < LAST_ATTEMPT
}

/// The start of a cycle: the loop takes the configuration and the token of
/// one generation from the store. Where it does not set up a session it
/// discards what waits in the queue and sleeps; otherwise it counts one
/// attempt more and sets up a session under that number, with no delay.
pub open spec fn spec_begin(
    s: SinkLoopView,
    store: AppStateView,
    queue: Seq<EnvelopeView>,
    now_ms: u64,
) -> SinkOutcome {
    if can_connect(s, store.config) {
        SinkOutcome {
            state: SinkLoopView {
                kind: s.kind,
                phase: SinkPhase::Connecting,
                token: store.version,
                elapsed_ms: 0,
                interval_secs: store.config.general.interval_secs,
                attempts: (s.attempts + 1) as u64,
            },
            queue,
            action: SinkActionView::Connect {
                target: spec_target(s.kind, store.config, now_ms, (s.attempts + 1) as u64),
            },
        }
    } else {
        SinkOutcome {
            state: SinkLoopView {
                kind: s.kind,
                phase: SinkPhase::Disabled,
                token: store.version,
                elapsed_ms: 0,
                interval_secs: store.config.general.interval_secs,
                attempts: s.attempts,
            },
            queue: Seq::empty(),
            action: SinkActionView::Sleep { secs: DISABLED_POLL_SECS },
        }
    }
}

/// A failure of the transport: the session is given up and the loop sleeps
/// for the fixed delay. What waits in the queue stays there.
pub open spec fn spec_fail(s: SinkLoopView, queue: Seq<EnvelopeView>) -> SinkOutcome {
    SinkOutcome {
        state: in_phase(s, SinkPhase::Backoff),
        queue,
        action: SinkActionView::Sleep { secs: SINK_RETRY_SECS },
    }
}

/// What follows once the queue is empty: a token that has moved on ends the
/// session and starts a new cycle at once; otherwise a snapshot is collected
/// where one is due, and the loop waits for the next tick where none is.
pub open spec fn spec_after_drain(
    s: SinkLoopView,
    store: AppStateView,
    queue: Seq<EnvelopeView>,
    now_ms: u64,
) -> SinkOutcome {
    if store.version != s.token {
        spec_begin(s, store, queue, now_ms)
    } else if is_due(s.elapsed_ms, s.interval_secs) {
        SinkOutcome {
            state: SinkLoopView {
                kind: s.kind,
                phase: SinkPhase::Collecting,
                token: s.token,
                elapsed_ms: 0,
                interval_secs: s.interval_secs,
                attempts: s.attempts,
            },
            queue,
            action: SinkActionView::Collect,
        }
    } else {
        SinkOutcome {
            state: in_phase(s, SinkPhase::Waiting),
            queue,
            action: SinkActionView::WaitTick,
        }
    }
}

/// Draining: the envelope that has waited longest leaves the queue and is
/// sent; with the queue empty the loop goes on as [`spec_after_drain`] says.
pub open spec fn spec_drain(
    s: SinkLoopView,
    store: AppStateView,
    queue: Seq<EnvelopeView>,
    now_ms: u64,
) -> SinkOutcome {
    if queue.len() > 0 {
        SinkOutcome {
            state: in_phase(s, SinkPhase::Draining),
            queue: queue.skip(1),
            action: SinkActionView::Send { body: wire_form(queue[0]) },
        }
    } else {
        spec_after_drain(s, store, queue, now_ms)
    }
}

/// The transition of the publisher loop: what follows when `event` is
/// reported at `now_ms` in state `s`, with the store at `store` and `queue`
/// waiting. An event that the state did not wait for starts a new cycle.
pub open spec fn spec_step(
    s: SinkLoopView,
    store: AppStateView,
    queue: Seq<EnvelopeView>,
    event: SinkEventView,
    now_ms: u64,
) -> SinkOutcome {
    match event {
        SinkEventView::Woke => spec_begin(s, store, queue, now_ms),
        SinkEventView::Failed => spec_fail(s, queue),
        SinkEventView::Connected => {
            if s.phase == SinkPhase::Connecting && store.version == s.token {
                SinkOutcome {
                    state: in_phase(s, SinkPhase::Waiting),
                    queue,
                    action: SinkActionView::WaitTick,
                }
            } else {
                spec_begin(s, store, queue, now_ms)
            }
        },
        SinkEventView::Tick => {
            if s.phase == SinkPhase::Waiting {
                spec_drain(
                    SinkLoopView {
                        kind: s.kind,
                        phase: s.phase,
                        token: s.token,
                        elapsed_ms: tick_elapsed(s.elapsed_ms),
                        interval_secs: s.interval_secs,
                        attempts: s.attempts,
                    },
                    store,
                    queue,
                    now_ms,
                )
            } else {
                spec_begin(s, store, queue, now_ms)
            }
        },
        SinkEventView::Sent => {
            if s.phase == SinkPhase::Draining {
                spec_drain(s, store, queue, now_ms)
            } else if s.phase == SinkPhase::Publishing {
                SinkOutcome {
                    state: in_phase(s, SinkPhase::Waiting),
                    queue,
                    action: SinkActionView::WaitTick,
                }
            } else {
                spec_begin(s, store, queue, now_ms)
            }
        },
        SinkEventView::Snapshot { payload } => {
            if s.phase == SinkPhase::Collecting {
                SinkOutcome {
                    state: in_phase(s, SinkPhase::Publishing),
                    queue,
                    action: SinkActionView::Send {
                        body: wire_form(monitor_envelope(payload, (now_ms / 1000) as u64)),
                    },
                }
            } else {
                spec_begin(s, store, queue, now_ms)
            }
        },
    }
}

/// Whether `config` switches the sink of kind `kind` on.
pub fn is_enabled(kind: SinkKind, config: &Config) -> (b: bool)
    ensures
        b == spec_is_enabled(kind, config@),
{
    match kind {
        SinkKind::Mqtt => crate::mqtt_publisher::is_enabled(config),
        SinkKind::Http => crate::http_publisher::is_enabled(config),
    }
}

/// What the sink of kind `kind` connects to under `config` at `now_ms`, at
/// its attempt number `attempt`.
pub fn target(kind: SinkKind, config: &Config, now_ms: u64, attempt: u64) -> (t: SinkTarget)
    ensures
        t@ == spec_target(kind, config@, now_ms, attempt),
{
    match kind {
        SinkKind::Mqtt => crate::mqtt_publisher::target(config, now_ms, attempt),
        SinkKind::Http => crate::http_publisher::target(config),
    }
}

/// Whether a snapshot is due after `elapsed_ms` under a sampling interval of
/// `interval_secs`.
pub fn due(elapsed_ms: u64, interval_secs: u64) -> (b: bool)
    ensures
        b == is_due(elapsed_ms, interval_secs),
{
    let interval = if interval_secs == 0 {
        1
    } else {
        interval_secs
    };
    elapsed_ms / 1000 >= interval
}

impl SinkLoop {
    /// A loop for a sink of kind `kind` that has not started: report `Woke`
    /// to start it.
    pub fn new(kind: SinkKind) -> (s: Self)
        ensures
            s@ == initial_sink(kind),
    {
        SinkLoop {
            kind,
            phase: SinkPhase::Disabled,
            token: 0,
            elapsed_ms: 0,
            interval_secs: 1,
            attempts: 0,
        }
    }

    /// The kind of the sink.
    pub fn kind(&self) -> (k: SinkKind)
        ensures
            k == self@.kind,
    {
        self.kind
    }

    /// Where the loop stands.
    pub fn phase(&self) -> (p: SinkPhase)
        ensures
            p == self@.phase,
    {
        self.phase
    }

    /// The token of the generation under which the loop works.
    pub fn token(&self) -> (t: u32)
        ensures
            t == self@.token,
    {
        self.token
    }

    /// The number of sessions that the loop has asked for so far.
    pub fn attempts(&self) -> (n: u64)
        ensures
            n == self@.attempts,
    {
        self.attempts
    }

    /// Milliseconds counted towards the next snapshot.
    pub fn elapsed_ms(&self) -> (e: u64)
        ensures
            e == self@.elapsed_ms,
    {
        self.elapsed_ms
    }

    /// Starts a cycle under the generation that `store` holds now.
    fn begin(&mut self, store: &AppState, queue: &mut DeliveryQueue, now_ms: u64) -> (action:
        SinkAction)
        ensures
            final(self)@ == spec_begin(old(self)@, store@, old(queue)@, now_ms).state,
            final(queue)@ == spec_begin(old(self)@, store@, old(queue)@, now_ms).queue,
            action@ == spec_begin(old(self)@, store@, old(queue)@, now_ms).action,
    {
        let config = store.get();
        self.token = store.version();
        self.elapsed_ms = 0;
        self.interval_secs = config.general.interval_secs;
        if is_enabled(self.kind, &config) && self.attempts < LAST_ATTEMPT {
            self.phase = SinkPhase::Connecting;
            self.attempts = self.attempts + 1;
            SinkAction::Connect { target: target(self.kind, &config, now_ms, self.attempts) }
        } else {
            self.phase = SinkPhase::Disabled;
            queue.drain();
            SinkAction::Sleep { secs: DISABLED_POLL_SECS }
        }
    }

    /// Goes on once the queue is empty.
    fn after_drain(&mut self, store: &AppState, queue: &mut DeliveryQueue, now_ms: u64) -> (action:
        SinkAction)
        ensures
            final(self)@ == spec_after_drain(old(self)@, store@, old(queue)@, now_ms).state,
            final(queue)@ == spec_after_drain(old(self)@, store@, old(queue)@, now_ms).queue,
            action@ == spec_after_drain(old(self)@, store@, old(queue)@, now_ms).action,
    {
        if store.version() != self.token {
            self.begin(store, queue, now_ms)
        } else if due(self.elapsed_ms, self.interval_secs) {
            self.phase = SinkPhase::Collecting;
            self.elapsed_ms = 0;
            SinkAction::Collect
        } else {
            self.phase = SinkPhase::Waiting;
            SinkAction::WaitTick
        }
    }

    /// Sends the envelope that has waited longest, or goes on where none
    /// waits.
    fn drain(&mut self, store: &AppState, queue: &mut DeliveryQueue, now_ms: u64) -> (action:
        SinkAction)
        ensures
            final(self)@ == spec_drain(old(self)@, store@, old(queue)@, now_ms).state,
            final(queue)@ == spec_drain(old(self)@, store@, old(queue)@, now_ms).queue,
            action@ == spec_drain(old(self)@, store@, old(queue)@, now_ms).action,
    {
        match queue.pop() {
            Some(envelope) => {
                self.phase = SinkPhase::Draining;
                SinkAction::Send { body: envelope.to_wire() }
            },
            None => self.after_drain(store, queue, now_ms),
        }
    }

    /// Takes the outcome of the last action, reported at `now_ms`
    /// (milliseconds since the epoch), and gives the next action.
    ///
    /// At every event the loop works under one generation of the
    /// configuration: the token, the interval and the target of the session
    /// were taken from the store together. Once the loop sees that the store
    /// has moved on, it gives the session up and sets up a new one under the
    /// new generation, with no delay.
    pub fn step(
        &mut self,
        store: &AppState,
        queue: &mut DeliveryQueue,
        event: SinkEvent,
        now_ms: u64,
    ) -> (action: SinkAction)
        ensures
            final(self)@ == spec_step(old(self)@, store@, old(queue)@, event@, now_ms).state,
            final(queue)@ == spec_step(old(self)@, store@, old(queue)@, event@, now_ms).queue,
            action@ == spec_step(old(self)@, store@, old(queue)@, event@, now_ms).action,
            final(queue)@.len() <= old(queue)@.len(),
    {
        match event {
            SinkEvent::Woke => self.begin(store, queue, now_ms),
            SinkEvent::Failed => {
                self.phase = SinkPhase::Backoff;
                SinkAction::Sleep { secs: SINK_RETRY_SECS }
            },
            SinkEvent::Connected => {
                if self.phase == SinkPhase::Connecting && store.version() == self.token {
                    self.phase = SinkPhase::Waiting;
                    SinkAction::WaitTick
                } else {
                    self.begin(store, queue, now_ms)
                }
            },
            SinkEvent::Tick => {
                if self.phase == SinkPhase::Waiting {
                    self.elapsed_ms = self.elapsed_ms.saturating_add(TICK_MS);
                    self.drain(store, queue, now_ms)
                } else {
                    self.begin(store, queue, now_ms)
                }
            },
            SinkEvent::Sent => {
                if self.phase == SinkPhase::Draining {
                    self.drain(store, queue, now_ms)
                } else if self.phase == SinkPhase::Publishing {
                    self.phase = SinkPhase::Waiting;
                    SinkAction::WaitTick
                } else {
                    self.begin(store, queue, now_ms)
                }
            },
            SinkEvent::Snapshot { payload } => {
                if self.phase == SinkPhase::Collecting {
                    self.phase = SinkPhase::Publishing;
                    let envelope = Envelope::monitor(payload, now_ms / 1000);
                    SinkAction::Send { body: envelope.to_wire() }
                } else {
                    self.begin(store, queue, now_ms)
                }
            },
        }
    }
}

/// What follows when, after the tick that started the draining, `n` bodies
/// were reported as sent, one after the other.
pub open spec fn spec_after_sent(
    s: SinkLoopView,
    store: AppStateView,
    queue: Seq<EnvelopeView>,
    now_ms: u64,
    n: nat,
) -> SinkOutcome
    decreases n,
{
    if n == 0 {
        spec_step(s, store, queue, SinkEventView::Tick, now_ms)
    } else {
        let before = spec_after_sent(s, store, queue, now_ms, (n - 1) as nat);
        spec_step(before.state, store, before.queue, SinkEventView::Sent, now_ms)
    }
}

/// An active session sends what waits in the queue in the order in which it
/// was queued, each envelope once: at a tick with `queue` waiting, the first
/// body sent is that of the first envelope, and after `n` bodies were sent
/// the next is that of envelope `n`, while the envelopes behind it still
/// wait.
pub proof fn lemma_drain_in_order(
    s: SinkLoopView,
    store: AppStateView,
    queue: Seq<EnvelopeView>,
    now_ms: u64,
    n: nat,
)
    requires
        s.phase == SinkPhase::Waiting,
        n < queue.len(),
    ensures
        spec_after_sent(s, store, queue, now_ms, n).action == (SinkActionView::Send {
            body: wire_form(queue[n as int]),
        }),
        spec_after_sent(s, store, queue, now_ms, n).queue == queue.skip(n as int + 1),
        spec_after_sent(s, store, queue, now_ms, n).state.phase == SinkPhase::Draining,
        spec_after_sent(s, store, queue, now_ms, n).state.token == s.token,
    decreases n,
{
    if n == 0 {
        assert(queue.skip(1) =~= queue.skip(n as int + 1));
    } else {
        lemma_drain_in_order(s, store, queue, now_ms, (n - 1) as nat);
        let before = spec_after_sent(s, store, queue, now_ms, (n - 1) as nat);
        assert(before.queue == queue.skip(n as int));
        assert(before.queue.len() > 0);
        assert(before.queue[0] == queue[n as int]);
        assert(before.queue.skip(1) =~= queue.skip(n as int + 1));
    }
}

/// No step of the loop adds to the queue.
pub proof fn lemma_step_never_fills(
    s: SinkLoopView,
    store: AppStateView,
    queue: Seq<EnvelopeView>,
    event: SinkEventView,
    now_ms: u64,
)
    ensures
        spec_step(s, store, queue, event, now_ms).queue.len() <= queue.len(),
{
}

/// A sink that is switched off, or that has no attempt left, discards what
/// waits in its queue at every look at the configuration, and looks again
/// after a fixed sleep.
pub proof fn lemma_disabled_sink_drains(
    s: SinkLoopView,
    store: AppStateView,
    queue: Seq<EnvelopeView>,
    now_ms: u64,
)
    requires
        !can_connect(s, store.config),
    ensures
        spec_step(s, store, queue, SinkEventView::Woke, now_ms).queue == Seq::<
            EnvelopeView,
        >::empty(),
        spec_step(s, store, queue, SinkEventView::Woke, now_ms).state.phase == SinkPhase::Disabled,
        spec_step(s, store, queue, SinkEventView::Woke, now_ms).action == (SinkActionView::Sleep {
            secs: DISABLED_POLL_SECS,
        }),
{
}

/// A failure of the transport is always followed by the same fixed sleep,
/// however many failures came before, and leaves the queue as it is. The
/// sleep over, the loop sets up a session again where the sink is still
/// switched on.
pub proof fn lemma_failure_backs_off_fixed(
    s: SinkLoopView,
    store: AppStateView,
    queue: Seq<EnvelopeView>,
    now_ms: u64,
)
    ensures
        spec_step(s, store, queue, SinkEventView::Failed, now_ms).action == (SinkActionView::Sleep {
            secs: SINK_RETRY_SECS,
        }),
        spec_step(s, store, queue, SinkEventView::Failed, now_ms).state.phase == SinkPhase::Backoff,
        spec_step(s, store, queue, SinkEventView::Failed, now_ms).queue == queue,
        can_connect(s, store.config) ==> spec_step(
            spec_step(s, store, queue, SinkEventView::Failed, now_ms).state,
            store,
            queue,
            SinkEventView::Woke,
            now_ms,
        ).action == (SinkActionView::Connect {
            target: spec_target(s.kind, store.config, now_ms, (s.attempts + 1) as u64),
        }),
{
}

/// A cycle starts under one generation: the token, the interval and the
/// target with which the loop goes on were all read from the same state of
/// the store.
pub proof fn lemma_cycle_takes_one_generation(
    s: SinkLoopView,
    store: AppStateView,
    queue: Seq<EnvelopeView>,
    now_ms: u64,
)
    ensures
        spec_begin(s, store, queue, now_ms).state.token == store.version,
        spec_begin(s, store, queue, now_ms).state.interval_secs
            == store.config.general.interval_secs,
        can_connect(s, store.config) ==> spec_begin(s, store, queue, now_ms).action == (
        SinkActionView::Connect {
            target: spec_target(s.kind, store.config, now_ms, (s.attempts + 1) as u64),
        }),
{
}

/// Whatever is reported, the loop never works under a mix of two
/// generations. A step either keeps the token and the interval that the loop
/// had, or takes both from the store as it is handed to the step; and where
/// it asks for a session, the target, the token and the interval are all of
/// that store. So with a store that is replaced between two steps, each step
/// sees the old generation or the new one as a whole.
pub proof fn lemma_step_reads_one_generation(
    s: SinkLoopView,
    store: AppStateView,
    queue: Seq<EnvelopeView>,
    event: SinkEventView,
    now_ms: u64,
)
    ensures
        ({
            let next = spec_step(s, store, queue, event, now_ms).state;
            let action = spec_step(s, store, queue, event, now_ms).action;
            &&& (next.token == s.token && next.interval_secs == s.interval_secs) || (next.token
                == store.version && next.interval_secs == store.config.general.interval_secs)
            &&& action is Connect ==> next.token == store.version && next.interval_secs
                == store.config.general.interval_secs && action == (SinkActionView::Connect {
                target: spec_target(s.kind, store.config, now_ms, next.attempts),
            })
        }),
{
}

/// Once an active session with nothing left to send sees that the token has
/// moved on, it is given up at that tick: nothing is collected or sent over
/// it any more, and the loop goes on under the generation that the store
/// holds now, connecting to the new target with no sleep in between.
pub proof fn lemma_drift_reconnects(
    s: SinkLoopView,
    store: AppStateView,
    now_ms: u64,
)
    requires
        s.phase == SinkPhase::Waiting,
        store.version != s.token,
    ensures
        spec_step(s, store, Seq::empty(), SinkEventView::Tick, now_ms).state.token
            == store.version,
        can_connect(s, store.config) ==> spec_step(
            s,
            store,
            Seq::empty(),
            SinkEventView::Tick,
            now_ms,
        ).action == (SinkActionView::Connect {
            target: spec_target(s.kind, store.config, now_ms, (s.attempts + 1) as u64),
        }),
        !can_connect(s, store.config) ==> spec_step(
            s,
            store,
            Seq::empty(),
            SinkEventView::Tick,
            now_ms,
        ).state.phase == SinkPhase::Disabled,
{
}

/// Every session is asked for under an attempt number of its own. No step
/// lowers the count of attempts; a step that asks for a session raises it by
/// one and asks under the raised number, and no other step changes it. So
/// the number of a session is greater than the number of every session that
/// the loop asked for before it.
pub proof fn lemma_attempts_count_sessions(
    s: SinkLoopView,
    store: AppStateView,
    queue: Seq<EnvelopeView>,
    event: SinkEventView,
    now_ms: u64,
)
    ensures
        ({
            let next = spec_step(s, store, queue, event, now_ms).state;
            let action = spec_step(s, store, queue, event, now_ms).action;
            &&& next.attempts >= s.attempts
            &&& action is Connect ==> next.attempts == s.attempts + 1 && action == (
            SinkActionView::Connect {
                target: spec_target(s.kind, store.config, now_ms, next.attempts),
            })
            &&& !(action is Connect) ==> next.attempts == s.attempts
        }),
{
}

/// Two sessions with the broker never share an identity: whatever the clock
/// shows at either attempt, and whatever identity is configured at either,
/// the session that is asked for at one step and a session that is asked
/// for at any later count of attempts have different identities.
pub proof fn lemma_reconnects_never_collide(
    s: SinkLoopView,
    store: AppStateView,
    queue: Seq<EnvelopeView>,
    event: SinkEventView,
    now_ms: u64,
    later: SinkLoopView,
    later_store: AppStateView,
    later_queue: Seq<EnvelopeView>,
    later_event: SinkEventView,
    later_ms: u64,
)
    requires
        s.kind == SinkKind::Mqtt,
        later.kind == SinkKind::Mqtt,
        spec_step(s, store, queue, event, now_ms).action is Connect,
        spec_step(later, later_store, later_queue, later_event, later_ms).action is Connect,
        later.attempts >= spec_step(s, store, queue, event, now_ms).state.attempts,
    ensures
        spec_step(s, store, queue, event, now_ms).action->target->identity != spec_step(
            later,
            later_store,
            later_queue,
            later_event,
            later_ms,
        ).action->target->identity,
{
    lemma_attempts_count_sessions(s, store, queue, event, now_ms);
    lemma_attempts_count_sessions(later, later_store, later_queue, later_event, later_ms);
    let first = spec_step(s, store, queue, event, now_ms).state.attempts;
    let second = spec_step(later, later_store, later_queue, later_event, later_ms).state.attempts;
    crate::mqtt_publisher::lemma_identities_differ(
        store.config.mqtt.client_id,
        now_ms,
        first,
        later_store.config.mqtt.client_id,
        later_ms,
        second,
    );
}

/// From the device to the wire, lines keep their order. Where the ingestion
/// loop reads `lines` under an unchanged generation and hands what it
/// delivers to a queue with room for it, an active session then sends, as
/// its body number `n`, the wire form of the envelope of the line that is
/// number `n` among those that are not empty.
pub proof fn lemma_lines_reach_the_wire_in_order(
    reader: IngestionView,
    sink: SinkLoopView,
    store: AppStateView,
    waiting: Seq<EnvelopeView>,
    lines: Seq<LineRead>,
    now_ms: u64,
    n: nat,
)
    requires
        reader.phase == IngestPhase::Reading,
        store.version == reader.token,
        sink.phase == SinkPhase::Waiting,
        waiting.len() + envelopes_of(lines).len() <= QUEUE_CAPACITY,
        n < envelopes_of(lines).len(),
    ensures
        spec_read_lines(reader, store, lines).1 == envelopes_of(lines),
        spec_offer_all(waiting, envelopes_of(lines)) == waiting + envelopes_of(lines),
        spec_after_sent(
            sink,
            store,
            spec_offer_all(waiting, envelopes_of(lines)),
            now_ms,
            waiting.len() + n,
        ).action == (SinkActionView::Send { body: wire_form(envelopes_of(lines)[n as int]) }),
{
    let delivered = envelopes_of(lines);
    lemma_lines_delivered_in_order(reader, store, lines);
    lemma_offers_keep_order(waiting, delivered);
    lemma_drain_in_order(sink, store, waiting + delivered, now_ms, waiting.len() + n);
    assert((waiting + delivered)[waiting.len() + n as int] == delivered[n as int]);
}

} // verus!
