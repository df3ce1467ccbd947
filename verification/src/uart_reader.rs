//! The serial ingestion loop as a state machine.
//!
//! The loop itself sleeps, opens the device and reads from it, none of which
//! happens here. Here is what the loop decides: [`Ingestion::step`] takes the
//! outcome of the last action and answers with the next action. The caller
//! performs the action and comes back with its outcome.
//!
//! The states are `Idle` (the serial device is switched off), `Opening` and
//! `Configuring` (the device is opened, checked and put into raw mode),
//! `Reading` and `Delivering` (lines are read and fanned out), and `Backoff`
//! (the loop waits after a failure).

use vstd::prelude::*;
use crate::backoff::{next_delay, spec_next_delay, BASE_DELAY_SECS, MAX_DELAY_SECS};
use crate::config::{AppState, AppStateView};
use crate::envelope::{uart_envelope, Envelope, EnvelopeView};

verus! {

/// Seconds between two looks at the configuration while the serial device is
/// switched off.
pub const IDLE_POLL_SECS: u64 = 10;

/// The speed used where the configured one is not supported.
pub const DEFAULT_BAUD: u32 = 115200;

/// Whether the device can be driven at `baudrate`.
pub open spec fn is_supported_baud(baudrate: u32) -> bool {
    baudrate == 9600 || baudrate == 19200 || baudrate == 38400 || baudrate == 57600 || baudrate
        == 115200 || baudrate == 230400
}

/// The speed at which the device is driven when `baudrate` is asked for.
pub open spec fn effective_baud(baudrate: u32) -> u32 {
    if is_supported_baud(baudrate) {
        baudrate
    } else {
        DEFAULT_BAUD
    }
}

/// How the serial line is set up.
#[derive(Clone, Copy, Debug, PartialEq, Eq, Structural)]
pub struct SerialSettings {
    /// Speed in both directions, in bits per second.
    pub baud: u32,
    /// Data bits per character.
    pub data_bits: u8,
    /// Whether a parity bit is sent.
    pub parity: bool,
    /// Stop bits per character.
    pub stop_bits: u8,
    /// Whether the line discipline edits lines before handing them over.
    pub canonical: bool,
    /// Whether input is echoed back.
    pub echo: bool,
    /// Whether control characters raise signals.
    pub signals: bool,
    /// Bytes that must be there before a read returns.
    pub min_bytes: u8,
    /// Time allowed between two bytes, in tenths of a second; zero for none.
    pub inter_byte_timeout: u8,
}

/// Raw mode at the speed that `baudrate` selects: eight data bits, no parity,
/// one stop bit, no line editing, no echo, no signals, and a read that returns
/// as soon as one byte is there.
pub open spec fn raw_settings(baudrate: u32) -> SerialSettings {
    SerialSettings {
        baud: effective_baud(baudrate),
        data_bits: 8,
        parity: false,
        stop_bits: 1,
        canonical: false,
        echo: false,
        signals: false,
        min_bytes: 1,
        inter_byte_timeout: 0,
    }
}

/// The settings with which the device is configured when the configuration
/// asks for `baudrate`.
pub fn configure_serial(baudrate: u32) -> (r: SerialSettings)
    ensures
        r == raw_settings(baudrate),
        is_supported_baud(r.baud),
{
    let baud = if baudrate == 9600 || baudrate == 19200 || baudrate == 38400 || baudrate == 57600
        || baudrate == 115200 || baudrate == 230400 {
        baudrate
    } else {
        DEFAULT_BAUD
    };
    SerialSettings {
        baud,
        data_bits: 8,
        parity: false,
        stop_bits: 1,
        canonical: false,
        echo: false,
        signals: false,
        min_bytes: 1,
        inter_byte_timeout: 0,
    }
}

/// The bits of a terminal's control flags that give a character its shape,
/// as the system names them.
#[derive(Clone, Copy, Debug, PartialEq, Eq, Structural)]
pub struct ControlBits {
    /// All bits of the field that holds the number of data bits.
    pub size_mask: u32,
    /// That field's value for eight data bits.
    pub size_8: u32,
    /// The bit that switches parity on.
    pub parity: u32,
    /// The bit that asks for two stop bits.
    pub two_stop_bits: u32,
    /// The bit that switches the receiver on.
    pub receiver: u32,
    /// The bit that makes the line ignore modem control.
    pub local: u32,
}

/// The control flags `flags` set for eight data bits, no parity and one stop
/// bit, with the receiver on and modem control ignored.
pub open spec fn spec_control_flags(flags: u32, bits: ControlBits) -> u32 {
    ((((flags & !bits.size_mask) | bits.size_8) & !bits.parity) & !bits.two_stop_bits) | (
    bits.receiver | bits.local)
}

/// Whether the bits are named as a system names them: the value for eight
/// data bits lies in its field, and the field and the four single bits do
/// not overlap.
pub open spec fn coherent(bits: ControlBits) -> bool {
    &&& bits.size_8 & !bits.size_mask == 0
    &&& bits.size_mask & (bits.parity | bits.two_stop_bits | bits.receiver | bits.local) == 0
    &&& bits.parity & (bits.two_stop_bits | bits.receiver | bits.local) == 0
    &&& bits.two_stop_bits & (bits.receiver | bits.local) == 0
}

/// The control flags `flags` set for eight data bits, no parity and one stop
/// bit, with the receiver on and modem control ignored.
pub fn control_flags(flags: u32, bits: &ControlBits) -> (r: u32)
    ensures
        r == spec_control_flags(flags, *bits),
{
    ((((flags & !bits.size_mask) | bits.size_8) & !bits.parity) & !bits.two_stop_bits) | (
    bits.receiver | bits.local)
}

/// With the bits named as a system names them, the flags that come out ask
/// for eight data bits, no parity and one stop bit, have the receiver on and
/// modem control ignored, and are the flags that went in everywhere else.
pub proof fn lemma_control_flags_are_8n1(flags: u32, bits: ControlBits)
    requires
        coherent(bits),
    ensures
        spec_control_flags(flags, bits) & bits.size_mask == bits.size_8,
        spec_control_flags(flags, bits) & bits.parity == 0,
        spec_control_flags(flags, bits) & bits.two_stop_bits == 0,
        spec_control_flags(flags, bits) & bits.receiver == bits.receiver,
        spec_control_flags(flags, bits) & bits.local == bits.local,
        spec_control_flags(flags, bits) & !(bits.size_mask | bits.parity | bits.two_stop_bits
            | bits.receiver | bits.local) == flags & !(bits.size_mask | bits.parity
            | bits.two_stop_bits | bits.receiver | bits.local),
{
    let m = bits.size_mask;
    let e = bits.size_8;
    let p = bits.parity;
    let t = bits.two_stop_bits;
    let r = bits.receiver;
    let l = bits.local;
    let out = ((((flags & !m) | e) & !p) & !t) | (r | l);
    assert(out & m == e && out & p == 0 && out & t == 0 && out & r == r && out & l == l && out & !(m
        | p | t | r | l) == flags & !(m | p | t | r | l)) by (bit_vector)
        requires
            out == ((((flags & !m) | e) & !p) & !t) | (r | l),
            e & !m == 0,
            m & (p | t | r | l) == 0,
            p & (t | r | l) == 0,
            t & (r | l) == 0,
    ;
}

/// Where the ingestion loop stands.
#[derive(Clone, Copy, Debug, PartialEq, Eq, Structural)]
pub enum IngestPhase {
    /// The serial device is switched off; the loop waits and looks again.
    Idle,
    /// The device is being opened.
    Opening,
    /// The device is open and is being put into raw mode.
    Configuring,
    /// The loop waits for the next line.
    Reading,
    /// A line is being handed to the queues of the sinks.
    Delivering,
    /// The loop waits after a failure.
    Backoff,
}

/// What the caller reports to the loop.
#[derive(Debug)]
pub enum IngestEvent {
    /// The loop starts, or a sleep has ended.
    Woke,
    /// The device was opened; `is_terminal` says whether it is a terminal.
    Opened { is_terminal: bool },
    /// The device was put into raw mode.
    Configured,
    /// The last action failed: the device could not be opened or set up, a
    /// read failed, or the device was closed. It is followed by the backoff,
    /// unless the loop was reading and the configuration has been replaced.
    Failed,
    /// A line was read at `now`, in seconds since the epoch.
    Line { text: String, now: u64 },
    /// The envelope was handed to the queue of every sink.
    Delivered,
}

/// Mathematical value of an [`IngestEvent`].
pub enum IngestEventView {
    Woke,
    Opened { is_terminal: bool },
    Configured,
    Failed,
    Line { text: Seq<char>, now: u64 },
    Delivered,
}

impl View for IngestEvent {
    type V = IngestEventView;

    open spec fn view(&self) -> IngestEventView {
        match self {
            IngestEvent::Woke => IngestEventView::Woke,
            IngestEvent::Opened { is_terminal } => IngestEventView::Opened {
                is_terminal: *is_terminal,
            },
            IngestEvent::Configured => IngestEventView::Configured,
            IngestEvent::Failed => IngestEventView::Failed,
            IngestEvent::Line { text, now } => IngestEventView::Line { text: text@, now: *now },
            IngestEvent::Delivered => IngestEventView::Delivered,
        }
    }
}

/// What the loop asks the caller to do next.
#[derive(Debug)]
pub enum IngestAction {
    /// Close the device if it is open, sleep for `secs` seconds, then report
    /// `Woke`.
    Sleep { secs: u64 },
    /// Close the device if it is open, open the one at `path`, and report
    /// `Opened` with whether it is a terminal, or `Failed`.
    Open { path: String },
    /// Set the open device up as `settings` say, and report `Configured` or
    /// `Failed`.
    Configure { settings: SerialSettings },
    /// Read the next line, and report `Line` or `Failed`.
    Read,
    /// Hand a copy of `envelope` to the queue of every sink, waiting where a
    /// queue is full, and report `Delivered`.
    Deliver { envelope: Envelope },
}

/// Mathematical value of an [`IngestAction`].
pub enum IngestActionView {
    Sleep { secs: u64 },
    Open { path: Seq<char> },
    Configure { settings: SerialSettings },
    Read,
    Deliver { envelope: EnvelopeView },
}

impl View for IngestAction {
    type V = IngestActionView;

    open spec fn view(&self) -> IngestActionView {
        match self {
            IngestAction::Sleep { secs } => IngestActionView::Sleep { secs: *secs },
            IngestAction::Open { path } => IngestActionView::Open { path: path@ },
            IngestAction::Configure { settings } => IngestActionView::Configure {
                settings: *settings,
            },
            IngestAction::Read => IngestActionView::Read,
            IngestAction::Deliver { envelope } => IngestActionView::Deliver {
                envelope: envelope@,
            },
        }
    }
}

/// The state of the ingestion loop.
pub struct Ingestion {
    phase: IngestPhase,
    token: u32,
    retry_secs: u64,
    baudrate: u32,
}

/// Mathematical value of an [`Ingestion`].
pub struct IngestionView {
    /// Where the loop stands.
    pub phase: IngestPhase,
    /// The token of the generation under which the loop works.
    pub token: u32,
    /// The delay that the next failure is followed by, in seconds.
    pub retry_secs: u64,
    /// The speed that the generation under which the loop works asks for.
    pub baudrate: u32,
}

impl View for Ingestion {
    type V = IngestionView;

    closed spec fn view(&self) -> IngestionView {
        IngestionView {
            phase: self.phase,
            token: self.token,
            retry_secs: self.retry_secs,
            baudrate: self.baudrate,
        }
    }
}

/// The invariant of the loop's state: the delay lies between the base delay
/// and the cap.
pub open spec fn valid_ingestion(s: IngestionView) -> bool {
    BASE_DELAY_SECS <= s.retry_secs <= MAX_DELAY_SECS
}

/// The state in which the loop starts.
pub open spec fn initial_ingestion() -> IngestionView {
    IngestionView {
        phase: IngestPhase::Idle,
        token: 0,
        retry_secs: BASE_DELAY_SECS,
        baudrate: DEFAULT_BAUD,
    }
}

/// The start of a cycle: the loop takes the configuration and the token of
/// one generation from the store. With the device switched off it goes idle
/// and puts the delay back to its base; otherwise it opens the device, with
/// `retry_secs` as the delay to come.
pub open spec fn spec_begin(store: AppStateView, retry_secs: u64) -> (
    IngestionView,
    IngestActionView,
) {
    if store.config.uart.enabled {
        (
            IngestionView {
                phase: IngestPhase::Opening,
                token: store.version,
                retry_secs,
                baudrate: store.config.uart.baudrate,
            },
            IngestActionView::Open { path: store.config.uart.port },
        )
    } else {
        (
            IngestionView {
                phase: IngestPhase::Idle,
                token: store.version,
                retry_secs: BASE_DELAY_SECS,
                baudrate: store.config.uart.baudrate,
            },
            IngestActionView::Sleep { secs: IDLE_POLL_SECS },
        )
    }
}

/// A failure: the loop sleeps for the current delay, and the delay doubles up
/// to the cap.
pub open spec fn spec_fail(s: IngestionView) -> (IngestionView, IngestActionView) {
    (
        IngestionView {
            phase: IngestPhase::Backoff,
            token: s.token,
            retry_secs: spec_next_delay(s.retry_secs),
            baudrate: s.baudrate,
        },
        IngestActionView::Sleep { secs: s.retry_secs },
    )
}

/// The state `s` moved to `phase`.
pub open spec fn in_phase(s: IngestionView, phase: IngestPhase) -> IngestionView {
    IngestionView { phase, token: s.token, retry_secs: s.retry_secs, baudrate: s.baudrate }
}

/// What the loop does with a line read at `now`. A token that has moved on
/// ends the work under the old generation at once: the line is dropped and a
/// new cycle starts with the base delay. Otherwise an empty line is passed
/// over, and any other line is wrapped and delivered.
pub open spec fn spec_line(s: IngestionView, store: AppStateView, text: Seq<char>, now: u64) -> (
    IngestionView,
    IngestActionView,
) {
    if store.version != s.token {
        spec_begin(store, BASE_DELAY_SECS)
    } else if text.len() == 0 {
        (s, IngestActionView::Read)
    } else {
        (
            in_phase(s, IngestPhase::Delivering),
            IngestActionView::Deliver { envelope: uart_envelope(text, now) },
        )
    }
}

/// The transition of the ingestion loop: the state after `event` was reported
/// in state `s` with the store at `store`, and the action to perform next.
/// A failure is followed by the backoff, but for one: where the loop reads
/// and the token has moved on, a read that fails shows the change as a line
/// would, and a new cycle starts at once with the base delay. An event that
/// the state did not wait for starts a new cycle.
pub open spec fn spec_step(s: IngestionView, store: AppStateView, event: IngestEventView) -> (
    IngestionView,
    IngestActionView,
) {
    match event {
        IngestEventView::Woke => spec_begin(store, s.retry_secs),
        IngestEventView::Failed => {
            if s.phase == IngestPhase::Reading && store.version != s.token {
                spec_begin(store, BASE_DELAY_SECS)
            } else {
                spec_fail(s)
            }
        },
        IngestEventView::Opened { is_terminal } => {
            if s.phase != IngestPhase::Opening {
                spec_begin(store, s.retry_secs)
            } else if is_terminal {
                (
                    in_phase(s, IngestPhase::Configuring),
                    IngestActionView::Configure { settings: raw_settings(s.baudrate) },
                )
            } else {
                spec_fail(s)
            }
        },
        IngestEventView::Configured => {
            if s.phase != IngestPhase::Configuring {
                spec_begin(store, s.retry_secs)
            } else {
                (
                    IngestionView {
                        phase: IngestPhase::Reading,
                        token: s.token,
                        retry_secs: BASE_DELAY_SECS,
                        baudrate: s.baudrate,
                    },
                    IngestActionView::Read,
                )
            }
        },
        IngestEventView::Line { text, now } => {
            if s.phase != IngestPhase::Reading {
                spec_begin(store, s.retry_secs)
            } else {
                spec_line(s, store, text, now)
            }
        },
        IngestEventView::Delivered => {
            if s.phase != IngestPhase::Delivering {
                spec_begin(store, s.retry_secs)
            } else {
                (in_phase(s, IngestPhase::Reading), IngestActionView::Read)
            }
        },
    }
}

impl Ingestion {
    #[verifier::type_invariant]
    spec fn inv(&self) -> bool {
        valid_ingestion(self@)
    }

    /// A loop that has not started: report `Woke` to start it.
    pub fn new() -> (s: Self)
        ensures
            s@ == initial_ingestion(),
    {
        Ingestion {
            phase: IngestPhase::Idle,
            token: 0,
            retry_secs: BASE_DELAY_SECS,
            baudrate: DEFAULT_BAUD,
        }
    }

    /// Where the loop stands.
    pub fn phase(&self) -> (p: IngestPhase)
        ensures
            p == self@.phase,
    {
        self.phase
    }

    /// The token of the generation under which the loop works.
    pub fn token(&self) -> (t: u32)
        ensures
            t == self@.token,
    {
        self.token
    }

    /// The delay that the next failure is followed by, in seconds.
    pub fn retry_secs(&self) -> (d: u64)
        ensures
            d == self@.retry_secs,
            valid_ingestion(self@),
    {
        proof {
            use_type_invariant(self);
        }
        self.retry_secs
    }

    /// Starts a cycle under the generation that `store` holds now.
    fn begin(&mut self, store: &AppState, retry_secs: u64) -> (action: IngestAction)
        requires
            BASE_DELAY_SECS <= retry_secs <= MAX_DELAY_SECS,
        ensures
            (final(self)@, action@) == spec_begin(store@, retry_secs),
    {
        proof {
            use_type_invariant(&*self);
        }
        let config = store.get();
        self.token = store.version();
        self.baudrate = config.uart.baudrate;
        if config.uart.enabled {
            self.phase = IngestPhase::Opening;
            self.retry_secs = retry_secs;
            IngestAction::Open { path: config.uart.port }
        } else {
            self.phase = IngestPhase::Idle;
            self.retry_secs = BASE_DELAY_SECS;
            IngestAction::Sleep { secs: IDLE_POLL_SECS }
        }
    }

    /// Goes into backoff after a failure.
    fn fail(&mut self) -> (action: IngestAction)
        ensures
            (final(self)@, action@) == spec_fail(old(self)@),
    {
        proof {
            use_type_invariant(&*self);
        }
        let secs = self.retry_secs;
        self.phase = IngestPhase::Backoff;
        self.retry_secs = next_delay(secs);
        IngestAction::Sleep { secs }
    }

    /// Takes the outcome of the last action and gives the next action.
    ///
    /// At every event the loop works under one generation of the
    /// configuration: the token and the settings that it keeps were taken
    /// from the store together. Once a line shows that the store has moved
    /// on, nothing more is done under the old generation.
    pub fn step(&mut self, store: &AppState, event: IngestEvent) -> (action: IngestAction)
        ensures
            (final(self)@, action@) == spec_step(old(self)@, store@, event@),
            valid_ingestion(final(self)@),
    {
        proof {
            use_type_invariant(&*self);
        }
        let retry = self.retry_secs;
        match event {
            IngestEvent::Woke => self.begin(store, retry),
            IngestEvent::Failed => {
                if self.phase == IngestPhase::Reading && store.version() != self.token {
                    self.begin(store, BASE_DELAY_SECS)
                } else {
                    self.fail()
                }
            },
            IngestEvent::Opened { is_terminal } => {
                if self.phase != IngestPhase::Opening {
                    self.begin(store, retry)
                } else if is_terminal {
                    self.phase = IngestPhase::Configuring;
                    IngestAction::Configure { settings: configure_serial(self.baudrate) }
                } else {
                    self.fail()
                }
            },
            IngestEvent::Configured => {
                if self.phase != IngestPhase::Configuring {
                    self.begin(store, retry)
                } else {
                    self.phase = IngestPhase::Reading;
                    self.retry_secs = BASE_DELAY_SECS;
                    IngestAction::Read
                }
            },
            IngestEvent::Line { text, now } => {
                if self.phase != IngestPhase::Reading {
                    self.begin(store, retry)
                } else if store.version() != self.token {
                    self.begin(store, BASE_DELAY_SECS)
                } else if text.as_str().is_empty() {
                    IngestAction::Read
                } else {
                    self.phase = IngestPhase::Delivering;
                    IngestAction::Deliver { envelope: Envelope::uart(text, now) }
                }
            },
            IngestEvent::Delivered => {
                if self.phase != IngestPhase::Delivering {
                    self.begin(store, retry)
                } else {
                    self.phase = IngestPhase::Reading;
                    IngestAction::Read
                }
            },
        }
    }
}

/// The state after `n` failures in a row, counted from `s`.
pub open spec fn after_failures(s: IngestionView, n: nat) -> IngestionView
    decreases n,
{
    if n == 0 {
        s
    } else {
        spec_fail(after_failures(s, (n - 1) as nat)).0
    }
}

/// The transition keeps the delay between the base delay and the cap.
pub proof fn lemma_step_keeps_valid(s: IngestionView, store: AppStateView, event: IngestEventView)
    requires
        valid_ingestion(s),
    ensures
        valid_ingestion(spec_step(s, store, event).0),
{
}

/// Across failures in a row the delay never shrinks and never passes the cap:
/// the loop sleeps after each failure for the delay reached so far, and a
/// later failure is followed by a sleep at least as long.
pub proof fn lemma_backoff_grows_to_cap(s: IngestionView, m: nat, n: nat)
    requires
        valid_ingestion(s),
        m <= n,
    ensures
        s.retry_secs <= after_failures(s, m).retry_secs,
        after_failures(s, m).retry_secs <= after_failures(s, n).retry_secs,
        after_failures(s, n).retry_secs <= MAX_DELAY_SECS,
        spec_fail(after_failures(s, n)).1 == (IngestActionView::Sleep {
            secs: after_failures(s, n).retry_secs,
        }),
    decreases n,
{
    if n > 0 {
        if m < n {
            lemma_backoff_grows_to_cap(s, m, (n - 1) as nat);
        } else {
            lemma_backoff_grows_to_cap(s, (m - 1) as nat, (n - 1) as nat);
        }
    }
}

/// From the base delay, failures in a row are followed by sleeps of 5, 10,
/// 20, 40 and then 60 seconds each.
pub proof fn lemma_backoff_schedule(s: IngestionView)
    requires
        s.retry_secs == BASE_DELAY_SECS,
    ensures
        after_failures(s, 0).retry_secs == 5,
        after_failures(s, 1).retry_secs == 10,
        after_failures(s, 2).retry_secs == 20,
        after_failures(s, 3).retry_secs == 40,
        after_failures(s, 4).retry_secs == 60,
        forall|n: nat| n >= 4 ==> (#[trigger] after_failures(s, n)).retry_secs == 60,
{
    reveal_with_fuel(after_failures, 5);
    assert forall|n: nat| n >= 4 implies (#[trigger] after_failures(s, n)).retry_secs == 60 by {
        lemma_backoff_stays_at_cap(s, n);
    }
}

/// Once the cap is reached the delay stays there.
proof fn lemma_backoff_stays_at_cap(s: IngestionView, n: nat)
    requires
        s.retry_secs == BASE_DELAY_SECS,
        n >= 4,
    ensures
        after_failures(s, n).retry_secs == 60,
    decreases n,
{
    reveal_with_fuel(after_failures, 5);
    if n > 4 {
        lemma_backoff_stays_at_cap(s, (n - 1) as nat);
    }
}

/// Whether `event`, reported in state `s` with the store at `store`, is a
/// failure of the device: the last action failed, or what was opened is no
/// terminal. A read that fails under a token that has moved on is none: it
/// shows a reconfiguration.
pub open spec fn is_device_failure(
    s: IngestionView,
    store: AppStateView,
    event: IngestEventView,
) -> bool {
    ||| (event is Failed && !(s.phase == IngestPhase::Reading && store.version != s.token))
    ||| (s.phase == IngestPhase::Opening && event == IngestEventView::Opened { is_terminal: false })
}

/// Whether `event`, reported in state `s` with the store at `store`, is a
/// successful reconnect (the device is open and set up) or a reconfiguration
/// (a line, or a read that fails, shows that the token has moved on).
pub open spec fn is_fresh_start(
    s: IngestionView,
    store: AppStateView,
    event: IngestEventView,
) -> bool {
    ||| (s.phase == IngestPhase::Configuring && event is Configured)
    ||| (s.phase == IngestPhase::Reading && (event is Line || event is Failed) && store.version
        != s.token)
}

/// Every failure of the device is answered by a sleep of the current delay
/// and leaves a delay that is no shorter and within the cap.
pub proof fn lemma_failure_backs_off(s: IngestionView, store: AppStateView, event: IngestEventView)
    requires
        valid_ingestion(s),
        is_device_failure(s, store, event),
    ensures
        spec_step(s, store, event) == spec_fail(s),
        spec_step(s, store, event).1 == (IngestActionView::Sleep { secs: s.retry_secs }),
        spec_step(s, store, event).0.phase == IngestPhase::Backoff,
        s.retry_secs <= spec_step(s, store, event).0.retry_secs <= MAX_DELAY_SECS,
{
}

/// A successful reconnect and a reconfiguration put the delay back to its
/// base, and neither is followed by a sleep of the backoff.
pub proof fn lemma_fresh_start_resets_backoff(
    s: IngestionView,
    store: AppStateView,
    event: IngestEventView,
)
    requires
        is_fresh_start(s, store, event),
    ensures
        spec_step(s, store, event).0.retry_secs == BASE_DELAY_SECS,
        spec_step(s, store, event).0.phase != IngestPhase::Backoff,
{
}

/// The delay never shrinks but to go back to its base, and it goes back only
/// at a successful reconnect, at a reconfiguration, or where the device is
/// switched off. Whatever else is reported between two failures, the second
/// is followed by a sleep at least as long as the first.
pub proof fn lemma_delay_grows_until_reset(
    s: IngestionView,
    store: AppStateView,
    event: IngestEventView,
)
    requires
        valid_ingestion(s),
    ensures
        spec_step(s, store, event).0.retry_secs >= s.retry_secs || spec_step(
            s,
            store,
            event,
        ).0.retry_secs == BASE_DELAY_SECS,
        spec_step(s, store, event).0.retry_secs < s.retry_secs ==> is_fresh_start(s, store, event)
            || !store.config.uart.enabled,
{
}

/// A cycle starts under one generation: the token, the speed and the path
/// with which the loop goes on were all read from the same state of the
/// store.
pub proof fn lemma_cycle_takes_one_generation(store: AppStateView, retry_secs: u64)
    ensures
        spec_begin(store, retry_secs).0.token == store.version,
        spec_begin(store, retry_secs).0.baudrate == store.config.uart.baudrate,
        store.config.uart.enabled ==> spec_begin(store, retry_secs).1 == (IngestActionView::Open {
            path: store.config.uart.port,
        }),
        !store.config.uart.enabled ==> spec_begin(store, retry_secs).0.phase == IngestPhase::Idle,
{
}

/// Whatever is reported, the loop never works under a mix of two
/// generations. A step either keeps the token and the speed that the loop
/// had, or takes both from the store as it is handed to the step; and where
/// it asks for the device to be opened, the path, the token and the speed
/// are all of that store. So with a store that is replaced between two
/// steps, each step sees the old generation or the new one as a whole.
pub proof fn lemma_step_reads_one_generation(
    s: IngestionView,
    store: AppStateView,
    event: IngestEventView,
)
    ensures
        ({
            let next = spec_step(s, store, event).0;
            let action = spec_step(s, store, event).1;
            &&& (next.token == s.token && next.baudrate == s.baudrate) || (next.token
                == store.version && next.baudrate == store.config.uart.baudrate)
            &&& action is Open ==> next.token == store.version && next.baudrate
                == store.config.uart.baudrate && action == (IngestActionView::Open {
                path: store.config.uart.port,
            })
            &&& action is Configure ==> next.token == s.token && action == (
            IngestActionView::Configure { settings: raw_settings(s.baudrate) })
        }),
{
}

/// Once a line, or a read that fails, shows that the token has moved on, the
/// loop does nothing more under the old generation: the line is not
/// delivered, no backoff is slept, and the loop goes on under the generation
/// that the store holds now.
pub proof fn lemma_drift_restarts(s: IngestionView, store: AppStateView, text: Seq<char>, now: u64)
    requires
        s.phase == IngestPhase::Reading,
        store.version != s.token,
    ensures
        spec_step(s, store, IngestEventView::Failed) == spec_begin(store, BASE_DELAY_SECS),
        spec_step(s, store, IngestEventView::Failed).0.phase != IngestPhase::Backoff,
        spec_step(s, store, IngestEventView::Line { text, now }) == spec_begin(
            store,
            BASE_DELAY_SECS,
        ),
        !(spec_step(s, store, IngestEventView::Line { text, now }).1 is Deliver),
        spec_step(s, store, IngestEventView::Line { text, now }).0.token == store.version,
{
}

/// A line read by the device: its text and the time at which it was read.
pub struct LineRead {
    pub text: Seq<char>,
    pub now: u64,
}

/// The envelopes of the lines of `lines` that are not empty, in the order of
/// `lines`.
pub open spec fn envelopes_of(lines: Seq<LineRead>) -> Seq<EnvelopeView>
    decreases lines.len(),
{
    if lines.len() == 0 {
        Seq::empty()
    } else if lines.last().text.len() == 0 {
        envelopes_of(lines.drop_last())
    } else {
        envelopes_of(lines.drop_last()).push(uart_envelope(lines.last().text, lines.last().now))
    }
}

/// What happens when the lines of `lines` are reported one after the other,
/// each delivery being reported before the next line: the state reached and
/// the envelopes that the loop asked to deliver, in the order in which it
/// asked.
pub open spec fn spec_read_lines(s: IngestionView, store: AppStateView, lines: Seq<LineRead>) -> (
    IngestionView,
    Seq<EnvelopeView>,
)
    decreases lines.len(),
{
    if lines.len() == 0 {
        (s, Seq::empty())
    } else {
        let before = spec_read_lines(s, store, lines.drop_last());
        let line = IngestEventView::Line { text: lines.last().text, now: lines.last().now };
        let read = spec_step(before.0, store, line);
        match read.1 {
            IngestActionView::Deliver { envelope } => (
                spec_step(read.0, store, IngestEventView::Delivered).0,
                before.1.push(envelope),
            ),
            _ => (read.0, before.1),
        }
    }
}

/// While the loop reads under an unchanged generation, every line that is not
/// empty is delivered once, as the envelope of that line, and the envelopes
/// are delivered in the order in which the lines were read.
pub proof fn lemma_lines_delivered_in_order(
    s: IngestionView,
    store: AppStateView,
    lines: Seq<LineRead>,
)
    requires
        s.phase == IngestPhase::Reading,
        store.version == s.token,
    ensures
        spec_read_lines(s, store, lines) == (s, envelopes_of(lines)),
    decreases lines.len(),
{
    if lines.len() > 0 {
        lemma_lines_delivered_in_order(s, store, lines.drop_last());
    }
}

} // verus!
