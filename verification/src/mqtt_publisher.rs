//! What is particular to the message-broker sink: when it is switched on, and
//! the session that it asks for.

use vstd::prelude::*;
use crate::config::{Config, ConfigView};
use crate::publisher::{SinkTarget, SinkTargetView};
use crate::text::{
    decimal, is_digit, lemma_decimal_is_injective, lemma_decimal_reads_back, push_decimal,
};

verus! {

/// The time of an attempt goes into the identity of its session in
/// milliseconds, reduced modulo this number.
pub const IDENTITY_MODULUS: u64 = 100000;

/// The identity under which the session of attempt number `attempt` is opened
/// at `now_ms`: the configured identity, the reduced time and the number of
/// the attempt, with hyphens between them. The number is the loop's own
/// count, so the identity does not rest on the clock to differ from those of
/// the sessions before it.
pub open spec fn spec_session_identity(client_id: Seq<char>, now_ms: u64, attempt: u64) -> Seq<
    char,
> {
    client_id + seq!['-'] + decimal((now_ms % IDENTITY_MODULUS) as nat) + seq!['-'] + decimal(
        attempt as nat,
    )
}

/// Whether the configuration switches the broker sink on.
pub open spec fn spec_is_enabled(config: ConfigView) -> bool {
    config.mqtt.enabled
}

/// The session that the broker sink asks for under `config` at `now_ms`, at
/// its attempt number `attempt`.
pub open spec fn spec_target(config: ConfigView, now_ms: u64, attempt: u64) -> SinkTargetView {
    SinkTargetView::Broker {
        identity: spec_session_identity(config.mqtt.client_id, now_ms, attempt),
        host: config.mqtt.broker,
        port: config.mqtt.port,
        tls: config.mqtt.tls,
        topic: config.mqtt.topic,
    }
}

/// The identity under which the session of attempt number `attempt` is opened
/// at `now_ms`, in milliseconds since the epoch.
pub fn session_identity(client_id: &str, now_ms: u64, attempt: u64) -> (r: String)
    ensures
        r@ == spec_session_identity(client_id@, now_ms, attempt),
{
    let mut out = client_id.to_owned();
    out.push('-');
    push_decimal(&mut out, now_ms % IDENTITY_MODULUS);
    out.push('-');
    push_decimal(&mut out, attempt);
    assert(out@ =~= spec_session_identity(client_id@, now_ms, attempt));
    out
}

/// Whether the configuration switches the broker sink on.
pub fn is_enabled(config: &Config) -> (b: bool)
    ensures
        b == spec_is_enabled(config@),
{
    config.mqtt.enabled
}

/// The session that the broker sink asks for under `config` at `now_ms`, at
/// its attempt number `attempt`.
pub fn target(config: &Config, now_ms: u64, attempt: u64) -> (t: SinkTarget)
    ensures
        t@ == spec_target(config@, now_ms, attempt),
{
    SinkTarget::Broker {
        identity: session_identity(config.mqtt.client_id.as_str(), now_ms, attempt),
        host: config.mqtt.broker.clone(),
        port: config.mqtt.port,
        tls: config.mqtt.tls,
        topic: config.mqtt.topic.clone(),
    }
}

/// A text that ends in a hyphen and a decimal numeral ends in the numeral of
/// one number only.
proof fn lemma_numbered_tail(head: Seq<char>, a: nat, other: Seq<char>, b: nat)
    requires
        head + seq!['-'] + decimal(a) == other + seq!['-'] + decimal(b),
    ensures
        a == b,
{
    let x = head + seq!['-'] + decimal(a);
    let y = other + seq!['-'] + decimal(b);
    let da = decimal(a);
    let db = decimal(b);
    lemma_decimal_reads_back(a);
    lemma_decimal_reads_back(b);
    assert(x.len() == head.len() + 1 + da.len());
    assert(y.len() == other.len() + 1 + db.len());
    if da.len() < db.len() {
        // the hyphen before the shorter numeral would be a digit of the longer
        let at = x.len() - 1 - da.len();
        assert(x[at] == '-');
        assert(y[at] == db[at - other.len() - 1]);
        assert(is_digit(db[at - other.len() - 1]));
    } else if db.len() < da.len() {
        let at = y.len() - 1 - db.len();
        assert(y[at] == '-');
        assert(x[at] == da[at - head.len() - 1]);
        assert(is_digit(da[at - head.len() - 1]));
    } else {
        assert(x.skip(head.len() as int + 1) =~= da);
        assert(y.skip(other.len() as int + 1) =~= db);
        lemma_decimal_is_injective(a, b);
    }
}

/// Sessions of different attempt numbers have different identities, whatever
/// the clock shows at either attempt and whatever identity is configured at
/// either.
pub proof fn lemma_identities_differ(
    client_id: Seq<char>,
    now_ms: u64,
    attempt: u64,
    other_id: Seq<char>,
    other_ms: u64,
    other_attempt: u64,
)
    requires
        attempt != other_attempt,
    ensures
        spec_session_identity(client_id, now_ms, attempt) != spec_session_identity(
            other_id,
            other_ms,
            other_attempt,
        ),
{
    if spec_session_identity(client_id, now_ms, attempt) == spec_session_identity(
        other_id,
        other_ms,
        other_attempt,
    ) {
        lemma_numbered_tail(
            client_id + seq!['-'] + decimal((now_ms % IDENTITY_MODULUS) as nat),
            attempt as nat,
            other_id + seq!['-'] + decimal((other_ms % IDENTITY_MODULUS) as nat),
            other_attempt as nat,
        );
    }
}

} // verus!
