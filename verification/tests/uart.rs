use v3s_monitor::backoff::{next_delay, BASE_DELAY_SECS, MAX_DELAY_SECS, SINK_RETRY_SECS};
use v3s_monitor::config::{AppState, Config};
use v3s_monitor::envelope::{Envelope, Source};
use v3s_monitor::text::{from_chars, split_lines, to_chars};
use v3s_monitor::uart_reader::{
    configure_serial, control_flags, ControlBits, IngestAction, IngestEvent, IngestPhase,
    Ingestion, DEFAULT_BAUD, IDLE_POLL_SECS,
};

fn store_with(baud: u32, enabled: bool, port: &str) -> AppState {
    let mut c = Config::default();
    c.uart.baudrate = baud;
    c.uart.enabled = enabled;
    c.uart.port = port.to_string();
    AppState::new(Some(c))
}

fn sleep_secs(a: &IngestAction) -> u64 {
    match a {
        IngestAction::Sleep { secs } => *secs,
        other => panic!("expected a sleep, got {:?}", other),
    }
}

fn delivered(a: IngestAction) -> Envelope {
    match a {
        IngestAction::Deliver { envelope } => envelope,
        other => panic!("expected a delivery, got {:?}", other),
    }
}

/// Brings a fresh loop to the point where it reads.
fn reading(store: &AppState) -> Ingestion {
    let mut m = Ingestion::new();
    assert!(matches!(m.step(store, IngestEvent::Woke), IngestAction::Open { .. }));
    assert!(matches!(
        m.step(store, IngestEvent::Opened { is_terminal: true }),
        IngestAction::Configure { .. }
    ));
    assert!(matches!(m.step(store, IngestEvent::Configured), IngestAction::Read));
    assert_eq!(m.phase(), IngestPhase::Reading);
    m
}

#[test]
fn backoff_constants() {
    assert_eq!(BASE_DELAY_SECS, 5);
    assert_eq!(MAX_DELAY_SECS, 60);
    assert_eq!(SINK_RETRY_SECS, 10);
    assert_eq!(IDLE_POLL_SECS, 10);
    assert_eq!(DEFAULT_BAUD, 115200);
}

#[test]
fn next_delay_doubles_up_to_the_cap() {
    assert_eq!(next_delay(5), 10);
    assert_eq!(next_delay(10), 20);
    assert_eq!(next_delay(20), 40);
    assert_eq!(next_delay(29), 58);
    assert_eq!(next_delay(30), 60);
    assert_eq!(next_delay(40), 60);
    assert_eq!(next_delay(60), 60);
    assert_eq!(next_delay(u64::MAX), 60);
    assert_eq!(next_delay(0), 0);
}

#[test]
fn supported_baud_rates_are_kept() {
    for b in [9600u32, 19200, 38400, 57600, 115200, 230400] {
        assert_eq!(configure_serial(b).baud, b);
    }
}

#[test]
fn unsupported_baud_rates_fall_back() {
    for b in [0u32, 1, 300, 4800, 9601, 460800, u32::MAX] {
        assert_eq!(configure_serial(b).baud, 115200);
    }
}

#[test]
fn serial_settings_are_raw_8n1() {
    let s = configure_serial(9600);
    assert_eq!(s.data_bits, 8);
    assert!(!s.parity);
    assert_eq!(s.stop_bits, 1);
    assert!(!s.canonical);
    assert!(!s.echo);
    assert!(!s.signals);
    assert_eq!(s.min_bytes, 1);
    assert_eq!(s.inter_byte_timeout, 0);
}

#[test]
fn new_loop_is_idle_with_base_delay() {
    let m = Ingestion::new();
    assert_eq!(m.phase(), IngestPhase::Idle);
    assert_eq!(m.retry_secs(), 5);
    assert_eq!(m.token(), 0);
}

#[test]
fn disabled_device_keeps_the_loop_idle() {
    let store = store_with(9600, false, "/dev/ttyS1");
    let mut m = Ingestion::new();
    for _ in 0..3 {
        let a = m.step(&store, IngestEvent::Woke);
        assert_eq!(sleep_secs(&a), 10);
        assert_eq!(m.phase(), IngestPhase::Idle);
        assert_eq!(m.retry_secs(), 5);
    }
}

#[test]
fn enabled_device_is_opened_then_configured_then_read() {
    let store = store_with(19200, true, "/dev/ttyUSB3");
    let mut m = Ingestion::new();
    match m.step(&store, IngestEvent::Woke) {
        IngestAction::Open { path } => assert_eq!(path, "/dev/ttyUSB3"),
        other => panic!("{:?}", other),
    }
    assert_eq!(m.phase(), IngestPhase::Opening);
    match m.step(&store, IngestEvent::Opened { is_terminal: true }) {
        IngestAction::Configure { settings } => {
            assert_eq!(settings, configure_serial(19200));
            assert_eq!(settings.baud, 19200);
        }
        other => panic!("{:?}", other),
    }
    assert_eq!(m.phase(), IngestPhase::Configuring);
    assert!(matches!(m.step(&store, IngestEvent::Configured), IngestAction::Read));
    assert_eq!(m.phase(), IngestPhase::Reading);
}

#[test]
fn a_path_that_is_no_terminal_goes_to_backoff() {
    let store = store_with(9600, true, "/tmp/file");
    let mut m = Ingestion::new();
    m.step(&store, IngestEvent::Woke);
    let a = m.step(&store, IngestEvent::Opened { is_terminal: false });
    assert_eq!(sleep_secs(&a), 5);
    assert_eq!(m.phase(), IngestPhase::Backoff);
    // the path is tried again after the sleep
    match m.step(&store, IngestEvent::Woke) {
        IngestAction::Open { path } => assert_eq!(path, "/tmp/file"),
        other => panic!("{:?}", other),
    }
}

#[test]
fn consecutive_failures_back_off_5_10_20_40_60_60() {
    let store = store_with(9600, true, "/dev/nope");
    let mut m = Ingestion::new();
    let mut seen = Vec::new();
    for _ in 0..7 {
        assert!(matches!(m.step(&store, IngestEvent::Woke), IngestAction::Open { .. }));
        let a = m.step(&store, IngestEvent::Failed);
        assert_eq!(m.phase(), IngestPhase::Backoff);
        seen.push(sleep_secs(&a));
    }
    assert_eq!(seen, vec![5, 10, 20, 40, 60, 60, 60]);
    for w in seen.windows(2) {
        assert!(w[0] <= w[1]);
    }
}

#[test]
fn a_successful_reconnect_resets_the_backoff() {
    let store = store_with(9600, true, "/dev/ttyS2");
    let mut m = Ingestion::new();
    for expect in [5u64, 10, 20] {
        m.step(&store, IngestEvent::Woke);
        assert_eq!(sleep_secs(&m.step(&store, IngestEvent::Failed)), expect);
    }
    assert_eq!(m.retry_secs(), 40);
    m.step(&store, IngestEvent::Woke);
    m.step(&store, IngestEvent::Opened { is_terminal: true });
    m.step(&store, IngestEvent::Configured);
    assert_eq!(m.retry_secs(), 5);
    // the device closes: the next sleep is the base delay again
    assert_eq!(sleep_secs(&m.step(&store, IngestEvent::Failed)), 5);
}

#[test]
fn a_failure_while_setting_up_backs_off() {
    let store = store_with(9600, true, "/dev/ttyS2");
    let mut m = Ingestion::new();
    m.step(&store, IngestEvent::Woke);
    m.step(&store, IngestEvent::Opened { is_terminal: true });
    assert_eq!(sleep_secs(&m.step(&store, IngestEvent::Failed)), 5);
    assert_eq!(m.phase(), IngestPhase::Backoff);
    assert_eq!(m.retry_secs(), 10);
}

#[test]
fn empty_lines_are_passed_over() {
    let store = store_with(9600, true, "/dev/ttyS2");
    let mut m = reading(&store);
    let a = m.step(&store, IngestEvent::Line { text: String::new(), now: 1 });
    assert!(matches!(a, IngestAction::Read));
    assert_eq!(m.phase(), IngestPhase::Reading);
}

#[test]
fn scenario_two_lines_at_9600_baud() {
    let store = store_with(9600, true, "/dev/ttyS2");
    let mut m = Ingestion::new();
    m.step(&store, IngestEvent::Woke);
    match m.step(&store, IngestEvent::Opened { is_terminal: true }) {
        IngestAction::Configure { settings } => assert_eq!(settings.baud, 9600),
        other => panic!("{:?}", other),
    }
    m.step(&store, IngestEvent::Configured);

    let device = to_chars("A\nB\n");
    let lines: Vec<String> = split_lines(&device).iter().map(|l| from_chars(l)).collect();
    assert_eq!(lines, vec!["A".to_string(), "B".to_string()]);

    let mut out = Vec::new();
    let mut now = 1_700_000_000u64;
    for l in lines {
        let e = delivered(m.step(&store, IngestEvent::Line { text: l, now }));
        assert_eq!(m.phase(), IngestPhase::Delivering);
        assert!(matches!(m.step(&store, IngestEvent::Delivered), IngestAction::Read));
        assert_eq!(m.phase(), IngestPhase::Reading);
        out.push(e);
        now += 1;
    }
    assert_eq!(out.len(), 2);
    assert_eq!(out[0].source, Source::Uart);
    assert_eq!(out[0].payload, "A");
    assert_eq!(out[1].payload, "B");
    assert!(out[0].ts <= out[1].ts);
    assert_eq!(out[0].to_wire(), "{\"type\":\"uart\",\"data\":\"A\",\"ts\":1700000000}");
    assert_eq!(out[1].to_wire(), "{\"type\":\"uart\",\"data\":\"B\",\"ts\":1700000001}");
}

#[test]
fn lines_are_delivered_in_the_order_read() {
    let store = store_with(115200, true, "/dev/ttyS2");
    let mut m = reading(&store);
    let mut got = Vec::new();
    for i in 0..50u64 {
        let text = if i % 7 == 3 { String::new() } else { format!("n={}", i) };
        match m.step(&store, IngestEvent::Line { text, now: i }) {
            IngestAction::Deliver { envelope } => {
                got.push(envelope.ts);
                m.step(&store, IngestEvent::Delivered);
            }
            IngestAction::Read => assert_eq!(i % 7, 3),
            other => panic!("{:?}", other),
        }
    }
    let want: Vec<u64> = (0..50).filter(|i| i % 7 != 3).collect();
    assert_eq!(got, want);
}

#[test]
fn a_replaced_configuration_restarts_the_loop_without_backoff() {
    let mut store = store_with(9600, true, "/dev/ttyS2");
    let mut m = reading(&store);
    assert_eq!(m.token(), 0);
    let mut c = store.get();
    c.uart.port = "/dev/ttyUSB0".to_string();
    c.uart.baudrate = 57600;
    store.update(c);
    // the line that shows the change is dropped, and the new device is opened
    match m.step(&store, IngestEvent::Line { text: "stale".to_string(), now: 9 }) {
        IngestAction::Open { path } => assert_eq!(path, "/dev/ttyUSB0"),
        other => panic!("{:?}", other),
    }
    assert_eq!(m.token(), 1);
    assert_eq!(m.retry_secs(), 5);
    match m.step(&store, IngestEvent::Opened { is_terminal: true }) {
        IngestAction::Configure { settings } => assert_eq!(settings.baud, 57600),
        other => panic!("{:?}", other),
    }
}

#[test]
fn a_reconfiguration_resets_the_backoff() {
    let mut store = store_with(9600, true, "/dev/ttyS2");
    let mut m = Ingestion::new();
    // fail twice, then get to reading without the reset being visible yet
    m.step(&store, IngestEvent::Woke);
    m.step(&store, IngestEvent::Failed);
    m.step(&store, IngestEvent::Woke);
    m.step(&store, IngestEvent::Failed);
    assert_eq!(m.retry_secs(), 20);
    m.step(&store, IngestEvent::Woke);
    m.step(&store, IngestEvent::Opened { is_terminal: true });
    m.step(&store, IngestEvent::Configured);
    store.update(Config::default());
    m.step(&store, IngestEvent::Line { text: "x".to_string(), now: 0 });
    assert_eq!(m.retry_secs(), 5);
    assert_eq!(m.phase(), IngestPhase::Opening);
}

#[test]
fn switching_the_device_off_sends_the_loop_idle() {
    let mut store = store_with(9600, true, "/dev/ttyS2");
    let mut m = reading(&store);
    let mut c = store.get();
    c.uart.enabled = false;
    store.update(c);
    let a = m.step(&store, IngestEvent::Line { text: "x".to_string(), now: 0 });
    assert_eq!(sleep_secs(&a), 10);
    assert_eq!(m.phase(), IngestPhase::Idle);
}

#[test]
fn an_event_out_of_turn_starts_a_new_cycle() {
    let store = store_with(9600, true, "/dev/ttyS2");
    let mut m = Ingestion::new();
    assert!(matches!(m.step(&store, IngestEvent::Delivered), IngestAction::Open { .. }));
    let mut m = Ingestion::new();
    assert!(matches!(m.step(&store, IngestEvent::Configured), IngestAction::Open { .. }));
    let mut m = Ingestion::new();
    assert!(matches!(
        m.step(&store, IngestEvent::Line { text: "x".to_string(), now: 0 }),
        IngestAction::Open { .. }
    ));
    let mut m = Ingestion::new();
    assert!(matches!(
        m.step(&store, IngestEvent::Opened { is_terminal: true }),
        IngestAction::Open { .. }
    ));
}

#[test]
fn control_flags_ask_for_8n1() {
    // the bits as Linux names them
    let bits = ControlBits {
        size_mask: 0o60,
        size_8: 0o60,
        parity: 0o400,
        two_stop_bits: 0o100,
        receiver: 0o200,
        local: 0o4000,
    };
    assert_eq!(control_flags(0, &bits), 0o60 | 0o200 | 0o4000);
    assert_eq!(control_flags(0o400 | 0o100, &bits), 0o60 | 0o200 | 0o4000);
    // seven data bits, even parity, two stop bits, and a speed in the low bits
    assert_eq!(control_flags(0o40 | 0o400 | 0o100 | 0o15, &bits), 0o60 | 0o200 | 0o4000 | 0o15);
    for flags in [0u32, 1, 0o17, 0o60, 0o777, 0o7777, 0xffff_ffff, 0x8000_0000, 0o10017] {
        let r = control_flags(flags, &bits);
        assert_eq!(r & bits.size_mask, bits.size_8);
        assert_eq!(r & bits.parity, 0);
        assert_eq!(r & bits.two_stop_bits, 0);
        assert_eq!(r & bits.receiver, bits.receiver);
        assert_eq!(r & bits.local, bits.local);
        let rest = !(0o60 | 0o400 | 0o100 | 0o200 | 0o4000u32);
        assert_eq!(r & rest, flags & rest);
    }
}

#[test]
fn a_failed_read_under_a_replaced_configuration_restarts_without_backoff() {
    let mut store = store_with(9600, true, "/dev/ttyS2");
    let mut m = reading(&store);
    let mut c = store.get();
    c.uart.port = "/dev/ttyUSB1".to_string();
    store.update(c);
    match m.step(&store, IngestEvent::Failed) {
        IngestAction::Open { path } => assert_eq!(path, "/dev/ttyUSB1"),
        other => panic!("{:?}", other),
    }
    assert_eq!(m.phase(), IngestPhase::Opening);
    assert_eq!(m.token(), 1);
    assert_eq!(m.retry_secs(), 5);
    // under an unchanged configuration the same failure backs off
    let store = store_with(9600, true, "/dev/ttyS2");
    let mut m = reading(&store);
    assert_eq!(sleep_secs(&m.step(&store, IngestEvent::Failed)), 5);
    assert_eq!(m.phase(), IngestPhase::Backoff);
    // and so does a failure to open, whatever the token
    let mut store = store_with(9600, true, "/dev/ttyS2");
    let mut m = Ingestion::new();
    m.step(&store, IngestEvent::Woke);
    store.update(Config::default());
    assert_eq!(sleep_secs(&m.step(&store, IngestEvent::Failed)), 5);
}
