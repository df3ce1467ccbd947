use v3s_monitor::config::{
    AppState, Config, GeneralConfig, HttpConfig, MqttConfig, UartConfig, LAST_TOKEN,
};

fn sample_config() -> Config {
    Config {
        mqtt: MqttConfig {
            enabled: false,
            broker: "10.0.0.1".to_string(),
            port: 1883,
            tls: false,
            topic: "lab/dev".to_string(),
            client_id: "dev7".to_string(),
        },
        http: HttpConfig { enabled: true, url: "http://collector.local/in".to_string() },
        general: GeneralConfig { interval_secs: 30 },
        uart: UartConfig { enabled: true, port: "/dev/ttyUSB0".to_string(), baudrate: 9600 },
    }
}

#[test]
fn defaults_are_the_documented_ones() {
    let c = Config::default();
    assert!(c.mqtt.enabled);
    assert_eq!(c.mqtt.broker, "broker.emqx.io");
    assert_eq!(c.mqtt.port, 8883);
    assert!(c.mqtt.tls);
    assert_eq!(c.mqtt.topic, "vienkmt/v3s");
    assert_eq!(c.mqtt.client_id, "v3s-monitor");
    assert!(!c.http.enabled);
    assert_eq!(c.http.url, "");
    assert_eq!(c.general.interval_secs, 3);
    assert!(c.uart.enabled);
    assert_eq!(c.uart.port, "/dev/ttyS2");
    assert_eq!(c.uart.baudrate, 115200);
}

#[test]
fn store_without_stored_configuration_holds_defaults() {
    let s = AppState::new(None);
    assert_eq!(s.version(), 0);
    let c = s.get();
    assert_eq!(c.mqtt.broker, "broker.emqx.io");
    assert_eq!(c.uart.baudrate, 115200);
}

#[test]
fn store_with_stored_configuration_holds_it() {
    let s = AppState::new(Some(sample_config()));
    assert_eq!(s.version(), 0);
    let c = s.get();
    assert_eq!(c.mqtt.broker, "10.0.0.1");
    assert_eq!(c.http.url, "http://collector.local/in");
    assert_eq!(c.general.interval_secs, 30);
    assert_eq!(c.uart.port, "/dev/ttyUSB0");
}

#[test]
fn update_replaces_every_field_and_moves_the_token() {
    let mut s = AppState::new(None);
    let before = s.get();
    s.update(sample_config());
    assert_eq!(s.version(), 1);
    let after = s.get();
    assert_eq!(after.mqtt.enabled, false);
    assert_eq!(after.mqtt.broker, "10.0.0.1");
    assert_eq!(after.mqtt.port, 1883);
    assert_eq!(after.mqtt.tls, false);
    assert_eq!(after.mqtt.topic, "lab/dev");
    assert_eq!(after.mqtt.client_id, "dev7");
    assert_eq!(after.http.enabled, true);
    assert_eq!(after.http.url, "http://collector.local/in");
    assert_eq!(after.general.interval_secs, 30);
    assert_eq!(after.uart.enabled, true);
    assert_eq!(after.uart.port, "/dev/ttyUSB0");
    assert_eq!(after.uart.baudrate, 9600);
    // the copy taken before the update is still the old generation
    assert_eq!(before.mqtt.broker, "broker.emqx.io");
    assert_eq!(before.uart.baudrate, 115200);
}

#[test]
fn token_counts_updates() {
    let mut s = AppState::new(None);
    for i in 0..5u32 {
        assert_eq!(s.version(), i);
        s.update(Config::default());
    }
    assert_eq!(s.version(), 5);
}

#[test]
fn get_returns_an_independent_copy() {
    let s = AppState::new(None);
    let mut c = s.get();
    c.mqtt.broker.push_str(".changed");
    c.uart.baudrate = 1;
    let again = s.get();
    assert_eq!(again.mqtt.broker, "broker.emqx.io");
    assert_eq!(again.uart.baudrate, 115200);
}

#[test]
fn clone_of_a_configuration_keeps_every_field() {
    let c = sample_config();
    let d = c.clone();
    assert_eq!(d.mqtt.broker, c.mqtt.broker);
    assert_eq!(d.mqtt.port, c.mqtt.port);
    assert_eq!(d.mqtt.topic, c.mqtt.topic);
    assert_eq!(d.mqtt.client_id, c.mqtt.client_id);
    assert_eq!(d.http.url, c.http.url);
    assert_eq!(d.general.interval_secs, c.general.interval_secs);
    assert_eq!(d.uart.port, c.uart.port);
    assert_eq!(d.uart.baudrate, c.uart.baudrate);
}

#[test]
fn tokens_only_grow() {
    assert_eq!(LAST_TOKEN, u32::MAX);
    let mut s = AppState::new(None);
    let mut last = s.version();
    for _ in 0..1000 {
        assert!(s.try_update(sample_config()).is_ok());
        assert!(s.version() > last);
        assert_eq!(s.version(), last + 1);
        last = s.version();
    }
}

#[test]
fn try_update_replaces_like_update() {
    let mut a = AppState::new(None);
    let mut b = AppState::new(None);
    a.update(sample_config());
    assert!(b.try_update(sample_config()).is_ok());
    assert_eq!(a.version(), b.version());
    assert_eq!(a.get().mqtt.broker, b.get().mqtt.broker);
    assert_eq!(b.get().uart.port, "/dev/ttyUSB0");
}
