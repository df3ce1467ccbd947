use v3s_monitor::network_config::{NetworkConfig, NetworkMode, NetworkStatus};
use v3s_monitor::web::{
    format_network_json, get_val, has_key, json_escape, parse_config_form, parse_fields,
    parse_network_form, parse_network_form_from_config, parse_network_json, route, url_decode,
    Route,
};

/// Form decoding by std's own iterators and parsing.
fn std_url_decode(s: &str) -> String {
    let s = s.replace('+', " ");
    let mut out = String::with_capacity(s.len());
    let mut chars = s.chars();
    while let Some(c) = chars.next() {
        if c == '%' {
            let hex: String = chars.by_ref().take(2).collect();
            if let Ok(b) = u8::from_str_radix(&hex, 16) {
                out.push(b as char);
            }
        } else {
            out.push(c);
        }
    }
    out
}

/// The fields of a body by std's own splitting.
fn std_fields(body: &str) -> Vec<(String, String)> {
    body.split('&')
        .filter_map(|pair| {
            let mut parts = pair.splitn(2, '=');
            Some((std_url_decode(parts.next()?), std_url_decode(parts.next().unwrap_or(""))))
        })
        .collect()
}

/// The value under a key by std's own searching.
fn std_json_value(body: &str, key: &str) -> String {
    let pattern = format!("\"{}\"", key);
    if let Some(pos) = body.find(&pattern) {
        let rest = &body[pos + pattern.len()..];
        if let Some(colon) = rest.find(':') {
            let after_colon = rest[colon + 1..].trim_start();
            if after_colon.starts_with('"') {
                if let Some(end) = after_colon[1..].find('"') {
                    return after_colon[1..end + 1].to_string();
                }
            }
        }
    }
    String::new()
}

const ENCODED: [&str; 30] = [
    "",
    "plain",
    "a+b",
    "a%20b",
    "%41%42%43",
    "%4a%4B",
    "100%",
    "100%2",
    "100%25",
    "%",
    "%%",
    "%%41",
    "%zz",
    "%4",
    "%4g",
    "%g4x",
    "%+1",
    "%1+",
    "%-1",
    "%e9t%E9",
    "%ff%00%7f%80",
    "caf\u{e9}+\u{4e2d}%20x",
    "%\u{4e2d}\u{4e2d}z",
    "a=b&c=d",
    "+%2B+",
    "%2",
    "x%",
    "%25%32%35",
    "+++",
    "%0A%0d%09",
];

#[test]
fn url_decoding() {
    assert_eq!(url_decode("hello+world"), "hello world");
    assert_eq!(url_decode("a%20b%21"), "a b!");
    assert_eq!(url_decode("%2Fdev%2FttyS2"), "/dev/ttyS2");
    assert_eq!(url_decode("%e9"), "\u{e9}");
    // an escape that writes no byte stands for nothing
    assert_eq!(url_decode("a%zzb"), "ab");
    assert_eq!(url_decode("a%"), "a");
    // one digit at the end is enough
    assert_eq!(url_decode("a%4"), "a\u{4}");
}

#[test]
fn url_decoding_agrees_with_std() {
    for s in ENCODED {
        assert_eq!(url_decode(s), std_url_decode(s), "{:?}", s);
    }
}

#[test]
fn fields_of_a_body() {
    let f = parse_fields("a=1&b=two+words&c&=v&d=x=y&&e=%41");
    assert_eq!(
        f,
        vec![
            ("a".to_string(), "1".to_string()),
            ("b".to_string(), "two words".to_string()),
            ("c".to_string(), "".to_string()),
            ("".to_string(), "v".to_string()),
            ("d".to_string(), "x=y".to_string()),
            ("".to_string(), "".to_string()),
            ("e".to_string(), "A".to_string()),
        ]
    );
    assert_eq!(parse_fields(""), vec![("".to_string(), "".to_string())]);
}

#[test]
fn fields_agree_with_std() {
    let bodies = [
        "",
        "&",
        "=",
        "a",
        "a=",
        "=a",
        "a=b=c&d==&&x+y=%7E",
        "mqtt_enabled=on&mqtt_broker=h%2Eio&mqtt_port=1883",
        "k%3Dv=1&k=2",
    ];
    for b in bodies {
        assert_eq!(parse_fields(b), std_fields(b), "{:?}", b);
    }
}

#[test]
fn first_field_of_a_name_wins() {
    let f = parse_fields("k=1&k=2&j=3");
    assert_eq!(get_val(&f, "k"), "1");
    assert_eq!(get_val(&f, "j"), "3");
    assert_eq!(get_val(&f, "missing"), "");
    assert!(has_key(&f, "k"));
    assert!(has_key(&f, "j"));
    assert!(!has_key(&f, "missing"));
    assert!(!has_key(&f, ""));
    let g = parse_fields("");
    assert!(has_key(&g, ""));
}

#[test]
fn settings_form_to_configuration() {
    let body = "mqtt_enabled=on&mqtt_broker=test.mosquitto.org&mqtt_port=1883&mqtt_topic=a%2Fb&mqtt_client_id=dev+1&http_enabled=on&http_url=http%3A%2F%2Fh%2Fin&uart_enabled=on&uart_port=%2Fdev%2FttyS1&uart_baudrate=9600&interval=15";
    let c = parse_config_form(body);
    assert!(c.mqtt.enabled);
    assert_eq!(c.mqtt.broker, "test.mosquitto.org");
    assert_eq!(c.mqtt.port, 1883);
    assert!(!c.mqtt.tls);
    assert_eq!(c.mqtt.topic, "a/b");
    assert_eq!(c.mqtt.client_id, "dev 1");
    assert!(c.http.enabled);
    assert_eq!(c.http.url, "http://h/in");
    assert_eq!(c.general.interval_secs, 15);
    assert!(c.uart.enabled);
    assert_eq!(c.uart.port, "/dev/ttyS1");
    assert_eq!(c.uart.baudrate, 9600);
}

#[test]
fn settings_form_defaults_for_numbers_that_do_not_read() {
    let c = parse_config_form("");
    assert!(!c.mqtt.enabled);
    assert!(!c.mqtt.tls);
    assert!(!c.http.enabled);
    assert!(!c.uart.enabled);
    assert_eq!(c.mqtt.broker, "");
    assert_eq!(c.mqtt.port, 8883);
    assert_eq!(c.general.interval_secs, 3);
    assert_eq!(c.uart.baudrate, 115200);

    let c = parse_config_form("mqtt_port=65536&interval=-1&uart_baudrate=4294967296&mqtt_tls");
    assert_eq!(c.mqtt.port, 8883);
    assert_eq!(c.general.interval_secs, 3);
    assert_eq!(c.uart.baudrate, 115200);
    assert!(c.mqtt.tls);

    let c = parse_config_form(
        "mqtt_port=65535&interval=18446744073709551615&uart_baudrate=4294967295",
    );
    assert_eq!(c.mqtt.port, 65535);
    assert_eq!(c.general.interval_secs, u64::MAX);
    assert_eq!(c.uart.baudrate, u32::MAX);

    let c = parse_config_form("mqtt_port=%2B80&interval=0&uart_baudrate=+1");
    assert_eq!(c.mqtt.port, 80);
    assert_eq!(c.general.interval_secs, 0);
    // a plus sign in a form stands for a space, and " 1" is no number
    assert_eq!(c.uart.baudrate, 115200);
}

#[test]
fn network_forms() {
    let body = "net_mode=static&net_ipaddr=192.168.1.9&net_netmask=255.255.255.0&net_gateway=192.168.1.1&net_dns1=8.8.8.8&net_dns2=8.8.4.4&mode=dhcp&ipaddr=1.1.1.1";
    let c = parse_network_form_from_config(body);
    assert_eq!(c.mode, NetworkMode::Static);
    assert_eq!(c.ipaddr, "192.168.1.9");
    assert_eq!(c.netmask, "255.255.255.0");
    assert_eq!(c.gateway, "192.168.1.1");
    assert_eq!(c.dns_primary, "8.8.8.8");
    assert_eq!(c.dns_secondary, "8.8.4.4");
    let d = parse_network_form(body);
    assert_eq!(d.mode, NetworkMode::Dhcp);
    assert_eq!(d.ipaddr, "1.1.1.1");
    assert_eq!(d.netmask, "");
    let e = parse_network_form("mode=static&ipaddr=2.2.2.2&netmask=255.0.0.0&gateway=2.0.0.1&dns_primary=3.3.3.3&dns_secondary=4.4.4.4");
    assert_eq!(e.mode, NetworkMode::Static);
    assert_eq!(e.ipaddr, "2.2.2.2");
    assert_eq!(e.netmask, "255.0.0.0");
    assert_eq!(e.gateway, "2.0.0.1");
    assert_eq!(e.dns_primary, "3.3.3.3");
    assert_eq!(e.dns_secondary, "4.4.4.4");
}

#[test]
fn network_document() {
    let body = "{\"mode\": \"static\", \"ipaddr\":\"192.168.1.9\",\n \"netmask\" :\t\"255.255.255.0\", \"gateway\":\"192.168.1.1\", \"dns_primary\":\"8.8.8.8\"}";
    let c = parse_network_json(body);
    assert_eq!(c.mode, NetworkMode::Static);
    assert_eq!(c.ipaddr, "192.168.1.9");
    assert_eq!(c.netmask, "255.255.255.0");
    assert_eq!(c.gateway, "192.168.1.1");
    assert_eq!(c.dns_primary, "8.8.8.8");
    assert_eq!(c.dns_secondary, "");
    let c = parse_network_json("");
    assert_eq!(c.mode, NetworkMode::Dhcp);
    assert_eq!(c.ipaddr, "");
}

#[test]
fn network_document_agrees_with_std() {
    let bodies = [
        "",
        "{}",
        "{\"ipaddr\"}",
        "{\"ipaddr\":}",
        "{\"ipaddr\":\"}",
        "{\"ipaddr\":\"\"}",
        "{\"ipaddr\": 5, \"x\":\"y\"}",
        "{\"ipaddr\" \"gateway\": \"a\"}",
        "{\"ipaddr\":\"1.2.3.4\",\"ipaddr\":\"5.6.7.8\"}",
        "{\"gateway\":\"ipaddr\",\"ipaddr\":\"z\"}",
        "\"ipaddr\":\u{a0}\u{3000} \"wide space\"",
        "{\"ipaddr\":\"caf\u{e9}\u{4e2d}\"}",
        "\"ipaddr\"::\"x\"",
        "\"ipaddr\"",
        "\"ipaddr\":",
        "\"ipaddr\":   ",
    ];
    for b in bodies {
        for k in ["ipaddr", "gateway", "mode", ""] {
            let want = std_json_value(b, k);
            let chars: Vec<char> = b.chars().collect();
            assert_eq!(v3s_monitor::web::json_value(&chars, k), want, "{:?} {:?}", b, k);
        }
    }
}

#[test]
fn document_escaping() {
    assert_eq!(json_escape("plain"), "plain");
    assert_eq!(json_escape("a\"b"), "a\\\"b");
    assert_eq!(json_escape("a\\b"), "a\\\\b");
    assert_eq!(json_escape("a\nb\rc\td"), "a\\nb\\rc\\td");
    assert_eq!(json_escape("\u{1}"), "\u{1}");
    let want = "x\\\"\n"
        .replace('\\', "\\\\")
        .replace('"', "\\\"")
        .replace('\n', "\\n")
        .replace('\r', "\\r")
        .replace('\t', "\\t");
    assert_eq!(json_escape("x\\\"\n"), want);
}

#[test]
fn network_report_is_exact() {
    let config = NetworkConfig {
        mode: NetworkMode::Static,
        ipaddr: "192.168.1.9".to_string(),
        netmask: "255.255.255.0".to_string(),
        gateway: "192.168.1.1".to_string(),
        dns_primary: "8.8.8.8".to_string(),
        dns_secondary: "".to_string(),
    };
    let status = NetworkStatus {
        ip: "192.168.1.9".to_string(),
        netmask: "255.255.255.0".to_string(),
        gateway: "192.168.1.1".to_string(),
        dns: vec!["8.8.8.8".to_string(), "1.1.1.1".to_string()],
        is_up: true,
    };
    let errors = vec!["bad \"x\"".to_string()];
    assert_eq!(
        format_network_json(&config, &status, false, &errors),
        "{\"config\":{\"mode\":\"static\",\"ipaddr\":\"192.168.1.9\",\"netmask\":\"255.255.255.0\",\"gateway\":\"192.168.1.1\",\"dns_primary\":\"8.8.8.8\",\"dns_secondary\":\"\"},\"status\":{\"ip\":\"192.168.1.9\",\"netmask\":\"255.255.255.0\",\"gateway\":\"192.168.1.1\",\"dns\":[\"8.8.8.8\",\"1.1.1.1\"],\"is_up\":true},\"saved\":false,\"errors\":[\"bad \\\"x\\\"\"]}"
    );
    let empty = NetworkStatus::default();
    assert_eq!(
        format_network_json(&NetworkConfig::default(), &empty, true, &Vec::new()),
        "{\"config\":{\"mode\":\"dhcp\",\"ipaddr\":\"\",\"netmask\":\"255.255.255.0\",\"gateway\":\"\",\"dns_primary\":\"\",\"dns_secondary\":\"\"},\"status\":{\"ip\":\"\",\"netmask\":\"\",\"gateway\":\"\",\"dns\":[],\"is_up\":false},\"saved\":true,\"errors\":[]}"
    );
}

#[test]
fn routes() {
    assert_eq!(route("/", false), Route::Monitor);
    assert_eq!(route("/", true), Route::Monitor);
    assert_eq!(route("/config", false), Route::ShowSettings);
    assert_eq!(route("/config", true), Route::SaveSettings);
    assert_eq!(route("/network", false), Route::NetworkRedirect);
    assert_eq!(route("/network", true), Route::NetworkRedirect);
    assert_eq!(route("/api/network", false), Route::ShowNetwork);
    assert_eq!(route("/api/network", true), Route::SaveNetwork);
    assert_eq!(route("", false), Route::NotFound);
    assert_eq!(route("/config/", false), Route::NotFound);
    assert_eq!(route("/config?x=1", true), Route::NotFound);
    assert_eq!(route("/favicon.ico", false), Route::NotFound);
}
