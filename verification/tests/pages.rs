use v3s_monitor::config::Config;
use v3s_monitor::html_config::{html_escape, render_config_page};
use v3s_monitor::html_template::{format_uptime, render_page};
use v3s_monitor::system_info::SystemInfo;
use v3s_monitor::network_config::{NetworkConfig, NetworkMode, NetworkStatus};

fn count(hay: &str, needle: &str) -> usize {
    hay.matches(needle).count()
}

#[test]
fn page_text_escaping() {
    assert_eq!(html_escape("plain"), "plain");
    assert_eq!(html_escape("a&b"), "a&amp;b");
    assert_eq!(html_escape("<tag attr=\"v\">"), "&lt;tag attr=&quot;v&quot;&gt;");
    assert_eq!(html_escape("&amp;"), "&amp;amp;");
    assert_eq!(html_escape("'single'"), "'single'");
    assert_eq!(html_escape(""), "");
    for s in ["a<b>c&d\"e", "&&<<>>\"\"", "caf\u{e9} & \u{4e2d}"] {
        let want =
            s.replace('&', "&amp;").replace('<', "&lt;").replace('>', "&gt;").replace('"', "&quot;");
        assert_eq!(html_escape(s), want);
    }
}

#[test]
fn uptime_texts() {
    assert_eq!(format_uptime(0), "0p 0s");
    assert_eq!(format_uptime(59), "0p 59s");
    assert_eq!(format_uptime(60), "1p 0s");
    assert_eq!(format_uptime(3599), "59p 59s");
    assert_eq!(format_uptime(3600), "1g 0p 0s");
    assert_eq!(format_uptime(86399), "23g 59p 59s");
    assert_eq!(format_uptime(86400), "1n 0g 0p 0s");
    assert_eq!(format_uptime(90061), "1n 1g 1p 1s");
    assert_eq!(format_uptime(u64::MAX), "213503982334601n 7g 0p 15s");
}

#[test]
fn settings_page_for_the_defaults() {
    let page = render_config_page(
        &Config::default(),
        &NetworkConfig::default(),
        &NetworkStatus::default(),
        false,
        &[],
    );
    assert!(page.starts_with("<!DOCTYPE html>\n<html><head>\n<meta charset=\"utf-8\">"));
    assert!(page.ends_with("</script>\n</body></html>"));
    assert!(page.contains("<h1>C\u{1ea5}u h\u{ec}nh RMS7688</h1>\n\n<form method=\"POST\" action=\"/config\">"));
    assert!(page.contains("name=\"mqtt_enabled\" checked></div>"));
    assert!(page.contains("name=\"mqtt_broker\" value=\"broker.emqx.io\"></div>"));
    assert!(page.contains("name=\"mqtt_port\" value=\"8883\"></div>"));
    assert!(page.contains("name=\"mqtt_tls\" checked></div>"));
    assert!(page.contains("name=\"mqtt_topic\" value=\"vienkmt/v3s\"></div>"));
    assert!(page.contains("name=\"mqtt_client_id\" value=\"v3s-monitor\"></div>"));
    assert!(page.contains("name=\"http_enabled\" ></div>"));
    assert!(page.contains("name=\"http_url\" value=\"\"></div>"));
    assert!(page.contains("name=\"uart_enabled\" checked></div>"));
    assert!(page.contains("<input type=\"hidden\" name=\"uart_port\" value=\"/dev/ttyS2\">"));
    assert!(page.contains(
        "<select name=\"uart_baudrate\"><option value=\"9600\" >9600</option><option value=\"19200\" >19200</option><option value=\"38400\" >38400</option><option value=\"57600\" >57600</option><option value=\"115200\" selected>115200</option><option value=\"230400\" >230400</option></select>"
    ));
    assert!(page.contains("name=\"interval\" value=\"3\" min=\"1\" max=\"3600\">"));
    assert!(page.contains("background:#f44336\">DOWN</span></h3>"));
    assert!(page.contains("value=\"dhcp\" checked onclick=\"toggleStatic(false)\"> DHCP</label>"));
    assert!(page.contains("value=\"static\"  onclick=\"toggleStatic(true)\">"));
    assert!(page.contains("<div id=\"static-fields\" style=\"display:none\">"));
    assert!(page.contains("id=\"net_netmask\" value=\"255.255.255.0\" placeholder=\"255.255.255.0\""));
    assert!(page.contains("Hi\u{1ec7}n t\u{1ea1}i: - | GW: -</div>"));
    assert!(page.contains(
        "var liveStatus = {ip:\"\",netmask:\"\",gateway:\"\",dns1:\"\",dns2:\"\"};\nfunction toggleStatic(show) {\n"
    ));
    assert!(page.contains("* { box-sizing: border-box; }\nbody {\n    background:"));
    assert_eq!(count(&page, "class=\"toast\""), 0);
    assert_eq!(count(&page, "{{"), 0);
    assert_eq!(count(&page, "}}"), 0);
    assert_eq!(count(&page, "<option "), 6);
    assert_eq!(count(&page, "selected"), 1);
}

#[test]
fn settings_page_escapes_and_marks() {
    let mut config = Config::default();
    config.mqtt.enabled = false;
    config.mqtt.tls = false;
    config.mqtt.broker = "a&b<c>\"d\"".to_string();
    config.mqtt.port = 65535;
    config.http.enabled = true;
    config.http.url = "http://h/?a=1&b=2".to_string();
    config.uart.baudrate = 9600;
    config.uart.enabled = false;
    config.general.interval_secs = 3600;
    let net = NetworkConfig {
        mode: NetworkMode::Static,
        ipaddr: "192.168.1.9".to_string(),
        netmask: "255.255.0.0".to_string(),
        gateway: "192.168.1.1".to_string(),
        dns_primary: "8.8.8.8".to_string(),
        dns_secondary: "<x>".to_string(),
    };
    let status = NetworkStatus {
        ip: "10.0.0.<7>".to_string(),
        netmask: "255.0.0.0".to_string(),
        gateway: "10.0.0.1".to_string(),
        dns: vec!["1.1.1.1".to_string(), "\"q\"".to_string(), "3.3.3.3".to_string()],
        is_up: true,
    };
    let page = render_config_page(&config, &net, &status, true, &[]);
    assert!(page.contains("<div class=\"toast\">Đã lưu cấu hình!</div>\n<form"));
    assert!(page.contains("name=\"mqtt_enabled\" ></div>"));
    assert!(page.contains("name=\"mqtt_tls\" ></div>"));
    assert!(page.contains("name=\"mqtt_broker\" value=\"a&amp;b&lt;c&gt;&quot;d&quot;\"></div>"));
    assert!(page.contains("name=\"mqtt_port\" value=\"65535\"></div>"));
    assert!(page.contains("name=\"http_enabled\" checked></div>"));
    assert!(page.contains("name=\"http_url\" value=\"http://h/?a=1&amp;b=2\"></div>"));
    assert!(page.contains("name=\"uart_enabled\" ></div>"));
    assert!(page.contains("<option value=\"9600\" selected>9600</option>"));
    assert!(page.contains("<option value=\"115200\" >115200</option>"));
    assert!(page.contains("name=\"interval\" value=\"3600\""));
    assert!(page.contains("background:#4CAF50\">UP</span></h3>"));
    assert!(page.contains("value=\"dhcp\"  onclick"));
    assert!(page.contains("value=\"static\" checked onclick"));
    assert!(page.contains("style=\"display:block\">"));
    assert!(page.contains("id=\"net_ipaddr\" value=\"192.168.1.9\""));
    assert!(page.contains("id=\"net_netmask\" value=\"255.255.0.0\""));
    assert!(page.contains("id=\"net_gateway\" value=\"192.168.1.1\""));
    assert!(page.contains("id=\"net_dns1\" value=\"8.8.8.8\""));
    assert!(page.contains("id=\"net_dns2\" value=\"&lt;x&gt;\""));
    // the address in use is shown as it is
    assert!(page.contains("Hi\u{1ec7}n t\u{1ea1}i: 10.0.0.<7> | GW: 10.0.0.1</div>"));
    assert!(page.contains(
        "var liveStatus = {ip:\"10.0.0.&lt;7&gt;\",netmask:\"255.0.0.0\",gateway:\"10.0.0.1\",dns1:\"1.1.1.1\",dns2:\"&quot;q&quot;\"};"
    ));
}

#[test]
fn settings_page_lists_what_is_wrong() {
    let errors = vec!["Invalid IP address format".to_string(), "a <b> & c".to_string()];
    for saved in [true, false] {
        let page = render_config_page(
            &Config::default(),
            &NetworkConfig::default(),
            &NetworkStatus::default(),
            saved,
            &errors,
        );
        assert!(page.contains(
            "<div class=\"toast\" style=\"background:#f8d7da;color:#721c24\"><ul style=\"margin:0;padding-left:20px;text-align:left\"><li>Invalid IP address format</li><li>a &lt;b&gt; &amp; c</li></ul></div>\n<form"
        ));
        assert_eq!(count(&page, "class=\"toast\""), 1);
    }
}

#[test]
fn settings_page_has_one_length_for_one_input() {
    let a = render_config_page(
        &Config::default(),
        &NetworkConfig::default(),
        &NetworkStatus::default(),
        false,
        &[],
    );
    let mut c = Config::default();
    c.mqtt.broker.push_str("xyz");
    let b = render_config_page(&c, &NetworkConfig::default(), &NetworkStatus::default(), false, &[]);
    assert_eq!(b.len(), a.len() + 3);
    assert_eq!(a.lines().count(), 130);
}

fn sample_snapshot() -> SystemInfo {
    SystemInfo {
        uptime_secs: 90061,
        uptime_hundredths: 9006157,
        ram_total_tenths: 586,
        ram_available_tenths: 342,
        ram_used_tenths: 244,
        ram_buffered_tenths: 39,
        ram_cached_tenths: 117,
        ram_percent: 41,
        disk_used: "12.3M".to_string(),
        disk_total: "32.0M".to_string(),
        disk_percent: 38,
        ip_address: "192.168.1.100/24".to_string(),
        external_ip: "203.0.113.7".to_string(),
        net_rx: "1.2M".to_string(),
        net_tx: "640KB".to_string(),
        processes: 47,
        kernel: "5.4.124".to_string(),
        local_time: "2026-02-06 18:30:00".to_string(),
    }
}

#[test]
fn snapshot_document_is_exact() {
    assert_eq!(
        sample_snapshot().to_json(),
        "{\"type\":\"monitor\",\"uptime\":90061.57,\"ram_used\":24.4,\"ram_total\":58.6,\"disk_used\":\"12.3M\",\"disk_total\":\"32.0M\",\"disk_pct\":38,\"ip\":\"192.168.1.100/24\",\"ext_ip\":\"203.0.113.7\",\"net_rx\":\"1.2M\",\"net_tx\":\"640KB\",\"procs\":47}"
    );
}

#[test]
fn snapshot_document_escapes_its_texts() {
    let mut info = sample_snapshot();
    info.uptime_hundredths = 5;
    info.ram_used_tenths = 0;
    info.ram_total_tenths = 7;
    info.disk_used = "\"".to_string();
    info.disk_total = "a\\b".to_string();
    info.ip_address = "x\ny".to_string();
    info.external_ip = "<html>\"err\"\u{1}</html>".to_string();
    info.net_rx = String::new();
    info.net_tx = "caf\u{e9}".to_string();
    info.processes = 0;
    info.disk_percent = 0;
    assert_eq!(
        info.to_json(),
        "{\"type\":\"monitor\",\"uptime\":0.05,\"ram_used\":0.0,\"ram_total\":0.7,\"disk_used\":\"\\\"\",\"disk_total\":\"a\\\\b\",\"disk_pct\":0,\"ip\":\"x\\ny\",\"ext_ip\":\"<html>\\\"err\\\"\\u0001</html>\",\"net_rx\":\"\",\"net_tx\":\"caf\u{e9}\",\"procs\":0}"
    );
}

#[test]
fn snapshot_numbers_with_fractions() {
    let mut info = sample_snapshot();
    for (h, want) in [(0u64, "0.00"), (1, "0.01"), (10, "0.10"), (99, "0.99"), (100, "1.00"),
        (12345, "123.45"), (u64::MAX, "184467440737095516.15")]
    {
        info.uptime_hundredths = h;
        assert!(info.to_json().starts_with(&format!("{{\"type\":\"monitor\",\"uptime\":{},", want)));
    }
    for (t, want) in [(0u64, "0.0"), (9, "0.9"), (10, "1.0"), (586, "58.6"),
        (u64::MAX, "1844674407370955161.5")]
    {
        info.ram_used_tenths = t;
        assert!(info.to_json().contains(&format!(",\"ram_used\":{},", want)));
    }
}

#[test]
fn snapshot_document_keeps_its_shape() {
    let mut other = sample_snapshot();
    other.uptime_hundredths = 0;
    other.disk_used = "1\"2".to_string();
    other.processes = 0;
    other.disk_percent = 100;
    other.external_ip = "N/A".to_string();
    // the names are the quoted texts that a colon follows
    let names = |doc: &str| -> Vec<String> {
        let c: Vec<char> = doc.chars().collect();
        let mut out = Vec::new();
        let mut i = 0;
        while i < c.len() {
            if c[i] == '"' {
                let mut j = i + 1;
                while c[j] != '"' {
                    if c[j] == '\\' {
                        j += 1;
                    }
                    j += 1;
                }
                if j + 1 < c.len() && c[j + 1] == ':' {
                    out.push(c[i + 1..j].iter().collect());
                }
                i = j;
            }
            i += 1;
        }
        out
    };
    let want = vec![
        "type", "uptime", "ram_used", "ram_total", "disk_used", "disk_total", "disk_pct", "ip",
        "ext_ip", "net_rx", "net_tx", "procs",
    ];
    assert_eq!(names(&sample_snapshot().to_json()), want);
    assert_eq!(names(&other.to_json()), want);
}

#[test]
fn metrics_page_shows_the_snapshot() {
    let page = render_page(&sample_snapshot());
    assert!(page.starts_with("<!DOCTYPE html>\n<html><head>\n<meta charset=\"utf-8\">"));
    assert!(page.ends_with("}, 5000);\n</script>\n</body></html>"));
    assert!(page.contains("<title>MT7688 Monitor</title>"));
    assert!(page.contains("<div class=\"subtitle\">MediaTek MT7688 \u{2022} Kernel 5.4.124</div>"));
    assert!(page.contains("id=\"uptime\">1n 1g 1p 1s</span>"));
    assert!(page.contains("id=\"localtime\">2026-02-06 18:30:00</span>"));
    assert!(page.contains("id=\"procs\">47</span>"));
    assert!(page.contains("<span id=\"ram-text\">24.4 / 58.6 MB</span><span id=\"ram-pct\">41%</span>"));
    assert!(page.contains("id=\"ram-bar\" style=\"width:41%\"></div>"));
    assert!(page.contains("id=\"ram-total\">58.6 MB</span>"));
    assert!(page.contains("id=\"ram-avail\">34.2 MB</span>"));
    assert!(page.contains("id=\"ram-used\">24.4 MB</span>"));
    assert!(page.contains("id=\"ram-buf\">3.9 MB</span>"));
    assert!(page.contains("id=\"ram-cache\">11.7 MB</span>"));
    assert!(page.contains("<span id=\"disk-text\">12.3M / 32.0M</span><span id=\"disk-pct\">38%</span>"));
    assert!(page.contains("id=\"disk-bar\" style=\"width:38%\"></div>"));
    assert!(page.contains("id=\"ip\">192.168.1.100/24</span>"));
    assert!(page.contains("id=\"extip\">203.0.113.7</span>"));
    assert!(page.contains("id=\"net\">RX 1.2M / TX 640KB</span>"));
    assert!(page.contains("<a href=\"/config\" class=\"btn\">"));
    assert!(page.contains("<script>\nvar uptimeSecs = 90061;\nfunction fmtUptime(s) {\n"));
    assert_eq!(count(&page, "{{"), 0);
    assert_eq!(count(&page, "}}"), 0);
}

#[test]
fn metrics_page_takes_texts_as_they_are() {
    let mut info = sample_snapshot();
    info.kernel = "<b>&".to_string();
    info.uptime_secs = 59;
    let page = render_page(&info);
    assert!(page.contains("Kernel <b>&</div>"));
    assert!(page.contains("id=\"uptime\">0p 59s</span>"));
    assert!(page.contains("var uptimeSecs = 59;"));
    let base = render_page(&sample_snapshot());
    assert_eq!(page.len(), base.len() - "5.4.124".len() + "<b>&".len() - "1n 1g 1p 1s".len()
        + "0p 59s".len() - "90061".len() + "59".len());
}
