//! The page on which the configuration is shown and edited.

use vstd::prelude::*;
use vstd::std_specs::iter::IteratorSpec;
use vstd::string::StringExecFns;
use crate::config::{Config, ConfigView};
use crate::network_config::{
    NetworkConfig, NetworkConfigView, NetworkMode, NetworkStatus, NetworkStatusView,
};
use crate::text::{decimal, push_decimal, string_views};

verus! {

/// The text of the page before the notice.
pub const BEFORE_NOTICE: &'static str = "<!DOCTYPE html>\n<html><head>\n<meta charset=\"utf-8\">\n<meta name=\"viewport\" content=\"width=device-width, initial-scale=1\">\n<title>MT7688 Cấu hình</title>\n<style>\n* { box-sizing: border-box; }\nbody {\n    background: linear-gradient(135deg, #667eea 0%, #764ba2 100%);\n    min-height: 100vh;\n    display: flex;\n    justify-content: center;\n    align-items: center;\n    margin: 0;\n    padding: 20px;\n    font-family: 'Segoe UI', system-ui, sans-serif;\n}\n.card {\n    background: #fff;\n    border-radius: 16px;\n    padding: 32px;\n    box-shadow: 0 20px 60px rgba(0,0,0,0.3);\n    max-width: 480px;\n    width: 100%;\n}\nh1 { margin: 0 0 24px; font-size: 22px; color: #333; text-align: center; }\nh3 { margin: 20px 0 12px; color: #667eea; font-size: 14px; text-transform: uppercase; letter-spacing: 1px; }\n.row { display: flex; align-items: center; margin: 10px 0; }\n.row label { flex: 0 0 100px; color: #666; font-size: 14px; }\n.row input[type=text], .row input[type=number], .row select {\n    flex: 1;\n    padding: 10px 12px;\n    border: 1px solid #ddd;\n    border-radius: 8px;\n    font-size: 14px;\n    outline: none;\n}\n.row input:focus, .row select:focus { border-color: #667eea; }\ninput[type=checkbox] { width: 18px; height: 18px; accent-color: #667eea; }\n.btn {\n    display: block;\n    width: 100%;\n    margin-top: 24px;\n    padding: 14px;\n    background: linear-gradient(135deg, #667eea, #764ba2);\n    color: #fff;\n    border: none;\n    border-radius: 8px;\n    font-size: 16px;\n    font-weight: 500;\n    cursor: pointer;\n}\n.btn:hover { opacity: 0.9; }\n.back {\n    display: block;\n    text-align: center;\n    margin-top: 16px;\n    color: #667eea;\n    text-decoration: none;\n}\n.toast {\n    background: #d4edda;\n    color: #155724;\n    padding: 12px;\n    border-radius: 8px;\n    margin-bottom: 16px;\n    text-align: center;\n}\n</style>\n</head>\n<body>\n<div class=\"card\">\n<h1>Cấu hình RMS7688</h1>\n";

/// The text of the page before the broker's switch.
pub const BEFORE_MQTT_SWITCH: &'static str = "\n<form method=\"POST\" action=\"/config\">\n<h3>MQTT</h3>\n<div class=\"row\"><label>Bật:</label><input type=\"checkbox\" name=\"mqtt_enabled\" ";

/// The text of the page before the broker's host.
pub const BEFORE_MQTT_BROKER: &'static str = "></div>\n<div class=\"row\"><label>Broker:</label><input type=\"text\" name=\"mqtt_broker\" value=\"";

/// The text of the page before the broker's port.
pub const BEFORE_MQTT_PORT: &'static str = "\"></div>\n<div class=\"row\"><label>Cổng:</label><input type=\"number\" name=\"mqtt_port\" value=\"";

/// The text of the page before the switch of the broker's transport security.
pub const BEFORE_MQTT_TLS: &'static str = "\"></div>\n<div class=\"row\"><label>TLS:</label><input type=\"checkbox\" name=\"mqtt_tls\" ";

/// The text of the page before the topic.
pub const BEFORE_MQTT_TOPIC: &'static str = "></div>\n<div class=\"row\"><label>Topic:</label><input type=\"text\" name=\"mqtt_topic\" value=\"";

/// The text of the page before the client's identity.
pub const BEFORE_MQTT_CLIENT_ID: &'static str = "\"></div>\n<div class=\"row\"><label>Client ID:</label><input type=\"text\" name=\"mqtt_client_id\" value=\"";

/// The text of the page before the HTTP sink's switch.
pub const BEFORE_HTTP_SWITCH: &'static str = "\"></div>\n\n<h3>HTTP POST</h3>\n<div class=\"row\"><label>Bật:</label><input type=\"checkbox\" name=\"http_enabled\" ";

/// The text of the page before the HTTP sink's address.
pub const BEFORE_HTTP_URL: &'static str = "></div>\n<div class=\"row\"><label>URL:</label><input type=\"text\" name=\"http_url\" value=\"";

/// The text of the page before the serial device's switch.
pub const BEFORE_UART_SWITCH: &'static str = "\"></div>\n\n<h3>UART</h3>\n<div class=\"row\"><label>Bật:</label><input type=\"checkbox\" name=\"uart_enabled\" ";

/// The text of the page before the serial device's path.
pub const BEFORE_UART_PORT: &'static str = "></div>\n<input type=\"hidden\" name=\"uart_port\" value=\"";

/// The text of the page before the choice of speeds.
pub const BEFORE_BAUD_OPTIONS: &'static str = "\">\n<div class=\"row\"><label>Baudrate:</label><select name=\"uart_baudrate\">";

/// The text of the page before the sampling interval.
pub const BEFORE_INTERVAL: &'static str = "</select></div>\n\n<h3>Chung</h3>\n<div class=\"row\"><label>Chu kỳ:</label><input type=\"number\" name=\"interval\" value=\"";

/// The text of the page before the colour of the interface's state.
pub const BEFORE_STATUS_COLOR: &'static str = "\" min=\"1\" max=\"3600\"> <span style=\"margin-left:8px;color:#666\">giây</span></div>\n\n<h3>Mạng WAN (eth0.2) <span style=\"padding:2px 8px;border-radius:10px;font-size:11px;color:white;background:";

/// The text of the page before the interface's state.
pub const BEFORE_STATUS_TEXT: &'static str = "\">";

/// The text of the page before the choice of DHCP.
pub const BEFORE_DHCP_CHOICE: &'static str = "</span></h3>\n<div class=\"row\">\n<label>Chế độ:</label>\n<div style=\"display:flex;gap:16px\">\n<label style=\"flex:0\"><input type=\"radio\" name=\"net_mode\" value=\"dhcp\" ";

/// The text of the page before the choice of a static setup.
pub const BEFORE_STATIC_CHOICE: &'static str = " onclick=\"toggleStatic(false)\"> DHCP</label>\n<label style=\"flex:0\"><input type=\"radio\" name=\"net_mode\" value=\"static\" ";

/// The text of the page before the visibility of the static fields.
pub const BEFORE_STATIC_DISPLAY: &'static str = " onclick=\"toggleStatic(true)\"> Tĩnh</label>\n</div>\n</div>\n<div id=\"static-fields\" style=\"display:";

/// The text of the page before the static address.
pub const BEFORE_NET_IPADDR: &'static str = "\">\n<div class=\"row\"><label>Địa chỉ IP:</label><input type=\"text\" name=\"net_ipaddr\" id=\"net_ipaddr\" value=\"";

/// The text of the page before the static netmask.
pub const BEFORE_NET_NETMASK: &'static str = "\" placeholder=\"192.168.1.100\"></div>\n<div class=\"row\"><label>Subnet:</label><input type=\"text\" name=\"net_netmask\" id=\"net_netmask\" value=\"";

/// The text of the page before the static gateway.
pub const BEFORE_NET_GATEWAY: &'static str = "\" placeholder=\"255.255.255.0\"></div>\n<div class=\"row\"><label>Gateway:</label><input type=\"text\" name=\"net_gateway\" id=\"net_gateway\" value=\"";

/// The text of the page before the first name server.
pub const BEFORE_NET_DNS1: &'static str = "\" placeholder=\"192.168.1.1\"></div>\n<div class=\"row\"><label>DNS chính:</label><input type=\"text\" name=\"net_dns1\" id=\"net_dns1\" value=\"";

/// The text of the page before the second name server.
pub const BEFORE_NET_DNS2: &'static str = "\" placeholder=\"8.8.8.8\"></div>\n<div class=\"row\"><label>DNS phụ:</label><input type=\"text\" name=\"net_dns2\" id=\"net_dns2\" value=\"";

/// The text of the page before the address in use.
pub const BEFORE_CURRENT_IP: &'static str = "\" placeholder=\"8.8.4.4\"></div>\n</div>\n<div style=\"font-size:12px;color:#888;margin-top:8px\">Hiện tại: ";

/// The text of the page before the gateway in use.
pub const BEFORE_CURRENT_GW: &'static str = " | GW: ";

/// The text of the page before the address offered to the form.
pub const BEFORE_LIVE_IP: &'static str = "</div>\n\n<button type=\"submit\" class=\"btn\">Lưu cấu hình</button>\n</form>\n<a href=\"/\" class=\"back\">← Quay lại giám sát</a>\n</div>\n<script>\nvar liveStatus = {ip:\"";

/// The text of the page before the netmask offered to the form.
pub const BEFORE_LIVE_NETMASK: &'static str = "\",netmask:\"";

/// The text of the page before the gateway offered to the form.
pub const BEFORE_LIVE_GW: &'static str = "\",gateway:\"";

/// The text of the page before the first name server offered to the form.
pub const BEFORE_LIVE_DNS1: &'static str = "\",dns1:\"";

/// The text of the page before the second name server offered to the form.
pub const BEFORE_LIVE_DNS2: &'static str = "\",dns2:\"";

/// The text of the page behind its last field.
pub const PAGE_END: &'static str = "\"};\nfunction toggleStatic(show) {\n  document.getElementById('static-fields').style.display = show ? 'block' : 'none';\n  if (show && !document.getElementById('net_ipaddr').value) {\n    document.getElementById('net_ipaddr').value = liveStatus.ip;\n    document.getElementById('net_netmask').value = liveStatus.netmask || '255.255.255.0';\n    document.getElementById('net_gateway').value = liveStatus.gateway;\n    document.getElementById('net_dns1').value = liveStatus.dns1;\n    document.getElementById('net_dns2').value = liveStatus.dns2;\n  }\n}\n</script>\n</body></html>";

/// The notice that the configuration was saved.
pub const NOTICE_SAVED: &'static str = "<div class=\"toast\">Đã lưu cấu hình!</div>";

/// The start of the notice that lists what is wrong with the network setup.
pub const NOTICE_ERRORS: &'static str = "<div class=\"toast\" style=\"background:#f8d7da;color:#721c24\"><ul style=\"margin:0;padding-left:20px;text-align:left\">";

/// The end of the notice that lists what is wrong with the network setup.
pub const NOTICE_ERRORS_END: &'static str = "</ul></div>";

/// How one character is written in the page: the ampersand, the angle
/// brackets and the quote by their entities, and any other by itself.
pub open spec fn html_escape_char(c: char) -> Seq<char> {
    if c == '&' {
        "&amp;"@
    } else if c == '<' {
        "&lt;"@
    } else if c == '>' {
        "&gt;"@
    } else if c == '"' {
        "&quot;"@
    } else {
        seq![c]
    }
}

/// How a text is written in the page: its characters as they are written
/// there, in order.
pub open spec fn spec_html_escape(s: Seq<char>) -> Seq<char>
    decreases s.len(),
{
    if s.len() == 0 {
        Seq::empty()
    } else {
        spec_html_escape(s.drop_last()) + html_escape_char(s.last())
    }
}

/// The attribute of a box that is ticked, and nothing for one that is not.
pub open spec fn checked(on: bool) -> Seq<char> {
    if on {
        "checked"@
    } else {
        ""@
    }
}

/// The colour in which the state of the interface is shown.
pub open spec fn status_color(is_up: bool) -> Seq<char> {
    if is_up {
        "#4CAF50"@
    } else {
        "#f44336"@
    }
}

/// The word for the state of the interface.
pub open spec fn status_text(is_up: bool) -> Seq<char> {
    if is_up {
        "UP"@
    } else {
        "DOWN"@
    }
}

/// Whether the fields of a static setup are shown.
pub open spec fn static_display(mode: NetworkMode) -> Seq<char> {
    if mode == NetworkMode::Static {
        "block"@
    } else {
        "none"@
    }
}

/// A text as it stands, or a dash where it is empty.
pub open spec fn or_dash(s: Seq<char>) -> Seq<char> {
    if s.len() == 0 {
        "-"@
    } else {
        s
    }
}

/// The text at position `i` of `items`, or the empty text where there is
/// none.
pub open spec fn item_or_empty(items: Seq<Seq<char>>, i: int) -> Seq<char> {
    if 0 <= i < items.len() {
        items[i]
    } else {
        Seq::empty()
    }
}

/// One speed of the choice of speeds, marked where it is the one in use.
pub open spec fn baud_option(speed: u32, in_use: u32) -> Seq<char> {
    "<option value=\""@ + decimal(speed as nat) + "\" "@ + (if speed == in_use {
        "selected"@
    } else {
        ""@
    }) + ">"@ + decimal(speed as nat) + "</option>"@
}

/// The choice of speeds: the six that the device can be driven at, in rising
/// order.
pub open spec fn baud_options(in_use: u32) -> Seq<char> {
    baud_option(9600, in_use) + baud_option(19200, in_use) + baud_option(38400, in_use)
        + baud_option(57600, in_use) + baud_option(115200, in_use) + baud_option(230400, in_use)
}

/// The entries of the list of what is wrong, each as it is written in the
/// page.
pub open spec fn error_items(errors: Seq<Seq<char>>) -> Seq<char>
    decreases errors.len(),
{
    if errors.len() == 0 {
        Seq::empty()
    } else {
        error_items(errors.drop_last()) + "<li>"@ + spec_html_escape(errors.last()) + "</li>"@
    }
}

/// The notice at the top of the page: what is wrong with the network setup
/// where something is; that the configuration was saved where it was and
/// nothing is wrong; and nothing otherwise.
pub open spec fn notice(saved: bool, errors: Seq<Seq<char>>) -> Seq<char> {
    if saved && errors.len() == 0 {
        NOTICE_SAVED@
    } else if errors.len() > 0 {
        NOTICE_ERRORS@ + error_items(errors) + NOTICE_ERRORS_END@
    } else {
        Seq::empty()
    }
}

/// The page that shows the configuration `c`, the network setup `n` and the
/// state `s` of the interface, with the notice that `saved` and `errors` call
/// for.
pub open spec fn spec_config_page(
    c: ConfigView,
    n: NetworkConfigView,
    s: NetworkStatusView,
    saved: bool,
    errors: Seq<Seq<char>>,
) -> Seq<char> {
    BEFORE_NOTICE@ + notice(saved, errors) + BEFORE_MQTT_SWITCH@ + checked(c.mqtt.enabled)
        + BEFORE_MQTT_BROKER@ + spec_html_escape(c.mqtt.broker) + BEFORE_MQTT_PORT@
        + decimal(c.mqtt.port as nat) + BEFORE_MQTT_TLS@ + checked(c.mqtt.tls)
        + BEFORE_MQTT_TOPIC@ + spec_html_escape(c.mqtt.topic) + BEFORE_MQTT_CLIENT_ID@
        + spec_html_escape(c.mqtt.client_id) + BEFORE_HTTP_SWITCH@ + checked(c.http.enabled)
        + BEFORE_HTTP_URL@ + spec_html_escape(c.http.url) + BEFORE_UART_SWITCH@
        + checked(c.uart.enabled) + BEFORE_UART_PORT@ + spec_html_escape(c.uart.port)
        + BEFORE_BAUD_OPTIONS@ + baud_options(c.uart.baudrate) + BEFORE_INTERVAL@
        + decimal(c.general.interval_secs as nat) + BEFORE_STATUS_COLOR@
        + status_color(s.is_up) + BEFORE_STATUS_TEXT@ + status_text(s.is_up)
        + BEFORE_DHCP_CHOICE@ + checked(n.mode == NetworkMode::Dhcp) + BEFORE_STATIC_CHOICE@
        + checked(n.mode == NetworkMode::Static) + BEFORE_STATIC_DISPLAY@
        + static_display(n.mode) + BEFORE_NET_IPADDR@ + spec_html_escape(n.ipaddr)
        + BEFORE_NET_NETMASK@ + spec_html_escape(n.netmask) + BEFORE_NET_GATEWAY@
        + spec_html_escape(n.gateway) + BEFORE_NET_DNS1@ + spec_html_escape(n.dns_primary)
        + BEFORE_NET_DNS2@ + spec_html_escape(n.dns_secondary) + BEFORE_CURRENT_IP@
        + or_dash(s.ip) + BEFORE_CURRENT_GW@ + or_dash(s.gateway) + BEFORE_LIVE_IP@
        + spec_html_escape(s.ip) + BEFORE_LIVE_NETMASK@ + spec_html_escape(s.netmask)
        + BEFORE_LIVE_GW@ + spec_html_escape(s.gateway) + BEFORE_LIVE_DNS1@
        + spec_html_escape(item_or_empty(s.dns, 0)) + BEFORE_LIVE_DNS2@
        + spec_html_escape(item_or_empty(s.dns, 1)) + PAGE_END@
}

/// Appends `s` as it is written in the page to `out`.
pub fn push_html_escaped(out: &mut String, s: &str)
    ensures
        final(out)@ == old(out)@ + spec_html_escape(s@),
{
    let chars = s.chars();
    assert(s@.take(0) =~= Seq::<char>::empty());
    assert(out@ =~= old(out)@ + spec_html_escape(s@.take(0)));
    for c in it: chars
        invariant
            it.seq() == s@,
            out@ == old(out)@ + spec_html_escape(s@.take(it.index() as int)),
    {
        let ghost before = out@;
        proof {
            let i = it.index() as int;
            assert(s@.take(i + 1).drop_last() =~= s@.take(i));
            assert(s@.take(i + 1).last() == c);
        }
        if c == '&' {
            out.append("&amp;");
        } else if c == '<' {
            out.append("&lt;");
        } else if c == '>' {
            out.append("&gt;");
        } else if c == '"' {
            out.append("&quot;");
        } else {
            out.push(c);
        }
        assert(out@ =~= before + html_escape_char(c));
        assert(out@ =~= old(out)@ + spec_html_escape(s@.take(it.index() + 1)));
    }
    assert(s@.take(s@.len() as int) =~= s@);
}

/// `s` as it is written in the page.
pub fn html_escape(s: &str) -> (r: String)
    ensures
        r@ == spec_html_escape(s@),
{
    let mut out = String::new();
    push_html_escaped(&mut out, s);
    assert(out@ =~= spec_html_escape(s@));
    out
}

/// Appends the attribute of a box that is ticked or not.
fn push_checked(out: &mut String, on: bool)
    ensures
        final(out)@ == old(out)@ + checked(on),
{
    out.append(if on {
        "checked"
    } else {
        ""
    });
}

/// Appends `s`, or a dash where it is empty.
fn push_or_dash(out: &mut String, s: &str)
    ensures
        final(out)@ == old(out)@ + or_dash(s@),
{
    if s.is_empty() {
        out.append("-");
    } else {
        out.append(s);
    }
}

/// Appends the text at position `i` of `items` as it is written in the page.
fn push_item_escaped(out: &mut String, items: &Vec<String>, i: usize)
    ensures
        final(out)@ == old(out)@ + spec_html_escape(item_or_empty(string_views(items@), i as int)),
{
    if i < items.len() {
        assert(string_views(items@)[i as int] == items@[i as int]@);
        push_html_escaped(out, items[i].as_str());
    } else {
        assert(out@ =~= old(out)@ + spec_html_escape(Seq::empty()));
    }
}

/// Appends one speed of the choice of speeds.
fn push_baud_option(out: &mut String, speed: u32, in_use: u32)
    ensures
        final(out)@ == old(out)@ + baud_option(speed, in_use),
{
    out.append("<option value=\"");
    push_decimal(out, speed as u64);
    out.append("\" ");
    out.append(if speed == in_use {
        "selected"
    } else {
        ""
    });
    out.append(">");
    push_decimal(out, speed as u64);
    out.append("</option>");
    assert(out@ =~= old(out)@ + baud_option(speed, in_use));
}

/// Appends the choice of speeds.
fn push_baud_options(out: &mut String, in_use: u32)
    ensures
        final(out)@ == old(out)@ + baud_options(in_use),
{
    push_baud_option(out, 9600, in_use);
    push_baud_option(out, 19200, in_use);
    push_baud_option(out, 38400, in_use);
    push_baud_option(out, 57600, in_use);
    push_baud_option(out, 115200, in_use);
    push_baud_option(out, 230400, in_use);
    assert(out@ =~= old(out)@ + baud_options(in_use));
}

/// Appends the notice at the top of the page.
fn push_notice(out: &mut String, saved: bool, errors: &[String])
    ensures
        final(out)@ == old(out)@ + notice(saved, string_views(errors@)),
{
    let ghost all = string_views(errors@);
    if saved && errors.len() == 0 {
        out.append(NOTICE_SAVED);
    } else if errors.len() > 0 {
        out.append(NOTICE_ERRORS);
        let ghost head = out@;
        let mut i: usize = 0;
        assert(all.take(0) =~= Seq::<Seq<char>>::empty());
        assert(out@ =~= head + error_items(all.take(0)));
        while i < errors.len()
            invariant
                i <= errors.len(),
                all == string_views(errors@),
                out@ == head + error_items(all.take(i as int)),
            decreases errors.len() - i,
        {
            proof {
                assert(all.take(i + 1).drop_last() =~= all.take(i as int));
                assert(all.take(i + 1).last() == errors@[i as int]@);
            }
            out.append("<li>");
            push_html_escaped(out, errors[i].as_str());
            out.append("</li>");
            assert(out@ =~= head + error_items(all.take(i + 1)));
            i += 1;
        }
        assert(all.take(errors.len() as int) =~= all);
        out.append(NOTICE_ERRORS_END);
        assert(out@ =~= old(out)@ + notice(saved, all));
    } else {
        assert(out@ =~= old(out)@ + notice(saved, all));
    }
}

/// The page that shows the configuration, the network setup and the state of
/// the interface, with a notice that the configuration was saved or of what
/// is wrong with the network setup.
pub fn render_config_page(
    config: &Config,
    net_config: &NetworkConfig,
    net_status: &NetworkStatus,
    saved: bool,
    net_errors: &[String],
) -> (r: String)
    ensures
        r@ == spec_config_page(
            config@,
            net_config@,
            net_status@,
            saved,
            string_views(net_errors@),
        ),
{
    let mut out = BEFORE_NOTICE.to_owned();
    push_notice(&mut out, saved, net_errors);
    out.append(BEFORE_MQTT_SWITCH);
    push_checked(&mut out, config.mqtt.enabled);
    out.append(BEFORE_MQTT_BROKER);
    push_html_escaped(&mut out, config.mqtt.broker.as_str());
    out.append(BEFORE_MQTT_PORT);
    push_decimal(&mut out, config.mqtt.port as u64);
    out.append(BEFORE_MQTT_TLS);
    push_checked(&mut out, config.mqtt.tls);
    out.append(BEFORE_MQTT_TOPIC);
    push_html_escaped(&mut out, config.mqtt.topic.as_str());
    out.append(BEFORE_MQTT_CLIENT_ID);
    push_html_escaped(&mut out, config.mqtt.client_id.as_str());
    out.append(BEFORE_HTTP_SWITCH);
    push_checked(&mut out, config.http.enabled);
    out.append(BEFORE_HTTP_URL);
    push_html_escaped(&mut out, config.http.url.as_str());
    out.append(BEFORE_UART_SWITCH);
    push_checked(&mut out, config.uart.enabled);
    out.append(BEFORE_UART_PORT);
    push_html_escaped(&mut out, config.uart.port.as_str());
    out.append(BEFORE_BAUD_OPTIONS);
    push_baud_options(&mut out, config.uart.baudrate);
    out.append(BEFORE_INTERVAL);
    push_decimal(&mut out, config.general.interval_secs);
    out.append(BEFORE_STATUS_COLOR);
    out.append(if net_status.is_up { "#4CAF50" } else { "#f44336" });
    out.append(BEFORE_STATUS_TEXT);
    out.append(if net_status.is_up { "UP" } else { "DOWN" });
    out.append(BEFORE_DHCP_CHOICE);
    push_checked(&mut out, net_config.mode == NetworkMode::Dhcp);
    out.append(BEFORE_STATIC_CHOICE);
    push_checked(&mut out, net_config.mode == NetworkMode::Static);
    out.append(BEFORE_STATIC_DISPLAY);
    out.append(if net_config.mode == NetworkMode::Static { "block" } else { "none" });
    out.append(BEFORE_NET_IPADDR);
    push_html_escaped(&mut out, net_config.ipaddr.as_str());
    out.append(BEFORE_NET_NETMASK);
    push_html_escaped(&mut out, net_config.netmask.as_str());
    out.append(BEFORE_NET_GATEWAY);
    push_html_escaped(&mut out, net_config.gateway.as_str());
    out.append(BEFORE_NET_DNS1);
    push_html_escaped(&mut out, net_config.dns_primary.as_str());
    out.append(BEFORE_NET_DNS2);
    push_html_escaped(&mut out, net_config.dns_secondary.as_str());
    out.append(BEFORE_CURRENT_IP);
    push_or_dash(&mut out, net_status.ip.as_str());
    out.append(BEFORE_CURRENT_GW);
    push_or_dash(&mut out, net_status.gateway.as_str());
    out.append(BEFORE_LIVE_IP);
    push_html_escaped(&mut out, net_status.ip.as_str());
    out.append(BEFORE_LIVE_NETMASK);
    push_html_escaped(&mut out, net_status.netmask.as_str());
    out.append(BEFORE_LIVE_GW);
    push_html_escaped(&mut out, net_status.gateway.as_str());
    out.append(BEFORE_LIVE_DNS1);
    push_item_escaped(&mut out, &net_status.dns, 0);
    out.append(BEFORE_LIVE_DNS2);
    push_item_escaped(&mut out, &net_status.dns, 1);
    out.append(PAGE_END);
    out
}

} // verus!
