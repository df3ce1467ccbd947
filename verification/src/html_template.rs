//! The page that shows the host's metrics.

use vstd::prelude::*;
use vstd::string::StringExecFns;
use crate::system_info::{push_tenths, tenths, SystemInfo, SystemInfoView};
use crate::text::{decimal, push_decimal};

verus! {

/// The text of the page before the kernel's version.
pub const BEFORE_KERNEL: &'static str = "<!DOCTYPE html>\n<html><head>\n<meta charset=\"utf-8\">\n<meta name=\"viewport\" content=\"width=device-width, initial-scale=1\">\n<title>MT7688 Monitor</title>\n<style>\n* { box-sizing: border-box; }\nbody {\n    background: linear-gradient(135deg, #667eea 0%, #764ba2 100%);\n    min-height: 100vh;\n    display: flex;\n    justify-content: center;\n    align-items: center;\n    margin: 0;\n    padding: 20px;\n    font-family: 'Segoe UI', system-ui, sans-serif;\n}\n.card {\n    background: #fff;\n    border-radius: 16px;\n    padding: 28px;\n    box-shadow: 0 20px 60px rgba(0,0,0,0.3);\n    min-width: 420px;\n    max-width: 480px;\n}\nh1 { margin: 0 0 4px; font-size: 22px; color: #333; text-align: center; }\n.subtitle { text-align: center; color: #888; font-size: 12px; margin-bottom: 20px; }\n.section { margin-bottom: 16px; }\n.section-title { font-size: 11px; color: #667eea; font-weight: 600; text-transform: uppercase; letter-spacing: 1px; margin-bottom: 8px; border-bottom: 1px solid #eee; padding-bottom: 4px; }\n.row { display: flex; justify-content: space-between; align-items: center; padding: 6px 0; font-size: 13px; }\n.label { color: #666; }\n.value { font-weight: 500; color: #333; }\n#uptime, #localtime { color: #667eea; font-variant-numeric: tabular-nums; }\n.progress-wrap { flex: 1; margin-left: 12px; }\n.progress-info { display: flex; justify-content: space-between; font-size: 11px; color: #666; margin-bottom: 3px; }\n.progress-bar { height: 6px; background: #eee; border-radius: 3px; overflow: hidden; }\n.progress-fill { height: 100%; border-radius: 3px; transition: width 0.3s; }\n.fill-ram { background: linear-gradient(90deg, #667eea, #764ba2); }\n.fill-disk { background: linear-gradient(90deg, #f093fb, #f5576c); }\n.ram-grid { display: grid; grid-template-columns: 1fr 1fr; gap: 4px 16px; font-size: 12px; margin-top: 8px; }\n.ram-grid .label { color: #888; }\n.ram-grid .value { color: #333; font-weight: 500; }\n.btn {\n    display: block; text-align: center; margin-top: 20px; padding: 12px;\n    background: linear-gradient(135deg, #667eea, #764ba2);\n    color: #fff; text-decoration: none; border-radius: 8px; font-weight: 500;\n}\n.btn:hover { opacity: 0.9; }\n</style>\n</head>\n<body>\n<div class=\"card\">\n    <h1>RMS7688 SOM</h1>\n    <div class=\"subtitle\">MediaTek MT7688 • Kernel ";

/// The text of the page before the time since the start.
pub const BEFORE_UPTIME: &'static str = "</div>\n\n    <div class=\"section\">\n        <div class=\"section-title\">Hệ thống</div>\n        <div class=\"row\"><span class=\"label\">Thời gian chạy</span><span class=\"value\" id=\"uptime\">";

/// The text of the page before the local time.
pub const BEFORE_LOCAL_TIME: &'static str = "</span></div>\n        <div class=\"row\"><span class=\"label\">Thời gian thiết bị</span><span class=\"value\" id=\"localtime\">";

/// The text of the page before the number of processes.
pub const BEFORE_PROCESSES: &'static str = "</span></div>\n        <div class=\"row\"><span class=\"label\">Tiến trình</span><span class=\"value\" id=\"procs\">";

/// The text of the page before the memory in use, beside the bar.
pub const BEFORE_RAM_USED_OF: &'static str = "</span></div>\n    </div>\n\n    <div class=\"section\">\n        <div class=\"section-title\">Bộ nhớ RAM</div>\n        <div class=\"row\">\n            <span class=\"label\">Sử dụng</span>\n            <div class=\"progress-wrap\">\n                <div class=\"progress-info\"><span id=\"ram-text\">";

/// The text of the page before the memory in all, beside the bar.
pub const BEFORE_RAM_TOTAL_OF: &'static str = " / ";

/// The text of the page before the percentage of memory in use.
pub const BEFORE_RAM_PERCENT: &'static str = " MB</span><span id=\"ram-pct\">";

/// The text of the page before the width of the bar of memory.
pub const BEFORE_RAM_BAR: &'static str = "%</span></div>\n                <div class=\"progress-bar\"><div class=\"progress-fill fill-ram\" id=\"ram-bar\" style=\"width:";

/// The text of the page before the memory in all.
pub const BEFORE_RAM_TOTAL: &'static str = "%\"></div></div>\n            </div>\n        </div>\n        <div class=\"ram-grid\">\n            <span class=\"label\">Tổng:</span><span class=\"value\" id=\"ram-total\">";

/// The text of the page before the memory available.
pub const BEFORE_RAM_AVAILABLE: &'static str = " MB</span>\n            <span class=\"label\">Khả dụng:</span><span class=\"value\" id=\"ram-avail\">";

/// The text of the page before the memory in use.
pub const BEFORE_RAM_USED: &'static str = " MB</span>\n            <span class=\"label\">Đã dùng:</span><span class=\"value\" id=\"ram-used\">";

/// The text of the page before the memory in buffers.
pub const BEFORE_RAM_BUFFERED: &'static str = " MB</span>\n            <span class=\"label\">Buffered:</span><span class=\"value\" id=\"ram-buf\">";

/// The text of the page before the memory in the cache.
pub const BEFORE_RAM_CACHED: &'static str = " MB</span>\n            <span class=\"label\">Cached:</span><span class=\"value\" id=\"ram-cache\">";

/// The text of the page before the flash in use.
pub const BEFORE_DISK_USED: &'static str = " MB</span>\n        </div>\n    </div>\n\n    <div class=\"section\">\n        <div class=\"section-title\">Flash</div>\n        <div class=\"row\">\n            <span class=\"label\">Sử dụng</span>\n            <div class=\"progress-wrap\">\n                <div class=\"progress-info\"><span id=\"disk-text\">";

/// The text of the page before the flash in all.
pub const BEFORE_DISK_TOTAL: &'static str = " / ";

/// The text of the page before the percentage of flash in use.
pub const BEFORE_DISK_PERCENT: &'static str = "</span><span id=\"disk-pct\">";

/// The text of the page before the width of the bar of flash.
pub const BEFORE_DISK_BAR: &'static str = "%</span></div>\n                <div class=\"progress-bar\"><div class=\"progress-fill fill-disk\" id=\"disk-bar\" style=\"width:";

/// The text of the page before the host's address.
pub const BEFORE_IP: &'static str = "%\"></div></div>\n            </div>\n        </div>\n    </div>\n\n    <div class=\"section\">\n        <div class=\"section-title\">Mạng</div>\n        <div class=\"row\"><span class=\"label\">Địa chỉ IP</span><span class=\"value\" id=\"ip\">";

/// The text of the page before the host's public address.
pub const BEFORE_EXTERNAL_IP: &'static str = "</span></div>\n        <div class=\"row\"><span class=\"label\">IP công cộng</span><span class=\"value\" id=\"extip\">";

/// The text of the page before the bytes received.
pub const BEFORE_NET_RX: &'static str = "</span></div>\n        <div class=\"row\"><span class=\"label\">Lưu lượng</span><span class=\"value\" id=\"net\">RX ";

/// The text of the page before the bytes sent.
pub const BEFORE_NET_TX: &'static str = " / TX ";

/// The text of the page before the seconds since the start, for the page's own clock.
pub const BEFORE_UPTIME_SECS: &'static str = "</span></div>\n    </div>\n\n    <a href=\"/config\" class=\"btn\">Cấu hình</a>\n</div>\n<script>\nvar uptimeSecs = ";

/// The text of the page behind its last field.
pub const PAGE_END: &'static str = ";\nfunction fmtUptime(s) {\n    var d = Math.floor(s/86400), h = Math.floor(s%86400/3600), m = Math.floor(s%3600/60), sec = s%60;\n    return d > 0 ? d+'n '+h+'g '+m+'p '+sec+'s' : h > 0 ? h+'g '+m+'p '+sec+'s' : m+'p '+sec+'s';\n}\nsetInterval(function() { uptimeSecs++; document.getElementById('uptime').textContent = fmtUptime(uptimeSecs); }, 1000);\nsetInterval(function() {\n    fetch('/').then(r => r.text()).then(html => {\n        var doc = new DOMParser().parseFromString(html, 'text/html');\n        ['ip','extip','net','procs','localtime','ram-total','ram-avail','ram-used','ram-buf','ram-cache'].forEach(function(id) {\n            var el = doc.getElementById(id);\n            if (el) document.getElementById(id).textContent = el.textContent;\n        });\n        ['ram','disk'].forEach(function(id) {\n            var t = doc.getElementById(id+'-text'), p = doc.getElementById(id+'-pct'), b = doc.getElementById(id+'-bar');\n            if (t) document.getElementById(id+'-text').textContent = t.textContent;\n            if (p) { document.getElementById(id+'-pct').textContent = p.textContent; document.getElementById(id+'-bar').style.width = p.textContent; }\n        });\n    });\n}, 5000);\n</script>\n</body></html>";

/// A span of `total` seconds in days, hours, minutes and seconds, each
/// number followed by the letter of its unit. Days are left out where there
/// are none, and hours too where there are neither.
pub open spec fn spec_format_uptime(total: nat) -> Seq<char> {
    let d = total / 86400;
    let h = (total % 86400) / 3600;
    let m = (total % 3600) / 60;
    let s = total % 60;
    let tail = decimal(m) + "p "@ + decimal(s) + "s"@;
    if d > 0 {
        decimal(d) + "n "@ + decimal(h) + "g "@ + tail
    } else if h > 0 {
        decimal(h) + "g "@ + tail
    } else {
        tail
    }
}

/// The page that shows the snapshot `i`. Memory stands in megabytes with one
/// decimal; every text of the snapshot stands in the page as it is.
pub open spec fn spec_page(i: SystemInfoView) -> Seq<char> {
    BEFORE_KERNEL@ + i.kernel + BEFORE_UPTIME@ + spec_format_uptime(i.uptime_secs as nat)
        + BEFORE_LOCAL_TIME@ + i.local_time + BEFORE_PROCESSES@ + decimal(i.processes as nat)
        + BEFORE_RAM_USED_OF@ + tenths(i.ram_used_tenths as nat) + BEFORE_RAM_TOTAL_OF@ + tenths(i.ram_total_tenths as nat)
        + BEFORE_RAM_PERCENT@ + decimal(i.ram_percent as nat) + BEFORE_RAM_BAR@
        + decimal(i.ram_percent as nat) + BEFORE_RAM_TOTAL@ + tenths(i.ram_total_tenths as nat)
        + BEFORE_RAM_AVAILABLE@ + tenths(i.ram_available_tenths as nat) + BEFORE_RAM_USED@ + tenths(i.ram_used_tenths as nat)
        + BEFORE_RAM_BUFFERED@ + tenths(i.ram_buffered_tenths as nat) + BEFORE_RAM_CACHED@ + tenths(i.ram_cached_tenths as nat)
        + BEFORE_DISK_USED@ + i.disk_used + BEFORE_DISK_TOTAL@ + i.disk_total
        + BEFORE_DISK_PERCENT@ + decimal(i.disk_percent as nat) + BEFORE_DISK_BAR@
        + decimal(i.disk_percent as nat) + BEFORE_IP@ + i.ip_address + BEFORE_EXTERNAL_IP@
        + i.external_ip + BEFORE_NET_RX@ + i.net_rx + BEFORE_NET_TX@ + i.net_tx
        + BEFORE_UPTIME_SECS@ + decimal(i.uptime_secs as nat) + PAGE_END@
}

/// Appends a span of `total` seconds to `out`.
fn push_uptime(out: &mut String, total: u64)
    ensures
        final(out)@ == old(out)@ + spec_format_uptime(total as nat),
{
    let d = total / 86400;
    let h = (total % 86400) / 3600;
    let m = (total % 3600) / 60;
    let s = total % 60;
    if d > 0 {
        push_decimal(out, d);
        out.append("n ");
    }
    if d > 0 || h > 0 {
        push_decimal(out, h);
        out.append("g ");
    }
    push_decimal(out, m);
    out.append("p ");
    push_decimal(out, s);
    out.append("s");
    assert(out@ =~= old(out)@ + spec_format_uptime(total as nat));
}

/// A span of `total` seconds in days, hours, minutes and seconds.
pub fn format_uptime(total: u64) -> (r: String)
    ensures
        r@ == spec_format_uptime(total as nat),
{
    let mut out = String::new();
    push_uptime(&mut out, total);
    assert(out@ =~= spec_format_uptime(total as nat));
    out
}

/// The page that shows the snapshot `info`.
pub fn render_page(info: &SystemInfo) -> (r: String)
    ensures
        r@ == spec_page(info@),
{
    let mut out = BEFORE_KERNEL.to_owned();
    out.append(info.kernel.as_str());
    out.append(BEFORE_UPTIME);
    push_uptime(&mut out, info.uptime_secs);
    out.append(BEFORE_LOCAL_TIME);
    out.append(info.local_time.as_str());
    out.append(BEFORE_PROCESSES);
    push_decimal(&mut out, info.processes as u64);
    out.append(BEFORE_RAM_USED_OF);
    push_tenths(&mut out, info.ram_used_tenths);
    out.append(BEFORE_RAM_TOTAL_OF);
    push_tenths(&mut out, info.ram_total_tenths);
    out.append(BEFORE_RAM_PERCENT);
    push_decimal(&mut out, info.ram_percent as u64);
    out.append(BEFORE_RAM_BAR);
    push_decimal(&mut out, info.ram_percent as u64);
    out.append(BEFORE_RAM_TOTAL);
    push_tenths(&mut out, info.ram_total_tenths);
    out.append(BEFORE_RAM_AVAILABLE);
    push_tenths(&mut out, info.ram_available_tenths);
    out.append(BEFORE_RAM_USED);
    push_tenths(&mut out, info.ram_used_tenths);
    out.append(BEFORE_RAM_BUFFERED);
    push_tenths(&mut out, info.ram_buffered_tenths);
    out.append(BEFORE_RAM_CACHED);
    push_tenths(&mut out, info.ram_cached_tenths);
    out.append(BEFORE_DISK_USED);
    out.append(info.disk_used.as_str());
    out.append(BEFORE_DISK_TOTAL);
    out.append(info.disk_total.as_str());
    out.append(BEFORE_DISK_PERCENT);
    push_decimal(&mut out, info.disk_percent as u64);
    out.append(BEFORE_DISK_BAR);
    push_decimal(&mut out, info.disk_percent as u64);
    out.append(BEFORE_IP);
    out.append(info.ip_address.as_str());
    out.append(BEFORE_EXTERNAL_IP);
    out.append(info.external_ip.as_str());
    out.append(BEFORE_NET_RX);
    out.append(info.net_rx.as_str());
    out.append(BEFORE_NET_TX);
    out.append(info.net_tx.as_str());
    out.append(BEFORE_UPTIME_SECS);
    push_decimal(&mut out, info.uptime_secs);
    out.append(PAGE_END);
    out
}

} // verus!
