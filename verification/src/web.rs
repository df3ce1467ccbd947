//! What the dashboard's requests mean: the routes, the fields of a posted
//! form, and the configurations that a form or a document asks for.

use vstd::prelude::*;
use crate::config::{
    Config, ConfigView, GeneralConfig, GeneralConfigView, HttpConfig, HttpConfigView, MqttConfig,
    MqttConfigView, UartConfig, UartConfigView,
};
use vstd::std_specs::iter::IteratorSpec;
use vstd::string::StringExecFns;
use crate::network_config::{
    NetworkConfig, NetworkConfigView, NetworkMode, NetworkStatus, NetworkStatusView,
};
use crate::text::{
    find_char, find_first, first_occurrence, from_chars, hex_digit, hex_digit_of, number_or,
    parse_number, parse_unsigned,
    slice_chars, split, split_chars, str_is, string_views, to_chars, trim_start,
    trim_start_chars, views,
};

verus! {

/// The byte that one or two hexadecimal digits write.
pub open spec fn hex_byte(h: Seq<char>) -> Option<u8> {
    if h.len() == 1 {
        match hex_digit(h[0]) {
            Some(v) => Some(v as u8),
            None => None,
        }
    } else if h.len() == 2 {
        match (hex_digit(h[0]), hex_digit(h[1])) {
            (Some(a), Some(b)) => Some((a * 16 + b) as u8),
            _ => None,
        }
    } else {
        None
    }
}

/// The end of the escape that starts with the percent sign at the start of
/// `s`: behind the two characters that follow the sign, or at the end of `s`
/// where fewer follow.
pub open spec fn escape_end(s: Seq<char>) -> int {
    if s.len() < 3 {
        s.len() as int
    } else {
        3
    }
}

/// The text that a form-encoded text stands for. A plus sign stands for a
/// space. A percent sign and the two characters behind it stand for the
/// character whose code point the two write as hexadecimal digits; where
/// they write none, the three stand for nothing. Any other character stands
/// for itself.
pub open spec fn spec_url_decode(s: Seq<char>) -> Seq<char>
    decreases s.len(),
{
    if s.len() == 0 {
        Seq::empty()
    } else if s[0] == '+' {
        seq![' '] + spec_url_decode(s.skip(1))
    } else if s[0] == '%' {
        let rest = spec_url_decode(s.skip(escape_end(s)));
        match hex_byte(s.subrange(1, escape_end(s))) {
            Some(b) => seq![b as char] + rest,
            None => rest,
        }
    } else {
        seq![s[0]] + spec_url_decode(s.skip(1))
    }
}

/// The byte that the characters of `s` from `from` up to `to` write as
/// hexadecimal digits.
fn hex_byte_at(s: &Vec<char>, from: usize, to: usize) -> (r: Option<u8>)
    requires
        from <= to <= s.len(),
        to - from <= 2,
    ensures
        r == hex_byte(s@.subrange(from as int, to as int)),
{
    let ghost h = s@.subrange(from as int, to as int);
    if to - from == 1 {
        assert(h[0] == s@[from as int]);
        match hex_digit_of(s[from]) {
            Some(v) => Some(v as u8),
            None => None,
        }
    } else if to - from == 2 {
        assert(h[0] == s@[from as int]);
        assert(h[1] == s@[from + 1]);
        match (hex_digit_of(s[from]), hex_digit_of(s[from + 1])) {
            (Some(a), Some(b)) => Some((a * 16 + b) as u8),
            _ => None,
        }
    } else {
        None
    }
}

/// The text that the form-encoded characters of `s` stand for.
pub fn url_decode_chars(s: &Vec<char>) -> (r: Vec<char>)
    ensures
        r@ == spec_url_decode(s@),
{
    let n = s.len();
    let mut out: Vec<char> = Vec::new();
    let mut i: usize = 0;
    assert(s@.skip(0) =~= s@);
    while i < n
        invariant
            i <= n,
            n == s.len(),
            out@ + spec_url_decode(s@.skip(i as int)) == spec_url_decode(s@),
        decreases n - i,
    {
        let ghost tail = s@.skip(i as int);
        let ghost before = out@;
        let c = s[i];
        assert(tail[0] == c);
        if c == '+' {
            out.push(' ');
            proof {
                assert(tail.skip(1) =~= s@.skip(i + 1));
                assert(out@ + spec_url_decode(s@.skip(i + 1)) =~= before + spec_url_decode(tail));
            }
            i += 1;
        } else if c == '%' {
            let end: usize = if n - i < 3 {
                n
            } else {
                i + 3
            };
            proof {
                assert(tail.skip(escape_end(tail)) =~= s@.skip(end as int));
                assert(tail.subrange(1, escape_end(tail)) =~= s@.subrange(i + 1, end as int));
            }
            match hex_byte_at(s, i + 1, end) {
                Some(b) => {
                    out.push(b as char);
                    assert(out@ + spec_url_decode(s@.skip(end as int)) =~= before
                        + spec_url_decode(tail));
                },
                None => {},
            }
            i = end;
        } else {
            out.push(c);
            proof {
                assert(tail.skip(1) =~= s@.skip(i + 1));
                assert(out@ + spec_url_decode(s@.skip(i + 1)) =~= before + spec_url_decode(tail));
            }
            i += 1;
        }
    }
    assert(out@ + spec_url_decode(s@.skip(n as int)) =~= out@);
    out
}

/// The text that a form-encoded text stands for.
pub fn url_decode(s: &str) -> (r: String)
    ensures
        r@ == spec_url_decode(s@),
{
    let chars = to_chars(s);
    let out = url_decode_chars(&chars);
    from_chars(&out)
}

/// A field of a form: its name and its value.
pub struct Field {
    pub name: Seq<char>,
    pub value: Seq<char>,
}

/// The field that one piece of a form's body gives: the name stands before
/// its first equals sign and the value behind it, both form-encoded; a piece
/// without an equals sign is a name with an empty value.
pub open spec fn spec_field(piece: Seq<char>) -> Field {
    match first_occurrence(piece, seq!['='], 0) {
        Some(at) => Field {
            name: spec_url_decode(piece.take(at)),
            value: spec_url_decode(piece.skip(at + 1)),
        },
        None => Field { name: spec_url_decode(piece), value: Seq::empty() },
    }
}

/// The fields of a form's body: one for every piece between its ampersands.
pub open spec fn spec_fields(body: Seq<char>) -> Seq<Field> {
    split(body, '&').map_values(|piece: Seq<char>| spec_field(piece))
}

/// The fields that a list of pairs of strings holds.
pub open spec fn field_views(params: Seq<(String, String)>) -> Seq<Field> {
    params.map_values(|p: (String, String)| Field { name: p.0@, value: p.1@ })
}

/// The value of the first field named `key`, or the empty text where no
/// field has that name.
pub open spec fn spec_get_val(fields: Seq<Field>, key: Seq<char>) -> Seq<char>
    decreases fields.len(),
{
    if fields.len() == 0 {
        Seq::empty()
    } else if fields[0].name == key {
        fields[0].value
    } else {
        spec_get_val(fields.skip(1), key)
    }
}

/// Whether a field is named `key`.
pub open spec fn spec_has_key(fields: Seq<Field>, key: Seq<char>) -> bool {
    exists|i: int| 0 <= i < fields.len() && (#[trigger] fields[i]).name == key
}

/// The fields of a form's body.
pub fn parse_fields(body: &str) -> (params: Vec<(String, String)>)
    ensures
        field_views(params@) == spec_fields(body@),
{
    let chars = to_chars(body);
    let pieces = split_chars(&chars, '&');
    let mut params: Vec<(String, String)> = Vec::new();
    let mut i: usize = 0;
    while i < pieces.len()
        invariant
            i <= pieces.len(),
            views(pieces@) == split(body@, '&'),
            field_views(params@) == spec_fields(body@).take(i as int),
        decreases pieces.len() - i,
    {
        let piece = &pieces[i];
        assert(views(pieces@)[i as int] == piece@);
        let (name, value) = match find_char(piece, '=', 0) {
            Some(at) => {
                let k = slice_chars(piece, 0, at);
                let v = slice_chars(piece, at + 1, piece.len());
                proof {
                    assert(piece@.subrange(0, at as int) =~= piece@.take(at as int));
                    assert(piece@.subrange(at + 1, piece.len() as int) =~= piece@.skip(at + 1));
                }
                (from_chars(&url_decode_chars(&k)), from_chars(&url_decode_chars(&v)))
            },
            None => (from_chars(&url_decode_chars(piece)), String::new()),
        };
        let ghost before = params@;
        let ghost f = Field { name: name@, value: value@ };
        assert(f == spec_field(piece@));
        params.push((name, value));
        proof {
            assert(field_views(params@) =~= field_views(before).push(f));
            assert(spec_fields(body@).take(i + 1) =~= spec_fields(body@).take(i as int).push(
                spec_fields(body@)[i as int],
            ));
        }
        i += 1;
    }
    assert(spec_fields(body@).take(pieces.len() as int) =~= spec_fields(body@));
    params
}

/// The value of the first field named `key`, or the empty text.
pub fn get_val(params: &[(String, String)], key: &str) -> (r: String)
    ensures
        r@ == spec_get_val(field_views(params@), key@),
{
    let mut i: usize = 0;
    assert(field_views(params@).skip(0) =~= field_views(params@));
    while i < params.len()
        invariant
            i <= params.len(),
            spec_get_val(field_views(params@), key@) == spec_get_val(
                field_views(params@).skip(i as int),
                key@,
            ),
        decreases params.len() - i,
    {
        let ghost tail = field_views(params@).skip(i as int);
        assert(tail[0] == Field { name: params@[i as int].0@, value: params@[i as int].1@ });
        if str_is(params[i].0.as_str(), key) {
            return params[i].1.clone();
        }
        assert(tail.skip(1) =~= field_views(params@).skip(i + 1));
        i += 1;
    }
    String::new()
}

/// Whether a field is named `key`.
pub fn has_key(params: &[(String, String)], key: &str) -> (r: bool)
    ensures
        r == spec_has_key(field_views(params@), key@),
{
    let mut i: usize = 0;
    while i < params.len()
        invariant
            i <= params.len(),
            forall|j: int| 0 <= j < i ==> (#[trigger] field_views(params@)[j]).name != key@,
        decreases params.len() - i,
    {
        assert(field_views(params@)[i as int].name == params@[i as int].0@);
        if str_is(params[i].0.as_str(), key) {
            return true;
        }
        i += 1;
    }
    false
}

/// The number that `value` writes, or `fallback`.
fn parse_or(value: &str, max: u64, fallback: u64) -> (r: u64)
    requires
        fallback <= max,
    ensures
        r == number_or(value@, max as nat, fallback as nat),
        r <= max,
{
    let chars = to_chars(value);
    match parse_number(&chars, max) {
        Some(v) => v,
        None => fallback,
    }
}

/// The configuration that the fields of the settings form ask for. A switch
/// is on where its field is there; a text is the value of its field; a
/// number that does not read takes its default.
pub open spec fn spec_config_of(fields: Seq<Field>) -> ConfigView {
    ConfigView {
        mqtt: MqttConfigView {
            enabled: spec_has_key(fields, "mqtt_enabled"@),
            broker: spec_get_val(fields, "mqtt_broker"@),
            port: number_or(spec_get_val(fields, "mqtt_port"@), 65535, 8883) as u16,
            tls: spec_has_key(fields, "mqtt_tls"@),
            topic: spec_get_val(fields, "mqtt_topic"@),
            client_id: spec_get_val(fields, "mqtt_client_id"@),
        },
        http: HttpConfigView {
            enabled: spec_has_key(fields, "http_enabled"@),
            url: spec_get_val(fields, "http_url"@),
        },
        general: GeneralConfigView {
            interval_secs: number_or(
                spec_get_val(fields, "interval"@),
                0xffff_ffff_ffff_ffff,
                3,
            ) as u64,
        },
        uart: UartConfigView {
            enabled: spec_has_key(fields, "uart_enabled"@),
            port: spec_get_val(fields, "uart_port"@),
            baudrate: number_or(spec_get_val(fields, "uart_baudrate"@), 0xffff_ffff, 115200) as u32,
        },
    }
}

/// The configuration that the body of the settings form asks for.
pub fn parse_config_form(body: &str) -> (r: Config)
    ensures
        r@ == spec_config_of(spec_fields(body@)),
{
    let params = parse_fields(body);
    Config {
        mqtt: MqttConfig {
            enabled: has_key(&params, "mqtt_enabled"),
            broker: get_val(&params, "mqtt_broker"),
            port: parse_or(get_val(&params, "mqtt_port").as_str(), 65535, 8883) as u16,
            tls: has_key(&params, "mqtt_tls"),
            topic: get_val(&params, "mqtt_topic"),
            client_id: get_val(&params, "mqtt_client_id"),
        },
        http: HttpConfig {
            enabled: has_key(&params, "http_enabled"),
            url: get_val(&params, "http_url"),
        },
        general: GeneralConfig {
            interval_secs: parse_or(get_val(&params, "interval").as_str(), u64::MAX, 3),
        },
        uart: UartConfig {
            enabled: has_key(&params, "uart_enabled"),
            port: get_val(&params, "uart_port"),
            baudrate: parse_or(get_val(&params, "uart_baudrate").as_str(), 0xffff_ffff, 115200)
                as u32,
        },
    }
}

/// The names of the fields that hold a network setup.
pub struct NetworkFieldNames {
    pub mode: Seq<char>,
    pub ipaddr: Seq<char>,
    pub netmask: Seq<char>,
    pub gateway: Seq<char>,
    pub dns_primary: Seq<char>,
    pub dns_secondary: Seq<char>,
}

/// The names under which the settings form holds the network setup.
pub open spec fn settings_form_names() -> NetworkFieldNames {
    NetworkFieldNames {
        mode: "net_mode"@,
        ipaddr: "net_ipaddr"@,
        netmask: "net_netmask"@,
        gateway: "net_gateway"@,
        dns_primary: "net_dns1"@,
        dns_secondary: "net_dns2"@,
    }
}

/// The names under which the network form holds the network setup.
pub open spec fn network_form_names() -> NetworkFieldNames {
    NetworkFieldNames {
        mode: "mode"@,
        ipaddr: "ipaddr"@,
        netmask: "netmask"@,
        gateway: "gateway"@,
        dns_primary: "dns_primary"@,
        dns_secondary: "dns_secondary"@,
    }
}

/// The network setup that fields with the given names ask for: static where
/// the mode is `static` and DHCP otherwise, with the values of the other
/// fields as they stand.
pub open spec fn spec_network_of(
    fields: Seq<Field>,
    names: NetworkFieldNames,
) -> NetworkConfigView {
    NetworkConfigView {
        mode: NetworkMode::spec_from_str(spec_get_val(fields, names.mode)),
        ipaddr: spec_get_val(fields, names.ipaddr),
        netmask: spec_get_val(fields, names.netmask),
        gateway: spec_get_val(fields, names.gateway),
        dns_primary: spec_get_val(fields, names.dns_primary),
        dns_secondary: spec_get_val(fields, names.dns_secondary),
    }
}

/// The network setup that the body of the settings form asks for.
pub fn parse_network_form_from_config(body: &str) -> (r: NetworkConfig)
    ensures
        r@ == spec_network_of(spec_fields(body@), settings_form_names()),
{
    let params = parse_fields(body);
    NetworkConfig {
        mode: NetworkMode::from_str(get_val(&params, "net_mode").as_str()),
        ipaddr: get_val(&params, "net_ipaddr"),
        netmask: get_val(&params, "net_netmask"),
        gateway: get_val(&params, "net_gateway"),
        dns_primary: get_val(&params, "net_dns1"),
        dns_secondary: get_val(&params, "net_dns2"),
    }
}

/// The network setup that the body of the network form asks for.
pub fn parse_network_form(body: &str) -> (r: NetworkConfig)
    ensures
        r@ == spec_network_of(spec_fields(body@), network_form_names()),
{
    let params = parse_fields(body);
    NetworkConfig {
        mode: NetworkMode::from_str(get_val(&params, "mode").as_str()),
        ipaddr: get_val(&params, "ipaddr"),
        netmask: get_val(&params, "netmask"),
        gateway: get_val(&params, "gateway"),
        dns_primary: get_val(&params, "dns_primary"),
        dns_secondary: get_val(&params, "dns_secondary"),
    }
}

/// The value that a document gives under `key`, read without regard to the
/// document's structure: behind the first occurrence of the quoted key, the
/// first colon, and white space, the text between the next two quotes. The
/// empty text where any of these is missing.
pub open spec fn spec_json_value(body: Seq<char>, key: Seq<char>) -> Seq<char> {
    let pattern = seq!['"'] + key + seq!['"'];
    match first_occurrence(body, pattern, 0) {
        None => Seq::empty(),
        Some(pos) => {
            let rest = body.skip(pos + pattern.len());
            match first_occurrence(rest, seq![':'], 0) {
                None => Seq::empty(),
                Some(colon) => {
                    let after = trim_start(rest.skip(colon + 1));
                    if after.len() > 0 && after[0] == '"' {
                        match first_occurrence(after.skip(1), seq!['"'], 0) {
                            Some(end) => after.subrange(1, end + 1),
                            None => Seq::empty(),
                        }
                    } else {
                        Seq::empty()
                    }
                },
            }
        },
    }
}

/// The value that the document `body` gives under `key`.
pub fn json_value(body: &Vec<char>, key: &str) -> (r: String)
    ensures
        r@ == spec_json_value(body@, key@),
{
    let mut pattern: Vec<char> = Vec::new();
    pattern.push('"');
    let k = to_chars(key);
    let mut i: usize = 0;
    while i < k.len()
        invariant
            i <= k.len(),
            pattern@ == seq!['"'] + k@.take(i as int),
        decreases k.len() - i,
    {
        pattern.push(k[i]);
        assert(pattern@ =~= seq!['"'] + k@.take(i + 1));
        i += 1;
    }
    pattern.push('"');
    assert(pattern@ =~= seq!['"'] + key@ + seq!['"']) by {
        assert(k@.take(k.len() as int) =~= k@);
    }
    let pos = match find_first(body, &pattern, 0) {
        Some(pos) => pos,
        None => {
            return String::new();
        },
    };
    let rest = slice_chars(body, pos + pattern.len(), body.len());
    assert(rest@ =~= body@.skip(pos + pattern.len()));
    let colon = match find_char(&rest, ':', 0) {
        Some(colon) => colon,
        None => {
            return String::new();
        },
    };
    let behind = slice_chars(&rest, colon + 1, rest.len());
    assert(behind@ =~= rest@.skip(colon + 1));
    let after = trim_start_chars(&behind);
    if after.len() > 0 && after[0] == '"' {
        let inner = slice_chars(&after, 1, after.len());
        assert(inner@ =~= after@.skip(1));
        match find_char(&inner, '"', 0) {
            Some(end) => {
                let value = slice_chars(&after, 1, end + 1);
                from_chars(&value)
            },
            None => String::new(),
        }
    } else {
        String::new()
    }
}

/// The network setup that a document asks for: static where its `mode` is
/// `static` and DHCP otherwise, with the values that it gives under the names
/// of the other fields.
pub open spec fn spec_network_of_json(body: Seq<char>) -> NetworkConfigView {
    NetworkConfigView {
        mode: NetworkMode::spec_from_str(spec_json_value(body, "mode"@)),
        ipaddr: spec_json_value(body, "ipaddr"@),
        netmask: spec_json_value(body, "netmask"@),
        gateway: spec_json_value(body, "gateway"@),
        dns_primary: spec_json_value(body, "dns_primary"@),
        dns_secondary: spec_json_value(body, "dns_secondary"@),
    }
}

/// The network setup that the document `body` asks for.
pub fn parse_network_json(body: &str) -> (r: NetworkConfig)
    ensures
        r@ == spec_network_of_json(body@),
{
    let chars = to_chars(body);
    NetworkConfig {
        mode: NetworkMode::from_str(json_value(&chars, "mode").as_str()),
        ipaddr: json_value(&chars, "ipaddr"),
        netmask: json_value(&chars, "netmask"),
        gateway: json_value(&chars, "gateway"),
        dns_primary: json_value(&chars, "dns_primary"),
        dns_secondary: json_value(&chars, "dns_secondary"),
    }
}

/// The escaped form of one character in a document: a backslash pair for the
/// backslash, the quote, line feed, carriage return and tab, and the
/// character itself otherwise.
pub open spec fn json_escape_char(c: char) -> Seq<char> {
    if c == '\\' {
        seq!['\\', '\\']
    } else if c == '"' {
        seq!['\\', '"']
    } else if c == '\n' {
        seq!['\\', 'n']
    } else if c == '\r' {
        seq!['\\', 'r']
    } else if c == '\t' {
        seq!['\\', 't']
    } else {
        seq![c]
    }
}

/// The escaped form of a text in a document: the escaped forms of its
/// characters, in order.
pub open spec fn spec_json_escape(s: Seq<char>) -> Seq<char>
    decreases s.len(),
{
    if s.len() == 0 {
        Seq::empty()
    } else {
        spec_json_escape(s.drop_last()) + json_escape_char(s.last())
    }
}

/// Appends the escaped form of `s` to `out`.
pub fn push_json_escaped(out: &mut String, s: &str)
    ensures
        final(out)@ == old(out)@ + spec_json_escape(s@),
{
    let chars = s.chars();
    assert(s@.take(0) =~= Seq::<char>::empty());
    assert(out@ =~= old(out)@ + spec_json_escape(s@.take(0)));
    for c in it: chars
        invariant
            it.seq() == s@,
            out@ == old(out)@ + spec_json_escape(s@.take(it.index() as int)),
    {
        let ghost before = out@;
        proof {
            let i = it.index() as int;
            assert(s@.take(i + 1).drop_last() =~= s@.take(i));
            assert(s@.take(i + 1).last() == c);
        }
        if c == '\\' {
            out.push('\\');
            out.push('\\');
        } else if c == '"' {
            out.push('\\');
            out.push('"');
        } else if c == '\n' {
            out.push('\\');
            out.push('n');
        } else if c == '\r' {
            out.push('\\');
            out.push('r');
        } else if c == '\t' {
            out.push('\\');
            out.push('t');
        } else {
            out.push(c);
        }
        assert(out@ =~= before + json_escape_char(c));
        assert(out@ =~= old(out)@ + spec_json_escape(s@.take(it.index() + 1)));
    }
    assert(s@.take(s@.len() as int) =~= s@);
}

/// The escaped form of `s` in a document.
pub fn json_escape(s: &str) -> (r: String)
    ensures
        r@ == spec_json_escape(s@),
{
    let mut out = String::new();
    push_json_escaped(&mut out, s);
    assert(out@ =~= spec_json_escape(s@));
    out
}

/// The texts of `items`, each escaped and between quotes, with commas
/// between them.
pub open spec fn quoted_list(items: Seq<Seq<char>>) -> Seq<char>
    decreases items.len(),
{
    if items.len() == 0 {
        Seq::empty()
    } else if items.len() == 1 {
        seq!['"'] + spec_json_escape(items[0]) + seq!['"']
    } else {
        quoted_list(items.drop_last()) + seq![','] + seq!['"'] + spec_json_escape(items.last())
            + seq!['"']
    }
}

/// Appends the quoted list of `items` to `out`.
pub fn push_quoted_list(out: &mut String, items: &[String])
    ensures
        final(out)@ == old(out)@ + quoted_list(string_views(items@)),
{
    let mut i: usize = 0;
    assert(string_views(items@).take(0) =~= Seq::<Seq<char>>::empty());
    assert(out@ =~= old(out)@ + quoted_list(string_views(items@).take(0)));
    while i < items.len()
        invariant
            i <= items.len(),
            out@ == old(out)@ + quoted_list(string_views(items@).take(i as int)),
        decreases items.len() - i,
    {
        let ghost before = out@;
        let ghost head = string_views(items@).take(i as int);
        let ghost next = string_views(items@).take(i + 1);
        proof {
            assert(next.drop_last() =~= head);
            assert(next.last() == items@[i as int]@);
            assert(next[0] == string_views(items@)[0]);
        }
        if i > 0 {
            out.push(',');
        }
        out.push('"');
        push_json_escaped(out, items[i].as_str());
        out.push('"');
        proof {
            if i == 0 {
                assert(head =~= Seq::<Seq<char>>::empty());
                assert(out@ =~= old(out)@ + quoted_list(next));
            } else {
                assert(out@ =~= old(out)@ + quoted_list(next));
            }
        }
        i += 1;
    }
    assert(string_views(items@).take(items.len() as int) =~= string_views(items@));
}

/// How a truth value is written in a document.
pub open spec fn bool_text(b: bool) -> Seq<char> {
    if b {
        "true"@
    } else {
        "false"@
    }
}

/// The document that reports a network setup and the status of the
/// interface: the setup, the status, whether the setup was saved, and what
/// was found wrong with it, every text escaped.
pub open spec fn spec_network_json(
    c: NetworkConfigView,
    s: NetworkStatusView,
    saved: bool,
    errors: Seq<Seq<char>>,
) -> Seq<char> {
    "{\"config\":{\"mode\":\""@ + c.mode.name() + "\",\"ipaddr\":\""@ + spec_json_escape(c.ipaddr)
        + "\",\"netmask\":\""@ + spec_json_escape(c.netmask) + "\",\"gateway\":\""@
        + spec_json_escape(c.gateway) + "\",\"dns_primary\":\""@ + spec_json_escape(c.dns_primary)
        + "\",\"dns_secondary\":\""@ + spec_json_escape(c.dns_secondary)
        + "\"},\"status\":{\"ip\":\""@ + spec_json_escape(s.ip) + "\",\"netmask\":\""@
        + spec_json_escape(s.netmask) + "\",\"gateway\":\""@ + spec_json_escape(s.gateway)
        + "\",\"dns\":["@ + quoted_list(s.dns) + "],\"is_up\":"@ + bool_text(s.is_up)
        + "},\"saved\":"@ + bool_text(saved) + ",\"errors\":["@ + quoted_list(errors) + "]}"@
}

/// Appends how `b` is written in a document to `out`.
fn push_bool(out: &mut String, b: bool)
    ensures
        final(out)@ == old(out)@ + bool_text(b),
{
    if b {
        out.append("true");
    } else {
        out.append("false");
    }
}

/// The document that reports `config` and `status`.
pub fn format_network_json(
    config: &NetworkConfig,
    status: &NetworkStatus,
    saved: bool,
    errors: &[String],
) -> (r: String)
    ensures
        r@ == spec_network_json(config@, status@, saved, string_views(errors@)),
{
    let mut out = "{\"config\":{\"mode\":\"".to_owned();
    out.append(config.mode.as_str());
    out.append("\",\"ipaddr\":\"");
    push_json_escaped(&mut out, config.ipaddr.as_str());
    out.append("\",\"netmask\":\"");
    push_json_escaped(&mut out, config.netmask.as_str());
    out.append("\",\"gateway\":\"");
    push_json_escaped(&mut out, config.gateway.as_str());
    out.append("\",\"dns_primary\":\"");
    push_json_escaped(&mut out, config.dns_primary.as_str());
    out.append("\",\"dns_secondary\":\"");
    push_json_escaped(&mut out, config.dns_secondary.as_str());
    out.append("\"},\"status\":{\"ip\":\"");
    push_json_escaped(&mut out, status.ip.as_str());
    out.append("\",\"netmask\":\"");
    push_json_escaped(&mut out, status.netmask.as_str());
    out.append("\",\"gateway\":\"");
    push_json_escaped(&mut out, status.gateway.as_str());
    out.append("\",\"dns\":[");
    push_quoted_list(&mut out, status.dns.as_slice());
    out.append("],\"is_up\":");
    push_bool(&mut out, status.is_up);
    out.append("},\"saved\":");
    push_bool(&mut out, saved);
    out.append(",\"errors\":[");
    push_quoted_list(&mut out, errors);
    out.append("]}");
    out
}

/// What a request asks for.
#[derive(Clone, Copy, Debug, PartialEq, Eq, Structural)]
pub enum Route {
    /// The page that shows the host's metrics.
    Monitor,
    /// The settings form was posted.
    SaveSettings,
    /// The page that shows the settings form.
    ShowSettings,
    /// The old address of the network page, which now leads to the settings.
    NetworkRedirect,
    /// A network setup was posted as a document.
    SaveNetwork,
    /// The network setup and status as a document.
    ShowNetwork,
    /// Nothing that the dashboard serves.
    NotFound,
}

/// The route of a request for `url`, posted or not.
pub open spec fn spec_route(url: Seq<char>, is_post: bool) -> Route {
    if url == "/"@ {
        Route::Monitor
    } else if url == "/config"@ {
        if is_post {
            Route::SaveSettings
        } else {
            Route::ShowSettings
        }
    } else if url == "/network"@ {
        Route::NetworkRedirect
    } else if url == "/api/network"@ {
        if is_post {
            Route::SaveNetwork
        } else {
            Route::ShowNetwork
        }
    } else {
        Route::NotFound
    }
}

/// The route of a request for `url`, posted or not.
pub fn route(url: &str, is_post: bool) -> (r: Route)
    ensures
        r == spec_route(url@, is_post),
{
    if str_is(url, "/") {
        Route::Monitor
    } else if str_is(url, "/config") {
        if is_post {
            Route::SaveSettings
        } else {
            Route::ShowSettings
        }
    } else if str_is(url, "/network") {
        Route::NetworkRedirect
    } else if str_is(url, "/api/network") {
        if is_post {
            Route::SaveNetwork
        } else {
            Route::ShowNetwork
        }
    } else {
        Route::NotFound
    }
}

} // verus!
