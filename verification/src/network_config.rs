//! The configuration of the WAN interface: its two modes, the addresses of a
//! static setup, and the rules that a static setup must meet.

use vstd::prelude::*;
use vstd::string::StringExecFns;
use crate::text::{
    chars_contain, chars_start_with, contains, decimal, from_chars, lines, parse_number,
    parse_unsigned, push_decimal, split, split_chars, split_lines, split_whitespace, starts_with,
    str_is, string_views, to_chars, trim, trim_chars, views, word_at, word_or_empty, words,
    or_text, lemma_split_nonempty,
};
use crate::uci::{command_views, push_command, Command, CommandView};

verus! {

/// How the interface gets its address.
#[derive(Clone, Copy, Debug, PartialEq, Eq, Structural)]
pub enum NetworkMode {
    Dhcp,
    Static,
}

impl NetworkMode {
    /// The name of the mode in the system configuration.
    pub open spec fn name(self) -> Seq<char> {
        match self {
            NetworkMode::Dhcp => "dhcp"@,
            NetworkMode::Static => "static"@,
        }
    }

    /// The mode that `s` names: static for `static`, and DHCP for anything
    /// else.
    pub open spec fn spec_from_str(s: Seq<char>) -> NetworkMode {
        if s == "static"@ {
            NetworkMode::Static
        } else {
            NetworkMode::Dhcp
        }
    }

    /// The name of the mode in the system configuration.
    pub fn as_str(&self) -> (r: &'static str)
        ensures
            r@ == self.name(),
    {
        match self {
            NetworkMode::Dhcp => "dhcp",
            NetworkMode::Static => "static",
        }
    }

    /// The mode that `s` names.
    pub fn from_str(s: &str) -> (r: Self)
        ensures
            r == Self::spec_from_str(s@),
    {
        if str_is(s, "static") {
            NetworkMode::Static
        } else {
            NetworkMode::Dhcp
        }
    }
}

/// Naming a mode and reading the name back gives the mode.
pub proof fn lemma_mode_name_round_trip(mode: NetworkMode)
    ensures
        NetworkMode::spec_from_str(mode.name()) == mode,
{
    reveal_strlit("dhcp");
    reveal_strlit("static");
    if mode == NetworkMode::Dhcp {
        assert("dhcp"@.len() != "static"@.len());
    }
}

/// The setup of the WAN interface.
#[derive(Debug)]
pub struct NetworkConfig {
    pub mode: NetworkMode,
    pub ipaddr: String,
    pub netmask: String,
    pub gateway: String,
    pub dns_primary: String,
    pub dns_secondary: String,
}

/// Mathematical value of a [`NetworkConfig`].
pub struct NetworkConfigView {
    pub mode: NetworkMode,
    pub ipaddr: Seq<char>,
    pub netmask: Seq<char>,
    pub gateway: Seq<char>,
    pub dns_primary: Seq<char>,
    pub dns_secondary: Seq<char>,
}

impl View for NetworkConfig {
    type V = NetworkConfigView;

    open spec fn view(&self) -> NetworkConfigView {
        NetworkConfigView {
            mode: self.mode,
            ipaddr: self.ipaddr@,
            netmask: self.netmask@,
            gateway: self.gateway@,
            dns_primary: self.dns_primary@,
            dns_secondary: self.dns_secondary@,
        }
    }
}

/// The setup of an interface that was never set up: DHCP, with the netmask of
/// a network of 256 addresses.
pub open spec fn default_network() -> NetworkConfigView {
    NetworkConfigView {
        mode: NetworkMode::Dhcp,
        ipaddr: Seq::empty(),
        netmask: "255.255.255.0"@,
        gateway: Seq::empty(),
        dns_primary: Seq::empty(),
        dns_secondary: Seq::empty(),
    }
}

impl Default for NetworkConfig {
    fn default() -> (r: Self)
        ensures
            r@ == default_network(),
    {
        NetworkConfig {
            mode: NetworkMode::Dhcp,
            ipaddr: String::new(),
            netmask: "255.255.255.0".to_owned(),
            gateway: String::new(),
            dns_primary: String::new(),
            dns_secondary: String::new(),
        }
    }
}

impl Clone for NetworkConfig {
    fn clone(&self) -> (r: Self)
        ensures
            r@ == self@,
    {
        NetworkConfig {
            mode: self.mode,
            ipaddr: self.ipaddr.clone(),
            netmask: self.netmask.clone(),
            gateway: self.gateway.clone(),
            dns_primary: self.dns_primary.clone(),
            dns_secondary: self.dns_secondary.clone(),
        }
    }
}

/// The number of one part of a dotted address, where the part is the decimal
/// numeral of a number up to 255.
pub open spec fn parse_octet(s: Seq<char>) -> Option<u8> {
    match parse_unsigned(s, 255) {
        Some(v) => Some(v as u8),
        None => None,
    }
}

/// Whether `ip` is a dotted address: four parts between dots, each the
/// numeral of a number up to 255.
pub open spec fn spec_is_valid_ipv4(ip: Seq<char>) -> bool {
    let parts = split(ip, '.');
    parts.len() == 4 && forall|i: int| 0 <= i < 4 ==> parse_octet(#[trigger] parts[i]) is Some
}

/// The numbers of those parts that are numerals of a number up to 255, in
/// order. A part that is none is passed over.
pub open spec fn octets_of(parts: Seq<Seq<char>>) -> Seq<u8>
    decreases parts.len(),
{
    if parts.len() == 0 {
        Seq::empty()
    } else {
        match parse_octet(parts.last()) {
            Some(o) => octets_of(parts.drop_last()).push(o),
            None => octets_of(parts.drop_last()),
        }
    }
}

/// The 32-bit number of four octets, the first being the most significant.
pub open spec fn pack(a: u8, b: u8, c: u8, d: u8) -> u32 {
    (((a as int * 256 + b as int) * 256 + c as int) * 256 + d as int) as u32
}

/// The 32-bit number of a dotted text: that of the four numbers found between
/// its dots, where exactly four are found.
pub open spec fn spec_ip_to_u32(ip: Seq<char>) -> Option<u32> {
    let o = octets_of(split(ip, '.'));
    if o.len() == 4 {
        Some(pack(o[0], o[1], o[2], o[3]))
    } else {
        None
    }
}

/// The netmask of a prefix of `cidr` bits: that many ones, then zeros.
pub open spec fn prefix_mask(cidr: u8) -> u32 {
    if cidr == 0 {
        0
    } else if cidr >= 32 {
        0xffff_ffff
    } else {
        0xffff_ffffu32 << (32 - cidr) as u32
    }
}

/// The first prefix length from `from` on whose netmask is `mask`.
pub open spec fn find_prefix(mask: u32, from: u8) -> Option<u8>
    decreases 33 - from,
{
    if from > 32 {
        None
    } else if prefix_mask(from) == mask {
        Some(from)
    } else {
        find_prefix(mask, (from + 1) as u8)
    }
}

/// The prefix length of a dotted netmask: the number of its leading ones,
/// where it reads as a 32-bit number that is ones followed by zeros.
pub open spec fn spec_netmask_to_cidr(mask: Seq<char>) -> Option<u8> {
    match spec_ip_to_u32(mask) {
        Some(m) => find_prefix(m, 0),
        None => None,
    }
}

/// Whether `mask` is a netmask.
pub open spec fn spec_is_valid_netmask(mask: Seq<char>) -> bool {
    spec_netmask_to_cidr(mask) is Some
}

/// The netmask of the LAN, a network of 256 addresses.
pub const LAN_MASK: u32 = 0xffff_ff00;

/// The network address of the LAN, 10.10.10.0.
pub const LAN_NETWORK: u32 = 0x0a0a_0a00;

/// Whether `ip` is an address of the LAN.
pub open spec fn spec_conflicts_with_lan(ip: Seq<char>) -> bool {
    match spec_ip_to_u32(ip) {
        Some(v) => v & LAN_MASK == LAN_NETWORK,
        None => false,
    }
}

/// Whether `gw` lies in the network that `ip` and `mask` give: the two
/// addresses read, `mask` is a netmask, and the addresses agree on every bit
/// of it.
pub open spec fn spec_gateway_in_subnet(ip: Seq<char>, mask: Seq<char>, gw: Seq<char>) -> bool {
    match (spec_ip_to_u32(ip), spec_ip_to_u32(gw), spec_ip_to_u32(mask)) {
        (Some(i), Some(g), Some(m)) => spec_is_valid_netmask(mask) && i & m == g & m,
        _ => false,
    }
}

/// The netmasks of the prefix lengths in common use, and of the shortest and
/// the longest.
pub proof fn lemma_prefix_mask_table()
    ensures
        prefix_mask(0) == 0x0000_0000,
        prefix_mask(1) == 0x8000_0000,
        prefix_mask(8) == 0xff00_0000,
        prefix_mask(16) == 0xffff_0000,
        prefix_mask(24) == 0xffff_ff00,
        prefix_mask(25) == 0xffff_ff80,
        prefix_mask(30) == 0xffff_fffc,
        prefix_mask(31) == 0xffff_fffe,
        prefix_mask(32) == 0xffff_ffff,
{
    assert(0xffff_ffffu32 << 31u32 == 0x8000_0000u32) by (bit_vector);
    assert(0xffff_ffffu32 << 24u32 == 0xff00_0000u32) by (bit_vector);
    assert(0xffff_ffffu32 << 16u32 == 0xffff_0000u32) by (bit_vector);
    assert(0xffff_ffffu32 << 8u32 == 0xffff_ff00u32) by (bit_vector);
    assert(0xffff_ffffu32 << 7u32 == 0xffff_ff80u32) by (bit_vector);
    assert(0xffff_ffffu32 << 2u32 == 0xffff_fffcu32) by (bit_vector);
    assert(0xffff_ffffu32 << 1u32 == 0xffff_fffeu32) by (bit_vector);
}

/// A longer prefix has every bit of a shorter one: its netmask is the other
/// with more ones behind them.
pub proof fn lemma_prefix_mask_grows(shorter: u8, longer: u8)
    requires
        shorter <= longer <= 32,
    ensures
        prefix_mask(longer) & prefix_mask(shorter) == prefix_mask(shorter),
{
    if shorter == 0 {
        let l = prefix_mask(longer);
        assert(l & 0 == 0) by (bit_vector);
    } else if longer >= 32 {
        let s = prefix_mask(shorter);
        assert(0xffff_ffffu32 & s == s) by (bit_vector);
    } else {
        let a: u32 = (32 - shorter) as u32;
        let b: u32 = (32 - longer) as u32;
        assert((0xffff_ffffu32 << b) & (0xffff_ffffu32 << a) == 0xffff_ffffu32 << a)
            by (bit_vector)
            requires
                b <= a < 32,
        ;
    }
}

/// The dotted text of a 32-bit number.
pub open spec fn dotted(v: u32) -> Seq<char> {
    decimal(((v >> 24) & 0xff) as nat) + seq!['.'] + decimal(((v >> 16) & 0xff) as nat) + seq![
        '.',
    ] + decimal(((v >> 8) & 0xff) as nat) + seq!['.'] + decimal((v & 0xff) as nat)
}

/// The octet that `part` writes.
fn octet(part: &Vec<char>) -> (r: Option<u8>)
    ensures
        r == parse_octet(part@),
{
    match parse_number(part, 255) {
        Some(v) => Some(v as u8),
        None => None,
    }
}

/// The octets found between the dots of `s`.
fn octets(s: &str) -> (r: Vec<u8>)
    ensures
        r@ == octets_of(split(s@, '.')),
{
    let chars = to_chars(s);
    let parts = split_chars(&chars, '.');
    let mut r: Vec<u8> = Vec::new();
    let mut i: usize = 0;
    while i < parts.len()
        invariant
            i <= parts.len(),
            views(parts@) == split(s@, '.'),
            r@ == octets_of(views(parts@).take(i as int)),
        decreases parts.len() - i,
    {
        proof {
            assert(views(parts@).take(i + 1).drop_last() =~= views(parts@).take(i as int));
            assert(views(parts@).take(i + 1).last() == parts@[i as int]@);
        }
        match octet(&parts[i]) {
            Some(o) => {
                r.push(o);
            },
            None => {},
        }
        i += 1;
    }
    assert(views(parts@).take(parts.len() as int) =~= views(parts@));
    r
}

/// The netmask of a prefix of `cidr` bits.
pub fn mask_of(cidr: u8) -> (r: u32)
    ensures
        r == prefix_mask(cidr),
{
    if cidr == 0 {
        0
    } else if cidr >= 32 {
        0xffff_ffff
    } else {
        0xffff_ffffu32 << (32 - cidr) as u32
    }
}

/// Converts a prefix length to a dotted netmask.
pub fn cidr_to_netmask(cidr: u8) -> (r: String)
    ensures
        r@ == dotted(prefix_mask(cidr)),
{
    let mask: u32 = mask_of(cidr);
    let mut out = String::new();
    push_decimal(&mut out, ((mask >> 24) & 0xff) as u64);
    out.push('.');
    push_decimal(&mut out, ((mask >> 16) & 0xff) as u64);
    out.push('.');
    push_decimal(&mut out, ((mask >> 8) & 0xff) as u64);
    out.push('.');
    push_decimal(&mut out, (mask & 0xff) as u64);
    assert(out@ =~= dotted(mask));
    out
}

/// Whether `ip` is a dotted address.
pub fn is_valid_ipv4(ip: &str) -> (r: bool)
    ensures
        r == spec_is_valid_ipv4(ip@),
{
    let chars = to_chars(ip);
    let parts = split_chars(&chars, '.');
    if parts.len() != 4 {
        return false;
    }
    let mut i: usize = 0;
    while i < 4
        invariant
            i <= 4,
            parts.len() == 4,
            views(parts@) == split(ip@, '.'),
            forall|j: int| 0 <= j < i ==> parse_octet(#[trigger] split(ip@, '.')[j]) is Some,
        decreases 4 - i,
    {
        assert(views(parts@)[i as int] == parts@[i as int]@);
        if octet(&parts[i]).is_none() {
            return false;
        }
        i += 1;
    }
    true
}

/// Reads a dotted text as a 32-bit number.
pub fn ip_to_u32(ip: &str) -> (r: Option<u32>)
    ensures
        r == spec_ip_to_u32(ip@),
{
    let o = octets(ip);
    if o.len() != 4 {
        return None;
    }
    let a: u32 = o[0] as u32;
    let b: u32 = o[1] as u32;
    let c: u32 = o[2] as u32;
    let d: u32 = o[3] as u32;
    Some(((a * 256 + b) * 256 + c) * 256 + d)
}

/// Converts a dotted netmask to its prefix length.
pub fn netmask_to_cidr(mask: &str) -> (r: Option<u8>)
    ensures
        r == spec_netmask_to_cidr(mask@),
{
    let m = match ip_to_u32(mask) {
        Some(m) => m,
        None => {
            return None;
        },
    };
    let mut k: u8 = 0;
    while k <= 32
        invariant
            k <= 33,
            spec_ip_to_u32(mask@) == Some(m),
            find_prefix(m, 0) == find_prefix(m, k),
        decreases 33 - k,
    {
        if mask_of(k) == m {
            return Some(k);
        }
        k += 1;
    }
    None
}

/// Whether `mask` is a netmask: ones followed by zeros.
pub fn is_valid_netmask(mask: &str) -> (r: bool)
    ensures
        r == spec_is_valid_netmask(mask@),
{
    netmask_to_cidr(mask).is_some()
}

/// Whether `ip` is an address of the LAN, 10.10.10.0/24.
pub fn conflicts_with_lan(ip: &str) -> (r: bool)
    ensures
        r == spec_conflicts_with_lan(ip@),
{
    match ip_to_u32(ip) {
        Some(v) => v & LAN_MASK == LAN_NETWORK,
        None => false,
    }
}

/// Whether the gateway `gw` lies in the network of `ip` and `mask`.
pub fn gateway_in_subnet(ip: &str, mask: &str, gw: &str) -> (r: bool)
    ensures
        r == spec_gateway_in_subnet(ip@, mask@, gw@),
{
    let i = match ip_to_u32(ip) {
        Some(v) => v,
        None => {
            return false;
        },
    };
    let g = match ip_to_u32(gw) {
        Some(v) => v,
        None => {
            return false;
        },
    };
    let m = match ip_to_u32(mask) {
        Some(v) => v,
        None => {
            return false;
        },
    };
    is_valid_netmask(mask) && i & m == g & m
}

/// The list that holds `msg` where `cond` holds, and nothing where it does
/// not.
pub open spec fn when(cond: bool, msg: Seq<char>) -> Seq<Seq<char>> {
    if cond {
        seq![msg]
    } else {
        Seq::empty()
    }
}

/// What is wrong with a static setup, in the order in which it is reported:
/// the address, the netmask and the gateway must read; the address must not
/// lie in the LAN; the gateway must lie in the network of the address; and a
/// name server that is given must read as an address.
pub open spec fn spec_validation_errors(c: NetworkConfigView) -> Seq<Seq<char>> {
    let ip_ok = spec_is_valid_ipv4(c.ipaddr);
    let mask_ok = spec_is_valid_netmask(c.netmask);
    let gw_ok = spec_is_valid_ipv4(c.gateway);
    when(!ip_ok, "Invalid IP address format"@) + when(!mask_ok, "Invalid subnet mask"@) + when(
        !gw_ok,
        "Invalid gateway format"@,
    ) + when(ip_ok && spec_conflicts_with_lan(c.ipaddr), "IP conflicts with LAN (10.10.10.0/24)"@)
        + when(
        ip_ok && mask_ok && gw_ok && !spec_gateway_in_subnet(c.ipaddr, c.netmask, c.gateway),
        "Gateway not in same subnet"@,
    ) + when(c.dns_primary.len() > 0 && !spec_is_valid_ipv4(c.dns_primary), "Invalid primary DNS"@)
        + when(
        c.dns_secondary.len() > 0 && !spec_is_valid_ipv4(c.dns_secondary),
        "Invalid secondary DNS"@,
    )
}

/// Adds `msg` to `errors` where `cond` holds.
fn note(errors: &mut Vec<String>, cond: bool, msg: &str)
    ensures
        string_views(final(errors)@) == string_views(old(errors)@) + when(cond, msg@),
{
    if cond {
        let ghost before = errors@;
        errors.push(msg.to_owned());
        assert(string_views(errors@) =~= string_views(before) + when(cond, msg@));
    } else {
        assert(string_views(errors@) =~= string_views(errors@) + when(cond, msg@));
    }
}

/// Checks a setup. A DHCP setup is always in order. A static setup is in
/// order where nothing is wrong with it; where something is, everything that
/// is wrong is reported, in a fixed order.
pub fn validate_config(config: &NetworkConfig) -> (r: Result<(), Vec<String>>)
    ensures
        r is Ok <==> (config@.mode == NetworkMode::Dhcp || spec_validation_errors(config@).len()
            == 0),
        r matches Err(errors) ==> string_views(errors@) == spec_validation_errors(config@),
{
    if config.mode == NetworkMode::Dhcp {
        return Ok(());
    }
    let ip_ok = is_valid_ipv4(config.ipaddr.as_str());
    let mask_ok = is_valid_netmask(config.netmask.as_str());
    let gw_ok = is_valid_ipv4(config.gateway.as_str());
    let mut errors: Vec<String> = Vec::new();
    assert(string_views(errors@) =~= Seq::<Seq<char>>::empty());
    note(&mut errors, !ip_ok, "Invalid IP address format");
    note(&mut errors, !mask_ok, "Invalid subnet mask");
    note(&mut errors, !gw_ok, "Invalid gateway format");
    note(
        &mut errors,
        ip_ok && conflicts_with_lan(config.ipaddr.as_str()),
        "IP conflicts with LAN (10.10.10.0/24)",
    );
    note(
        &mut errors,
        ip_ok && mask_ok && gw_ok && !gateway_in_subnet(
            config.ipaddr.as_str(),
            config.netmask.as_str(),
            config.gateway.as_str(),
        ),
        "Gateway not in same subnet",
    );
    note(
        &mut errors,
        !config.dns_primary.as_str().is_empty() && !is_valid_ipv4(config.dns_primary.as_str()),
        "Invalid primary DNS",
    );
    note(
        &mut errors,
        !config.dns_secondary.as_str().is_empty() && !is_valid_ipv4(config.dns_secondary.as_str()),
        "Invalid secondary DNS",
    );
    assert(string_views(errors@) =~= spec_validation_errors(config@));
    if errors.len() == 0 {
        Ok(())
    } else {
        Err(errors)
    }
}

/// The text of an optional string.
pub open spec fn opt_view(value: Option<String>) -> Option<Seq<char>> {
    match value {
        Some(v) => Some(v@),
        None => None,
    }
}

/// The text of an optional string slice.
pub open spec fn opt_str_view(value: Option<&str>) -> Option<Seq<char>> {
    match value {
        Some(v) => Some(v@),
        None => None,
    }
}

/// The setup that the system's configuration holds, from the values read
/// for the protocol, the address, the netmask, the gateway and the name
/// servers; `None` stands for a value that could not be read. The name
/// servers are the first two words of their value.
pub open spec fn spec_load(
    proto: Option<Seq<char>>,
    ipaddr: Option<Seq<char>>,
    netmask: Option<Seq<char>>,
    gateway: Option<Seq<char>>,
    dns: Option<Seq<char>>,
) -> NetworkConfigView {
    NetworkConfigView {
        mode: match proto {
            Some(p) => NetworkMode::spec_from_str(p),
            None => NetworkMode::Dhcp,
        },
        ipaddr: or_text(ipaddr, Seq::empty()),
        netmask: or_text(netmask, "255.255.255.0"@),
        gateway: or_text(gateway, Seq::empty()),
        dns_primary: or_text(word_at(or_text(dns, Seq::empty()), 0), Seq::empty()),
        dns_secondary: or_text(word_at(or_text(dns, Seq::empty()), 1), Seq::empty()),
    }
}

/// The name servers of a static setup as one value: the first, or both with
/// a space between them.
pub open spec fn spec_dns_value(c: NetworkConfigView) -> Seq<char> {
    if c.dns_secondary.len() == 0 {
        c.dns_primary
    } else {
        c.dns_primary + seq![' '] + c.dns_secondary
    }
}

/// The steps that write a setup to the system's configuration and apply it.
/// The protocol is set first. A static setup then sets the address, the
/// netmask, the gateway and, where one is given, the name servers; a DHCP
/// setup deletes these four. The changes are committed, and the interface is
/// taken down and brought up again.
pub open spec fn spec_save_plan(c: NetworkConfigView) -> Seq<CommandView> {
    let head = seq![CommandView::Assign { key: "network.wan.proto"@, value: c.mode.name() }];
    let body = match c.mode {
        NetworkMode::Static => seq![
            CommandView::Assign { key: "network.wan.ipaddr"@, value: c.ipaddr },
            CommandView::Assign { key: "network.wan.netmask"@, value: c.netmask },
            CommandView::Assign { key: "network.wan.gateway"@, value: c.gateway },
        ] + (if spec_dns_value(c).len() > 0 {
            seq![CommandView::Assign { key: "network.wan.dns"@, value: spec_dns_value(c) }]
        } else {
            Seq::empty()
        }),
        NetworkMode::Dhcp => seq![
            CommandView::Delete { key: "network.wan.ipaddr"@ },
            CommandView::Delete { key: "network.wan.netmask"@ },
            CommandView::Delete { key: "network.wan.gateway"@ },
            CommandView::Delete { key: "network.wan.dns"@ },
        ],
    };
    let tail = seq![
        CommandView::Commit { config: "network"@ },
        CommandView::InterfaceDown { name: "wan"@ },
        CommandView::InterfaceUp { name: "wan"@ },
    ];
    head + body + tail
}

/// The value of `value`, or `fallback` where there is none.
fn or_default(value: Option<String>, fallback: &str) -> (r: String)
    ensures
        r@ == or_text(opt_view(value), fallback@),
{
    match value {
        Some(v) => v,
        None => fallback.to_owned(),
    }
}

impl NetworkConfig {
    /// The setup that the system's configuration holds, from the values that
    /// were read for `network.wan.proto`, `network.wan.ipaddr`,
    /// `network.wan.netmask`, `network.wan.gateway` and `network.wan.dns`.
    pub fn load_from_uci(
        proto: Option<String>,
        ipaddr: Option<String>,
        netmask: Option<String>,
        gateway: Option<String>,
        dns: Option<String>,
    ) -> (r: Self)
        ensures
            r@ == spec_load(
                opt_view(proto),
                opt_view(ipaddr),
                opt_view(netmask),
                opt_view(gateway),
                opt_view(dns),
            ),
    {
        let mode = match proto {
            Some(p) => NetworkMode::from_str(p.as_str()),
            None => NetworkMode::Dhcp,
        };
        let dns_value = or_default(dns, "");
        proof {
            reveal_strlit("");
            assert(""@ =~= Seq::<char>::empty());
        }
        let dns_chars = to_chars(dns_value.as_str());
        NetworkConfig {
            mode,
            ipaddr: or_default(ipaddr, ""),
            netmask: or_default(netmask, "255.255.255.0"),
            gateway: or_default(gateway, ""),
            dns_primary: word_or_empty(&dns_chars, 0),
            dns_secondary: word_or_empty(&dns_chars, 1),
        }
    }

    /// The steps that write this setup to the system's configuration and
    /// apply it, in the order in which they are to be run. The change stops
    /// at the first step that fails and must succeed.
    pub fn save_to_uci(&self) -> (plan: Vec<Command>)
        ensures
            command_views(plan@) == spec_save_plan(self@),
    {
        let mut plan: Vec<Command> = Vec::new();
        assert(command_views(plan@) =~= Seq::<CommandView>::empty());
        push_command(
            &mut plan,
            Command::Assign {
                key: "network.wan.proto".to_owned(),
                value: self.mode.as_str().to_owned(),
            },
        );
        match self.mode {
            NetworkMode::Static => {
                push_command(
                    &mut plan,
                    Command::Assign {
                        key: "network.wan.ipaddr".to_owned(),
                        value: self.ipaddr.clone(),
                    },
                );
                push_command(
                    &mut plan,
                    Command::Assign {
                        key: "network.wan.netmask".to_owned(),
                        value: self.netmask.clone(),
                    },
                );
                push_command(
                    &mut plan,
                    Command::Assign {
                        key: "network.wan.gateway".to_owned(),
                        value: self.gateway.clone(),
                    },
                );
                let mut dns = self.dns_primary.clone();
                if !self.dns_secondary.as_str().is_empty() {
                    dns.push(' ');
                    dns.append(self.dns_secondary.as_str());
                }
                assert(dns@ =~= spec_dns_value(self@));
                if !dns.as_str().is_empty() {
                    push_command(
                        &mut plan,
                        Command::Assign { key: "network.wan.dns".to_owned(), value: dns },
                    );
                }
            },
            NetworkMode::Dhcp => {
                push_command(&mut plan, Command::Delete { key: "network.wan.ipaddr".to_owned() });
                push_command(&mut plan, Command::Delete { key: "network.wan.netmask".to_owned() });
                push_command(&mut plan, Command::Delete { key: "network.wan.gateway".to_owned() });
                push_command(&mut plan, Command::Delete { key: "network.wan.dns".to_owned() });
            },
        }
        push_command(&mut plan, Command::Commit { config: "network".to_owned() });
        push_command(&mut plan, Command::InterfaceDown { name: "wan".to_owned() });
        push_command(&mut plan, Command::InterfaceUp { name: "wan".to_owned() });
        assert(command_views(plan@) =~= spec_save_plan(self@));
        plan
    }
}

/// What the interface is found to be doing.
#[derive(Debug)]
pub struct NetworkStatus {
    pub ip: String,
    pub netmask: String,
    pub gateway: String,
    pub dns: Vec<String>,
    pub is_up: bool,
}

/// Mathematical value of a [`NetworkStatus`].
pub struct NetworkStatusView {
    pub ip: Seq<char>,
    pub netmask: Seq<char>,
    pub gateway: Seq<char>,
    pub dns: Seq<Seq<char>>,
    pub is_up: bool,
}

impl View for NetworkStatus {
    type V = NetworkStatusView;

    open spec fn view(&self) -> NetworkStatusView {
        NetworkStatusView {
            ip: self.ip@,
            netmask: self.netmask@,
            gateway: self.gateway@,
            dns: string_views(self.dns@),
            is_up: self.is_up,
        }
    }
}

/// The status of an interface of which nothing is known.
pub open spec fn default_status() -> NetworkStatusView {
    NetworkStatusView {
        ip: Seq::empty(),
        netmask: Seq::empty(),
        gateway: Seq::empty(),
        dns: Seq::empty(),
        is_up: false,
    }
}

impl Default for NetworkStatus {
    fn default() -> (r: Self)
        ensures
            r@ == default_status(),
    {
        let r = NetworkStatus {
            ip: String::new(),
            netmask: String::new(),
            gateway: String::new(),
            dns: Vec::new(),
            is_up: false,
        };
        assert(string_views(r.dns@) =~= Seq::<Seq<char>>::empty());
        r
    }
}

/// A copy of a list of strings.
pub fn clone_strings(v: &Vec<String>) -> (r: Vec<String>)
    ensures
        string_views(r@) == string_views(v@),
{
    let mut r: Vec<String> = Vec::new();
    let mut i: usize = 0;
    while i < v.len()
        invariant
            i <= v.len(),
            string_views(r@) == string_views(v@).take(i as int),
        decreases v.len() - i,
    {
        let ghost before = r@;
        let item = v[i].clone();
        r.push(item);
        proof {
            assert(string_views(r@) =~= string_views(before).push(v@[i as int]@));
            assert(string_views(v@).take(i + 1) =~= string_views(v@).take(i as int).push(
                string_views(v@)[i as int],
            ));
        }
        i += 1;
    }
    assert(string_views(v@).take(v.len() as int) =~= string_views(v@));
    r
}

impl Clone for NetworkStatus {
    fn clone(&self) -> (r: Self)
        ensures
            r@ == self@,
    {
        NetworkStatus {
            ip: self.ip.clone(),
            netmask: self.netmask.clone(),
            gateway: self.gateway.clone(),
            dns: clone_strings(&self.dns),
            is_up: self.is_up,
        }
    }
}

/// The first of `lines` that begins with `prefix`, where there is one.
pub open spec fn first_starting_with(lines: Seq<Seq<char>>, prefix: Seq<char>) -> Option<Seq<char>>
    decreases lines.len(),
{
    if lines.len() == 0 {
        None
    } else if starts_with(lines[0], prefix) {
        Some(lines[0])
    } else {
        first_starting_with(lines.skip(1), prefix)
    }
}

/// The lines of `s`, each without the white space around it.
pub open spec fn trimmed_lines(s: Seq<char>) -> Seq<Seq<char>> {
    lines(s).map_values(|l: Seq<char>| trim(l))
}

/// The address with its prefix length, as the listing of the interface's
/// addresses gives it: the second word of the first line that, white space
/// aside, begins with `inet `.
pub open spec fn spec_inet_address(listing: Seq<char>) -> Option<Seq<char>> {
    match first_starting_with(trimmed_lines(listing), "inet "@) {
        Some(line) => word_at(line, 1),
        None => None,
    }
}

/// The address of the interface: what stands before the first slash of the
/// address found in the listing.
pub open spec fn spec_status_ip(listing: Seq<char>) -> Seq<char> {
    match spec_inet_address(listing) {
        Some(a) => split(a, '/')[0],
        None => Seq::empty(),
    }
}

/// The netmask of the interface: that of the prefix length that follows the
/// first slash of the address found in the listing, and that of 24 bits
/// where what follows is no number up to 255.
pub open spec fn spec_status_netmask(listing: Seq<char>) -> Seq<char> {
    match spec_inet_address(listing) {
        Some(a) => {
            let parts = split(a, '/');
            if parts.len() >= 2 {
                dotted(
                    prefix_mask(
                        match parse_octet(parts[1]) {
                            Some(k) => k,
                            None => 24u8,
                        },
                    ),
                )
            } else {
                Seq::empty()
            }
        },
        None => Seq::empty(),
    }
}

/// The gateway: the third word of the first line of the routing table that
/// begins with `default via `.
pub open spec fn spec_status_gateway(routes: Seq<char>) -> Seq<char> {
    match first_starting_with(lines(routes), "default via "@) {
        Some(line) => or_text(word_at(line, 2), Seq::empty()),
        None => Seq::empty(),
    }
}

/// The name servers: the second word of every line that begins with
/// `nameserver ` and has one, in order.
pub open spec fn spec_name_servers(lines: Seq<Seq<char>>) -> Seq<Seq<char>>
    decreases lines.len(),
{
    if lines.len() == 0 {
        Seq::empty()
    } else {
        let before = spec_name_servers(lines.drop_last());
        if starts_with(lines.last(), "nameserver "@) && word_at(lines.last(), 1) is Some {
            before.push(word_at(lines.last(), 1)->0)
        } else {
            before
        }
    }
}

/// The status that the three sources give: the listing of the interface's
/// addresses, the routing table and the resolver's file. `None` stands for a
/// source that could not be read; what it would have given stays empty.
pub open spec fn spec_status(
    listing: Option<Seq<char>>,
    routes: Option<Seq<char>>,
    resolver: Option<Seq<char>>,
) -> NetworkStatusView {
    NetworkStatusView {
        ip: match listing {
            Some(l) => spec_status_ip(l),
            None => Seq::empty(),
        },
        netmask: match listing {
            Some(l) => spec_status_netmask(l),
            None => Seq::empty(),
        },
        gateway: match routes {
            Some(r) => spec_status_gateway(r),
            None => Seq::empty(),
        },
        dns: match resolver {
            Some(r) => spec_name_servers(lines(r)),
            None => Seq::empty(),
        },
        is_up: match listing {
            Some(l) => contains(l, "state UP"@),
            None => false,
        },
    }
}

/// The first of `lines` that begins with `prefix`.
fn find_line(lines: &Vec<Vec<char>>, prefix: &str) -> (r: Option<usize>)
    ensures
        r matches Some(i) ==> i < lines.len() && first_starting_with(views(lines@), prefix@)
            == Some(lines@[i as int]@),
        r is None ==> first_starting_with(views(lines@), prefix@) is None,
{
    let p = to_chars(prefix);
    let mut i: usize = 0;
    assert(views(lines@).skip(0) =~= views(lines@));
    while i < lines.len()
        invariant
            i <= lines.len(),
            p@ == prefix@,
            first_starting_with(views(lines@), prefix@) == first_starting_with(
                views(lines@).skip(i as int),
                prefix@,
            ),
        decreases lines.len() - i,
    {
        assert(views(lines@).skip(i as int)[0] == lines@[i as int]@);
        if chars_start_with(&lines[i], &p) {
            return Some(i);
        }
        assert(views(lines@).skip(i as int).skip(1) =~= views(lines@).skip(i + 1));
        i += 1;
    }
    None
}

/// The lines of `s`, each without the white space around it.
fn trim_lines(s: &Vec<char>) -> (r: Vec<Vec<char>>)
    ensures
        views(r@) == trimmed_lines(s@),
{
    let ls = split_lines(s);
    let mut r: Vec<Vec<char>> = Vec::new();
    let mut i: usize = 0;
    while i < ls.len()
        invariant
            i <= ls.len(),
            views(ls@) == lines(s@),
            views(r@) == trimmed_lines(s@).take(i as int),
        decreases ls.len() - i,
    {
        let t = trim_chars(&ls[i]);
        proof {
            assert(views(ls@)[i as int] == ls@[i as int]@);
        }
        let ghost before = r@;
        let ghost text = t@;
        r.push(t);
        proof {
            assert(views(r@) =~= views(before).push(text));
            assert(trimmed_lines(s@)[i as int] == text);
            assert(trimmed_lines(s@).take(i + 1) =~= trimmed_lines(s@).take(i as int).push(
                trimmed_lines(s@)[i as int],
            ));
        }
        i += 1;
    }
    assert(trimmed_lines(s@).take(ls.len() as int) =~= trimmed_lines(s@));
    r
}

/// The name servers that the lines of the resolver's file give.
fn name_servers(lines: &Vec<Vec<char>>) -> (r: Vec<String>)
    ensures
        string_views(r@) == spec_name_servers(views(lines@)),
{
    let p = to_chars("nameserver ");
    let mut r: Vec<String> = Vec::new();
    let mut i: usize = 0;
    assert(string_views(r@) =~= spec_name_servers(views(lines@).take(0)));
    while i < lines.len()
        invariant
            i <= lines.len(),
            p@ == "nameserver "@,
            string_views(r@) == spec_name_servers(views(lines@).take(i as int)),
        decreases lines.len() - i,
    {
        proof {
            assert(views(lines@).take(i + 1).drop_last() =~= views(lines@).take(i as int));
            assert(views(lines@).take(i + 1).last() == lines@[i as int]@);
        }
        if chars_start_with(&lines[i], &p) {
            let w = split_whitespace(&lines[i]);
            if w.len() > 1 {
                assert(views(w@)[1] == w@[1]@);
                let ghost before = r@;
                let ns = from_chars(&w[1]);
                r.push(ns);
                assert(string_views(r@) =~= string_views(before).push(w@[1]@));
            }
        }
        i += 1;
    }
    assert(views(lines@).take(lines.len() as int) =~= views(lines@));
    r
}

impl NetworkStatus {
    /// The status of the interface, from the listing of its addresses, the
    /// routing table and the resolver's file, each as far as it could be
    /// read.
    pub fn get_current(listing: Option<&str>, routes: Option<&str>, resolver: Option<&str>) -> (r:
        Self)
        ensures
            r@ == spec_status(opt_str_view(listing), opt_str_view(routes), opt_str_view(resolver)),
    {
        let mut status = NetworkStatus::default();
        match listing {
            Some(text) => {
                let chars = to_chars(text);
                let pat = to_chars("state UP");
                status.is_up = chars_contain(&chars, &pat);
                let ls = trim_lines(&chars);
                match find_line(&ls, "inet ") {
                    Some(i) => {
                        let w = split_whitespace(&ls[i]);
                        if w.len() > 1 {
                            assert(views(w@)[1] == w@[1]@);
                            let parts = split_chars(&w[1], '/');
                            proof {
                                lemma_split_nonempty(w@[1]@, '/');
                                assert(views(parts@)[0] == parts@[0]@);
                            }
                            status.ip = from_chars(&parts[0]);
                            if parts.len() > 1 {
                                assert(views(parts@)[1] == parts@[1]@);
                                let cidr: u8 = match parse_number(&parts[1], 255) {
                                    Some(k) => k as u8,
                                    None => 24,
                                };
                                status.netmask = cidr_to_netmask(cidr);
                            }
                        }
                    },
                    None => {},
                }
            },
            None => {},
        }
        match routes {
            Some(text) => {
                let chars = to_chars(text);
                let ls = split_lines(&chars);
                match find_line(&ls, "default via ") {
                    Some(i) => {
                        status.gateway = word_or_empty(&ls[i], 2);
                    },
                    None => {},
                }
            },
            None => {},
        }
        match resolver {
            Some(text) => {
                let chars = to_chars(text);
                let ls = split_lines(&chars);
                status.dns = name_servers(&ls);
            },
            None => {},
        }
        status
    }
}

} // verus!
