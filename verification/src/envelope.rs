//! Envelopes: the timestamped, source-tagged records that travel from
//! ingestion to the sinks, the escaping that makes a line safe to embed, and
//! the wire form of an envelope.

use vstd::prelude::*;
use vstd::std_specs::iter::IteratorSpec;
use vstd::string::StringExecFns;
use crate::text::{decimal, hex_digit, push_decimal};

verus! {

/// The sixteen lower-case hexadecimal digits.
pub open spec fn hex_digits() -> Seq<char> {
    seq!['0', '1', '2', '3', '4', '5', '6', '7', '8', '9', 'a', 'b', 'c', 'd', 'e', 'f']
}

/// The escaped form of one character: a backslash pair for the backslash, the
/// quote, line feed, carriage return and tab; `\u00` and two hexadecimal
/// digits for every other code point below 0x20; the character itself
/// otherwise.
pub open spec fn escape_char(c: char) -> Seq<char> {
    if c == '\\' {
        seq!['\\', '\\']
    } else if c == '"' {
        seq!['\\', '"']
    } else if c == '\n' {
        seq!['\\', 'n']
    } else if c == '\r' {
        seq!['\\', 'r']
    } else if c == '\t' {
        seq!['\\', 't']
    } else if (c as u32) < 0x20 {
        seq![
            '\\',
            'u',
            '0',
            '0',
            hex_digits()[(c as u32 / 16) as int],
            hex_digits()[(c as u32 % 16) as int],
        ]
    } else {
        seq![c]
    }
}

/// The escaped form of a text: the escaped forms of its characters, in order.
pub open spec fn escape(s: Seq<char>) -> Seq<char>
    decreases s.len(),
{
    if s.len() == 0 {
        Seq::empty()
    } else {
        escape(s.drop_last()) + escape_char(s.last())
    }
}

/// The code point that four hexadecimal digits write.
pub open spec fn hex4_value(a: char, b: char, c: char, d: char) -> Option<int> {
    match (hex_digit(a), hex_digit(b), hex_digit(c), hex_digit(d)) {
        (Some(w), Some(x), Some(y), Some(z)) => Some((((w * 16 + x) * 16 + y) * 16 + z) as int),
        _ => None,
    }
}

/// The code point of a character.
pub open spec fn code_point(c: char) -> int {
    c as int
}

/// The character with the given code point, where there is one.
pub open spec fn char_at(code: int) -> Option<char> {
    if exists|c: char| #[trigger] code_point(c) == code {
        Some(choose|c: char| #[trigger] code_point(c) == code)
    } else {
        None
    }
}

/// The character that a backslash followed by `c` stands for, for the
/// two-character escapes.
pub open spec fn short_escape(c: char) -> Option<char> {
    if c == '\\' || c == '"' || c == '/' {
        Some(c)
    } else if c == 'n' {
        Some('\n')
    } else if c == 'r' {
        Some('\r')
    } else if c == 't' {
        Some('\t')
    } else if c == 'b' {
        Some('\u{8}')
    } else if c == 'f' {
        Some('\u{c}')
    } else {
        None
    }
}

/// Puts `c` in front of a decoded rest, where the rest decoded.
pub open spec fn prepend(c: char, rest: Option<Seq<char>>) -> Option<Seq<char>> {
    match rest {
        Some(r) => Some(seq![c] + r),
        None => None,
    }
}

/// Reads `t` as the inside of a quoted string of a JSON document and gives the
/// text that it stands for. `None` where `t` cannot stand between two quotes:
/// it holds a bare quote or a bare code point below 0x20, a backslash that
/// starts no escape, or a `\u` escape that names no character by itself.
pub open spec fn decode(t: Seq<char>) -> Option<Seq<char>>
    decreases t.len(),
{
    if t.len() == 0 {
        Some(Seq::empty())
    } else if t[0] == '"' || (t[0] as u32) < 0x20 {
        None
    } else if t[0] != '\\' {
        prepend(t[0], decode(t.skip(1)))
    } else if t.len() < 2 {
        None
    } else if t[1] == 'u' {
        if t.len() < 6 {
            None
        } else {
            match hex4_value(t[2], t[3], t[4], t[5]) {
                Some(code) => match char_at(code) {
                    Some(c) => prepend(c, decode(t.skip(6))),
                    None => None,
                },
                None => None,
            }
        }
    } else {
        match short_escape(t[1]) {
            Some(c) => prepend(c, decode(t.skip(2))),
            None => None,
        }
    }
}

/// Whether `t` can stand between two quotes of a JSON document.
pub open spec fn is_embeddable(t: Seq<char>) -> bool {
    decode(t) is Some
}

/// Escaping two texts one after the other escapes their concatenation.
pub proof fn lemma_escape_concat(a: Seq<char>, b: Seq<char>)
    ensures
        escape(a + b) == escape(a) + escape(b),
    decreases b.len(),
{
    if b.len() == 0 {
        assert(a + b =~= a);
        assert(escape(a) + escape(b) =~= escape(a));
    } else {
        assert((a + b).drop_last() =~= a + b.drop_last());
        assert((a + b).last() == b.last());
        lemma_escape_concat(a, b.drop_last());
        assert(escape(a + b) =~= escape(a) + escape(b));
    }
}

/// The escaped form of a text with one more character at its end.
pub proof fn lemma_escape_push(s: Seq<char>, c: char)
    ensures
        escape(s.push(c)) == escape(s) + escape_char(c),
{
    assert(s.push(c).drop_last() =~= s);
    assert(s.push(c).last() == c);
}

/// Decoding the escaped form of `c` followed by `t` gives `c` followed by what
/// `t` decodes to.
pub proof fn lemma_decode_escaped_char(c: char, t: Seq<char>)
    ensures
        decode(escape_char(c) + t) == prepend(c, decode(t)),
{
    let e = escape_char(c);
    let u = e + t;
    if c == '\\' || c == '"' || c == '\n' || c == '\r' || c == '\t' {
        assert(u[0] == '\\');
        assert(u[1] == e[1]);
        assert(u.skip(2) =~= t);
        assert(short_escape(u[1]) == Some(c));
    } else if (c as u32) < 0x20 {
        let hi = (c as u32 / 16) as int;
        let lo = (c as u32 % 16) as int;
        assert(0 <= hi < 2);
        assert(0 <= lo < 16);
        assert(u[0] == '\\' && u[1] == 'u' && u[2] == '0' && u[3] == '0');
        assert(u[4] == hex_digits()[hi] && u[5] == hex_digits()[lo]);
        assert(u.skip(6) =~= t);
        assert(hex_digit(u[4]) == Some(hi as nat));
        assert(hex_digit(u[5]) == Some(lo as nat));
        assert(hex4_value(u[2], u[3], u[4], u[5]) == Some(c as int));
        assert(code_point(c) == c as int);
        assert(char_at(c as int) == Some(c));
    } else {
        assert(u[0] == c);
        assert(u.skip(1) =~= t);
    }
}

/// Escaping loses nothing and is safe to embed: the escaped form of any text
/// can stand between two quotes of a JSON document, and it decodes back to the
/// text. An escaped form is a text like any other, so escaping it once more
/// is as safe and gives the escaped form back.
pub proof fn lemma_escape_lossless(s: Seq<char>)
    ensures
        is_embeddable(escape(s)),
        decode(escape(s)) == Some(s),
        is_embeddable(escape(escape(s))),
        decode(escape(escape(s))) == Some(escape(s)),
    decreases s.len(),
{
    lemma_decode_escape(s);
    lemma_decode_escape(escape(s));
}

/// Decoding undoes escaping.
pub proof fn lemma_decode_escape(s: Seq<char>)
    ensures
        decode(escape(s)) == Some(s),
    decreases s.len(),
{
    if s.len() == 0 {
    } else {
        let rest = s.skip(1);
        assert(s =~= seq![s[0]] + rest);
        lemma_escape_concat(seq![s[0]], rest);
        lemma_escape_push(Seq::empty(), s[0]);
        assert(Seq::<char>::empty().push(s[0]) =~= seq![s[0]]);
        assert(escape(seq![s[0]]) =~= escape_char(s[0]));
        lemma_decode_escape(rest);
        lemma_decode_escaped_char(s[0], escape(rest));
    }
}

/// Whether `c` may stand as it is inside a quoted string, as far as its code
/// point goes: it is not below 0x20.
pub open spec fn is_printable(c: char) -> bool {
    c as u32 >= 0x20
}

/// No character of an escaped text is a bare code point below 0x20.
pub proof fn lemma_escape_has_no_control(s: Seq<char>)
    ensures
        forall|i: int| 0 <= i < escape(s).len() ==> is_printable(#[trigger] escape(s)[i]),
    decreases s.len(),
{
    if s.len() > 0 {
        lemma_escape_has_no_control(s.drop_last());
        let c = s.last();
        let e = escape_char(c);
        if (c as u32) < 0x20 && c != '\n' && c != '\r' && c != '\t' {
            let hi = (c as u32 / 16) as int;
            let lo = (c as u32 % 16) as int;
            assert(0 <= hi < 2 && 0 <= lo < 16);
            assert(is_printable(hex_digits()[hi]));
            assert(is_printable(hex_digits()[lo]));
            assert(e.len() == 6);
            assert(is_printable(e[0]) && is_printable(e[1]) && is_printable(e[2]));
            assert(is_printable(e[3]) && is_printable(e[4]) && is_printable(e[5]));
        }
        assert forall|j: int| 0 <= j < e.len() implies is_printable(#[trigger] e[j]) by {}
        assert forall|i: int| 0 <= i < escape(s).len() implies is_printable(
            #[trigger] escape(s)[i],
        ) by {
            let head = escape(s.drop_last());
            if i >= head.len() {
                assert(escape(s)[i] == e[i - head.len()]);
            } else {
                assert(escape(s)[i] == head[i]);
            }
        }
    }
}

/// Every quote of an escaped text stands behind a backslash: none can end
/// the string that the text is embedded in.
pub proof fn lemma_escape_guards_quotes(s: Seq<char>)
    ensures
        forall|i: int|
            0 <= i < escape(s).len() ==> #[trigger] escape(s)[i] != '"' || (i > 0 && escape(
                s,
            )[i - 1] == '\\'),
    decreases s.len(),
{
    if s.len() > 0 {
        lemma_escape_guards_quotes(s.drop_last());
        let c = s.last();
        let e = escape_char(c);
        let head = escape(s.drop_last());
        if (c as u32) < 0x20 && c != '\n' && c != '\r' && c != '\t' {
            let hi = (c as u32 / 16) as int;
            let lo = (c as u32 % 16) as int;
            assert(0 <= hi < 2 && 0 <= lo < 16);
            assert(hex_digits()[hi] != '"' && hex_digits()[lo] != '"');
        }
        assert forall|j: int| 0 <= j < e.len() implies #[trigger] e[j] != '"' || (j > 0 && e[j
            - 1] == '\\') by {}
        assert forall|i: int| 0 <= i < escape(s).len() implies #[trigger] escape(s)[i] != '"' || (i
            > 0 && escape(s)[i - 1] == '\\') by {
            if i >= head.len() {
                let j = i - head.len();
                assert(escape(s)[i] == e[j]);
                if j > 0 {
                    assert(escape(s)[i - 1] == e[j - 1]);
                }
            } else {
                assert(escape(s)[i] == head[i]);
                if i > 0 {
                    assert(escape(s)[i - 1] == head[i - 1]);
                }
            }
        }
    }
}

/// Appends the hexadecimal digit of `n` to `out`.
fn push_hex_digit(out: &mut String, n: u32)
    requires
        n < 16,
    ensures
        final(out)@ == old(out)@.push(hex_digits()[n as int]),
{
    let c = if n == 0 {
        '0'
    } else if n == 1 {
        '1'
    } else if n == 2 {
        '2'
    } else if n == 3 {
        '3'
    } else if n == 4 {
        '4'
    } else if n == 5 {
        '5'
    } else if n == 6 {
        '6'
    } else if n == 7 {
        '7'
    } else if n == 8 {
        '8'
    } else if n == 9 {
        '9'
    } else if n == 10 {
        'a'
    } else if n == 11 {
        'b'
    } else if n == 12 {
        'c'
    } else if n == 13 {
        'd'
    } else if n == 14 {
        'e'
    } else {
        'f'
    };
    out.push(c);
}

/// Appends the escaped form of `c` to `out`.
pub fn push_escaped(out: &mut String, c: char)
    ensures
        final(out)@ == old(out)@ + escape_char(c),
{
    if c == '\\' {
        out.push('\\');
        out.push('\\');
    } else if c == '"' {
        out.push('\\');
        out.push('"');
    } else if c == '\n' {
        out.push('\\');
        out.push('n');
    } else if c == '\r' {
        out.push('\\');
        out.push('r');
    } else if c == '\t' {
        out.push('\\');
        out.push('t');
    } else if (c as u32) < 0x20 {
        let code = c as u32;
        out.push('\\');
        out.push('u');
        out.push('0');
        out.push('0');
        push_hex_digit(out, code / 16);
        push_hex_digit(out, code % 16);
    } else {
        out.push(c);
    }
    assert(out@ =~= old(out)@ + escape_char(c));
}

/// The escaped form of `line`.
pub fn escape_line(line: &str) -> (r: String)
    ensures
        r@ == escape(line@),
{
    let mut out = String::new();
    let chars = line.chars();
    for c in it: chars
        invariant
            it.seq() == line@,
            out@ == escape(line@.take(it.index() as int)),
    {
        proof {
            let i = it.index() as int;
            assert(line@.take(i + 1) =~= line@.take(i).push(line@[i]));
            lemma_escape_push(line@.take(i), line@[i]);
        }
        push_escaped(&mut out, c);
    }
    assert(line@.take(line@.len() as int) =~= line@);
    out
}

/// Where an envelope comes from.
#[derive(Clone, Copy, Debug, PartialEq, Eq, Structural)]
pub enum Source {
    /// A line read from the serial device.
    Uart,
    /// A snapshot of the host's metrics.
    Monitor,
}

impl Source {
    /// The tag that names the source on the wire.
    pub open spec fn tag(self) -> Seq<char> {
        match self {
            Source::Uart => "uart"@,
            Source::Monitor => "monitor"@,
        }
    }

    /// The tag that names the source on the wire.
    pub fn as_str(&self) -> (r: &'static str)
        ensures
            r@ == self.tag(),
    {
        match self {
            Source::Uart => "uart",
            Source::Monitor => "monitor",
        }
    }
}

/// A unit of data on its way to a sink: where it comes from, what it carries
/// and when it was captured, in seconds since the epoch.
#[derive(Debug)]
pub struct Envelope {
    pub source: Source,
    pub payload: String,
    pub ts: u64,
}

/// Mathematical value of an [`Envelope`].
pub struct EnvelopeView {
    pub source: Source,
    pub payload: Seq<char>,
    pub ts: u64,
}

impl View for Envelope {
    type V = EnvelopeView;

    open spec fn view(&self) -> EnvelopeView {
        EnvelopeView { source: self.source, payload: self.payload@, ts: self.ts }
    }
}

/// The envelope of a line read from the serial device at `ts`.
pub open spec fn uart_envelope(line: Seq<char>, ts: u64) -> EnvelopeView {
    EnvelopeView { source: Source::Uart, payload: line, ts }
}

/// The envelope of a metrics snapshot taken at `ts`, already in its wire form.
pub open spec fn monitor_envelope(payload: Seq<char>, ts: u64) -> EnvelopeView {
    EnvelopeView { source: Source::Monitor, payload, ts }
}

/// The body that a sink sends for an envelope. A line travels as
/// `{"type":"uart","data":"<escaped line>","ts":<seconds>}`; a snapshot
/// travels as it came from the metrics serializer.
pub open spec fn wire_form(e: EnvelopeView) -> Seq<char> {
    match e.source {
        Source::Uart => "{\"type\":\"uart\",\"data\":\""@ + escape(e.payload) + "\",\"ts\":"@
            + decimal(e.ts as nat) + "}"@,
        Source::Monitor => e.payload,
    }
}

impl Clone for Envelope {
    fn clone(&self) -> (r: Self)
        ensures
            r@ == self@,
    {
        Envelope { source: self.source, payload: self.payload.clone(), ts: self.ts }
    }
}

impl Envelope {
    /// The envelope of `line`, read from the serial device at `ts`.
    pub fn uart(line: String, ts: u64) -> (e: Self)
        ensures
            e@ == uart_envelope(line@, ts),
    {
        Envelope { source: Source::Uart, payload: line, ts }
    }

    /// The envelope of a metrics snapshot in its wire form, taken at `ts`.
    pub fn monitor(payload: String, ts: u64) -> (e: Self)
        ensures
            e@ == monitor_envelope(payload@, ts),
    {
        Envelope { source: Source::Monitor, payload, ts }
    }

    /// The body to send for this envelope.
    pub fn to_wire(&self) -> (r: String)
        ensures
            r@ == wire_form(self@),
    {
        match self.source {
            Source::Uart => {
                let mut out = "{\"type\":\"uart\",\"data\":\"".to_owned();
                let escaped = escape_line(self.payload.as_str());
                out.append(escaped.as_str());
                out.append("\",\"ts\":");
                push_decimal(&mut out, self.ts);
                out.push('}');
                proof {
                    reveal_strlit("}");
                    assert("}"@ =~= seq!['}']);
                    assert(out@ =~= wire_form(self@));
                }
                out
            },
            Source::Monitor => self.payload.clone(),
        }
    }
}

/// The wire form of the envelope of a line holds the line whole: between the
/// quotes of its `data` stands a text that can stand there and that decodes
/// to the line, whatever the line holds.
pub proof fn lemma_wire_form_carries_line(line: Seq<char>, ts: u64)
    ensures
        wire_form(uart_envelope(line, ts)) == "{\"type\":\"uart\",\"data\":\""@ + escape(line)
            + "\",\"ts\":"@ + decimal(ts as nat) + "}"@,
        is_embeddable(escape(line)),
        decode(escape(line)) == Some(line),
{
    lemma_escape_lossless(line);
}

} // verus!
