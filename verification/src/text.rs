//! Text as sequences of characters: the conversions between `str`, `String`
//! and `Vec<char>` that the rest of the library builds on.

use vstd::prelude::*;
use vstd::std_specs::iter::IteratorSpec;

verus! {

/// Trusted, not proved: the contract of `String::push` of the standard
/// library, which appends the given character to the end of the string. The
/// string afterwards is the string before with that character behind it.
pub assume_specification[ String::push ](s: &mut String, c: char)
    ensures
        final(s)@ == old(s)@.push(c),
;

/// The characters of `s`, in order.
pub fn to_chars(s: &str) -> (v: Vec<char>)
    ensures
        v@ == s@,
{
    let mut v: Vec<char> = Vec::new();
    let chars = s.chars();
    for c in it: chars
        invariant
            it.seq() == s@,
            v@ == s@.take(it.index() as int),
    {
        v.push(c);
    }
    v
}

/// The text made of the characters of `v`, in order.
pub fn from_chars(v: &Vec<char>) -> (s: String)
    ensures
        s@ == v@,
{
    let mut s = String::new();
    let mut i: usize = 0;
    while i < v.len()
        invariant
            i <= v.len(),
            s@ == v@.take(i as int),
        decreases v.len() - i,
    {
        s.push(v[i]);
        i += 1;
    }
    s
}

/// The ten decimal digits.
pub open spec fn digits() -> Seq<char> {
    seq!['0', '1', '2', '3', '4', '5', '6', '7', '8', '9']
}

/// The decimal numeral of `n`, without sign or leading zeros.
pub open spec fn decimal(n: nat) -> Seq<char>
    decreases n,
{
    if n < 10 {
        seq![digits()[n as int]]
    } else {
        decimal(n / 10).push(digits()[(n % 10) as int])
    }
}

/// The character of the decimal digit `d`.
pub(crate) fn digit_char(d: u64) -> (c: char)
    requires
        d < 10,
    ensures
        c == digits()[d as int],
{
    if d == 0 {
        '0'
    } else if d == 1 {
        '1'
    } else if d == 2 {
        '2'
    } else if d == 3 {
        '3'
    } else if d == 4 {
        '4'
    } else if d == 5 {
        '5'
    } else if d == 6 {
        '6'
    } else if d == 7 {
        '7'
    } else if d == 8 {
        '8'
    } else {
        '9'
    }
}

/// Appends the decimal numeral of `n` to `out`.
pub fn push_decimal(out: &mut String, n: u64)
    ensures
        final(out)@ == old(out)@ + decimal(n as nat),
    decreases n,
{
    if n >= 10 {
        push_decimal(out, n / 10);
    }
    out.push(digit_char(n % 10));
    assert(out@ =~= old(out)@ + decimal(n as nat));
}

/// The texts of a list of character vectors.
pub open spec fn views(parts: Seq<Vec<char>>) -> Seq<Seq<char>> {
    parts.map_values(|p: Vec<char>| p@)
}

/// The texts of a list of strings.
pub open spec fn string_views(parts: Seq<String>) -> Seq<Seq<char>> {
    parts.map_values(|p: String| p@)
}

/// Whether `a` and `b` hold the same characters.
pub fn chars_eq(a: &Vec<char>, b: &Vec<char>) -> (r: bool)
    ensures
        r == (a@ == b@),
{
    if a.len() != b.len() {
        return false;
    }
    let mut i: usize = 0;
    while i < a.len()
        invariant
            i <= a.len(),
            a.len() == b.len(),
            a@.take(i as int) == b@.take(i as int),
        decreases a.len() - i,
    {
        if a[i] != b[i] {
            return false;
        }
        assert(a@.take(i + 1) =~= a@.take(i as int).push(a@[i as int]));
        assert(b@.take(i + 1) =~= b@.take(i as int).push(b@[i as int]));
        i += 1;
    }
    assert(a@.take(a.len() as int) =~= a@);
    assert(b@.take(b.len() as int) =~= b@);
    true
}

/// Whether `a` is the text `lit`.
pub fn chars_are(a: &Vec<char>, lit: &str) -> (r: bool)
    ensures
        r == (a@ == lit@),
{
    let b = to_chars(lit);
    chars_eq(a, &b)
}

/// Whether `s` is the text `lit`.
pub fn str_is(s: &str, lit: &str) -> (r: bool)
    ensures
        r == (s@ == lit@),
{
    let a = to_chars(s);
    chars_are(&a, lit)
}

/// The characters of `v` from `from` up to, not including, `to`.
pub(crate) fn slice_chars(v: &Vec<char>, from: usize, to: usize) -> (r: Vec<char>)
    requires
        from <= to <= v.len(),
    ensures
        r@ == v@.subrange(from as int, to as int),
{
    let mut r: Vec<char> = Vec::new();
    let mut i: usize = from;
    while i < to
        invariant
            from <= i <= to <= v.len(),
            r@ == v@.subrange(from as int, i as int),
        decreases to - i,
    {
        r.push(v[i]);
        assert(v@.subrange(from as int, i + 1) =~= v@.subrange(from as int, i as int).push(
            v@[i as int],
        ));
        i += 1;
    }
    r
}

/// The pieces of `s` between the occurrences of `sep`. There is one piece
/// more than there are occurrences: an occurrence at either end, and two in a
/// row, have an empty piece beside them, and a text without an occurrence is
/// its own single piece.
pub open spec fn split(s: Seq<char>, sep: char) -> Seq<Seq<char>>
    decreases s.len(),
{
    if s.len() == 0 {
        seq![Seq::empty()]
    } else {
        let before = split(s.drop_last(), sep);
        if s.last() == sep {
            before.push(Seq::empty())
        } else {
            before.drop_last().push(before.last().push(s.last()))
        }
    }
}

/// A split has at least one piece.
pub proof fn lemma_split_nonempty(s: Seq<char>, sep: char)
    ensures
        split(s, sep).len() >= 1,
    decreases s.len(),
{
    if s.len() > 0 {
        lemma_split_nonempty(s.drop_last(), sep);
    }
}

/// The pieces of `s` between the occurrences of `sep`.
pub fn split_chars(s: &Vec<char>, sep: char) -> (parts: Vec<Vec<char>>)
    ensures
        views(parts@) == split(s@, sep),
{
    let mut parts: Vec<Vec<char>> = Vec::new();
    let mut cur: Vec<char> = Vec::new();
    let mut i: usize = 0;
    while i < s.len()
        invariant
            i <= s.len(),
            views(parts@).push(cur@) == split(s@.take(i as int), sep),
        decreases s.len() - i,
    {
        let ghost before = split(s@.take(i as int), sep);
        proof {
            assert(s@.take(i + 1).drop_last() =~= s@.take(i as int));
            assert(s@.take(i + 1).last() == s@[i as int]);
            assert(before.last() == cur@);
            assert(before.drop_last() =~= views(parts@));
        }
        let c = s[i];
        if c == sep {
            let ghost old_parts = parts@;
            parts.push(cur);
            cur = Vec::new();
            proof {
                assert(views(parts@) =~= views(old_parts).push(before.last()));
                assert(views(parts@).push(cur@) =~= before.push(Seq::empty()));
            }
        } else {
            cur.push(c);
        }
        i += 1;
    }
    assert(s@.take(s.len() as int) =~= s@);
    let ghost done = parts@;
    let ghost last = cur@;
    parts.push(cur);
    assert(views(parts@) =~= views(done).push(last));
    parts
}

/// Whether `c` is a decimal digit.
pub open spec fn is_digit(c: char) -> bool {
    '0' <= c <= '9'
}

/// The number that the decimal digit `c` stands for.
pub open spec fn digit_value(c: char) -> nat {
    (c as int - '0' as int) as nat
}

/// Whether `s` holds decimal digits only.
pub open spec fn all_digits(s: Seq<char>) -> bool {
    forall|i: int| 0 <= i < s.len() ==> is_digit(#[trigger] s[i])
}

/// The number that the decimal digits of `s` write.
pub open spec fn digits_value(s: Seq<char>) -> nat
    decreases s.len(),
{
    if s.len() == 0 {
        0
    } else {
        digits_value(s.drop_last()) * 10 + digit_value(s.last())
    }
}

/// What is left of a numeral once a leading plus sign is taken off.
pub open spec fn unsigned_body(s: Seq<char>) -> Seq<char> {
    if s.len() > 0 && s[0] == '+' {
        s.skip(1)
    } else {
        s
    }
}

/// The number that `s` writes, where `s` is a decimal numeral of a number up
/// to `max`: one or more decimal digits, possibly after one plus sign, and
/// nothing else.
pub open spec fn parse_unsigned(s: Seq<char>, max: nat) -> Option<nat> {
    let body = unsigned_body(s);
    if body.len() > 0 && all_digits(body) && digits_value(body) <= max {
        Some(digits_value(body))
    } else {
        None
    }
}

/// The number written by the first digits of a numeral is no larger than the
/// number written by all of them.
pub proof fn lemma_digits_value_grows(s: Seq<char>, n: int)
    requires
        0 <= n <= s.len(),
    ensures
        digits_value(s.take(n)) <= digits_value(s),
    decreases s.len() - n,
{
    if n == s.len() {
        assert(s.take(n) =~= s);
    } else {
        lemma_digits_value_grows(s, n + 1);
        assert(s.take(n + 1).drop_last() =~= s.take(n));
    }
}

/// The number that `s` writes in decimal, where it is one up to `max`.
pub fn parse_number(s: &Vec<char>, max: u64) -> (r: Option<u64>)
    ensures
        r is Some <==> parse_unsigned(s@, max as nat) is Some,
        r matches Some(v) ==> parse_unsigned(s@, max as nat) == Some(v as nat),
{
    let n = s.len();
    let start: usize = if n > 0 && s[0] == '+' {
        1
    } else {
        0
    };
    let ghost body = unsigned_body(s@);
    assert(body =~= s@.skip(start as int));
    if start == n {
        return None;
    }
    let mut acc: u64 = 0;
    let mut i: usize = start;
    while i < n
        invariant
            start <= i <= n,
            n == s.len(),
            body == s@.skip(start as int),
            body == unsigned_body(s@),
            all_digits(body.take(i - start)),
            acc == digits_value(body.take(i - start)),
            acc <= max,
        decreases n - i,
    {
        let c = s[i];
        assert(body[i - start] == c);
        if !(c >= '0' && c <= '9') {
            assert(!is_digit(body[i - start]));
            return None;
        }
        let d: u64 = (c as u64) - ('0' as u64);
        proof {
            assert(body.take(i - start + 1).drop_last() =~= body.take(i - start));
            assert(body.take(i - start + 1).last() == c);
            assert(digits_value(body.take(i - start + 1)) == acc * 10 + d);
            lemma_digits_value_grows(body, i - start + 1);
        }
        if d > max || acc > (max - d) / 10 {
            assert(digits_value(body) > max);
            return None;
        }
        acc = acc * 10 + d;
        i += 1;
    }
    assert(body.take(n - start) =~= body);
    Some(acc)
}

/// Whether `c` is white space: a space, a tab, a line break or one of the
/// other code points that Unicode lists as white space.
pub open spec fn is_space(c: char) -> bool {
    let u = c as u32;
    (0x09 <= u <= 0x0d) || u == 0x20 || u == 0x85 || u == 0xa0 || u == 0x1680 || (0x2000 <= u
        <= 0x200a) || u == 0x2028 || u == 0x2029 || u == 0x202f || u == 0x205f || u == 0x3000
}

/// Whether `c` is white space.
pub fn is_whitespace(c: char) -> (r: bool)
    ensures
        r == is_space(c),
{
    let u = c as u32;
    (0x09 <= u && u <= 0x0d) || u == 0x20 || u == 0x85 || u == 0xa0 || u == 0x1680 || (0x2000 <= u
        && u <= 0x200a) || u == 0x2028 || u == 0x2029 || u == 0x202f || u == 0x205f || u == 0x3000
}

/// `s` without the white space at its start.
pub open spec fn trim_start(s: Seq<char>) -> Seq<char>
    decreases s.len(),
{
    if s.len() > 0 && is_space(s[0]) {
        trim_start(s.skip(1))
    } else {
        s
    }
}

/// `s` without the white space at its end.
pub open spec fn trim_end(s: Seq<char>) -> Seq<char>
    decreases s.len(),
{
    if s.len() > 0 && is_space(s.last()) {
        trim_end(s.drop_last())
    } else {
        s
    }
}

/// `s` without the white space at its start and at its end.
pub open spec fn trim(s: Seq<char>) -> Seq<char> {
    trim_end(trim_start(s))
}

/// `s` without the white space at its start and at its end.
pub fn trim_chars(s: &Vec<char>) -> (r: Vec<char>)
    ensures
        r@ == trim(s@),
{
    let n = s.len();
    let mut from: usize = 0;
    assert(s@.skip(0) =~= s@);
    while from < n && is_whitespace(s[from])
        invariant
            from <= n,
            n == s.len(),
            trim_start(s@) == trim_start(s@.skip(from as int)),
        decreases n - from,
    {
        assert(s@.skip(from as int).skip(1) =~= s@.skip(from + 1));
        from += 1;
    }
    assert(trim_start(s@) == s@.skip(from as int));
    let mut to: usize = n;
    while to > from && is_whitespace(s[to - 1])
        invariant
            from <= to <= n,
            n == s.len(),
            trim_end(s@.skip(from as int)) == trim_end(s@.subrange(from as int, to as int)),
        decreases to,
    {
        assert(s@.subrange(from as int, to as int).drop_last() =~= s@.subrange(
            from as int,
            to - 1,
        ));
        to -= 1;
    }
    assert(s@.skip(from as int) =~= s@.subrange(from as int, n as int));
    slice_chars(s, from, to)
}

/// Whether `s` begins with `prefix`.
pub open spec fn starts_with(s: Seq<char>, prefix: Seq<char>) -> bool {
    prefix.len() <= s.len() && s.take(prefix.len() as int) == prefix
}

/// Whether `pat` stands in `s` at position `at`.
pub open spec fn occurs_at(s: Seq<char>, pat: Seq<char>, at: int) -> bool {
    0 <= at && at + pat.len() <= s.len() && s.subrange(at, at + pat.len()) == pat
}

/// Whether `pat` stands somewhere in `s`.
pub open spec fn contains(s: Seq<char>, pat: Seq<char>) -> bool {
    exists|at: int| occurs_at(s, pat, at)
}

/// Whether `pat` stands in `s` at position `at`.
pub fn chars_occur_at(s: &Vec<char>, pat: &Vec<char>, at: usize) -> (r: bool)
    ensures
        r == occurs_at(s@, pat@, at as int),
{
    if pat.len() > s.len() || at > s.len() - pat.len() {
        return false;
    }
    let mut i: usize = 0;
    while i < pat.len()
        invariant
            i <= pat.len(),
            at + pat.len() <= s.len(),
            s@.subrange(at as int, at + i) == pat@.take(i as int),
        decreases pat.len() - i,
    {
        if s[at + i] != pat[i] {
            assert(s@.subrange(at as int, at + pat.len())[i as int] != pat@[i as int]);
            return false;
        }
        assert(s@.subrange(at as int, at + i + 1) =~= s@.subrange(at as int, at + i).push(
            s@[at + i],
        ));
        assert(pat@.take(i + 1) =~= pat@.take(i as int).push(pat@[i as int]));
        i += 1;
    }
    assert(pat@.take(pat.len() as int) =~= pat@);
    true
}

/// Whether `s` begins with `prefix`.
pub fn chars_start_with(s: &Vec<char>, prefix: &Vec<char>) -> (r: bool)
    ensures
        r == starts_with(s@, prefix@),
{
    let r = chars_occur_at(s, prefix, 0);
    proof {
        if prefix.len() <= s.len() {
            assert(s@.take(prefix.len() as int) =~= s@.subrange(0, 0 + prefix.len()));
        }
    }
    r
}

/// The words of `s`: its longest stretches without white space, in order.
pub open spec fn words(s: Seq<char>) -> Seq<Seq<char>>
    decreases s.len(),
{
    if s.len() == 0 {
        Seq::empty()
    } else {
        let before = words(s.drop_last());
        if is_space(s.last()) {
            before
        } else if s.len() >= 2 && !is_space(s[s.len() - 2]) {
            before.drop_last().push(before.last().push(s.last()))
        } else {
            before.push(seq![s.last()])
        }
    }
}

/// The words of `s`.
pub fn split_whitespace(s: &Vec<char>) -> (parts: Vec<Vec<char>>)
    ensures
        views(parts@) == words(s@),
{
    let mut parts: Vec<Vec<char>> = Vec::new();
    let mut cur: Vec<char> = Vec::new();
    let mut i: usize = 0;
    assert(views(parts@) =~= words(s@.take(0)));
    while i < s.len()
        invariant
            i <= s.len(),
            cur@.len() > 0 ==> i > 0 && !is_space(s@[i - 1]) && views(parts@).push(cur@) == words(
                s@.take(i as int),
            ),
            cur@.len() == 0 ==> (i == 0 || is_space(s@[i - 1])) && views(parts@) == words(
                s@.take(i as int),
            ),
        decreases s.len() - i,
    {
        let ghost before = words(s@.take(i as int));
        let ghost t = s@.take(i + 1);
        proof {
            assert(t.drop_last() =~= s@.take(i as int));
            assert(t.last() == s@[i as int]);
            if i > 0 {
                assert(t[t.len() - 2] == s@[i - 1]);
            }
        }
        let c = s[i];
        if is_whitespace(c) {
            if cur.len() > 0 {
                let ghost old_parts = parts@;
                let ghost word = cur@;
                parts.push(cur);
                cur = Vec::new();
                assert(views(parts@) =~= views(old_parts).push(word));
            }
        } else {
            proof {
                if cur@.len() > 0 {
                    assert(before.last() == cur@);
                    assert(before.drop_last() =~= views(parts@));
                } else {
                    assert(seq![c] =~= cur@.push(c));
                }
            }
            cur.push(c);
        }
        i += 1;
    }
    assert(s@.take(s.len() as int) =~= s@);
    if cur.len() > 0 {
        let ghost old_parts = parts@;
        let ghost word = cur@;
        parts.push(cur);
        assert(views(parts@) =~= views(old_parts).push(word));
    }
    parts
}

/// A piece that stood before a line feed, as a line: without the carriage
/// return at its end, where there is one.
pub open spec fn strip_cr(piece: Seq<char>) -> Seq<char> {
    if piece.len() > 0 && piece.last() == '\r' {
        piece.drop_last()
    } else {
        piece
    }
}

/// The lines of `s`. A line ends at a line feed, or at a carriage return and
/// a line feed, neither of which belongs to it; what follows the last line
/// feed is a line as it stands, unless it is empty.
pub open spec fn lines(s: Seq<char>) -> Seq<Seq<char>> {
    let pieces = split(s, '\n');
    let ended = pieces.drop_last().map_values(|p: Seq<char>| strip_cr(p));
    if pieces.last().len() == 0 {
        ended
    } else {
        ended.push(pieces.last())
    }
}

/// The lines of `s`.
pub fn split_lines(s: &Vec<char>) -> (r: Vec<Vec<char>>)
    ensures
        views(r@) == lines(s@),
{
    let pieces = split_chars(s, '\n');
    proof {
        lemma_split_nonempty(s@, '\n');
    }
    let ghost ended = views(pieces@).drop_last().map_values(|p: Seq<char>| strip_cr(p));
    let mut r: Vec<Vec<char>> = Vec::new();
    let mut i: usize = 0;
    let n = pieces.len() - 1;
    while i < n
        invariant
            i <= n,
            n == pieces.len() - 1,
            ended == views(pieces@).drop_last().map_values(|p: Seq<char>| strip_cr(p)),
            views(r@) == ended.take(i as int),
        decreases n - i,
    {
        let piece = &pieces[i];
        let len = piece.len();
        let line = if len > 0 && piece[len - 1] == '\r' {
            slice_chars(piece, 0, len - 1)
        } else {
            slice_chars(piece, 0, len)
        };
        proof {
            assert(piece@.subrange(0, len as int) =~= piece@);
            if len > 0 {
                assert(piece@.subrange(0, len - 1) =~= piece@.drop_last());
            }
            assert(views(pieces@)[i as int] == piece@);
            assert(views(pieces@).drop_last()[i as int] == piece@);
            assert(line@ == ended[i as int]);
        }
        let ghost before = r@;
        let ghost text = line@;
        r.push(line);
        proof {
            assert(views(r@) =~= views(before).push(text));
            assert(ended.take(i + 1) =~= ended.take(i as int).push(ended[i as int]));
        }
        i += 1;
    }
    assert(ended.take(n as int) =~= ended);
    assert(views(pieces@).last() == pieces@[n as int]@);
    if pieces[n].len() > 0 {
        let last = slice_chars(&pieces[n], 0, pieces[n].len());
        assert(last@ =~= pieces@[n as int]@);
        r.push(last);
        assert(views(r@) =~= ended.push(pieces@[n as int]@));
    }
    r
}

/// The first position from `from` on at which `pat` stands in `s`, where
/// there is one.
pub open spec fn first_occurrence(s: Seq<char>, pat: Seq<char>, from: int) -> Option<int>
    decreases s.len() + 1 - from,
    when from >= 0
{
    if from + pat.len() > s.len() {
        None
    } else if occurs_at(s, pat, from) {
        Some(from)
    } else {
        first_occurrence(s, pat, from + 1)
    }
}

/// The first position from `from` on at which `pat` stands in `s`.
pub fn find_first(s: &Vec<char>, pat: &Vec<char>, from: usize) -> (r: Option<usize>)
    ensures
        r is Some <==> first_occurrence(s@, pat@, from as int) is Some,
        r matches Some(at) ==> first_occurrence(s@, pat@, from as int) == Some(at as int) && from
            <= at && at + pat.len() <= s.len() && occurs_at(s@, pat@, at as int),
        r matches Some(at) ==> forall|j: int| from <= j < at ==> !occurs_at(s@, pat@, j),
        r is None ==> forall|j: int| from <= j ==> !occurs_at(s@, pat@, j),
{
    if pat.len() > s.len() || from > s.len() - pat.len() {
        return None;
    }
    let last = s.len() - pat.len();
    let mut at: usize = from;
    loop
        invariant
            from <= at <= last,
            last == s.len() - pat.len(),
            first_occurrence(s@, pat@, from as int) == first_occurrence(s@, pat@, at as int),
            forall|j: int| from <= j < at ==> !occurs_at(s@, pat@, j),
        decreases last - at,
    {
        if chars_occur_at(s, pat, at) {
            return Some(at);
        }
        if at == last {
            assert(first_occurrence(s@, pat@, at + 1) is None);
            return None;
        }
        at += 1;
    }
}

/// Whether `pat` stands somewhere in `s`.
pub fn chars_contain(s: &Vec<char>, pat: &Vec<char>) -> (r: bool)
    ensures
        r == contains(s@, pat@),
{
    match find_first(s, pat, 0) {
        Some(at) => true,
        None => {
            assert forall|j: int| !occurs_at(s@, pat@, j) by {}
            false
        },
    }
}

/// The first position from `from` on at which `c` stands in `s`.
pub fn find_char(s: &Vec<char>, c: char, from: usize) -> (r: Option<usize>)
    ensures
        r is Some <==> first_occurrence(s@, seq![c], from as int) is Some,
        r matches Some(at) ==> first_occurrence(s@, seq![c], from as int) == Some(at as int)
            && from <= at < s.len() && s@[at as int] == c,
{
    let mut pat: Vec<char> = Vec::new();
    pat.push(c);
    assert(pat@ =~= seq![c]);
    let r = find_first(s, &pat, from);
    proof {
        match r {
            Some(at) => {
                assert(s@.subrange(at as int, at + 1)[0] == c);
            },
            None => {},
        }
    }
    r
}

/// `s` without the white space at its start.
pub fn trim_start_chars(s: &Vec<char>) -> (r: Vec<char>)
    ensures
        r@ == trim_start(s@),
{
    let n = s.len();
    let mut from: usize = 0;
    assert(s@.skip(0) =~= s@);
    while from < n && is_whitespace(s[from])
        invariant
            from <= n,
            n == s.len(),
            trim_start(s@) == trim_start(s@.skip(from as int)),
        decreases n - from,
    {
        assert(s@.skip(from as int).skip(1) =~= s@.skip(from + 1));
        from += 1;
    }
    assert(s@.skip(from as int) =~= s@.subrange(from as int, n as int));
    slice_chars(s, from, n)
}

/// The word of `line` at position `n`, counted from zero, where there is
/// one.
pub open spec fn word_at(line: Seq<char>, n: int) -> Option<Seq<char>> {
    if 0 <= n < words(line).len() {
        Some(words(line)[n])
    } else {
        None
    }
}

/// A value that was read, or `fallback` where none was.
pub open spec fn or_text(value: Option<Seq<char>>, fallback: Seq<char>) -> Seq<char> {
    match value {
        Some(v) => v,
        None => fallback,
    }
}

/// The word of `line` at position `n`, or the empty text.
pub fn word_or_empty(line: &Vec<char>, n: usize) -> (r: String)
    ensures
        r@ == or_text(word_at(line@, n as int), Seq::empty()),
{
    let w = split_whitespace(line);
    if n < w.len() {
        assert(views(w@)[n as int] == w@[n as int]@);
        from_chars(&w[n])
    } else {
        String::new()
    }
}

/// The number that a text writes, where it is the numeral of a number up to
/// `max`, and `fallback` where it is not.
pub open spec fn number_or(value: Seq<char>, max: nat, fallback: nat) -> nat {
    match parse_unsigned(value, max) {
        Some(v) => v,
        None => fallback,
    }
}

/// The number that `value` writes, or `fallback`.
pub(crate) fn parse_or(value: &Vec<char>, max: u64, fallback: u64) -> (r: u64)
    requires
        fallback <= max,
    ensures
        r == number_or(value@, max as nat, fallback as nat),
        r <= max,
{
    match parse_number(value, max) {
        Some(v) => v,
        None => fallback,
    }
}

/// `n` as a decimal numeral of at least `width` digits, with zeros in front
/// where it has fewer.
pub open spec fn padded(n: nat, width: nat) -> Seq<char> {
    if decimal(n).len() >= width {
        decimal(n)
    } else {
        Seq::new((width - decimal(n).len()) as nat, |i: int| '0') + decimal(n)
    }
}

/// The number of digits of the decimal numeral of `n`.
pub fn decimal_len(n: u64) -> (r: usize)
    ensures
        r == decimal(n as nat).len(),
        1 <= r <= 20,
    decreases n,
{
    if n < 10 {
        1
    } else {
        let r = decimal_len(n / 10);
        proof {
            lemma_decimal_len_bound(n as nat);
        }
        r + 1
    }
}

/// A number below a power of ten has no more digits than the power has
/// zeros.
pub proof fn lemma_decimal_len_bound(n: nat)
    ensures
        n < 10 ==> decimal(n).len() == 1,
        n < 100 ==> decimal(n).len() <= 2,
        n < 1000 ==> decimal(n).len() <= 3,
        n < 10000 ==> decimal(n).len() <= 4,
        n <= u64::MAX ==> decimal(n).len() <= 20,
{
    reveal_with_fuel(decimal, 21);
}

/// Appends `n` to `out` as a decimal numeral of at least `width` digits.
pub fn push_padded(out: &mut String, n: u64, width: usize)
    ensures
        final(out)@ == old(out)@ + padded(n as nat, width as nat),
{
    let len = decimal_len(n);
    let mut i: usize = len;
    let ghost zeros = (if len >= width {
        0
    } else {
        width - len
    }) as nat;
    assert(out@ =~= old(out)@ + Seq::new(0, |j: int| '0'));
    while i < width
        invariant
            len <= i,
            len < width ==> i <= width,
            len >= width ==> i == len,
            out@ == old(out)@ + Seq::new((i - len) as nat, |j: int| '0'),
        decreases width - i,
    {
        out.push('0');
        assert(out@ =~= old(out)@ + Seq::new((i + 1 - len) as nat, |j: int| '0'));
        i += 1;
    }
    push_decimal(out, n);
    proof {
        if len >= width {
            assert(Seq::new(0, |j: int| '0') =~= Seq::<char>::empty());
            assert(out@ =~= old(out)@ + padded(n as nat, width as nat));
        } else {
            assert(out@ =~= old(out)@ + padded(n as nat, width as nat));
        }
    }
}

/// The value of the hexadecimal digit `c`, in either case.
pub open spec fn hex_digit(c: char) -> Option<nat> {
    if '0' <= c <= '9' {
        Some((c as int - '0' as int) as nat)
    } else if 'a' <= c <= 'f' {
        Some((c as int - 'a' as int + 10) as nat)
    } else if 'A' <= c <= 'F' {
        Some((c as int - 'A' as int + 10) as nat)
    } else {
        None
    }
}

/// Whether `s` holds hexadecimal digits only.
pub open spec fn all_hex(s: Seq<char>) -> bool {
    forall|i: int| 0 <= i < s.len() ==> hex_digit(#[trigger] s[i]) is Some
}

/// The number that the hexadecimal digits of `s` write.
pub open spec fn hex_digits_value(s: Seq<char>) -> nat
    decreases s.len(),
{
    if s.len() == 0 {
        0
    } else {
        hex_digits_value(s.drop_last()) * 16 + (match hex_digit(s.last()) {
            Some(d) => d,
            None => 0,
        })
    }
}

/// The number that `s` writes, where `s` is a hexadecimal numeral of a
/// number up to `max`: one or more hexadecimal digits, possibly after one
/// plus sign, and nothing else.
pub open spec fn parse_hex(s: Seq<char>, max: nat) -> Option<nat> {
    let body = unsigned_body(s);
    if body.len() > 0 && all_hex(body) && hex_digits_value(body) <= max {
        Some(hex_digits_value(body))
    } else {
        None
    }
}

/// The number written by the first digits of a hexadecimal numeral is no
/// larger than the number written by all of them.
pub proof fn lemma_hex_value_grows(s: Seq<char>, n: int)
    requires
        0 <= n <= s.len(),
    ensures
        hex_digits_value(s.take(n)) <= hex_digits_value(s),
    decreases s.len() - n,
{
    if n == s.len() {
        assert(s.take(n) =~= s);
    } else {
        lemma_hex_value_grows(s, n + 1);
        assert(s.take(n + 1).drop_last() =~= s.take(n));
    }
}

/// The value of the hexadecimal digit `c`.
pub fn hex_digit_of(c: char) -> (r: Option<u64>)
    ensures
        r is Some <==> hex_digit(c) is Some,
        r matches Some(v) ==> hex_digit(c) == Some(v as nat) && v < 16,
{
    if c >= '0' && c <= '9' {
        Some((c as u64) - ('0' as u64))
    } else if c >= 'a' && c <= 'f' {
        Some((c as u64) - ('a' as u64) + 10)
    } else if c >= 'A' && c <= 'F' {
        Some((c as u64) - ('A' as u64) + 10)
    } else {
        None
    }
}

/// The number that `s` writes in hexadecimal, where it is one up to `max`.
pub fn parse_hex_number(s: &Vec<char>, max: u64) -> (r: Option<u64>)
    ensures
        r is Some <==> parse_hex(s@, max as nat) is Some,
        r matches Some(v) ==> parse_hex(s@, max as nat) == Some(v as nat),
{
    let n = s.len();
    let start: usize = if n > 0 && s[0] == '+' {
        1
    } else {
        0
    };
    let ghost body = unsigned_body(s@);
    assert(body =~= s@.skip(start as int));
    if start == n {
        return None;
    }
    let mut acc: u64 = 0;
    let mut i: usize = start;
    while i < n
        invariant
            start <= i <= n,
            n == s.len(),
            body == s@.skip(start as int),
            body == unsigned_body(s@),
            all_hex(body.take(i - start)),
            acc == hex_digits_value(body.take(i - start)),
            acc <= max,
        decreases n - i,
    {
        let c = s[i];
        assert(body[i - start] == c);
        let d: u64 = match hex_digit_of(c) {
            Some(d) => d,
            None => {
                assert(hex_digit(body[i - start]) is None);
                return None;
            },
        };
        proof {
            assert(body.take(i - start + 1).drop_last() =~= body.take(i - start));
            assert(body.take(i - start + 1).last() == c);
            assert(hex_digits_value(body.take(i - start + 1)) == acc * 16 + d);
            lemma_hex_value_grows(body, i - start + 1);
        }
        if d > max || acc > (max - d) / 16 {
            assert(hex_digits_value(body) > max);
            return None;
        }
        acc = acc * 16 + d;
        i += 1;
    }
    assert(body.take(n - start) =~= body);
    Some(acc)
}

/// `s` without the quotes at its start.
pub open spec fn strip_start_quotes(s: Seq<char>) -> Seq<char>
    decreases s.len(),
{
    if s.len() > 0 && s[0] == '"' {
        strip_start_quotes(s.skip(1))
    } else {
        s
    }
}

/// `s` without the quotes at its end.
pub open spec fn strip_end_quotes(s: Seq<char>) -> Seq<char>
    decreases s.len(),
{
    if s.len() > 0 && s.last() == '"' {
        strip_end_quotes(s.drop_last())
    } else {
        s
    }
}

/// `s` without the quotes at its start and at its end.
pub open spec fn strip_quotes(s: Seq<char>) -> Seq<char> {
    strip_end_quotes(strip_start_quotes(s))
}

/// `s` without the quotes at its start and at its end.
pub fn strip_quote_chars(s: &Vec<char>) -> (r: Vec<char>)
    ensures
        r@ == strip_quotes(s@),
{
    let n = s.len();
    let mut from: usize = 0;
    assert(s@.skip(0) =~= s@);
    while from < n && s[from] == '"'
        invariant
            from <= n,
            n == s.len(),
            strip_start_quotes(s@) == strip_start_quotes(s@.skip(from as int)),
        decreases n - from,
    {
        assert(s@.skip(from as int).skip(1) =~= s@.skip(from + 1));
        from += 1;
    }
    assert(strip_start_quotes(s@) == s@.skip(from as int));
    let mut to: usize = n;
    while to > from && s[to - 1] == '"'
        invariant
            from <= to <= n,
            n == s.len(),
            strip_end_quotes(s@.skip(from as int)) == strip_end_quotes(
                s@.subrange(from as int, to as int),
            ),
        decreases to,
    {
        assert(s@.subrange(from as int, to as int).drop_last() =~= s@.subrange(
            from as int,
            to - 1,
        ));
        to -= 1;
    }
    assert(s@.skip(from as int) =~= s@.subrange(from as int, n as int));
    slice_chars(s, from, to)
}

/// The last position at which `c` stands in the first `upto` characters of
/// `s`, where it stands there.
pub open spec fn last_index_in(s: Seq<char>, c: char, upto: int) -> Option<int>
    decreases upto,
{
    if upto <= 0 || upto > s.len() {
        None
    } else if s[upto - 1] == c {
        Some(upto - 1)
    } else {
        last_index_in(s, c, upto - 1)
    }
}

/// The last position at which `c` stands in `s`, where it stands there.
pub open spec fn last_index_of(s: Seq<char>, c: char) -> Option<int> {
    last_index_in(s, c, s.len() as int)
}

/// The last position at which `c` stands in `s`.
pub fn rfind_char(s: &Vec<char>, c: char) -> (r: Option<usize>)
    ensures
        r is Some <==> last_index_of(s@, c) is Some,
        r matches Some(at) ==> last_index_of(s@, c) == Some(at as int) && at < s.len(),
{
    let mut upto: usize = s.len();
    while upto > 0
        invariant
            upto <= s.len(),
            last_index_of(s@, c) == last_index_in(s@, c, upto as int),
        decreases upto,
    {
        if s[upto - 1] == c {
            return Some(upto - 1);
        }
        upto -= 1;
    }
    None
}

/// `n` where it fits 64 bits, and otherwise the number nearest to it that
/// does.
pub open spec fn capped(n: int) -> u64 {
    if n > u64::MAX {
        u64::MAX
    } else if n < 0 {
        0
    } else {
        n as u64
    }
}

/// What is left of `lines` behind its first `n`, and nothing where it has
/// no more than `n`.
pub open spec fn behind(lines: Seq<Seq<char>>, n: int) -> Seq<Seq<char>> {
    if 0 <= n <= lines.len() {
        lines.skip(n)
    } else {
        Seq::empty()
    }
}

/// `s` without the white space around it.
pub fn trimmed(s: &str) -> (r: String)
    ensures
        r@ == trim(s@),
{
    let chars = to_chars(s);
    let t = trim_chars(&chars);
    from_chars(&t)
}

/// The decimal numeral of a number reads back as that number: it is made of
/// digits, one at least, and they write the number.
pub proof fn lemma_decimal_reads_back(n: nat)
    ensures
        decimal(n).len() >= 1,
        all_digits(decimal(n)),
        digits_value(decimal(n)) == n,
        parse_unsigned(decimal(n), n) == Some(n),
    decreases n,
{
    if n < 10 {
        let d = decimal(n);
        assert(d.len() == 1);
        assert(d[0] == digits()[n as int]);
        assert(is_digit(d[0]) && digit_value(d[0]) == n);
        assert(d.drop_last() =~= Seq::<char>::empty());
        assert(digits_value(d) == digits_value(d.drop_last()) * 10 + digit_value(d.last()));
    } else {
        lemma_decimal_reads_back(n / 10);
        let head = decimal(n / 10);
        let last = digits()[(n % 10) as int];
        let d = decimal(n);
        assert(d == head.push(last));
        assert(d.drop_last() =~= head);
        assert(d.last() == last);
        assert(is_digit(last) && digit_value(last) == n % 10);
        assert forall|i: int| 0 <= i < d.len() implies is_digit(#[trigger] d[i]) by {
            if i < head.len() {
                assert(d[i] == head[i]);
            }
        }
    }
    assert(decimal(n)[0] != '+') by {
        assert(is_digit(decimal(n)[0]));
    }
}

/// Two numbers with one decimal numeral are one number.
pub proof fn lemma_decimal_is_injective(a: nat, b: nat)
    requires
        decimal(a) == decimal(b),
    ensures
        a == b,
{
    lemma_decimal_reads_back(a);
    lemma_decimal_reads_back(b);
}

/// The texts of `parts` in a row, with `sep` between every two.
pub open spec fn join(parts: Seq<Seq<char>>, sep: char) -> Seq<char>
    decreases parts.len(),
{
    if parts.len() == 0 {
        Seq::empty()
    } else if parts.len() == 1 {
        parts[0]
    } else {
        join(parts.drop_last(), sep) + seq![sep] + parts.last()
    }
}

/// Splitting loses nothing: the pieces of a text, put together again with the
/// separator between them, are the text.
pub proof fn lemma_split_join(s: Seq<char>, sep: char)
    ensures
        join(split(s, sep), sep) == s,
    decreases s.len(),
{
    if s.len() == 0 {
        assert(split(s, sep)[0] =~= s);
    } else {
        let before = split(s.drop_last(), sep);
        lemma_split_join(s.drop_last(), sep);
        lemma_split_nonempty(s.drop_last(), sep);
        let c = s.last();
        assert(s =~= s.drop_last().push(c));
        if c == sep {
            let parts = before.push(Seq::empty());
            assert(parts.drop_last() =~= before);
            assert(join(parts, sep) =~= s);
        } else {
            let parts = before.drop_last().push(before.last().push(c));
            assert(parts.last() == before.last().push(c));
            assert(parts.drop_last() =~= before.drop_last());
            if before.len() == 1 {
                assert(join(parts, sep) =~= s);
            } else {
                assert(join(parts, sep) =~= join(before, sep).push(c));
            }
        }
    }
}

/// No piece of a split holds the separator.
pub proof fn lemma_split_pieces(s: Seq<char>, sep: char)
    ensures
        forall|i: int, j: int|
            0 <= i < split(s, sep).len() && 0 <= j < split(s, sep)[i].len() ==> #[trigger] split(
                s,
                sep,
            )[i][j] != sep,
    decreases s.len(),
{
    if s.len() > 0 {
        lemma_split_pieces(s.drop_last(), sep);
        lemma_split_nonempty(s.drop_last(), sep);
        let before = split(s.drop_last(), sep);
        let parts = split(s, sep);
        assert forall|i: int, j: int|
            0 <= i < parts.len() && 0 <= j < parts[i].len() implies #[trigger] parts[i][j]
            != sep by {
            if i < before.len() - 1 {
                assert(parts[i] == before[i]);
                assert(before[i][j] != sep);
            } else if s.last() != sep && i == before.len() - 1 {
                if j < before[i].len() {
                    assert(parts[i][j] == before[i][j]);
                    assert(before[i][j] != sep);
                }
            }
        }
    }
}

/// Every word has a character, and no word holds white space.
pub proof fn lemma_words(s: Seq<char>)
    ensures
        forall|i: int| 0 <= i < words(s).len() ==> (#[trigger] words(s)[i]).len() > 0,
        forall|i: int, j: int|
            0 <= i < words(s).len() && 0 <= j < words(s)[i].len() ==> !is_space(
                #[trigger] words(s)[i][j],
            ),
        s.len() > 0 && !is_space(s.last()) ==> words(s).len() > 0,
    decreases s.len(),
{
    if s.len() > 0 {
        lemma_words(s.drop_last());
        let before = words(s.drop_last());
        let w = words(s);
        let c = s.last();
        if !is_space(c) {
            if s.len() >= 2 && !is_space(s[s.len() - 2]) {
                assert(s.drop_last().last() == s[s.len() - 2]);
                assert(before.len() > 0);
                assert forall|i: int, j: int|
                    0 <= i < w.len() && 0 <= j < w[i].len() implies !is_space(
                    #[trigger] w[i][j],
                ) by {
                    if i < before.len() - 1 {
                        assert(w[i] == before[i]);
                        assert(!is_space(before[i][j]));
                    } else if j < before[i].len() {
                        assert(w[i][j] == before[i][j]);
                        assert(!is_space(before[i][j]));
                    }
                }
                assert forall|i: int| 0 <= i < w.len() implies (#[trigger] w[i]).len() > 0 by {
                    if i < before.len() - 1 {
                        assert(w[i] == before[i]);
                    }
                }
            } else {
                assert forall|i: int, j: int|
                    0 <= i < w.len() && 0 <= j < w[i].len() implies !is_space(
                    #[trigger] w[i][j],
                ) by {
                    if i < before.len() {
                        assert(w[i] == before[i]);
                        assert(!is_space(before[i][j]));
                    }
                }
                assert forall|i: int| 0 <= i < w.len() implies (#[trigger] w[i]).len() > 0 by {
                    if i < before.len() {
                        assert(w[i] == before[i]);
                    }
                }
            }
        }
    }
}

/// What trimming at the start leaves is the end of the text, and it does not
/// begin with white space.
pub proof fn lemma_trim_start(s: Seq<char>)
    ensures
        trim_start(s).len() <= s.len(),
        trim_start(s) == s.skip(s.len() - trim_start(s).len()),
        trim_start(s).len() > 0 ==> !is_space(trim_start(s)[0]),
        forall|i: int| 0 <= i < s.len() - trim_start(s).len() ==> is_space(#[trigger] s[i]),
    decreases s.len(),
{
    if s.len() > 0 && is_space(s[0]) {
        let rest = s.skip(1);
        lemma_trim_start(rest);
        let kept = trim_start(rest);
        assert(rest.skip(rest.len() - kept.len()) =~= s.skip(s.len() - kept.len()));
        assert forall|i: int| 0 <= i < s.len() - kept.len() implies is_space(#[trigger] s[i]) by {
            if i > 0 {
                assert(s[i] == rest[i - 1]);
            }
        }
    } else {
        assert(s.skip(0) =~= s);
    }
}

/// What trimming at the end leaves is the start of the text, and it does not
/// end with white space.
pub proof fn lemma_trim_end(s: Seq<char>)
    ensures
        trim_end(s).len() <= s.len(),
        trim_end(s) == s.take(trim_end(s).len() as int),
        trim_end(s).len() > 0 ==> !is_space(trim_end(s).last()),
        forall|i: int| trim_end(s).len() <= i < s.len() ==> is_space(#[trigger] s[i]),
    decreases s.len(),
{
    if s.len() > 0 && is_space(s.last()) {
        let rest = s.drop_last();
        lemma_trim_end(rest);
        let kept = trim_end(rest);
        assert(rest.take(kept.len() as int) =~= s.take(kept.len() as int));
        assert forall|i: int| kept.len() <= i < s.len() implies is_space(#[trigger] s[i]) by {
            if i < s.len() - 1 {
                assert(s[i] == rest[i]);
            }
        }
    } else {
        assert(s.take(s.len() as int) =~= s);
    }
}

} // verus!
