//! Rendering of NDJSON log lines.
//!
//! A log line is one compact JSON object. Its string values go through one
//! JSON-string escape pass, specified here exactly as the serializer of the
//! log format performs it: `"`, `\` and the five shorthand control
//! characters get their two-character escapes, any other character below
//! 0x20 becomes `\u00XX` with lowercase hex digits, and everything else
//! passes through unchanged.

use vstd::prelude::*;

use vstd::string::StringExecFns;

use crate::encoding::encoded;
use crate::encoding::encoded_byte;
use crate::encoding::is_json_shorthand_byte;
use crate::encoding::upper_hex_digit;
use crate::text::push_char;

verus! {

/// The lowercase hexadecimal digit for a value below 16.
pub open spec fn lower_hex_digit(d: u8) -> char
    recommends
        d < 16,
{
    if d < 10 {
        ((d + 0x30) as u8) as char
    } else {
        ((d + 0x57) as u8) as char
    }
}

/// What the JSON serializer emits for one character of a string value.
pub open spec fn escaped_char(c: char) -> Seq<char> {
    if c == '"' {
        seq!['\\', '"']
    } else if c == '\\' {
        seq!['\\', '\\']
    } else if c == '\u{8}' {
        seq!['\\', 'b']
    } else if c == '\t' {
        seq!['\\', 't']
    } else if c == '\n' {
        seq!['\\', 'n']
    } else if c == '\u{c}' {
        seq!['\\', 'f']
    } else if c == '\r' {
        seq!['\\', 'r']
    } else if (c as int) < 0x20 {
        seq!['\\', 'u', '0', '0', lower_hex_digit((c as int / 16) as u8), lower_hex_digit(
            (c as int % 16) as u8,
        )]
    } else {
        seq![c]
    }
}

/// One JSON-string escape pass over a whole string.
pub open spec fn escaped(s: Seq<char>) -> Seq<char>
    decreases s.len(),
{
    if s.len() == 0 {
        Seq::empty()
    } else {
        escaped(s.drop_last()) + escaped_char(s.last())
    }
}

/// A JSON string value: the escaped text between double quotes.
pub open spec fn quoted(s: Seq<char>) -> Seq<char> {
    seq!['"'] + escaped(s) + seq!['"']
}

/// A lifecycle log line: a compact JSON object with the fields `time`,
/// `ConnID`, `event`, `from` and `to`, in that order.
pub open spec fn event_line(
    time: Seq<char>,
    id: Seq<char>,
    event: Seq<char>,
    from: Seq<char>,
    to: Seq<char>,
) -> Seq<char> {
    "{\"time\":"@ + quoted(time) + ",\"ConnID\":"@ + quoted(id) + ",\"event\":"@ + quoted(event)
        + ",\"from\":"@ + quoted(from) + ",\"to\":"@ + quoted(to) + "}"@
}

/// A data log line: the same envelope with `data` carrying the encoded
/// payload in place of `event`.
pub open spec fn data_line(
    time: Seq<char>,
    id: Seq<char>,
    payload: Seq<u8>,
    from: Seq<char>,
    to: Seq<char>,
) -> Seq<char> {
    "{\"time\":"@ + quoted(time) + ",\"ConnID\":"@ + quoted(id) + ",\"data\":"@ + quoted(
        encoded(payload),
    ) + ",\"from\":"@ + quoted(from) + ",\"to\":"@ + quoted(to) + "}"@
}

/// True for the characters the encoder uses as hex digits: `0`..`9`, `A`..`F`.
pub open spec fn is_upper_hex(c: char) -> bool {
    (0x30 <= c as int && c as int <= 0x39) || (0x41 <= c as int && c as int <= 0x46)
}

/// Every `%` in `s` starts a well-formed triplet: two uppercase hex digits
/// follow it within `s`.
pub open spec fn percent_wellformed(s: Seq<char>) -> bool {
    forall|i: int|
        0 <= i < s.len() && (#[trigger] s[i]) == '%' ==> i + 2 < s.len() && is_upper_hex(
            s[i + 1],
        ) && is_upper_hex(s[i + 2])
}

/// Well-formedness of `%` triplets survives concatenation, because a
/// triplet never spans the boundary.
proof fn lemma_percent_wellformed_concat(a: Seq<char>, b: Seq<char>)
    requires
        percent_wellformed(a),
        percent_wellformed(b),
    ensures
        percent_wellformed(a + b),
{
    let s = a + b;
    assert forall|i: int|
        0 <= i < s.len() && (#[trigger] s[i]) == '%' implies i + 2 < s.len() && is_upper_hex(
        s[i + 1],
    ) && is_upper_hex(s[i + 2]) by {
        if i < a.len() {
            assert(a[i] == '%');
            assert(s[i + 1] == a[i + 1] && s[i + 2] == a[i + 2]);
        } else {
            let j = i - a.len();
            assert(b[j] == '%');
            assert(s[i + 1] == b[j + 1] && s[i + 2] == b[j + 2]);
        }
    }
}

/// The escape pass distributes over concatenation.
proof fn lemma_escaped_concat(a: Seq<char>, b: Seq<char>)
    ensures
        escaped(a + b) == escaped(a) + escaped(b),
    decreases b.len(),
{
    if b.len() == 0 {
        assert(a + b =~= a);
        assert(escaped(a) + escaped(b) =~= escaped(a));
    } else {
        lemma_escaped_concat(a, b.drop_last());
        assert((a + b).drop_last() =~= a + b.drop_last());
        assert((a + b).last() == b.last());
        assert(escaped(a + b) =~= escaped(a) + escaped(b));
    }
}

/// Unfolding helper: the escape pass on a one-character string.
proof fn lemma_escaped_one(a: char)
    ensures
        escaped(seq![a]) == escaped_char(a),
{
    assert(seq![a].drop_last() =~= Seq::<char>::empty());
    assert(escaped(Seq::<char>::empty()) =~= Seq::<char>::empty());
    assert(escaped(seq![a]) =~= escaped_char(a));
}

/// Unfolding helper: the escape pass on a three-character string.
proof fn lemma_escaped_three(a: char, b: char, c: char)
    ensures
        escaped(seq![a, b, c]) == escaped_char(a) + escaped_char(b) + escaped_char(c),
{
    lemma_escaped_one(a);
    assert(seq![a, b, c].drop_last() =~= seq![a, b]);
    assert(seq![a, b].drop_last() =~= seq![a]);
    assert(escaped(seq![a, b]) =~= escaped_char(a) + escaped_char(b));
    assert(escaped(seq![a, b, c]) =~= escaped_char(a) + escaped_char(b) + escaped_char(c));
}

/// One byte's encoded piece stays `%`-well-formed through the escape pass.
proof fn lemma_escaped_piece_wellformed(b: u8)
    ensures
        percent_wellformed(escaped(encoded_byte(b))),
{
    let piece = encoded_byte(b);
    if b == 0x25 {
        assert(piece =~= seq!['%', '2', '5']);
        lemma_escaped_three('%', '2', '5');
        assert('%' as int == 0x25 && '2' as int == 0x32 && '5' as int == 0x35);
        assert(escaped_char('%') =~= seq!['%']);
        assert(escaped_char('2') =~= seq!['2']);
        assert(escaped_char('5') =~= seq!['5']);
        let e = escaped(piece);
        assert(e =~= seq!['%', '2', '5']);
        assert(percent_wellformed(e));
    } else if is_json_shorthand_byte(b) {
        assert(piece =~= seq![b as char]);
        lemma_escaped_one(b as char);
        let e = escaped(piece);
        assert(e =~= escaped_char(b as char));
        assert(forall|i: int| 0 <= i < e.len() ==> e[i] != '%');
    } else if 0x20 <= b && b <= 0x7E {
        assert(piece =~= seq![b as char]);
        lemma_escaped_one(b as char);
        let e = escaped(piece);
        assert(e =~= seq![b as char]);
        assert(b as char != '%');
    } else {
        let h1 = upper_hex_digit(b / 16);
        let h2 = upper_hex_digit(b % 16);
        assert(piece =~= seq!['%', h1, h2]);
        lemma_escaped_three('%', h1, h2);
        assert(b / 16 < 16 && b % 16 < 16);
        assert(is_upper_hex(h1) && is_upper_hex(h2));
        assert(escaped_char(h1) =~= seq![h1]);
        assert(escaped_char(h2) =~= seq![h2]);
        let e = escaped(piece);
        assert(e =~= seq!['%', h1, h2]);
        assert(percent_wellformed(e));
    }
}

/// Law: for every payload, the encoder's output, after the one further
/// JSON-string escape pass, contains a raw `%` only as the start of a
/// well-formed `%XX` triplet with two uppercase hex digits.
pub proof fn lemma_escaped_encoding_percent_wellformed(data: Seq<u8>)
    ensures
        percent_wellformed(escaped(encoded(data))),
    decreases data.len(),
{
    if data.len() == 0 {
        assert(percent_wellformed(escaped(encoded(data))));
    } else {
        lemma_escaped_encoding_percent_wellformed(data.drop_last());
        lemma_escaped_concat(encoded(data.drop_last()), encoded_byte(data.last()));
        lemma_escaped_piece_wellformed(data.last());
        lemma_percent_wellformed_concat(
            escaped(encoded(data.drop_last())),
            escaped(encoded_byte(data.last())),
        );
    }
}

/// The lowercase hexadecimal digit for a value below 16, executable form.
fn lower_hex_char(d: u8) -> (c: char)
    requires
        d < 16,
    ensures
        c == lower_hex_digit(d),
{
    if d < 10 {
        (d + 0x30) as char
    } else {
        (d + 0x57) as char
    }
}

/// Append one escape pass of `s` to `out`.
fn append_escaped(out: &mut String, s: &str)
    ensures
        final(out)@ == old(out)@ + escaped(s@),
{
    let n = s.unicode_len();
    let mut i: usize = 0;
    while i < n
        invariant
            n == s@.len(),
            i <= n,
            out@ == old(out)@ + escaped(s@.take(i as int)),
        decreases n - i,
    {
        let c = s.get_char(i);
        if c == '"' {
            push_char(out, '\\');
            push_char(out, '"');
        } else if c == '\\' {
            push_char(out, '\\');
            push_char(out, '\\');
        } else if c == '\u{8}' {
            push_char(out, '\\');
            push_char(out, 'b');
        } else if c == '\t' {
            push_char(out, '\\');
            push_char(out, 't');
        } else if c == '\n' {
            push_char(out, '\\');
            push_char(out, 'n');
        } else if c == '\u{c}' {
            push_char(out, '\\');
            push_char(out, 'f');
        } else if c == '\r' {
            push_char(out, '\\');
            push_char(out, 'r');
        } else if (c as u32) < 0x20 {
            let v = c as u32;
            push_char(out, '\\');
            push_char(out, 'u');
            push_char(out, '0');
            push_char(out, '0');
            push_char(out, lower_hex_char((v / 16) as u8));
            push_char(out, lower_hex_char((v % 16) as u8));
        } else {
            push_char(out, c);
        }
        proof {
            let pre = s@.take(i as int);
            let post = s@.take(i + 1 as int);
            assert(post.drop_last() =~= pre);
            assert(post.last() == s@[i as int]);
            assert(out@ =~= old(out)@ + (escaped(pre) + escaped_char(s@[i as int])));
        }
        i += 1;
    }
    proof {
        assert(s@.take(s@.len() as int) =~= s@);
    }
}

/// One JSON-string escape pass, as the log serializer performs it.
pub fn json_escape(s: &str) -> (r: String)
    ensures
        r@ == escaped(s@),
{
    let mut r = String::new();
    append_escaped(&mut r, s);
    proof {
        assert(Seq::<char>::empty() + escaped(s@) =~= escaped(s@));
    }
    r
}

/// Append `s` as a JSON string value, quotes included.
fn append_quoted(out: &mut String, s: &str)
    ensures
        final(out)@ == old(out)@ + quoted(s@),
{
    push_char(out, '"');
    append_escaped(out, s);
    push_char(out, '"');
    proof {
        assert(out@ =~= old(out)@ + quoted(s@));
    }
}

/// The decimal digits of a nonnegative number, no sign, no leading zeros.
pub open spec fn dec_digits(n: int) -> Seq<char>
    recommends
        n >= 0,
    decreases n,
{
    if n < 10 {
        seq![((0x30 + n) as u8) as char]
    } else {
        dec_digits(n / 10) + seq![((0x30 + n % 10) as u8) as char]
    }
}

/// Render a port or counter below 65536 in decimal.
pub fn u16_string(n: u16) -> (r: String)
    ensures
        r@ == dec_digits(n as int),
    decreases n,
{
    if n < 10 {
        let mut r = String::new();
        push_char(&mut r, (0x30 + n as u8) as char);
        proof {
            assert(r@ =~= dec_digits(n as int));
        }
        r
    } else {
        let mut r = u16_string(n / 10);
        push_char(&mut r, (0x30 + (n % 10) as u8) as char);
        proof {
            assert(r@ =~= dec_digits(n as int));
        }
        r
    }
}

/// An address as it appears in a log line: `host:port`, with an IPv6 host
/// wrapped in brackets.
pub open spec fn endpoint_text(host: Seq<char>, port: u16, v6: bool) -> Seq<char> {
    (if v6 {
        seq!['['] + host + seq![']']
    } else {
        host
    }) + seq![':'] + dec_digits(port as int)
}

/// Format an address for the log: `host:port`, `[host]:port` for IPv6.
pub fn format_addr(host: &str, port: u16, v6: bool) -> (r: String)
    ensures
        r@ == endpoint_text(host@, port, v6),
{
    let mut r = String::new();
    if v6 {
        push_char(&mut r, '[');
    }
    r.append(host);
    if v6 {
        push_char(&mut r, ']');
    }
    push_char(&mut r, ':');
    let p = u16_string(port);
    r.append(p.as_str());
    proof {
        assert(r@ =~= endpoint_text(host@, port, v6));
    }
    r
}

/// Render one lifecycle log line.
pub fn render_event_line(time: &str, connid: &str, event: &str, from: &str, to: &str) -> (r:
    String)
    ensures
        r@ == event_line(time@, connid@, event@, from@, to@),
{
    let mut r = String::new();
    r.append("{\"time\":");
    append_quoted(&mut r, time);
    r.append(",\"ConnID\":");
    append_quoted(&mut r, connid);
    r.append(",\"event\":");
    append_quoted(&mut r, event);
    r.append(",\"from\":");
    append_quoted(&mut r, from);
    r.append(",\"to\":");
    append_quoted(&mut r, to);
    r.append("}");
    proof {
        assert(r@ =~= event_line(time@, connid@, event@, from@, to@));
    }
    r
}

/// Render one data log line; the payload is encoded, never interpreted.
pub fn render_data_line(time: &str, connid: &str, payload: &[u8], from: &str, to: &str) -> (r:
    String)
    ensures
        r@ == data_line(time@, connid@, payload@, from@, to@),
{
    let encoded_payload = crate::encoding::encode_data(payload);
    let mut r = String::new();
    r.append("{\"time\":");
    append_quoted(&mut r, time);
    r.append(",\"ConnID\":");
    append_quoted(&mut r, connid);
    r.append(",\"data\":");
    append_quoted(&mut r, encoded_payload.as_str());
    r.append(",\"from\":");
    append_quoted(&mut r, from);
    r.append(",\"to\":");
    append_quoted(&mut r, to);
    r.append("}");
    proof {
        assert(r@ =~= data_line(time@, connid@, payload@, from@, to@));
    }
    r
}

} // verus!
