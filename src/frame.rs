use vstd::prelude::*;
use vstd::string::*;

verus! {

/// The sixteen lower-case hexadecimal digits, in order of value.
pub open spec fn hex_digits() -> Seq<char> {
    seq!['0', '1', '2', '3', '4', '5', '6', '7', '8', '9', 'a', 'b', 'c', 'd', 'e', 'f']
}

/// The value of a hexadecimal digit of either case.
pub open spec fn hex_value(c: char) -> Option<nat> {
    if '0' <= c && c <= '9' {
        Some((c as u32 - '0' as u32) as nat)
    } else if 'a' <= c && c <= 'f' {
        Some((c as u32 - 'a' as u32 + 10) as nat)
    } else if 'A' <= c && c <= 'F' {
        Some((c as u32 - 'A' as u32 + 10) as nat)
    } else {
        None
    }
}

/// A control character, which a JSON string literal may not hold as it is.
pub open spec fn is_control(c: char) -> bool {
    (c as u32) < 0x20
}

/// How one character of a JSON string value is written inside the quotes:
/// `"` and `\` behind a backslash, a control character as `\u00XX`, any other
/// character as itself.
pub open spec fn escape_char(c: char) -> Seq<char> {
    if c == '"' {
        seq!['\\', '"']
    } else if c == '\\' {
        seq!['\\', '\\']
    } else if is_control(c) {
        seq!['\\', 'u', '0', '0', hex_digits()[(c as u32 / 16) as int], hex_digits()[(c as u32 % 16) as int]]
    } else {
        seq![c]
    }
}

/// The body of the JSON string literal whose value is `t`.
pub open spec fn escape(t: Seq<char>) -> Seq<char>
    decreases t.len(),
{
    if t.len() == 0 {
        Seq::empty()
    } else {
        escape(t.drop_last()) + escape_char(t.last())
    }
}

/// The character that a one-letter JSON escape `\x` stands for.
pub open spec fn short_escape(c: char) -> Option<char> {
    if c == '"' {
        Some('"')
    } else if c == '\\' {
        Some('\\')
    } else if c == '/' {
        Some('/')
    } else if c == 'b' {
        Some('\x08')
    } else if c == 'f' {
        Some('\x0c')
    } else if c == 'n' {
        Some('\n')
    } else if c == 'r' {
        Some('\r')
    } else if c == 't' {
        Some('\t')
    } else {
        None
    }
}

/// Reads the body of a JSON string literal (what stands between its quotes)
/// and gives the string it denotes, or `None` where the body is not
/// well-formed: a bare `"`, a bare control character, or a bad escape.
/// Of the `\uXXXX` escapes this reads those of an ASCII character
/// (`\u0000` to `\u007f`); it takes the others for malformed.
pub open spec fn unescape(s: Seq<char>) -> Option<Seq<char>>
    decreases s.len(),
{
    if s.len() == 0 {
        Some(Seq::empty())
    } else if s[0] == '"' || is_control(s[0]) {
        None
    } else if s[0] != '\\' {
        match unescape(s.subrange(1, s.len() as int)) {
            Some(r) => Some(seq![s[0]] + r),
            None => None,
        }
    } else if s.len() >= 2 && short_escape(s[1]) is Some {
        match unescape(s.subrange(2, s.len() as int)) {
            Some(r) => Some(seq![short_escape(s[1])->0] + r),
            None => None,
        }
    } else if s.len() >= 6 && s[1] == 'u' && s[2] == '0' && s[3] == '0' && hex_value(s[4]) is Some
        && hex_value(s[4])->0 < 8 && hex_value(s[5]) is Some {
        match unescape(s.subrange(6, s.len() as int)) {
            Some(r) => Some(seq![((hex_value(s[4])->0 * 16 + hex_value(s[5])->0) as u32) as char] + r),
            None => None,
        }
    } else {
        None
    }
}

/// What precedes the symbol in a subscription frame.
pub open spec fn frame_prefix() -> Seq<char> {
    "{\"action\":\"subscribe\",\"symbols\":\""@
}

/// What follows the symbol in a subscription frame.
pub open spec fn frame_suffix() -> Seq<char> {
    "\"}"@
}

/// The JSON text `{"action":"subscribe","symbols":"<ticker>"}`, with the
/// ticker written as a JSON string value.
pub open spec fn subscribe_frame(ticker: Seq<char>) -> Seq<char> {
    frame_prefix() + escape(ticker) + frame_suffix()
}

proof fn lemma_escape_concat(a: Seq<char>, b: Seq<char>)
    ensures
        escape(a + b) == escape(a) + escape(b),
    decreases b.len(),
{
    if b.len() == 0 {
        assert(a + b =~= a);
        assert(escape(a) + escape(b) =~= escape(a));
    } else {
        assert((a + b).drop_last() =~= a + b.drop_last());
        assert((a + b).last() == b.last());
        lemma_escape_concat(a, b.drop_last());
        assert(escape(a + b) =~= escape(a) + escape(b));
    }
}

proof fn lemma_hex_round_trip(n: u32)
    requires
        n < 16,
    ensures
        hex_value(hex_digits()[n as int]) == Some(n as nat),
{
}

proof fn lemma_unescape_char(c: char, rest: Seq<char>)
    ensures
        unescape(escape_char(c) + rest) == match unescape(rest) {
            Some(r) => Some(seq![c] + r),
            None => None::<Seq<char>>,
        },
{
    let s = escape_char(c) + rest;
    let k = escape_char(c).len() as int;
    assert(s.subrange(k, s.len() as int) =~= rest);
    if is_control(c) && c != '"' && c != '\\' {
        let n = c as u32;
        lemma_hex_round_trip(n / 16);
        lemma_hex_round_trip(n % 16);
        assert(((((n / 16) as nat) * 16 + (n % 16) as nat) as u32) as char == c);
    }
}

/// The subscription frame is the fixed JSON text around a string literal
/// body, and that body reads back as exactly the ticker: whatever the ticker
/// holds, the frame stays well-formed and carries the ticker unchanged.
pub proof fn lemma_subscribe_frame_round_trip(ticker: Seq<char>)
    ensures
        subscribe_frame(ticker) == frame_prefix() + escape(ticker) + frame_suffix(),
        unescape(escape(ticker)) == Some(ticker),
    decreases ticker.len(),
{
    if ticker.len() > 0 {
        let rest = ticker.drop_first();
        assert(ticker =~= seq![ticker[0]] + rest);
        lemma_escape_concat(seq![ticker[0]], rest);
        assert(seq![ticker[0]].drop_last() =~= Seq::<char>::empty());
        assert(escape(Seq::<char>::empty()) == Seq::<char>::empty());
        assert(seq![ticker[0]].last() == ticker[0]);
        assert(escape(seq![ticker[0]]) =~= escape_char(ticker[0]));
        lemma_subscribe_frame_round_trip(rest);
        lemma_unescape_char(ticker[0], escape(rest));
    }
}

/// Relies on `String::push`: it appends one character.
#[verifier::external_body]
fn push_char(s: &mut String, c: char)
    ensures
        final(s)@ == old(s)@.push(c),
{
    s.push(c);
}

fn hex_digit(n: u32) -> (c: char)
    requires
        n < 16,
    ensures
        c == hex_digits()[n as int],
{
    match n {
        0 => '0',
        1 => '1',
        2 => '2',
        3 => '3',
        4 => '4',
        5 => '5',
        6 => '6',
        7 => '7',
        8 => '8',
        9 => '9',
        10 => 'a',
        11 => 'b',
        12 => 'c',
        13 => 'd',
        14 => 'e',
        _ => 'f',
    }
}

/// Appends the escaped form of one character.
fn push_escaped(out: &mut String, c: char)
    ensures
        final(out)@ == old(out)@ + escape_char(c),
{
    if c == '"' {
        push_char(out, '\\');
        push_char(out, '"');
    } else if c == '\\' {
        push_char(out, '\\');
        push_char(out, '\\');
    } else if (c as u32) < 0x20 {
        let n = c as u32;
        push_char(out, '\\');
        push_char(out, 'u');
        push_char(out, '0');
        push_char(out, '0');
        push_char(out, hex_digit(n / 16));
        push_char(out, hex_digit(n % 16));
    } else {
        push_char(out, c);
    }
    assert(final(out)@ =~= old(out)@ + escape_char(c));
}

/// Builds the subscription frame for a ticker through a JSON string encoder,
/// so that quotes, backslashes and control characters in the ticker cannot
/// break the frame.
pub fn subscription_frame(ticker: &str) -> (r: String)
    ensures
        r@ == subscribe_frame(ticker@),
{
    let mut out = String::from_str("{\"action\":\"subscribe\",\"symbols\":\"");
    let n = ticker.unicode_len();
    let mut i: usize = 0;
    while i < n
        invariant
            i <= n,
            n == ticker@.len(),
            out@ == frame_prefix() + escape(ticker@.subrange(0, i as int)),
        decreases n - i,
    {
        let c = ticker.get_char(i);
        push_escaped(&mut out, c);
        assert(ticker@.subrange(0, i + 1).drop_last() =~= ticker@.subrange(0, i as int));
        i += 1;
    }
    out.append("\"}");
    assert(ticker@.subrange(0, n as int) =~= ticker@);
    out
}

} // verus!
