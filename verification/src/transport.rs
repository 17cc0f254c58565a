//! Framing of JSON-RPC messages on a byte stream: newline-delimited, or with a
//! `Content-Length` header. Reading and writing the stream is the caller's.

use vstd::prelude::*;
use crate::error::TransportError;
use crate::text::{
    chars_of, decimal, digit_char, spec_trim, str_eq, string_from_chars, strip_crlf, trim_crlf, trim_lowercase,
    trim_whitespace, trimmed_lower, u64_to_string,
};

verus! {

/// Upper bound (64 MiB) on the `Content-Length` of a single framed message. A
/// larger length is refused before any buffer is allocated for it.
pub const MAX_CONTENT_LENGTH: usize = 67108864;

/// The value of a decimal digit character (0 for any other character).
pub open spec fn digit_value(c: char) -> nat {
    if '0' <= c && c <= '9' {
        (c as int - 48) as nat
    } else {
        0
    }
}

/// Whether every character of `s` is an ASCII digit.
pub open spec fn all_digits(s: Seq<char>) -> bool {
    forall|i: int| 0 <= i < s.len() ==> '0' <= #[trigger] s[i] && s[i] <= '9'
}

/// The number written by the digits `s`.
pub open spec fn digits_value(s: Seq<char>) -> nat
    decreases s.len(),
{
    if s.len() == 0 {
        0
    } else {
        digits_value(s.drop_last()) * 10 + digit_value(s.last())
    }
}

/// `s.parse::<usize>()`: an optional `+`, then one or more ASCII digits whose
/// value fits in a `usize`.
pub open spec fn spec_parse_usize(s: Seq<char>) -> Option<usize> {
    let d = if s.len() > 0 && s[0] == '+' {
        s.skip(1)
    } else {
        s
    };
    if d.len() > 0 && all_digits(d) && digits_value(d) <= usize::MAX {
        Some(digits_value(d) as usize)
    } else {
        None
    }
}

/// Whether `i` is the position of the first `:` of `s`.
pub open spec fn is_first_colon(s: Seq<char>, i: int) -> bool {
    &&& 0 <= i < s.len()
    &&& s[i] == ':'
    &&& forall|j: int| 0 <= j < i ==> s[j] != ':'
}

/// `s.split_once(':')`: the text before and after the first colon.
pub open spec fn split_at_colon(s: Seq<char>) -> Option<(Seq<char>, Seq<char>)> {
    if exists|i: int| is_first_colon(s, i) {
        let i = choose|i: int| is_first_colon(s, i);
        Some((s.take(i), s.skip(i + 1)))
    } else {
        None
    }
}

/// The length a `Content-Length` header line announces: the line, without its
/// line ending and surrounding whitespace, is a name and a value around the
/// first colon; the name is `content-length` in any ASCII case and the value a
/// decimal `usize`.
pub open spec fn spec_content_length(line: Seq<char>) -> Option<usize> {
    let l = spec_trim(strip_crlf(line));
    match split_at_colon(l) {
        None => None,
        Some((name, value)) => if trimmed_lower(name) == "content-length"@ {
            spec_parse_usize(spec_trim(value))
        } else {
            None
        },
    }
}

proof fn lemma_digits_value_prefix(d: Seq<char>, k: int)
    requires
        all_digits(d),
        0 <= k <= d.len(),
    ensures
        digits_value(d.take(k)) <= digits_value(d),
    decreases d.len() - k,
{
    if k < d.len() {
        lemma_digits_value_prefix(d, k + 1);
        assert(d.take(k + 1).drop_last() == d.take(k));
    } else {
        assert(d.take(k) == d);
    }
}

/// `s.parse::<usize>()`, computed.
pub fn parse_usize(s: &str) -> (r: Option<usize>)
    ensures
        r == spec_parse_usize(s@),
{
    let cs = chars_of(s);
    let start: usize = if cs.len() > 0 && cs[0] == '+' {
        1
    } else {
        0
    };
    let ghost d = s@.skip(start as int);
    proof {
        assert(s@.skip(0) =~= s@);
    }
    if start >= cs.len() {
        return None;
    }
    let mut v: usize = 0;
    let mut i: usize = start;
    proof {
        assert(d.take(0) =~= Seq::<char>::empty());
    }
    while i < cs.len()
        invariant
            cs@ == s@,
            start <= i <= cs@.len(),
            start < cs@.len(),
            d == s@.skip(start as int),
            d == (if s@.len() > 0 && s@[0] == '+' {
                s@.skip(1)
            } else {
                s@
            }),
            all_digits(d.take(i - start)),
            v == digits_value(d.take(i - start)),
        decreases cs@.len() - i,
    {
        let c = cs[i];
        proof {
            assert(d[i - start] == c);
            assert(d.take(i - start + 1).drop_last() == d.take(i - start));
            assert(d.take(i - start + 1).last() == c);
        }
        if !('0' <= c && c <= '9') {
            proof {
                assert(!all_digits(d));
            }
            return None;
        }
        let dv: usize = (c as u32 - 48) as usize;
        match v.checked_mul(10) {
            None => {
                proof {
                    if all_digits(d) {
                        lemma_digits_value_prefix(d, i - start + 1);
                    }
                }
                return None;
            },
            Some(m) => match m.checked_add(dv) {
                None => {
                    proof {
                        if all_digits(d) {
                            lemma_digits_value_prefix(d, i - start + 1);
                        }
                    }
                    return None;
                },
                Some(n) => {
                    v = n;
                },
            },
        }
        i = i + 1;
    }
    proof {
        assert(d.take(d.len() as int) == d);
    }
    Some(v)
}

/// `s.split_once(':')`, as the position of the first colon.
fn first_colon(cs: &Vec<char>) -> (r: Option<usize>)
    ensures
        match r {
            Some(i) => is_first_colon(cs@, i as int),
            None => forall|j: int| 0 <= j < cs@.len() ==> cs@[j] != ':',
        },
{
    let mut i: usize = 0;
    while i < cs.len()
        invariant
            i <= cs@.len(),
            forall|j: int| 0 <= j < i ==> cs@[j] != ':',
        decreases cs@.len() - i,
    {
        if cs[i] == ':' {
            return Some(i);
        }
        i = i + 1;
    }
    None
}

/// The length a `Content-Length` header line announces, if it is one (see
/// [`spec_content_length`]).
pub fn parse_content_length_header(line: &str) -> (r: Option<usize>)
    ensures
        r == spec_content_length(line@),
{
    let t = trim_crlf(line);
    let l = trim_whitespace(t.as_str());
    let cs = chars_of(l.as_str());
    let ghost ls = l@;
    match first_colon(&cs) {
        None => {
            proof {
                if exists|i: int| is_first_colon(ls, i) {
                    let i = choose|i: int| is_first_colon(ls, i);
                    assert(cs@[i] == ':');
                }
            }
            None
        },
        Some(i) => {
            proof {
                assert(exists|k: int| is_first_colon(ls, k));
                let k = choose|k: int| is_first_colon(ls, k);
                if k < i {
                    assert(cs@[k] == ':');
                } else if i < k {
                    assert(ls[i as int] == ':');
                }
                assert(k == i);
            }
            let name = string_from_chars(&cs, 0, i);
            let value = string_from_chars(&cs, i + 1, cs.len());
            proof {
                assert(name@ == ls.take(i as int));
                assert(value@ == ls.skip(i + 1));
            }
            let lower = trim_lowercase(name.as_str());
            if str_eq(lower.as_str(), "content-length") {
                let v = trim_whitespace(value.as_str());
                parse_usize(v.as_str())
            } else {
                None
            }
        },
    }
}

/// The message refusing a `Content-Length` above [`MAX_CONTENT_LENGTH`].
pub open spec fn oversize_message(content_length: usize) -> Seq<char> {
    "Content-Length "@ + decimal(content_length as nat) + " exceeds maximum of "@ + decimal(
        MAX_CONTENT_LENGTH as nat,
    ) + " bytes"@
}

/// Refuse a `Content-Length` above [`MAX_CONTENT_LENGTH`] before any buffer is
/// allocated for it.
pub fn check_content_length(content_length: usize) -> (r: Result<(), TransportError>)
    ensures
        r is Ok <==> content_length <= MAX_CONTENT_LENGTH,
        r is Err ==> (r matches Err(TransportError::InvalidMessage(m)) && m@ == oversize_message(
            content_length,
        )),
{
    if content_length > MAX_CONTENT_LENGTH {
        let mut m = String::from_str("Content-Length ");
        let n = u64_to_string(content_length as u64);
        m.append(n.as_str());
        m.append(" exceeds maximum of ");
        let max = u64_to_string(MAX_CONTENT_LENGTH as u64);
        m.append(max.as_str());
        m.append(" bytes");
        return Err(TransportError::InvalidMessage(m));
    }
    Ok(())
}


/// How messages are framed on the stdio stream.
#[derive(Clone, Copy, Debug, PartialEq, Eq, Structural)]
pub enum StdioFraming {
    /// Detect framing based on the first message read.
    Auto,
    /// Newline-delimited JSON messages.
    Newline,
    /// `Content-Length: N\r\n\r\n<json bytes>` framing.
    ContentLength,
}

/// What to do with a line read while waiting for a message.
#[derive(Debug)]
pub enum LineStep {
    /// A blank line before the first message: read another line.
    Skip,
    /// The message, given on this line.
    Message(String),
    /// A `Content-Length` header: read the headers up to a blank line, then
    /// this many bytes of message.
    Body(usize),
}

pub open spec fn expected_header_message(first: Seq<char>) -> Seq<char> {
    "Expected Content-Length header, got: "@ + first
}

/// `res` is what a header line `first` calls for: the announced length when it
/// is one within [`MAX_CONTENT_LENGTH`], an error otherwise.
pub open spec fn body_or_error(res: Result<LineStep, TransportError>, first: Seq<char>) -> bool {
    match spec_content_length(first) {
        None => res matches Err(TransportError::InvalidMessage(m)) && m@ == expected_header_message(
            first,
        ),
        Some(n) => if n <= MAX_CONTENT_LENGTH {
            res matches Ok(LineStep::Body(k)) && k == n
        } else {
            res matches Err(TransportError::InvalidMessage(m)) && m@ == oversize_message(n)
        },
    }
}

/// The length announced by the first header line of a framed message; it
/// must be a `Content-Length` header within [`MAX_CONTENT_LENGTH`].
pub fn content_length_from_first_line(first: &str) -> (r: Result<LineStep, TransportError>)
    ensures
        body_or_error(r, first@),
{
    match parse_content_length_header(first) {
        None => {
            let mut m = String::from_str("Expected Content-Length header, got: ");
            m.append(first);
            Err(TransportError::InvalidMessage(m))
        },
        Some(n) => match check_content_length(n) {
            Ok(()) => Ok(LineStep::Body(n)),
            Err(e) => Err(e),
        },
    }
}

/// The next framing and step for a line read (line ending included) while
/// waiting for a message. Before the first message, blank lines are skipped,
/// a `Content-Length` header switches to header framing, and anything else is
/// a newline-delimited message that fixes newline framing.
pub fn read_step(framing: StdioFraming, line: &str) -> (r: (StdioFraming, Result<LineStep, TransportError>))
    ensures
        framing == StdioFraming::Newline ==> r.0 == StdioFraming::Newline && (r.1 matches Ok(
            LineStep::Message(m),
        ) && m@ == strip_crlf(line@)),
        framing == StdioFraming::ContentLength ==> r.0 == StdioFraming::ContentLength
            && body_or_error(r.1, strip_crlf(line@)),
        framing == StdioFraming::Auto ==> {
            let t = strip_crlf(line@);
            if spec_trim(t).len() == 0 {
                r.0 == StdioFraming::Auto && r.1 matches Ok(LineStep::Skip)
            } else if spec_content_length(t) is Some {
                r.0 == StdioFraming::ContentLength && body_or_error(r.1, t)
            } else {
                r.0 == StdioFraming::Newline && (r.1 matches Ok(LineStep::Message(m)) && m@ == t)
            }
        },
{
    let t = trim_crlf(line);
    match framing {
        StdioFraming::Newline => (StdioFraming::Newline, Ok(LineStep::Message(t))),
        StdioFraming::ContentLength => (
            StdioFraming::ContentLength,
            content_length_from_first_line(t.as_str()),
        ),
        StdioFraming::Auto => {
            let trimmed = trim_whitespace(t.as_str());
            if trimmed.as_str().is_empty() {
                (StdioFraming::Auto, Ok(LineStep::Skip))
            } else if parse_content_length_header(t.as_str()).is_some() {
                (StdioFraming::ContentLength, content_length_from_first_line(t.as_str()))
            } else {
                (StdioFraming::Newline, Ok(LineStep::Message(t)))
            }
        },
    }
}

/// Whether a header line (line ending included) is the blank line that ends
/// the headers.
pub fn is_header_end(line: &str) -> (r: bool)
    ensures
        r == (strip_crlf(line@).len() == 0),
{
    let t = trim_crlf(line);
    t.as_str().is_empty()
}


/// Calls `String::from_utf8`, which takes the bytes as text when they are
/// valid UTF-8 and refuses them otherwise; the refusal's text is that of the
/// error's `Display`, which is not stated.
#[verifier::external_body]
fn string_from_utf8(bytes: Vec<u8>) -> (r: Result<String, String>)
    ensures
        r is Ok <==> vstd::utf8::valid_utf8(bytes@),
        r matches Ok(s) ==> s@ == vstd::utf8::decode_utf8(bytes@),
{
    match String::from_utf8(bytes) {
        Ok(s) => Ok(s),
        Err(e) => Err(e.to_string()),
    }
}

/// The text of a framed message's body: refused unless the bytes are UTF-8.
pub fn message_from_body(body: Vec<u8>) -> (r: Result<String, TransportError>)
    ensures
        r is Ok <==> vstd::utf8::valid_utf8(body@),
        r matches Ok(s) ==> s@ == vstd::utf8::decode_utf8(body@),
        r is Err ==> (r matches Err(TransportError::InvalidMessage(m)) && exists|d: Seq<char>|
            m@ == "Invalid UTF-8 in JSON-RPC message: "@ + d),
{
    match string_from_utf8(body) {
        Ok(s) => Ok(s),
        Err(detail) => {
            let mut m = String::from_str("Invalid UTF-8 in JSON-RPC message: ");
            m.append(detail.as_str());
            Err(TransportError::InvalidMessage(m))
        },
    }
}

/// The bytes to write for `message` under `framing`: a `Content-Length`
/// header with the message's UTF-8 length, a blank line and the message; or,
/// in newline framing (and before any framing was seen), the message and a
/// line feed.
pub fn frame_message(framing: StdioFraming, message: &str) -> (r: String)
    ensures
        framing == StdioFraming::ContentLength ==> r@ == "Content-Length: "@ + decimal(
            (vstd::utf8::encode_utf8(message@).len() as usize) as nat,
        ) + "\r\n\r\n"@ + message@,
        framing != StdioFraming::ContentLength ==> r@ == message@ + "\n"@,
{
    match framing {
        StdioFraming::ContentLength => {
            let n = message.len();
            let mut r = String::from_str("Content-Length: ");
            let d = u64_to_string(n as u64);
            r.append(d.as_str());
            r.append("\r\n\r\n");
            r.append(message);
            r
        },
        _ => {
            let mut r = String::from_str(message);
            r.append("\n");
            r
        },
    }
}


proof fn lemma_digit_char_value(d: nat)
    requires
        d < 10,
    ensures
        '0' <= digit_char(d) <= '9',
        digit_value(digit_char(d)) == d,
{
}

proof fn lemma_decimal_digits(n: nat)
    ensures
        decimal(n).len() >= 1,
        all_digits(decimal(n)),
        digits_value(decimal(n)) == n,
    decreases n,
{
    lemma_digit_char_value(n % 10);
    if n >= 10 {
        lemma_decimal_digits(n / 10);
        let s = decimal(n / 10);
        assert(decimal(n) == s.push(digit_char(n % 10)));
        assert(decimal(n).drop_last() == s);
        assert(decimal(n).last() == digit_char(n % 10));
        assert(digits_value(decimal(n)) == digits_value(s) * 10 + digit_value(digit_char(n % 10)));
        assert((n / 10) * 10 + n % 10 == n);
        assert forall|i: int| 0 <= i < decimal(n).len() implies '0' <= #[trigger] decimal(n)[i]
            && decimal(n)[i] <= '9' by {
            if i < s.len() {
                assert(decimal(n)[i] == s[i]);
            }
        }
    } else {
        assert(decimal(n) == seq![digit_char(n)]);
        assert(decimal(n).drop_last() =~= Seq::<char>::empty());
        assert(digits_value(Seq::<char>::empty()) == 0);
        assert(digits_value(decimal(n)) == digits_value(Seq::<char>::empty()) * 10 + digit_value(
            digit_char(n),
        ));
    }
}

proof fn lemma_strip_crlf_line(x: Seq<char>)
    requires
        x.len() > 0,
        x.last() != '\r' && x.last() != '\n',
    ensures
        strip_crlf(x + "\r\n"@) == x,
{
    reveal_strlit("\r\n");
    let y = x + "\r\n"@;
    assert(y.drop_last() == x.push('\r'));
    assert(x.push('\r').drop_last() == x);
    assert(y.last() == '\n');
    assert(x.push('\r').last() == '\r');
    assert(strip_crlf(x) == x);
    assert(strip_crlf(x.push('\r')) == strip_crlf(x));
    assert(strip_crlf(y) == strip_crlf(x.push('\r')));
}

/// The first line of a message framed with a `Content-Length` header reads
/// back as the length it announces.
pub proof fn lemma_content_length_header_roundtrip(n: usize)
    ensures
        spec_content_length("Content-Length: "@ + decimal(n as nat) + "\r\n"@) == Some(n),
{
    reveal_strlit("Content-Length: ");
    reveal_strlit("Content-Length");
    reveal_strlit("content-length");
    let d = decimal(n as nat);
    lemma_decimal_digits(n as nat);
    let l = "Content-Length: "@ + d;
    assert(l.last() == d.last());
    assert(d[d.len() - 1] == d.last());
    lemma_strip_crlf_line(l);
    // the line has no surrounding whitespace
    assert(!crate::text::spec_is_whitespace(l[0]));
    assert(!crate::text::spec_is_whitespace(l.last()));
    assert(spec_trim(l) =~= l);
    // the first colon ends the name
    assert(is_first_colon(l, 14));
    let i = choose|i: int| is_first_colon(l, i);
    if i < 14 {
        assert(l[i] != ':');
    } else if i > 14 {
        assert(l[14] == ':');
    }
    assert(i == 14);
    let name = l.take(14);
    let value = l.skip(15);
    assert(name =~= "Content-Length"@);
    assert(!crate::text::spec_is_whitespace(name[0]));
    assert(!crate::text::spec_is_whitespace(name.last()));
    assert(spec_trim(name) =~= name);
    assert(trimmed_lower(name) =~= "content-length"@);
    assert(value =~= seq![' '] + d);
    assert(crate::text::spec_is_whitespace(value[0]));
    assert(value.drop_first() =~= d);
    assert(!crate::text::spec_is_whitespace(d[0]));
    assert(!crate::text::spec_is_whitespace(value.last()));
    assert(crate::text::ws_start(d) == 0);
    assert(crate::text::ws_start(value) == 1);
    assert(crate::text::ws_end(value) == value.len());
    assert(spec_trim(value) =~= d);
    assert(d[0] != '+');
}

} // verus!
