//! Requests and responses exchanged with the daemon, one per line.
use vstd::prelude::*;

verus! {

/// A command sent by a client over one connection.
#[derive(Debug, Clone, Copy, PartialEq, Eq, Structural)]
pub enum DaemonRequest {
    /// Record until stopped (`max_duration == 0`) or for at most that many seconds.
    StartRecording { max_duration: u32 },
    /// Stop the active recording and transcribe it.
    StopRecording,
    /// Cancel any session and stop the daemon.
    Shutdown,
}

/// The single answer to a request.
#[derive(Debug, Clone, PartialEq, Eq)]
pub enum DaemonResponse {
    Success { text: String },
    /// Plain acknowledgement; written `{"type":"Ok"}` on the wire.
    Ack,
    Error { message: String },
}

/// Builds an `Error` response whose message is the given text.
pub fn error_response(message: &str) -> (r: DaemonResponse)
    ensures
        r matches DaemonResponse::Error { message: m } && m@ == message@,
{
    DaemonResponse::Error { message: String::from_str(message) }
}

/// Relies on `String::push`: appends one character at the end.
#[verifier::external_body]
fn push_char(s: &mut String, c: char)
    ensures
        final(s)@ == old(s)@.push(c),
{
    s.push(c)
}

/// A line that could not be decoded.
#[derive(Debug, Clone, Copy, PartialEq, Eq, Structural)]
pub enum ProtocolError {
    Malformed,
}

// ---- string escaping ----

/// The lower-case hexadecimal digit of `d < 16`.
pub open spec fn hex_char(d: u8) -> char {
    if d < 10 {
        (48u8 + d) as char
    } else {
        (87u8 + d) as char
    }
}

/// The value of a lower-case hexadecimal digit.
pub open spec fn hex_value(c: char) -> Option<u32> {
    let v = c as u32;
    if 48 <= v && v <= 57 {
        Some((v - 48) as u32)
    } else if 97 <= v && v <= 102 {
        Some((v - 87) as u32)
    } else {
        None
    }
}

/// How one character is written inside a quoted string.
pub open spec fn escape_char(c: char) -> Seq<char> {
    if c == '"' {
        seq!['\\', '"']
    } else if c == '\\' {
        seq!['\\', '\\']
    } else if c == '\n' {
        seq!['\\', 'n']
    } else if c == '\r' {
        seq!['\\', 'r']
    } else if c == '\t' {
        seq!['\\', 't']
    } else if (c as u32) < 32 {
        seq!['\\', 'u', '0', '0', hex_char(((c as u32) / 16) as u8), hex_char(((c as u32) % 16) as u8)]
    } else {
        seq![c]
    }
}

/// How a whole string is written between its quotes.
pub open spec fn escape(s: Seq<char>) -> Seq<char>
    decreases s.len(),
{
    if s.len() == 0 {
        Seq::empty()
    } else {
        escape_char(s[0]) + escape(s.drop_first())
    }
}

/// Reads one character of a quoted string that does not start with the
/// closing quote: the character and how many input characters it took.
pub open spec fn first_unit(s: Seq<char>) -> Option<(char, nat)> {
    if s.len() == 0 {
        None
    } else if s[0] == '\\' {
        if s.len() < 2 {
            None
        } else if s[1] == '"' {
            Some(('"', 2))
        } else if s[1] == '\\' {
            Some(('\\', 2))
        } else if s[1] == 'n' {
            Some(('\n', 2))
        } else if s[1] == 'r' {
            Some(('\r', 2))
        } else if s[1] == 't' {
            Some(('\t', 2))
        } else if s[1] == 'u' && s.len() >= 6 && s[2] == '0' && s[3] == '0' && hex_value(
            s[4],
        ) is Some && hex_value(s[5]) is Some && hex_value(s[4]).unwrap() < 2 {
            Some((((hex_value(s[4]).unwrap() * 16 + hex_value(s[5]).unwrap()) as u8) as char, 6))
        } else {
            None
        }
    } else if (s[0] as u32) < 32 {
        None
    } else {
        Some((s[0], 1))
    }
}

/// Reads the rest of a quoted string up to and including its closing quote:
/// the text and how many input characters it took.
pub open spec fn parse_body(s: Seq<char>) -> Option<(Seq<char>, nat)>
    decreases s.len(),
{
    if s.len() == 0 {
        None
    } else if s[0] == '"' {
        Some((Seq::empty(), 1))
    } else {
        match first_unit(s) {
            Some((c, k)) => if 1 <= k <= s.len() {
                match parse_body(s.skip(k as int)) {
                    Some((t, m)) => Some((seq![c] + t, k + m)),
                    None => None,
                }
            } else {
                None
            },
            None => None,
        }
    }
}

proof fn lemma_escape_push(s: Seq<char>, c: char)
    ensures
        escape(s.push(c)) == escape(s) + escape_char(c),
    decreases s.len(),
{
    if s.len() == 0 {
        assert(s.push(c).drop_first() =~= Seq::<char>::empty());
        assert(s.push(c)[0] == c);
        assert(escape(s.push(c).drop_first()) == Seq::<char>::empty());
        assert(escape(s) == Seq::<char>::empty());
        assert(escape(s.push(c)) =~= escape_char(c));
    } else {
        lemma_escape_push(s.drop_first(), c);
        assert(s.push(c).drop_first() =~= s.drop_first().push(c));
        assert(escape(s.push(c)) =~= escape(s) + escape_char(c));
    }
}

proof fn lemma_first_unit(c: char, tail: Seq<char>)
    ensures
        (escape_char(c) + tail)[0] != '"',
        escape_char(c).len() >= 1,
        first_unit(escape_char(c) + tail) == Some((c, escape_char(c).len())),
{
    let s = escape_char(c) + tail;
    if c != '"' && c != '\\' && c != '\n' && c != '\r' && c != '\t' && (c as u32) < 32 {
        let v = c as u32;
        let hi = (v / 16) as u8;
        let lo = (v % 16) as u8;
        assert(s[4] == hex_char(hi));
        assert(s[5] == hex_char(lo));
        assert(hex_value(hex_char(hi)) == Some(hi as u32));
        assert(hex_value(hex_char(lo)) == Some(lo as u32));
        assert(hi as u32 * 16 + lo as u32 == v);
    }
}

/// Quoted text reads back as exactly the text that was escaped.
pub proof fn lemma_parse_escape(x: Seq<char>, rest: Seq<char>)
    ensures
        parse_body(escape(x) + seq!['"'] + rest) == Some((x, escape(x).len() + 1)),
    decreases x.len(),
{
    let s = escape(x) + seq!['"'] + rest;
    if x.len() == 0 {
        assert(s[0] == '"');
        assert(x =~= Seq::<char>::empty());
    } else {
        let tail = escape(x.drop_first()) + seq!['"'] + rest;
        assert(s =~= escape_char(x[0]) + tail);
        lemma_first_unit(x[0], tail);
        let k = escape_char(x[0]).len();
        assert(s.skip(k as int) =~= tail);
        lemma_parse_escape(x.drop_first(), rest);
        assert(seq![x[0]] + x.drop_first() =~= x);
    }
}

// ---- decimal numbers ----

pub open spec fn digit_char(d: nat) -> char {
    ((48 + d) as u8) as char
}

pub open spec fn is_digit(c: char) -> bool {
    48 <= (c as u32) && (c as u32) <= 57
}

/// The decimal writing of `n`, most significant digit first.
pub open spec fn decimal(n: nat) -> Seq<char>
    decreases n,
{
    if n < 10 {
        seq![digit_char(n)]
    } else {
        decimal(n / 10).push(digit_char(n % 10))
    }
}

/// The value of a sequence of decimal digits.
pub open spec fn digits_value(ds: Seq<char>) -> nat
    decreases ds.len(),
{
    if ds.len() == 0 {
        0
    } else {
        digits_value(ds.drop_last()) * 10 + ((ds.last() as u32) - 48) as nat
    }
}

pub open spec fn all_digits(ds: Seq<char>) -> bool {
    forall|i: int| 0 <= i < ds.len() ==> is_digit(#[trigger] ds[i])
}

proof fn lemma_decimal(n: nat)
    ensures
        decimal(n).len() >= 1,
        all_digits(decimal(n)),
        digits_value(decimal(n)) == n,
    decreases n,
{
    if n < 10 {
        let ds = decimal(n);
        assert(ds.drop_last() =~= Seq::<char>::empty());
        assert((digit_char(n) as u32) == 48 + n);
        assert(digits_value(ds.drop_last()) == 0);
    } else {
        lemma_decimal(n / 10);
        let d = decimal(n / 10);
        assert(decimal(n).drop_last() =~= d);
        assert(decimal(n).last() == digit_char(n % 10));
        assert((digit_char(n % 10) as u32) == 48 + n % 10);
        assert(n == (n / 10) * 10 + n % 10);
        assert forall|i: int| 0 <= i < decimal(n).len() implies is_digit(#[trigger] decimal(n)[i]) by {
            if i < d.len() {
                assert(decimal(n)[i] == d[i]);
            }
        }
    }
}

proof fn lemma_digits_prefix(ds: Seq<char>, j: int)
    requires
        all_digits(ds),
        0 <= j <= ds.len(),
    ensures
        digits_value(ds.take(j)) <= digits_value(ds),
    decreases ds.len(),
{
    if j < ds.len() {
        let d = ds.drop_last();
        assert(d.take(j) =~= ds.take(j));
        assert forall|i: int| 0 <= i < d.len() implies is_digit(#[trigger] d[i]) by {
            assert(d[i] == ds[i]);
        }
        lemma_digits_prefix(d, j);
    } else {
        assert(ds.take(j) =~= ds);
    }
}

// ---- messages ----

pub open spec fn start_prefix() -> Seq<char> {
    "{\"type\":\"StartRecording\",\"max_duration\":"@
}

pub open spec fn stop_text() -> Seq<char> {
    "{\"type\":\"StopRecording\"}"@
}

pub open spec fn shutdown_text() -> Seq<char> {
    "{\"type\":\"Shutdown\"}"@
}

pub open spec fn success_prefix() -> Seq<char> {
    "{\"type\":\"Success\",\"text\":\""@
}

pub open spec fn ack_text() -> Seq<char> {
    "{\"type\":\"Ok\"}"@
}

pub open spec fn error_prefix() -> Seq<char> {
    "{\"type\":\"Error\",\"message\":\""@
}

pub open spec fn close_text() -> Seq<char> {
    "\"}"@
}

/// The line (without its newline) that carries a request.
pub open spec fn request_text(r: DaemonRequest) -> Seq<char> {
    match r {
        DaemonRequest::StartRecording { max_duration } => start_prefix() + decimal(
            max_duration as nat,
        ) + seq!['}'],
        DaemonRequest::StopRecording => stop_text(),
        DaemonRequest::Shutdown => shutdown_text(),
    }
}

/// A response as mathematical values.
pub enum ResponseView {
    Success(Seq<char>),
    Ack,
    Error(Seq<char>),
}

pub open spec fn response_view(r: DaemonResponse) -> ResponseView {
    match r {
        DaemonResponse::Success { text } => ResponseView::Success(text@),
        DaemonResponse::Ack => ResponseView::Ack,
        DaemonResponse::Error { message } => ResponseView::Error(message@),
    }
}

/// The line (without its newline) that carries a response.
pub open spec fn response_text(r: ResponseView) -> Seq<char> {
    match r {
        ResponseView::Success(t) => success_prefix() + escape(t) + close_text(),
        ResponseView::Ack => ack_text(),
        ResponseView::Error(m) => error_prefix() + escape(m) + close_text(),
    }
}

/// Whether `s` holds `lit` at position `at`.
pub open spec fn holds_at(s: Seq<char>, at: int, lit: Seq<char>) -> bool {
    0 <= at && at + lit.len() <= s.len() && s.subrange(at, at + lit.len()) == lit
}

/// The request a line carries, if it is well formed.
pub open spec fn parse_request(s: Seq<char>) -> Option<DaemonRequest> {
    let p = start_prefix().len() as int;
    if s == stop_text() {
        Some(DaemonRequest::StopRecording)
    } else if s == shutdown_text() {
        Some(DaemonRequest::Shutdown)
    } else if holds_at(s, 0, start_prefix()) && s.len() >= p + 2 && s.last() == '}' && all_digits(
        s.subrange(p, s.len() - 1),
    ) && digits_value(s.subrange(p, s.len() - 1)) <= u32::MAX {
        Some(
            DaemonRequest::StartRecording {
                max_duration: digits_value(s.subrange(p, s.len() - 1)) as u32,
            },
        )
    } else {
        None
    }
}

/// The text of a quoted field that opens after `prefix` and closes the line.
pub open spec fn parse_field(s: Seq<char>, prefix: Seq<char>) -> Option<Seq<char>> {
    if holds_at(s, 0, prefix) {
        match parse_body(s.skip(prefix.len() as int)) {
            Some((t, k)) => if s.skip((prefix.len() + k) as int) == seq!['}'] {
                Some(t)
            } else {
                None
            },
            None => None,
        }
    } else {
        None
    }
}

/// The response a line carries, if it is well formed.
pub open spec fn parse_response(s: Seq<char>) -> Option<ResponseView> {
    if s == ack_text() {
        Some(ResponseView::Ack)
    } else if parse_field(s, success_prefix()) is Some {
        Some(ResponseView::Success(parse_field(s, success_prefix()).unwrap()))
    } else if parse_field(s, error_prefix()) is Some {
        Some(ResponseView::Error(parse_field(s, error_prefix()).unwrap()))
    } else {
        None
    }
}

proof fn lemma_literals()
    ensures
        start_prefix().len() == 40,
        stop_text().len() == 24,
        shutdown_text().len() == 19,
        success_prefix().len() == 26,
        ack_text().len() == 13,
        error_prefix().len() == 27,
        close_text() == seq!['"', '}'],
        success_prefix()[9] == 'S',
        error_prefix()[9] == 'E',
{
    reveal_strlit("{\"type\":\"StartRecording\",\"max_duration\":");
    reveal_strlit("{\"type\":\"StopRecording\"}");
    reveal_strlit("{\"type\":\"Shutdown\"}");
    reveal_strlit("{\"type\":\"Success\",\"text\":\"");
    reveal_strlit("{\"type\":\"Ok\"}");
    reveal_strlit("{\"type\":\"Error\",\"message\":\"");
    reveal_strlit("\"}");
    assert(close_text() =~= seq!['"', '}']);
}

/// Decoding the line of any request gives back that request.
pub proof fn lemma_request_round_trip(r: DaemonRequest)
    ensures
        parse_request(request_text(r)) == Some(r),
{
    lemma_literals();
    let s = request_text(r);
    if let DaemonRequest::StartRecording { max_duration } = r {
        let n = max_duration as nat;
        let p = start_prefix().len() as int;
        lemma_decimal(n);
        assert(s.subrange(0, p) =~= start_prefix());
        assert(s.subrange(p, s.len() - 1) =~= decimal(n));
        assert(s != stop_text());
        assert(s != shutdown_text());
    } else if r == DaemonRequest::Shutdown {
        assert(s != stop_text());
    }
}

/// Decoding the line of any response gives back that response.
pub proof fn lemma_response_round_trip(v: ResponseView)
    ensures
        parse_response(response_text(v)) == Some(v),
{
    lemma_literals();
    let s = response_text(v);
    match v {
        ResponseView::Ack => {},
        ResponseView::Success(t) => {
            let p = success_prefix().len() as int;
            assert(s.subrange(0, p) =~= success_prefix());
            assert(s.skip(p) =~= escape(t) + seq!['"'] + seq!['}']);
            lemma_parse_escape(t, seq!['}']);
            assert(s.skip(p + escape(t).len() + 1) =~= seq!['}']);
            assert(s != ack_text());
        },
        ResponseView::Error(m) => {
            let p = error_prefix().len() as int;
            assert(s.subrange(0, p) =~= error_prefix());
            assert(s.skip(p) =~= escape(m) + seq!['"'] + seq!['}']);
            lemma_parse_escape(m, seq!['}']);
            assert(s.skip(p + escape(m).len() + 1) =~= seq!['}']);
            assert(s != ack_text());
            assert(s.subrange(0, success_prefix().len() as int)[9] == 'E');
            assert(!holds_at(s, 0, success_prefix()));
        },
    }
}

// ---- encoding ----

fn hex_digit(d: u8) -> (c: char)
    requires
        d < 16,
    ensures
        c == hex_char(d),
{
    if d < 10 {
        (48u8 + d) as char
    } else {
        (87u8 + d) as char
    }
}

fn push_escaped(out: &mut String, c: char)
    ensures
        final(out)@ == old(out)@ + escape_char(c),
{
    if c == '"' {
        out.append("\\\"");
        proof { reveal_strlit("\\\""); }
    } else if c == '\\' {
        out.append("\\\\");
        proof { reveal_strlit("\\\\"); }
    } else if c == '\n' {
        out.append("\\n");
        proof { reveal_strlit("\\n"); }
    } else if c == '\r' {
        out.append("\\r");
        proof { reveal_strlit("\\r"); }
    } else if c == '\t' {
        out.append("\\t");
        proof { reveal_strlit("\\t"); }
    } else if (c as u32) < 32 {
        let v = c as u32;
        out.append("\\u00");
        proof { reveal_strlit("\\u00"); }
        push_char(out, hex_digit((v / 16) as u8));
        push_char(out, hex_digit((v % 16) as u8));
    } else {
        push_char(out, c);
    }
    assert(final(out)@ =~= old(out)@ + escape_char(c));
}

fn push_escaped_str(out: &mut String, t: &str)
    ensures
        final(out)@ == old(out)@ + escape(t@),
{
    let n = t.unicode_len();
    let mut i: usize = 0;
    while i < n
        invariant
            n == t@.len(),
            i <= n,
            out@ == old(out)@ + escape(t@.take(i as int)),
        decreases n - i,
    {
        let c = t.get_char(i);
        proof {
            lemma_escape_push(t@.take(i as int), c);
            assert(t@.take(i as int).push(c) =~= t@.take(i + 1 as int));
        }
        push_escaped(out, c);
        i = i + 1;
    }
    assert(t@.take(n as int) =~= t@);
}

fn push_decimal(out: &mut String, n: u32)
    ensures
        final(out)@ == old(out)@ + decimal(n as nat),
    decreases n,
{
    if n >= 10 {
        push_decimal(out, n / 10);
    }
    push_char(out, ((48 + n % 10) as u8) as char);
    assert(final(out)@ =~= old(out)@ + decimal(n as nat));
}

/// The line (without its newline) that carries a request.
pub fn encode_request(r: DaemonRequest) -> (line: String)
    ensures
        line@ == request_text(r),
{
    match r {
        DaemonRequest::StartRecording { max_duration } => {
            let mut out = String::from_str("{\"type\":\"StartRecording\",\"max_duration\":");
            push_decimal(&mut out, max_duration);
            push_char(&mut out, '}');
            out
        },
        DaemonRequest::StopRecording => String::from_str("{\"type\":\"StopRecording\"}"),
        DaemonRequest::Shutdown => String::from_str("{\"type\":\"Shutdown\"}"),
    }
}

/// The line (without its newline) that carries a response.
pub fn encode_response(r: &DaemonResponse) -> (line: String)
    ensures
        line@ == response_text(response_view(*r)),
{
    match r {
        DaemonResponse::Success { text } => {
            let mut out = String::from_str("{\"type\":\"Success\",\"text\":\"");
            push_escaped_str(&mut out, text.as_str());
            out.append("\"}");
            out
        },
        DaemonResponse::Ack => String::from_str("{\"type\":\"Ok\"}"),
        DaemonResponse::Error { message } => {
            let mut out = String::from_str("{\"type\":\"Error\",\"message\":\"");
            push_escaped_str(&mut out, message.as_str());
            out.append("\"}");
            out
        },
    }
}

// ---- decoding ----

fn holds_at_exec(s: &str, n: usize, at: usize, lit: &str) -> (r: bool)
    requires
        n == s@.len(),
    ensures
        r == holds_at(s@, at as int, lit@),
{
    let m = lit.unicode_len();
    if m > n || at > n - m {
        return false;
    }
    let mut j: usize = 0;
    while j < m
        invariant
            m == lit@.len(),
            n == s@.len(),
            at + m <= n,
            j <= m,
            forall|k: int| 0 <= k < j ==> s@[at + k] == lit@[k],
        decreases m - j,
    {
        if s.get_char(at + j) != lit.get_char(j) {
            assert(s@.subrange(at as int, at + m)[j as int] != lit@[j as int]);
            return false;
        }
        j = j + 1;
    }
    assert(s@.subrange(at as int, at + m) =~= lit@);
    true
}

fn hex_digit_value(c: char) -> (r: Option<u32>)
    ensures
        r == hex_value(c),
{
    let v = c as u32;
    if 48 <= v && v <= 57 {
        Some(v - 48)
    } else if 97 <= v && v <= 102 {
        Some(v - 87)
    } else {
        None
    }
}

fn decode_unit(s: &str, n: usize, i: usize) -> (r: Option<(char, usize)>)
    requires
        n == s@.len(),
        i < n,
    ensures
        match r {
            Some((c, k)) => first_unit(s@.skip(i as int)) == Some((c, k as nat)),
            None => first_unit(s@.skip(i as int)) is None,
        },
{
    let ghost t = s@.skip(i as int);
    let c0 = s.get_char(i);
    assert(t[0] == c0);
    if c0 == '\\' {
        if n - i < 2 {
            return None;
        }
        let c1 = s.get_char(i + 1);
        assert(t[1] == c1);
        if c1 == '"' {
            Some(('"', 2))
        } else if c1 == '\\' {
            Some(('\\', 2))
        } else if c1 == 'n' {
            Some(('\n', 2))
        } else if c1 == 'r' {
            Some(('\r', 2))
        } else if c1 == 't' {
            Some(('\t', 2))
        } else if c1 == 'u' && n - i >= 6 {
            let c2 = s.get_char(i + 2);
            let c3 = s.get_char(i + 3);
            let c4 = s.get_char(i + 4);
            let c5 = s.get_char(i + 5);
            assert(t[2] == c2 && t[3] == c3 && t[4] == c4 && t[5] == c5);
            if c2 == '0' && c3 == '0' {
                match (hex_digit_value(c4), hex_digit_value(c5)) {
                    (Some(hi), Some(lo)) => {
                        if hi < 2 {
                            Some((((hi * 16 + lo) as u8) as char, 6))
                        } else {
                            None
                        }
                    },
                    _ => None,
                }
            } else {
                None
            }
        } else {
            None
        }
    } else if (c0 as u32) < 32 {
        None
    } else {
        Some((c0, 1))
    }
}

fn decode_body(s: &str, n: usize, start: usize) -> (r: Option<(String, usize)>)
    requires
        n == s@.len(),
        start <= n,
    ensures
        match r {
            Some((t, end)) => start <= end <= n && parse_body(s@.skip(start as int)) == Some(
                (t@, (end - start) as nat),
            ),
            None => parse_body(s@.skip(start as int)) is None,
        },
{
    let mut out = String::new();
    let mut i: usize = start;
    loop
        invariant
            n == s@.len(),
            start <= i <= n,
            parse_body(s@.skip(start as int)) == match parse_body(s@.skip(i as int)) {
                Some((t, m)) => Some((out@ + t, ((i - start) + m) as nat)),
                None => None::<(Seq<char>, nat)>,
            },
        decreases n - i,
    {
        if i >= n {
            return None;
        }
        let c = s.get_char(i);
        if c == '"' {
            proof {
                assert(s@.skip(i as int)[0] == '"');
                assert(out@ + Seq::<char>::empty() =~= out@);
            }
            return Some((out, i + 1));
        }
        assert(s@.skip(i as int)[0] == c);
        match decode_unit(s, n, i) {
            Some((d, k)) => {
                if k > n - i {
                    return None;
                }
                proof {
                    assert(s@.skip(i as int).skip(k as int) =~= s@.skip(i + k));
                    let old_out = out@;
                    assert(forall|t: Seq<char>| old_out + (seq![d] + t) =~= old_out.push(d) + t);
                }
                push_char(&mut out, d);
                i = i + k;
            },
            None => {
                return None;
            },
        }
    }
}

/// Reads a request from one line (without its newline).
pub fn decode_request(line: &str) -> (r: Result<DaemonRequest, ProtocolError>)
    ensures
        match r {
            Ok(q) => parse_request(line@) == Some(q),
            Err(_) => parse_request(line@) is None,
        },
{
    let n = line.unicode_len();
    proof { lemma_literals(); }
    let stop = "{\"type\":\"StopRecording\"}";
    let shut = "{\"type\":\"Shutdown\"}";
    let start = "{\"type\":\"StartRecording\",\"max_duration\":";
    if n == 24 && holds_at_exec(line, n, 0, stop) {
        assert(line@ =~= line@.subrange(0, 24));
        return Ok(DaemonRequest::StopRecording);
    }
    proof {
        if line@ == stop_text() {
            assert(line@.subrange(0, 24) =~= line@);
        }
    }
    if n == 19 && holds_at_exec(line, n, 0, shut) {
        assert(line@ =~= line@.subrange(0, 19));
        return Ok(DaemonRequest::Shutdown);
    }
    proof {
        if line@ == shutdown_text() {
            assert(line@.subrange(0, 19) =~= line@);
        }
    }
    if n < 42 || !holds_at_exec(line, n, 0, start) || line.get_char(n - 1) != '}' {
        return Err(ProtocolError::Malformed);
    }
    let ghost ds = line@.subrange(40, n - 1);
    let mut acc: u64 = 0;
    let mut j: usize = 40;
    while j < n - 1
        invariant
            n == line@.len(),
            n >= 42,
            40 <= j <= n - 1,
            ds == line@.subrange(40, n - 1),
            all_digits(ds.take(j - 40)),
            acc as nat == digits_value(ds.take(j - 40)),
            acc <= u32::MAX,
            start_prefix().len() == 40,
            stop_text().len() == 24,
            shutdown_text().len() == 19,
        decreases n - 1 - j,
    {
        let c = line.get_char(j);
        assert(ds[j - 40] == c);
        let v = c as u32;
        if v < 48 || v > 57 {
            assert(!is_digit(ds[j - 40]));
            return Err(ProtocolError::Malformed);
        }
        let next = acc * 10 + (v - 48) as u64;
        proof {
            let p = ds.take(j - 40 + 1);
            assert(p.drop_last() =~= ds.take(j - 40));
            assert(p.last() == c);
            assert forall|k: int| 0 <= k < p.len() implies is_digit(#[trigger] p[k]) by {
                if k < j - 40 {
                    assert(p[k] == ds.take(j - 40)[k]);
                }
            }
        }
        if next > 4294967295 {
            proof {
                if all_digits(ds) {
                    lemma_digits_prefix(ds, j - 40 + 1);
                }
            }
            return Err(ProtocolError::Malformed);
        }
        acc = next;
        j = j + 1;
    }
    assert(ds.take(n - 1 - 40) =~= ds);
    Ok(DaemonRequest::StartRecording { max_duration: acc as u32 })
}

fn decode_field(line: &str, n: usize, prefix: &str) -> (r: Option<String>)
    requires
        n == line@.len(),
    ensures
        match r {
            Some(t) => parse_field(line@, prefix@) == Some(t@),
            None => parse_field(line@, prefix@) is None,
        },
{
    if !holds_at_exec(line, n, 0, prefix) {
        return None;
    }
    let p = prefix.unicode_len();
    match decode_body(line, n, p) {
        Some((t, end)) => {
            proof {
                assert(line@.skip((p + (end - p)) as int) =~= line@.skip(end as int));
            }
            if n - end == 1 && line.get_char(end) == '}' {
                assert(line@.skip(end as int) =~= seq!['}']);
                Some(t)
            } else {
                proof {
                    if line@.skip(end as int) == seq!['}'] {
                        assert(line@.skip(end as int).len() == 1);
                        assert(line@.skip(end as int)[0] == line@[end as int]);
                    }
                }
                None
            }
        },
        None => None,
    }
}

/// Reads a response from one line (without its newline).
pub fn decode_response(line: &str) -> (r: Result<DaemonResponse, ProtocolError>)
    ensures
        match r {
            Ok(v) => parse_response(line@) == Some(response_view(v)),
            Err(_) => parse_response(line@) is None,
        },
{
    let n = line.unicode_len();
    proof { lemma_literals(); }
    if n == 13 && holds_at_exec(line, n, 0, "{\"type\":\"Ok\"}") {
        assert(line@ =~= line@.subrange(0, 13));
        return Ok(DaemonResponse::Ack);
    }
    proof {
        if line@ == ack_text() {
            assert(line@.subrange(0, 13) =~= line@);
        }
    }
    match decode_field(line, n, "{\"type\":\"Success\",\"text\":\"") {
        Some(text) => {
            return Ok(DaemonResponse::Success { text });
        },
        None => {},
    }
    match decode_field(line, n, "{\"type\":\"Error\",\"message\":\"") {
        Some(message) => Ok(DaemonResponse::Error { message }),
        None => Err(ProtocolError::Malformed),
    }
}

} // verus!
