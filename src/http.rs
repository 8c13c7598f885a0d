//! What the server answers to a request line, and the bytes of its response.

use vstd::prelude::*;
use vstd::string::StringExecFns;

verus! {

/// The text `str::trim` leaves of `s`: `s` without leading and trailing whitespace.
pub uninterp spec fn trimmed(s: Seq<char>) -> Seq<char>;

/// Relies on `str::trim`: the result depends on the characters of `s` alone.
#[verifier::external_body]
fn trim_line(s: &str) -> (r: &str)
    ensures
        r@ == trimmed(s@),
{
    s.trim()
}

/// The page served to a request: its status line, the file holding its body,
/// and how many seconds the worker lingers before answering.
pub struct Route {
    pub status_line: String,
    pub filename: String,
    pub delay_secs: u64,
}

/// The route of a request line that has already been trimmed:
/// `(status line, file name, delay in seconds)`.
pub open spec fn route_of(line: Seq<char>) -> (Seq<char>, Seq<char>, nat) {
    if line == "GET / HTTP/1.1"@ {
        ("HTTP/1.1 200 OK"@, "hello.html"@, 0)
    } else if line == "GET /sleep HTTP/1.1"@ {
        ("HTTP/1.1 200 OK"@, "hello.html"@, 5)
    } else {
        ("HTTP/1.1 404 Not Found"@, "404.html"@, 0)
    }
}

/// Whether `r` is the route `(status, file, delay)`.
pub open spec fn route_is(r: &Route, v: (Seq<char>, Seq<char>, nat)) -> bool {
    r.status_line@ == v.0 && r.filename@ == v.1 && r.delay_secs == v.2
}

/// Routes a request line taken as it stands: the root and `/sleep` are served
/// `hello.html` with status 200, `/sleep` after five seconds; anything else is
/// served `404.html` with status 404.
pub fn route_trimmed(line: &str) -> (r: Route)
    ensures
        route_is(&r, route_of(line@)),
{
    let l = line.to_owned();
    if l == "GET / HTTP/1.1".to_owned() {
        Route { status_line: "HTTP/1.1 200 OK".to_owned(), filename: "hello.html".to_owned(), delay_secs: 0 }
    } else if l == "GET /sleep HTTP/1.1".to_owned() {
        Route { status_line: "HTTP/1.1 200 OK".to_owned(), filename: "hello.html".to_owned(), delay_secs: 5 }
    } else {
        Route { status_line: "HTTP/1.1 404 Not Found".to_owned(), filename: "404.html".to_owned(), delay_secs: 0 }
    }
}

/// Routes a request line as it was read, surrounding whitespace ignored.
pub fn route(line: &str) -> (r: Route)
    ensures
        route_is(&r, route_of(trimmed(line@))),
{
    route_trimmed(trim_line(line))
}

/// The character of a decimal digit.
pub open spec fn digit_char(d: nat) -> char {
    ('0' as u8 + d) as char
}

/// The decimal numeral of `n`, without leading zeros.
pub open spec fn decimal(n: nat) -> Seq<char>
    decreases n,
{
    if n < 10 {
        seq![digit_char(n)]
    } else {
        decimal(n / 10) + seq![digit_char(n % 10)]
    }
}

/// The one-character text of digit `d`.
fn digit_text(d: usize) -> (r: &'static str)
    requires
        d < 10,
    ensures
        r@ == seq![digit_char(d as nat)],
{
    proof {
        reveal_strlit("0");
        reveal_strlit("1");
        reveal_strlit("2");
        reveal_strlit("3");
        reveal_strlit("4");
        reveal_strlit("5");
        reveal_strlit("6");
        reveal_strlit("7");
        reveal_strlit("8");
        reveal_strlit("9");
    }
    match d {
        0 => "0",
        1 => "1",
        2 => "2",
        3 => "3",
        4 => "4",
        5 => "5",
        6 => "6",
        7 => "7",
        8 => "8",
        _ => "9",
    }
}

/// Appends the decimal numeral of `n` to `out`.
pub fn push_decimal(out: &mut String, n: usize)
    ensures
        final(out)@ == old(out)@ + decimal(n as nat),
    decreases n,
{
    if n >= 10 {
        push_decimal(out, n / 10);
    }
    out.append(digit_text(n % 10));
    proof {
        assert(final(out)@ =~= old(out)@ + decimal(n as nat));
    }
}

/// The response text for `status_line` with body `contents`: the status line, a
/// `Content-Length` header giving the body's length in bytes, an empty line,
/// then the body.
pub open spec fn response_of(status_line: Seq<char>, contents: &str) -> Seq<char> {
    status_line + "\r\nContent-Length: "@ + decimal(contents.len() as nat) + "\r\n\r\n"@
        + contents@
}

/// Builds the response for `status_line` with body `contents`.
pub fn response(status_line: &str, contents: &str) -> (r: String)
    ensures
        r@ == response_of(status_line@, contents),
{
    let mut out = status_line.to_owned();
    out.append("\r\nContent-Length: ");
    push_decimal(&mut out, contents.len());
    out.append("\r\n\r\n");
    out.append(contents);
    assert(out@ =~= response_of(status_line@, contents));
    out
}

} // verus!
