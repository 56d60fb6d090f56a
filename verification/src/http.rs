use vstd::prelude::*;
use vstd::string::*;
use vstd::utf8::*;

verus! {

/// What the server answers to a request line.
#[derive(Clone, Copy, Debug, PartialEq, Eq, Structural)]
pub enum Route {
    /// The front page.
    Root,
    /// The front page, after a pause: a request that keeps its worker busy.
    Sleep,
    /// Anything else.
    NotFound,
}

/// The route of a request line: two lines are known, everything else is not
/// found.
pub open spec fn route_of(request_line: Seq<char>) -> Route {
    if request_line == "GET / HTTP/1.1"@ {
        Route::Root
    } else if request_line == "GET /sleep HTTP/1.1"@ {
        Route::Sleep
    } else {
        Route::NotFound
    }
}

/// The decimal digits of `n` in ASCII, without leading zeros.
pub open spec fn decimal(n: nat) -> Seq<u8>
    decreases n,
{
    if n < 10 {
        seq![(48 + n) as u8]
    } else {
        decimal(n / 10).push((48 + n % 10) as u8)
    }
}

/// A response: the status line, the length of the body as its only header,
/// an empty line, and the body.
pub open spec fn response_bytes(status_line: Seq<u8>, contents: Seq<u8>) -> Seq<u8> {
    status_line + "\r\nContent-Length: ".spec_bytes() + decimal(contents.len())
        + "\r\n\r\n".spec_bytes() + contents
}

impl Route {
    /// The status line of the response.
    pub fn status_line(&self) -> (text: &'static str)
        ensures
            *self == Route::NotFound ==> text@ == "HTTP/1.1 404 NOT FOUND"@,
            *self != Route::NotFound ==> text@ == "HTTP/1.1 200 OK"@,
    {
        match self {
            Route::Root => "HTTP/1.1 200 OK",
            Route::Sleep => "HTTP/1.1 200 OK",
            Route::NotFound => "HTTP/1.1 404 NOT FOUND",
        }
    }

    /// The file that holds the body of the response.
    pub fn filename(&self) -> (name: &'static str)
        ensures
            *self == Route::NotFound ==> name@ == "404.html"@,
            *self != Route::NotFound ==> name@ == "hello.html"@,
    {
        match self {
            Route::Root => "hello.html",
            Route::Sleep => "hello.html",
            Route::NotFound => "404.html",
        }
    }

    /// The seconds to pause before the response is made.
    pub fn delay_secs(&self) -> (secs: u64)
        ensures
            *self == Route::Sleep ==> secs == 5,
            *self != Route::Sleep ==> secs == 0,
    {
        match self {
            Route::Sleep => 5,
            _ => 0,
        }
    }
}

/// Whether two slices hold the same bytes.
fn same_bytes(a: &[u8], b: &[u8]) -> (same: bool)
    ensures
        same == (a@ == b@),
{
    if a.len() != b.len() {
        return false;
    }
    let mut i: usize = 0;
    while i < a.len()
        invariant
            i <= a.len(),
            a.len() == b.len(),
            forall|k: int| 0 <= k < i ==> a[k] == b[k],
        decreases a.len() - i,
    {
        if a[i] != b[i] {
            return false;
        }
        i = i + 1;
    }
    assert(a@ =~= b@);
    true
}

/// Whether two strings hold the same text.
pub fn same_text(a: &str, b: &str) -> (same: bool)
    ensures
        same == (a@ == b@),
{
    let same = same_bytes(a.as_bytes(), b.as_bytes());
    proof {
        encode_utf8_decode_utf8(a@);
        encode_utf8_decode_utf8(b@);
    }
    same
}

/// Finds the route of a request line.
pub fn route(request_line: &str) -> (r: Route)
    ensures
        r == route_of(request_line@),
{
    if same_text(request_line, "GET / HTTP/1.1") {
        Route::Root
    } else if same_text(request_line, "GET /sleep HTTP/1.1") {
        Route::Sleep
    } else {
        Route::NotFound
    }
}

/// Appends `bytes` to `out`.
fn push_bytes(out: &mut Vec<u8>, bytes: &[u8])
    ensures
        final(out)@ == old(out)@ + bytes@,
{
    let mut i: usize = 0;
    while i < bytes.len()
        invariant
            i <= bytes.len(),
            out@ == old(out)@ + bytes@.subrange(0, i as int),
        decreases bytes.len() - i,
    {
        out.push(bytes[i]);
        i = i + 1;
        assert(out@ =~= old(out)@ + bytes@.subrange(0, i as int));
    }
    assert(bytes@.subrange(0, i as int) =~= bytes@);
}

/// Appends the decimal digits of `n` to `out`.
fn push_decimal(out: &mut Vec<u8>, n: usize)
    ensures
        final(out)@ == old(out)@ + decimal(n as nat),
    decreases n,
{
    if n >= 10 {
        push_decimal(out, n / 10);
    }
    let digit: u8 = 48u8 + (n % 10) as u8;
    out.push(digit);
    assert(out@ =~= old(out)@ + decimal(n as nat));
}

/// The decimal digits of `n` in ASCII.
pub fn decimal_digits(n: usize) -> (out: Vec<u8>)
    ensures
        out@ == decimal(n as nat),
{
    let mut out: Vec<u8> = Vec::new();
    push_decimal(&mut out, n);
    assert(out@ =~= decimal(n as nat));
    out
}

/// Builds the bytes of a response from its status line and its body.
pub fn response(status_line: &str, contents: &str) -> (out: Vec<u8>)
    ensures
        out@ == response_bytes(status_line.spec_bytes(), contents.spec_bytes()),
{
    let mut out: Vec<u8> = Vec::new();
    push_bytes(&mut out, status_line.as_bytes());
    push_bytes(&mut out, "\r\nContent-Length: ".as_bytes());
    let body = contents.as_bytes();
    push_decimal(&mut out, body.len());
    push_bytes(&mut out, "\r\n\r\n".as_bytes());
    push_bytes(&mut out, body);
    assert(out@ =~= response_bytes(status_line.spec_bytes(), contents.spec_bytes()));
    out
}

} // verus!
