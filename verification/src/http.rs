//! Request routing and response framing for the small HTTP server: which
//! page a request asks for, and the exact bytes sent back for it.
use vstd::prelude::*;

verus! {

broadcast use vstd::string::is_ascii_spec_bytes;

/// The bytes of an ASCII text, one per character.
pub open spec fn ascii(s: Seq<char>) -> Seq<u8> {
    Seq::new(s.len(), |i: int| s[i] as u8)
}

/// An ASCII text and its bytes have the same length, and each byte is the
/// code of the character at the same place.
pub proof fn lemma_ascii_bytewise(s: Seq<char>)
    ensures
        ascii(s).len() == s.len(),
        forall|i: int| 0 <= i < s.len() ==> #[trigger] ascii(s)[i] == s[i] as u8,
{
}

/// `data` begins with `prefix`.
pub open spec fn starts_with(data: Seq<u8>, prefix: Seq<u8>) -> bool {
    prefix.len() <= data.len() && data.subrange(0, prefix.len() as int) == prefix
}

/// The request line that asks for the index page.
pub open spec fn index_request() -> Seq<char> {
    "GET / HTTP/1.1\r\n"@
}

/// The request line that asks for the index page after a pause.
pub open spec fn sleep_request() -> Seq<char> {
    "GET /sleep HTTP/1.1\r\n"@
}

/// The status line of a successful response.
pub open spec fn ok_status() -> Seq<char> {
    "HTTP/1.1 200 OK\r\n\r\n"@
}

/// The status line of a response to an unknown request.
pub open spec fn not_found_status() -> Seq<char> {
    "HTTP/1.1 404 NOT FOUND\r\n\r\n"@
}

/// What the server does with a request.
#[derive(PartialEq, Eq, Structural, Debug, Clone, Copy)]
pub enum Route {
    /// Serve the index page at once.
    Index,
    /// Serve the index page after a pause.
    Sleep,
    /// Serve the not-found page.
    NotFound,
}

/// The route for the raw bytes a client sent: the index request line
/// first, then the sleep request line, anything else is not found.
pub open spec fn route_of(request: Seq<u8>) -> Route {
    if starts_with(request, ascii(index_request())) {
        Route::Index
    } else if starts_with(request, ascii(sleep_request())) {
        Route::Sleep
    } else {
        Route::NotFound
    }
}

/// The decimal digits of `n`, most significant first, in ASCII.
pub open spec fn decimal(n: nat) -> Seq<u8>
    decreases n,
{
    if n < 10 {
        seq![(n + 48) as u8]
    } else {
        decimal(n / 10).push((n % 10 + 48) as u8)
    }
}

/// The number that a run of ASCII decimal digits denotes.
pub open spec fn decimal_value(digits: Seq<u8>) -> nat
    decreases digits.len(),
{
    if digits.len() == 0 {
        0
    } else {
        decimal_value(digits.drop_last()) * 10 + (digits.last() - 48) as nat
    }
}

/// `b` is an ASCII decimal digit.
pub open spec fn is_digit(b: u8) -> bool {
    48 <= b <= 57
}

/// The `Content-Length` value of every response reads back as the length
/// of its body: `decimal(n)` is a non-empty run of decimal digits, without
/// a leading zero unless it is the single digit `0`, and it denotes `n`.
pub proof fn lemma_decimal_reads_back(n: nat)
    ensures
        decimal(n).len() > 0,
        decimal(n).len() == 1 <==> n < 10,
        forall|i: int| 0 <= i < decimal(n).len() ==> is_digit(#[trigger] decimal(n)[i]),
        decimal(n).len() > 1 ==> decimal(n)[0] != 48,
        decimal_value(decimal(n)) == n,
    decreases n,
{
    let d = decimal(n);
    if n >= 10 {
        lemma_decimal_reads_back(n / 10);
        let prefix = decimal(n / 10);
        assert(d.drop_last() =~= prefix);
        assert forall|i: int| 0 <= i < d.len() implies is_digit(#[trigger] d[i]) by {
            if i < prefix.len() {
                assert(d[i] == prefix[i]);
            }
        }
        assert(d[0] == prefix[0]);
        if prefix.len() == 1 {
            assert(prefix[0] == ((n / 10) + 48) as u8);
        }
        assert(d.last() == (n % 10 + 48) as u8);
        assert(decimal_value(d) == decimal_value(prefix) * 10 + (d.last() - 48) as nat);
        assert(n == (n / 10) * 10 + n % 10);
    } else {
        assert(d.drop_last() =~= Seq::<u8>::empty());
        assert(decimal_value(d) == decimal_value(d.drop_last()) * 10 + (d.last() - 48) as nat);
    }
}

/// Every response carries its body whole, at its end, under the status line
/// it was given, and its `Content-Length` field reads back as the body's
/// length in bytes: the response is the status line, `\r\nContent-Length: `,
/// a non-empty run of decimal digits denoting the body's length, a blank
/// line `\r\n\r\n`, and the body, whatever the status line.
pub proof fn lemma_response_layout(status_line: Seq<u8>, body: Seq<u8>)
    ensures
        ({
            let r = response_bytes(status_line, body);
            let header = ascii("\r\nContent-Length: "@);
            let digits_start = status_line.len() + header.len() as int;
            let digits_end = r.len() - 4 - body.len();
            &&& digits_start < digits_end
            &&& r.subrange(0, status_line.len() as int) == status_line
            &&& r.subrange(status_line.len() as int, digits_start) == header
            &&& forall|i: int| digits_start <= i < digits_end ==> is_digit(#[trigger] r[i])
            &&& decimal_value(r.subrange(digits_start, digits_end)) == body.len()
            &&& r.subrange(digits_end, digits_end + 4) == ascii("\r\n\r\n"@)
            &&& r.subrange(r.len() - body.len(), r.len() as int) == body
        }),
{
    reveal_strlit("\r\nContent-Length: ");
    reveal_strlit("\r\n\r\n");
    let r = response_bytes(status_line, body);
    let header = ascii("\r\nContent-Length: "@);
    let blank = ascii("\r\n\r\n"@);
    let digits = decimal(body.len());
    lemma_decimal_reads_back(body.len());
    assert(blank.len() == 4);
    let a = status_line.len() as int;
    let b = a + header.len();
    let c = b + digits.len();
    let d = c + 4;
    assert(r.len() == d + body.len());
    assert(r.subrange(0, a) =~= status_line);
    assert(r.subrange(a, b) =~= header);
    assert(r.subrange(b, c) =~= digits);
    assert forall|i: int| b <= i < c implies is_digit(#[trigger] r[i]) by {
        assert(r[i] == digits[i - b]);
    }
    assert(r.subrange(c, d) =~= blank);
    assert(r.subrange(d, r.len() as int) =~= body);
}

/// The bytes of the response that carries `body` under `status_line`:
/// the status line, a `Content-Length` field giving the body's length in
/// bytes, a blank line, and the body.
pub open spec fn response_bytes(status_line: Seq<u8>, body: Seq<u8>) -> Seq<u8> {
    status_line + ascii("\r\nContent-Length: "@) + decimal(body.len()) + ascii("\r\n\r\n"@) + body
}

/// Every request whose bytes begin with the sleep request line goes to
/// `Sleep`, and every one that begins with the index request line goes to
/// `Index`, whatever bytes follow; all others are not found.
pub proof fn lemma_route_by_request_line(request: Seq<u8>)
    ensures
        starts_with(request, ascii("GET / HTTP/1.1\r\n"@)) ==> route_of(request) == Route::Index,
        starts_with(request, ascii("GET /sleep HTTP/1.1\r\n"@)) ==> route_of(request)
            == Route::Sleep,
        !starts_with(request, ascii("GET / HTTP/1.1\r\n"@)) && !starts_with(
            request,
            ascii("GET /sleep HTTP/1.1\r\n"@),
        ) ==> route_of(request) == Route::NotFound,
{
    reveal_strlit("GET / HTTP/1.1\r\n");
    reveal_strlit("GET /sleep HTTP/1.1\r\n");
    let index = ascii("GET / HTTP/1.1\r\n"@);
    let sleep = ascii("GET /sleep HTTP/1.1\r\n"@);
    if starts_with(request, sleep) {
        assert(request[5] == sleep[5]);
        assert(sleep[5] != index[5]);
        if starts_with(request, index) {
            assert(request[5] == index[5]);
        }
    }
}

impl Route {
    /// The status line sent for this route.
    pub open spec fn spec_status_line(self) -> Seq<char> {
        match self {
            Route::NotFound => not_found_status(),
            _ => ok_status(),
        }
    }

    /// The page file served for this route.
    pub open spec fn spec_filename(self) -> Seq<char> {
        match self {
            Route::NotFound => "404.html"@,
            _ => "hello.html"@,
        }
    }

    /// How many seconds the server waits before it answers.
    pub open spec fn spec_pause_secs(self) -> u64 {
        match self {
            Route::Sleep => 5,
            _ => 0,
        }
    }

    /// The status line sent for this route.
    pub fn status_line(&self) -> (r: &'static str)
        ensures
            r@ == self.spec_status_line(),
            r.is_ascii(),
    {
        match self {
            Route::NotFound => {
                let s = "HTTP/1.1 404 NOT FOUND\r\n\r\n";
                proof {
                    reveal_strlit("HTTP/1.1 404 NOT FOUND\r\n\r\n");
                }
                s
            },
            _ => {
                let s = "HTTP/1.1 200 OK\r\n\r\n";
                proof {
                    reveal_strlit("HTTP/1.1 200 OK\r\n\r\n");
                }
                s
            },
        }
    }

    /// The page file served for this route.
    pub fn filename(&self) -> (r: &'static str)
        ensures
            r@ == self.spec_filename(),
    {
        match self {
            Route::NotFound => "404.html",
            _ => "hello.html",
        }
    }

    /// How many seconds the server waits before it answers.
    pub fn pause_secs(&self) -> (r: u64)
        ensures
            r == self.spec_pause_secs(),
    {
        match self {
            Route::Sleep => 5,
            _ => 0,
        }
    }
}

/// The bytes of an ASCII literal.
fn ascii_bytes(s: &'static str) -> (r: &'static [u8])
    requires
        s.is_ascii(),
    ensures
        r@ == ascii(s@),
{
    let b = s.as_bytes();
    assert(b@ =~= ascii(s@));
    b
}

/// Whether `data` begins with `prefix`.
pub fn has_prefix(data: &[u8], prefix: &[u8]) -> (r: bool)
    ensures
        r == starts_with(data@, prefix@),
{
    if prefix.len() > data.len() {
        return false;
    }
    let mut i: usize = 0;
    while i < prefix.len()
        invariant
            prefix.len() <= data.len(),
            i <= prefix.len(),
            forall|j: int| 0 <= j < i ==> data@[j] == prefix@[j],
        decreases prefix.len() - i,
    {
        if data[i] != prefix[i] {
            assert(data@.subrange(0, prefix.len() as int)[i as int] != prefix@[i as int]);
            return false;
        }
        i = i + 1;
    }
    assert(data@.subrange(0, prefix.len() as int) =~= prefix@);
    true
}

/// Decides the route for the bytes a client sent.
pub fn route(request: &[u8]) -> (r: Route)
    ensures
        r == route_of(request@),
{
    let index = "GET / HTTP/1.1\r\n";
    let sleep = "GET /sleep HTTP/1.1\r\n";
    proof {
        reveal_strlit("GET / HTTP/1.1\r\n");
        reveal_strlit("GET /sleep HTTP/1.1\r\n");
    }
    if has_prefix(request, ascii_bytes(index)) {
        Route::Index
    } else if has_prefix(request, ascii_bytes(sleep)) {
        Route::Sleep
    } else {
        Route::NotFound
    }
}

/// Appends the decimal digits of `n` to `out`.
pub fn push_decimal(out: &mut Vec<u8>, n: usize)
    ensures
        final(out)@ == old(out)@ + decimal(n as nat),
    decreases n,
{
    if n >= 10 {
        push_decimal(out, n / 10);
    }
    let digit: u8 = (n % 10) as u8 + 48;
    out.push(digit);
    proof {
        if n >= 10 {
            assert(decimal(n as nat) == decimal((n / 10) as nat).push(digit));
        } else {
            assert(decimal(n as nat) == seq![digit]);
        }
    }
}

/// Appends `bytes` to `out`.
fn push_bytes(out: &mut Vec<u8>, bytes: &[u8])
    ensures
        final(out)@ == old(out)@ + bytes@,
{
    out.extend_from_slice(bytes);
    assert(out@ =~= old(out)@ + bytes@);
}

/// The full response for `route` whose page holds `contents`.
pub fn build_response(route: &Route, contents: &[u8]) -> (r: Vec<u8>)
    ensures
        r@ == response_bytes(ascii(route.spec_status_line()), contents@),
{
    let header = "\r\nContent-Length: ";
    let blank = "\r\n\r\n";
    proof {
        reveal_strlit("\r\nContent-Length: ");
        reveal_strlit("\r\n\r\n");
    }
    let mut out: Vec<u8> = Vec::new();
    push_bytes(&mut out, ascii_bytes(route.status_line()));
    push_bytes(&mut out, ascii_bytes(header));
    push_decimal(&mut out, contents.len());
    push_bytes(&mut out, ascii_bytes(blank));
    push_bytes(&mut out, contents);
    out
}

} // verus!
