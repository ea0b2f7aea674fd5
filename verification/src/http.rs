//! The web server's pure half: routing a request line to a status line and
//! a file, and assembling the response text around the file's contents.
//! Reading the socket, the files, and sleeping for the slow path stay
//! outside the library.

use crate::strutil::push_char;
use vstd::prelude::*;
use vstd::string::{StrSliceExecFns, StringExecFns, StringSliceAdditionalSpecFns};

verus! {

/// Character-for-character string equality.
pub fn str_eq(a: &str, b: &str) -> (r: bool)
    ensures
        r == (a@ == b@),
{
    let n = a.unicode_len();
    if n != b.unicode_len() {
        proof {
            assert(a@.len() != b@.len());
        }
        return false;
    }
    let mut i: usize = 0;
    while i < n
        invariant
            i <= n == a@.len() == b@.len(),
            forall|m: int| 0 <= m < i ==> a@[m] == b@[m],
        decreases n - i,
    {
        if a.get_char(i) != b.get_char(i) {
            return false;
        }
        i = i + 1;
    }
    proof {
        assert(a@ =~= b@);
    }
    true
}

/// Where a request is routed: the status line, the file whose contents
/// become the body, and whether the handler simulates slow work first.
pub struct Route {
    pub status_line: &'static str,
    pub filename: &'static str,
    pub slow: bool,
}

/// The server's routing table: the root page, the deliberately slow page,
/// and not-found for everything else.
pub fn route_request(request_line: &str) -> (r: Route)
    ensures
        request_line@ == "GET / HTTP/1.1"@ ==> r.status_line@ == "HTTP/1.1 200 OK"@
            && r.filename@ == "hello.html"@ && !r.slow,
        request_line@ == "GET /sleep HTTP/1.1"@ ==> r.status_line@ == "HTTP/1.1 200 OK"@
            && r.filename@ == "hello.html"@ && r.slow,
        request_line@ != "GET / HTTP/1.1"@ && request_line@ != "GET /sleep HTTP/1.1"@
            ==> r.status_line@ == "HTTP/1.1 404 NOT FOUND"@ && r.filename@ == "404.html"@
            && !r.slow,
{
    proof {
        reveal_strlit("GET / HTTP/1.1");
        reveal_strlit("GET /sleep HTTP/1.1");
        assert("GET / HTTP/1.1"@.len() != "GET /sleep HTTP/1.1"@.len());
    }
    if str_eq(request_line, "GET / HTTP/1.1") {
        Route { status_line: "HTTP/1.1 200 OK", filename: "hello.html", slow: false }
    } else if str_eq(request_line, "GET /sleep HTTP/1.1") {
        Route { status_line: "HTTP/1.1 200 OK", filename: "hello.html", slow: true }
    } else {
        Route { status_line: "HTTP/1.1 404 NOT FOUND", filename: "404.html", slow: false }
    }
}

/// The decimal digits of `n`, most significant first.
pub open spec fn dec_digits(n: nat) -> Seq<char>
    decreases n,
{
    if n < 10 {
        seq![digit_char(n as int)]
    } else {
        dec_digits(n / 10) + seq![digit_char((n % 10) as int)]
    }
}

pub open spec fn digit_char(d: int) -> char {
    if d == 0 {
        '0'
    } else if d == 1 {
        '1'
    } else if d == 2 {
        '2'
    } else if d == 3 {
        '3'
    } else if d == 4 {
        '4'
    } else if d == 5 {
        '5'
    } else if d == 6 {
        '6'
    } else if d == 7 {
        '7'
    } else if d == 8 {
        '8'
    } else {
        '9'
    }
}

fn digit_char_of(d: u64) -> (r: char)
    requires
        d < 10,
    ensures
        r == digit_char(d as int),
{
    if d == 0 {
        '0'
    } else if d == 1 {
        '1'
    } else if d == 2 {
        '2'
    } else if d == 3 {
        '3'
    } else if d == 4 {
        '4'
    } else if d == 5 {
        '5'
    } else if d == 6 {
        '6'
    } else if d == 7 {
        '7'
    } else if d == 8 {
        '8'
    } else {
        '9'
    }
}

/// Renders `n` in decimal.
pub fn u64_to_decimal(n: u64) -> (r: String)
    ensures
        r@ == dec_digits(n as nat),
    decreases n,
{
    if n < 10 {
        let mut r = String::new();
        push_char(&mut r, digit_char_of(n));
        proof {
            assert(r@ =~= dec_digits(n as nat));
        }
        r
    } else {
        let mut r = u64_to_decimal(n / 10);
        push_char(&mut r, digit_char_of(n % 10));
        proof {
            assert(r@ =~= dec_digits(n as nat));
        }
        r
    }
}

/// Assembles the response: the status line, a content-length header for
/// the body's byte count, a blank line, and the body.
pub fn build_response(status_line: &str, contents: &str) -> (r: String)
    ensures
        r@ == status_line@ + "\r\nContent-Length: "@ + dec_digits(
            (contents.spec_bytes().len() as usize) as nat,
        ) + "\r\n\r\n"@ + contents@,
{
    let length = contents.len();
    let mut r = String::new();
    r.append(status_line);
    r.append("\r\nContent-Length: ");
    let digits = u64_to_decimal(length as u64);
    r.append(digits.as_str());
    r.append("\r\n\r\n");
    r.append(contents);
    proof {
        assert(r@ =~= status_line@ + "\r\nContent-Length: "@ + dec_digits(
            (contents.spec_bytes().len() as usize) as nat,
        ) + "\r\n\r\n"@ + contents@);
    }
    r
}

} // verus!
