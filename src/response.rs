//! The responses the service writes back: a status line and a message, or
//! a JSON envelope that carries content.

use vstd::prelude::*;
use crate::text::{escape_content, escape_quotes, opt_view, push_char};

verus! {

/// The head of a success response.
pub const OK_HEAD: &'static str = "HTTP/1.1 200 OK\r\n\r\n";

/// The head of a client-error response.
pub const BAD_HEAD: &'static str = "HTTP/1.1 400 Bad\r\n\r\n";

/// The head of a content-bearing response, up to the length's digits.
pub const JSON_HEAD: &'static str = "HTTP/1.1 200 OK\r\n\r\nContent-Type: application/json\r\nAccept: */*\r\nContent-Length: ";

/// What stands between the length and the escaped content.
pub const JSON_OPEN: &'static str = "\r\n\r\n{\"content\": \"";

/// What closes a content-bearing response.
pub const JSON_CLOSE: &'static str = "\"}";

/// A success response carrying `m`.
pub open spec fn ok_text(m: Seq<char>) -> Seq<char> {
    OK_HEAD@ + m
}

/// A client-error response carrying `m`.
pub open spec fn bad_text(m: Seq<char>) -> Seq<char> {
    BAD_HEAD@ + m
}

/// The decimal digit for `d < 10`.
pub open spec fn digit(d: nat) -> char {
    seq!['0', '1', '2', '3', '4', '5', '6', '7', '8', '9'][d as int]
}

/// `n` written in decimal, without leading zeros.
pub open spec fn decimal(n: nat) -> Seq<char>
    decreases n,
{
    if n < 10 {
        seq![digit(n)]
    } else {
        decimal(n / 10).push(digit(n % 10))
    }
}

/// A content-bearing response: the length is given as is, the content has
/// its double quotes escaped.
pub open spec fn json_text(content: Seq<char>, len: nat) -> Seq<char> {
    JSON_HEAD@ + decimal(len) + JSON_OPEN@ + escape_quotes(content) + JSON_CLOSE@
}

/// The diagnostic for a well-formed request whose action failed: it echoes
/// the instruction, the path and any content.
pub open spec fn failure_text(instr: Seq<char>, path: Seq<char>, text: Option<Seq<char>>) -> Seq<
    char,
> {
    let head = "Request header was valid. Still failed action: `"@ + instr + "` on `"@ + path
        + "`\nInstruction: `"@ + instr + "`\nPath: `"@ + path;
    match text {
        Some(t) => head + "`\nContent: `"@ + t + "`"@,
        None => head + "`\n"@,
    }
}

/// `pre`, then `mid`, then `post`.
pub fn enclose(pre: &str, mid: &str, post: &str) -> (r: String)
    ensures
        r@ == pre@ + mid@ + post@,
{
    let mut s = String::from_str(pre);
    s.append(mid);
    s.append(post);
    s
}

/// A success response carrying `message`.
pub fn ok_200(message: &str) -> (r: String)
    ensures
        r@ == ok_text(message@),
{
    let mut s = String::from_str(OK_HEAD);
    s.append(message);
    s
}

/// A client-error response carrying `message`.
pub fn bad_400(message: &str) -> (r: String)
    ensures
        r@ == bad_text(message@),
{
    let mut s = String::from_str(BAD_HEAD);
    s.append(message);
    s
}

/// The decimal digit for `d`.
fn digit_char(d: usize) -> (r: char)
    requires
        d < 10,
    ensures
        r == digit(d as nat),
{
    if d == 0 {
        '0'
    } else if d == 1 {
        '1'
    } else if d == 2 {
        '2'
    } else if d == 3 {
        '3'
    } else if d == 4 {
        '4'
    } else if d == 5 {
        '5'
    } else if d == 6 {
        '6'
    } else if d == 7 {
        '7'
    } else if d == 8 {
        '8'
    } else {
        '9'
    }
}

/// Appends `n` in decimal to `out`.
fn push_decimal(out: &mut String, n: usize)
    ensures
        final(out)@ == old(out)@ + decimal(n as nat),
    decreases n,
{
    if n < 10 {
        push_char(out, digit_char(n));
    } else {
        let ghost start = out@;
        push_decimal(out, n / 10);
        push_char(out, digit_char(n % 10));
        assert(out@ =~= start + decimal(n as nat));
    }
}

/// A content-bearing response for `content` of length `len`.
pub fn build_json_response(content: String, len: usize) -> (r: String)
    ensures
        r@ == json_text(content@, len as nat),
{
    let mut s = String::from_str(JSON_HEAD);
    push_decimal(&mut s, len);
    s.append(JSON_OPEN);
    let escaped = escape_content(content.as_str());
    s.append(escaped.as_str());
    s.append(JSON_CLOSE);
    s
}

/// The diagnostic for a well-formed request whose action failed.
pub fn valid_header(instr: &str, path: &str, text: &Option<String>) -> (r: String)
    ensures
        r@ == failure_text(instr@, path@, opt_view(*text)),
{
    let mut s = String::from_str("Request header was valid. Still failed action: `");
    s.append(instr);
    s.append("` on `");
    s.append(path);
    s.append("`\nInstruction: `");
    s.append(instr);
    s.append("`\nPath: `");
    s.append(path);
    match text {
        Some(t) => {
            s.append("`\nContent: `");
            s.append(t.as_str());
            s.append("`");
        },
        None => {
            s.append("`\n");
        },
    }
    s
}

} // verus!
