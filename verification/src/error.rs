//! The framework's error type and the HTTP response it maps to: a status
//! code and a JSON body `{"error":{"message":...,"type":...}}`.

use vstd::prelude::*;

verus! {

/// Errors that module handlers report.
#[derive(Debug)]
pub enum BlennyError {
    NotFound(String),
    Unauthorized(String),
    Internal(String),
}

/// The characters that stand for `c` inside a JSON string literal as
/// `serde_json` writes it: quote, backslash and the control characters
/// below U+0020 are escaped (short forms for backspace, tab, line feed, form
/// feed and carriage return; `\u00XX` with lowercase hex for the rest), and
/// every other character stands for itself.
pub open spec fn json_escape_char(c: char) -> Seq<char> {
    let u = c as u32;
    if c == '"' {
        seq!['\\', '"']
    } else if c == '\\' {
        seq!['\\', '\\']
    } else if u == 0x08 {
        seq!['\\', 'b']
    } else if u == 0x09 {
        seq!['\\', 't']
    } else if u == 0x0A {
        seq!['\\', 'n']
    } else if u == 0x0C {
        seq!['\\', 'f']
    } else if u == 0x0D {
        seq!['\\', 'r']
    } else if u < 0x20 {
        seq!['\\', 'u', '0', '0', hex_digit(u / 16), hex_digit(u % 16)]
    } else {
        seq![c]
    }
}

/// The lowercase hexadecimal digit for `d` below 16.
pub open spec fn hex_digit(d: u32) -> char {
    if d < 10 {
        ((d + 0x30) as u8) as char
    } else {
        ((d - 10 + 0x61) as u8) as char
    }
}

/// The body of a JSON string literal for `s`.
pub open spec fn json_escaped(s: Seq<char>) -> Seq<char>
    decreases s.len(),
{
    if s.len() == 0 {
        Seq::empty()
    } else {
        json_escaped(s.drop_last()) + json_escape_char(s.last())
    }
}

/// `s` as a JSON string literal, quotes included.
pub open spec fn json_quoted(s: Seq<char>) -> Seq<char> {
    seq!['"'] + json_escaped(s) + seq!['"']
}

/// `serde_json::to_string` of a string: the JSON string literal for `s`.
/// Serialising a `str` into a `String` cannot fail in serde_json (the
/// writer is an in-memory buffer), so the result is always `Ok`.
#[verifier::external_body]
fn json_string(s: &str) -> (r: Result<String, ()>)
    ensures
        r is Ok,
        r is Ok ==> r->Ok_0@ == json_quoted(s@),
{
    serde_json::to_string(s).map_err(|_| ())
}

/// The HTTP status of an error: 404 for not found, 401 for unauthorized,
/// 500 for an internal error.
pub open spec fn status_of(e: BlennyError) -> u16 {
    match e {
        BlennyError::NotFound(_) => 404,
        BlennyError::Unauthorized(_) => 401,
        BlennyError::Internal(_) => 500,
    }
}

/// The `type` field of an error's JSON body.
pub open spec fn kind_name_of(e: BlennyError) -> Seq<char> {
    match e {
        BlennyError::NotFound(_) => "NotFound"@,
        BlennyError::Unauthorized(_) => "Unauthorized"@,
        BlennyError::Internal(_) => "Internal"@,
    }
}

/// The message an error carries.
pub open spec fn message_of(e: BlennyError) -> Seq<char> {
    match e {
        BlennyError::NotFound(m) => m@,
        BlennyError::Unauthorized(m) => m@,
        BlennyError::Internal(m) => m@,
    }
}

/// The JSON body of an error response, with the keys in serde_json's
/// order.
pub open spec fn json_body_of(e: BlennyError) -> Seq<char> {
    "{\"error\":{\"message\":"@ + json_quoted(message_of(e)) + ",\"type\":\""@ + kind_name_of(e)
        + "\"}}"@
}

impl BlennyError {
    /// The HTTP status code of the response.
    pub fn status_code(&self) -> (r: u16)
        ensures
            r == status_of(*self),
    {
        match self {
            BlennyError::NotFound(_) => 404,
            BlennyError::Unauthorized(_) => 401,
            BlennyError::Internal(_) => 500,
        }
    }

    /// The name of the error's variant, as the body's `type` field shows it.
    pub fn kind_name(&self) -> (r: &'static str)
        ensures
            r@ == kind_name_of(*self),
    {
        match self {
            BlennyError::NotFound(_) => "NotFound",
            BlennyError::Unauthorized(_) => "Unauthorized",
            BlennyError::Internal(_) => "Internal",
        }
    }

    /// The error's message.
    pub fn message(&self) -> (r: &String)
        ensures
            r@ == message_of(*self),
    {
        match self {
            BlennyError::NotFound(m) => m,
            BlennyError::Unauthorized(m) => m,
            BlennyError::Internal(m) => m,
        }
    }

    /// The JSON body of the response.
    pub fn json_body(&self) -> (r: String)
        ensures
            r@ == json_body_of(*self),
    {
        let quoted = match json_string(self.message().as_str()) {
            Ok(q) => q,
            Err(_) => String::new(),
        };
        let mut body = "{\"error\":{\"message\":".to_string();
        body.append(quoted.as_str());
        body.append(",\"type\":\"");
        body.append(self.kind_name());
        body.append("\"}}");
        body
    }

    /// The error's text as its `Display` shows it: the kind, a colon and the
    /// message.
    pub fn to_display_string(&self) -> (r: String)
        ensures
            r@ == (match *self {
                BlennyError::NotFound(_) => "Not found: "@,
                BlennyError::Unauthorized(_) => "Unauthorized: "@,
                BlennyError::Internal(_) => "Internal error: "@,
            }) + message_of(*self),
    {
        let mut s = match self {
            BlennyError::NotFound(_) => "Not found: ".to_string(),
            BlennyError::Unauthorized(_) => "Unauthorized: ".to_string(),
            BlennyError::Internal(_) => "Internal error: ".to_string(),
        };
        s.append(self.message().as_str());
        s
    }
}

} // verus!
