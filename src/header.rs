use vstd::prelude::*;
use vstd::slice::slice_subrange;
use vstd::string::StringSliceAdditionalSpecFns;
use std::str::FromStr;
use crate::grammar::{
    all_ascii, ascii_chars, find_colon, is_tchar, is_value_byte, is_ws, lower, parse_line, trim,
    trim_bounds, valid_name, valid_value, COLON,
};

verus! {

/// `http`'s error for a refused header name, as `header_name_from_bytes` returns it.
#[verifier::external_type_specification]
#[verifier::external_body]
pub struct ExInvalidHeaderName(http::header::InvalidHeaderName);

/// `http`'s error for a refused header value, as `header_value_from_bytes` returns it.
#[verifier::external_type_specification]
#[verifier::external_body]
pub struct ExInvalidHeaderValue(http::header::InvalidHeaderValue);

/// Why a header was refused.
#[derive(Debug, Clone, Copy, PartialEq, Eq, Structural)]
pub enum HeaderError {
    /// The name or the value breaks its grammar, or the line has no colon.
    InvalidHeader,
}

/// A validated HTTP header: the name in lower case and the value's bytes.
/// Only the constructors make one, so every header is valid.
#[derive(Debug, PartialEq, Eq)]
pub struct Header {
    field: String,
    value: Vec<u8>,
}

impl View for Header {
    type V = (Seq<char>, Seq<u8>);

    closed spec fn view(&self) -> (Seq<char>, Seq<u8>) {
        (self.field@, self.value@)
    }
}

/// A valid header seen as its name and its value: the name is a valid name in
/// lower case, and the value is valid.
pub open spec fn valid_header(v: (Seq<char>, Seq<u8>)) -> bool {
    &&& exists|n: Seq<u8>| valid_name(n) && #[trigger] ascii_chars(lower(n)) == v.0
    &&& valid_value(v.1)
}

/// Relies on `http::HeaderName::from_bytes`: it accepts 1 to 65535 token
/// characters and nothing else, and `HeaderName::as_str` gives them back in
/// lower case.
#[verifier::external_body]
fn header_name_from_bytes(b: &[u8]) -> (r: Result<String, http::header::InvalidHeaderName>)
    ensures
        r is Ok <==> valid_name(b@),
        r matches Ok(s) ==> s@ == ascii_chars(lower(b@)),
{
    match http::HeaderName::from_bytes(b) {
        Ok(n) => Ok(n.as_str().to_string()),
        Err(e) => Err(e),
    }
}

/// Relies on `http::HeaderValue::from_bytes`: it accepts exactly the values
/// whose bytes are all tab or 32 to 255 but 127, and `HeaderValue::as_bytes`
/// gives them back unchanged.
#[verifier::external_body]
fn header_value_from_bytes(b: &[u8]) -> (r: Result<Vec<u8>, http::header::InvalidHeaderValue>)
    ensures
        r is Ok <==> forall|i: int|
            0 <= i < b@.len() ==> (#[trigger] b@[i] == 9 || (b@[i] >= 32 && b@[i] != 127)),
        r matches Ok(v) ==> v@ == b@,
{
    match http::HeaderValue::from_bytes(b) {
        Ok(v) => Ok(v.as_bytes().to_vec()),
        Err(e) => Err(e),
    }
}

/// Checks a header name and gives it in lower case.
fn checked_name(b: &[u8]) -> (r: Result<String, HeaderError>)
    ensures
        r is Ok <==> valid_name(b@),
        r matches Ok(s) ==> s@ == ascii_chars(lower(b@)),
{
    match header_name_from_bytes(b) {
        Ok(s) => Ok(s),
        Err(_) => Err(HeaderError::InvalidHeader),
    }
}

/// Checks a header value: visible ASCII, space and tab only.
fn checked_value(b: &[u8]) -> (r: Result<Vec<u8>, HeaderError>)
    ensures
        r is Ok <==> valid_value(b@),
        r matches Ok(v) ==> v@ == b@,
{
    if !all_ascii(b) {
        proof {
            let i = choose|i: int| 0 <= i < b@.len() && !(#[trigger] b@[i] < 128);
            assert(!is_value_byte(b@[i]));
        }
        return Err(HeaderError::InvalidHeader);
    }
    match header_value_from_bytes(b) {
        Ok(v) => Ok(v),
        Err(_) => {
            proof {
                let i = choose|i: int|
                    0 <= i < b@.len() && !(#[trigger] b@[i] == 9 || (b@[i] >= 32 && b@[i] != 127));
                assert(!is_value_byte(b@[i]));
            }
            Err(HeaderError::InvalidHeader)
        },
    }
}

impl Header {
    #[verifier::type_invariant]
    spec fn inv(self) -> bool {
        valid_header(self@)
    }

    /// Whether this header holds the name `name` and the value `value`.
    pub open spec fn holds(self, name: Seq<u8>, value: Seq<u8>) -> bool {
        self@ == (ascii_chars(name), value)
    }

    pub open spec fn wf(self) -> bool {
        valid_header(self@)
    }

    /// The header's name, in lower case.
    pub fn field(&self) -> (r: &str)
        ensures
            r@ == self@.0,
            self.wf(),
    {
        proof {
            use_type_invariant(self);
        }
        self.field.as_str()
    }

    /// The header's value.
    pub fn value(&self) -> (r: &[u8])
        ensures
            r@ == self@.1,
            self.wf(),
    {
        proof {
            use_type_invariant(self);
        }
        self.value.as_slice()
    }

    /// Builds a header from a name and a value, checking both.
    pub fn from_bytes(header: &[u8], value: &[u8]) -> (r: Result<Header, HeaderError>)
        ensures
            r is Ok <==> valid_name(header@) && valid_value(value@),
            r matches Ok(h) ==> h.holds(lower(header@), value@) && h.wf(),
    {
        let field = match checked_name(header) {
            Ok(f) => f,
            Err(e) => return Err(e),
        };
        let value = match checked_value(value) {
            Ok(v) => v,
            Err(e) => return Err(e),
        };
        Ok(Header { field, value })
    }

    /// Parses a line `Name: Value`. The line is split at its first colon; the
    /// name must be a token with no whitespace, and the value is trimmed of
    /// surrounding whitespace before it is checked.
    pub fn from_line(input: &str) -> (r: Result<Header, HeaderError>)
        ensures
            match parse_line(input.spec_bytes()) {
                Some(p) => r matches Ok(h) && h.holds(p.0, p.1),
                None => r is Err,
            },
            r matches Ok(h) ==> h.wf(),
    {
        let bytes = input.as_bytes();
        let k = match find_colon(bytes) {
            Some(k) => k,
            None => return Err(HeaderError::InvalidHeader),
        };
        let len = bytes.len();
        let name = slice_subrange(bytes, 0, k);
        let (a, b) = trim_bounds(bytes, k + 1, len);
        let value = slice_subrange(bytes, a, b);
        proof {
            assert(bytes@.subrange(0, k as int) =~= bytes@.take(k as int));
            assert(bytes@.subrange(k + 1, bytes@.len() as int) =~= bytes@.skip(k + 1));
        }
        Header::from_bytes(name, value)
    }
}

/// A line made of a valid name, a colon and a value that is valid once trimmed
/// parses to that name in lower case and that trimmed value.
pub proof fn lemma_well_formed_line_parses(name: Seq<u8>, value: Seq<u8>)
    requires
        valid_name(name),
        valid_value(trim(value)),
    ensures
        parse_line(name + seq![COLON] + value) == Some((lower(name), trim(value))),
{
    let s = name + seq![COLON] + value;
    let n = name.len() as int;
    s.index_of_first_ensures(COLON);
    assert(s[n] == COLON);
    assert(s.contains(COLON));
    let k = s.index_of_first(COLON)->Some_0;
    assert forall|j: int| 0 <= j < n implies s[j] != COLON by {
        assert(s[j] == name[j]);
        assert(is_tchar(name[j]));
    }
    assert(!(k < n) && !(n < k));
    assert(s.take(n) =~= name);
    assert(s.skip(n + 1) =~= value);
}

/// A line with whitespace anywhere before its first colon is refused.
pub proof fn lemma_whitespace_in_name_refused(s: Seq<u8>, i: int)
    requires
        0 <= i < s.len(),
        is_ws(s[i]),
        forall|j: int| 0 <= j <= i ==> s[j] != COLON,
    ensures
        parse_line(s) is None,
{
    s.index_of_first_ensures(COLON);
    match s.index_of_first(COLON) {
        Some(k) => {
            assert(s[k] == COLON);
            assert(i < k);
            assert(s.take(k)[i] == s[i]);
            assert(!is_tchar(s[i]));
        },
        None => {},
    }
}

impl Clone for Header {
    fn clone(&self) -> (r: Header)
        ensures
            r@ == self@,
    {
        proof {
            use_type_invariant(self);
        }
        Header { field: self.field.clone(), value: self.value.clone() }
    }
}

impl FromStr for Header {
    type Err = HeaderError;

    fn from_str(input: &str) -> (r: Result<Header, HeaderError>)
        ensures
            match parse_line(input.spec_bytes()) {
                Some(p) => r matches Ok(h) && h.holds(p.0, p.1),
                None => r is Err,
            },
            r matches Ok(h) ==> h.wf(),
    {
        Header::from_line(input)
    }
}

} // verus!
