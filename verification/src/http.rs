//! The HTTP mini-codec used only for the opening handshake: serializing the
//! upgrade request and parsing the upgrade response.

use vstd::prelude::*;
use vstd::utf8::{encode_utf8, decode_utf8, valid_utf8};
use crate::result::ParseError;
use crate::traits::{Serialize, Parse};
use crate::text::{
    spec_find, spec_split, spec_trim, spec_lower, spec_is_u16_dec, spec_dec_val, find_subseq,
    split_bytes, trim_bytes, lower_bytes, parse_u16_dec, string_from_utf8, bytes_equal,
    lemma_find_characterization,
};

verus! {

/// The one request method the handshake uses.
#[derive(Debug, Clone, Copy, PartialEq, Eq, Structural)]
pub enum Method {
    GET,
}

pub open spec fn spec_method_chars(m: Method) -> Seq<char> {
    "GET"@
}

/// The text of a request method.
pub fn method_to_string(method: &Method) -> (r: String)
    ensures
        r@ == spec_method_chars(*method),
{
    match method {
        Method::GET => "GET".to_owned(),
    }
}

/// The opening-handshake upgrade request: request line plus headers.
pub struct Request {
    pub method: Method,
    pub path: String,
    pub version: String,
    pub headers: Vec<(String, String)>,
}

/// One serialized header line: `key: value` and the line end.
pub open spec fn spec_header_line_bytes(kv: (String, String)) -> Seq<u8> {
    encode_utf8(kv.0@) + encode_utf8(": "@) + encode_utf8(kv.1@) + encode_utf8("\r\n"@)
}

/// The serialized header block, one line per header, in order.
pub open spec fn spec_headers_bytes(hs: Seq<(String, String)>) -> Seq<u8>
    decreases hs.len(),
{
    if hs.len() == 0 {
        Seq::empty()
    } else {
        spec_headers_bytes(hs.drop_last()) + spec_header_line_bytes(hs.last())
    }
}

/// The wire bytes of a request: method, path and version on the first line,
/// then the headers, then a blank line.
pub open spec fn spec_request_bytes(req: Request) -> Seq<u8> {
    encode_utf8(spec_method_chars(req.method)) + encode_utf8(" "@) + encode_utf8(req.path@)
        + encode_utf8(" "@) + encode_utf8(req.version@) + encode_utf8("\r\n"@)
        + spec_headers_bytes(req.headers@) + encode_utf8("\r\n"@)
}

impl Request {
    pub fn new(method: Method, path: &str, version: &str, headers: Option<Vec<(String, String)>>)
        -> (r: Request)
        ensures
            r.method == method,
            r.path@ == path@,
            r.version@ == version@,
            headers matches Some(h) ==> r.headers@ == h@,
            headers is None ==> r.headers@.len() == 0,
    {
        let h = match headers {
            Some(map) => map,
            None => Vec::new(),
        };
        Request { method, path: path.to_owned(), version: version.to_owned(), headers: h }
    }

}

impl Serialize for Request {
    open spec fn spec_serialize(&self) -> Seq<u8> {
        spec_request_bytes(*self)
    }

    /// Emits the request's wire bytes, headers in their stored order.
    fn serialize(&self) -> (r: Vec<u8>)
        ensures
            r@ == spec_request_bytes(*self),
    {
        let mut data: Vec<u8> = Vec::new();
        let method = method_to_string(&self.method);
        data.extend_from_slice(method.as_str().as_bytes());
        data.extend_from_slice(" ".as_bytes());
        data.extend_from_slice(self.path.as_str().as_bytes());
        data.extend_from_slice(" ".as_bytes());
        data.extend_from_slice(self.version.as_str().as_bytes());
        data.extend_from_slice("\r\n".as_bytes());
        proof {
            assert(data@ =~= encode_utf8(spec_method_chars(self.method)) + encode_utf8(" "@)
                + encode_utf8(self.path@) + encode_utf8(" "@) + encode_utf8(self.version@)
                + encode_utf8("\r\n"@));
        }
        let ghost prefix = data@;
        let mut i: usize = 0;
        while i < self.headers.len()
            invariant
                i <= self.headers@.len(),
                data@ == prefix + spec_headers_bytes(self.headers@.take(i as int)),
            decreases self.headers@.len() - i,
        {
            let kv = &self.headers[i];
            data.extend_from_slice(kv.0.as_str().as_bytes());
            data.extend_from_slice(": ".as_bytes());
            data.extend_from_slice(kv.1.as_str().as_bytes());
            data.extend_from_slice("\r\n".as_bytes());
            proof {
                assert(self.headers@.take(i + 1).drop_last() =~= self.headers@.take(i as int));
                assert(data@ =~= prefix + spec_headers_bytes(self.headers@.take(i + 1)));
            }
            i = i + 1;
        }
        data.extend_from_slice("\r\n".as_bytes());
        proof {
            assert(self.headers@.take(self.headers@.len() as int) =~= self.headers@);
            assert(data@ =~= spec_request_bytes(*self));
        }
        data
    }
}

/// The mathematical value of a parsed response.
#[verifier::ext_equal]
pub struct ResponseV {
    pub version: Seq<char>,
    pub status_code: u16,
    pub status_text: Seq<char>,
    pub headers: Option<Seq<(Seq<char>, Seq<char>)>>,
    pub body: Option<Seq<char>>,
}

/// The opening-handshake upgrade response: status line, headers keyed in
/// lowercase, and an optional body.
pub struct Response {
    pub version: String,
    pub status_code: u16,
    pub status_text: String,
    pub headers: Option<Vec<(String, String)>>,
    pub body: Option<String>,
}

impl View for Response {
    type V = ResponseV;

    open spec fn view(&self) -> ResponseV {
        ResponseV {
            version: self.version@,
            status_code: self.status_code,
            status_text: self.status_text@,
            headers: match self.headers {
                Some(hs) => Some(hs@.map_values(|p: (String, String)| (p.0@, p.1@))),
                None => None,
            },
            body: match self.body {
                Some(b) => Some(b@),
                None => None,
            },
        }
    }
}

pub open spec fn spec_crlf() -> Seq<u8> {
    seq![13u8, 10u8]
}

pub open spec fn spec_crlfcrlf() -> Seq<u8> {
    seq![13u8, 10u8, 13u8, 10u8]
}

pub open spec fn spec_space() -> Seq<u8> {
    seq![32u8]
}

pub open spec fn spec_colon() -> Seq<u8> {
    seq![58u8]
}

/// One parsed header line: the text before the first colon, trimmed and
/// lowercased, keys the trimmed text after it; a line without a colon, or
/// one that is not UTF-8, does not parse.
pub open spec fn spec_parse_header_entry(line: Seq<u8>) -> Option<(Seq<char>, Seq<char>)> {
    match spec_find(line, spec_colon()) {
        None => None,
        Some(ci) => {
            let key = spec_lower(spec_trim(line.take(ci as int)));
            let value = spec_trim(line.skip(ci as int + 1));
            if valid_utf8(key) && valid_utf8(value) {
                Some((decode_utf8(key), decode_utf8(value)))
            } else {
                None
            }
        },
    }
}

/// The parsed header block: every line must parse, in order.
pub open spec fn spec_parse_header_entries(lines: Seq<Seq<u8>>) -> Option<
    Seq<(Seq<char>, Seq<char>)>,
>
    decreases lines.len(),
{
    if lines.len() == 0 {
        Some(Seq::empty())
    } else {
        match spec_parse_header_entry(lines[0]) {
            None => None,
            Some(kv) => match spec_parse_header_entries(lines.skip(1)) {
                None => None,
                Some(rest) => Some(seq![kv] + rest),
            },
        }
    }
}

/// The parsed status line: version, decimal status code and status text,
/// split on single spaces; fewer than three tokens, a non-numeric code or
/// text that is not UTF-8 does not parse.
pub open spec fn spec_parse_status_line(line: Seq<u8>) -> Option<(Seq<char>, u16, Seq<char>)> {
    let tokens = spec_split(line, spec_space());
    if tokens.len() < 3 {
        None
    } else {
        let version = tokens[0];
        let code = tokens[1];
        let text = tokens[2];
        if spec_is_u16_dec(code) && valid_utf8(version) && valid_utf8(text) {
            Some((decode_utf8(version), spec_dec_val(code) as u16, decode_utf8(text)))
        } else {
            None
        }
    }
}

/// The mathematical response parser: the head before the first blank line
/// splits into lines; the first is the status line, the rest are headers;
/// what follows the blank line is the body.
pub open spec fn spec_parse_response(bytes: Seq<u8>) -> Option<ResponseV> {
    match spec_find(bytes, spec_crlfcrlf()) {
        None => None,
        Some(i) => {
            let head = bytes.take(i as int);
            let body_bytes = bytes.skip(i as int + 4);
            let lines = spec_split(head, spec_crlf());
            match spec_parse_status_line(lines[0]) {
                None => None,
                Some(sl) => match spec_parse_header_entries(lines.skip(1)) {
                    None => None,
                    Some(hs) => {
                        if valid_utf8(body_bytes) {
                            Some(
                                ResponseV {
                                    version: sl.0,
                                    status_code: sl.1,
                                    status_text: sl.2,
                                    headers: if hs.len() == 0 {
                                        None
                                    } else {
                                        Some(hs)
                                    },
                                    body: if body_bytes.len() == 0 {
                                        None
                                    } else {
                                        Some(decode_utf8(body_bytes))
                                    },
                                },
                            )
                        } else {
                            None
                        }
                    },
                },
            }
        },
    }
}

/// The value of the first header whose key's UTF-8 bytes equal `key_bytes`.
pub open spec fn spec_header_lookup(hs: Seq<(Seq<char>, Seq<char>)>, key_bytes: Seq<u8>) -> Option<
    Seq<char>,
>
    decreases hs.len(),
{
    if hs.len() == 0 {
        None
    } else if encode_utf8(hs[0].0) == key_bytes {
        Some(hs[0].1)
    } else {
        spec_header_lookup(hs.skip(1), key_bytes)
    }
}

impl Response {
    pub fn new(
        version: String,
        status_code: u16,
        status_text: String,
        headers: Option<Vec<(String, String)>>,
        body: Option<String>,
    ) -> (r: Response)
        ensures
            r.version == version,
            r.status_code == status_code,
            r.status_text == status_text,
            r.headers == headers,
            r.body == body,
    {
        Response { version, status_code, headers, status_text, body }
    }

    pub fn get_status_code(&self) -> (r: u16)
        ensures
            r == self.status_code,
    {
        self.status_code
    }

    /// Looks a header up by name, case-insensitively: the name is lowercased
    /// and compared against the stored (already lowercased) keys.
    pub fn header(&self, key: &str) -> (r: Option<String>)
        ensures
            match self@.headers {
                None => r is None,
                Some(hs) => match spec_header_lookup(hs, spec_lower(encode_utf8(key@))) {
                    None => r is None,
                    Some(v) => r matches Some(s) && s@ == v,
                },
            },
    {
        if self.headers.is_none() {
            return None;
        }
        let hs = self.headers.as_ref().unwrap();
        let key_lower = lower_bytes(key.as_bytes());
        let ghost hsv = self@.headers->0;
        proof {
            assert(hsv.skip(0) =~= hsv);
        }
        let mut i: usize = 0;
        while i < hs.len()
            invariant
                i <= hs@.len(),
                self@.headers == Some(hsv),
                hsv == hs@.map_values(|p: (String, String)| (p.0@, p.1@)),
                key_lower@ == spec_lower(encode_utf8(key@)),
                spec_header_lookup(hsv, key_lower@) == spec_header_lookup(
                    hsv.skip(i as int),
                    key_lower@,
                ),
            decreases hs@.len() - i,
        {
            let kv = &hs[i];
            if bytes_equal(kv.0.as_str().as_bytes(), key_lower.as_slice()) {
                proof {
                    assert(hsv.skip(i as int)[0] == hsv[i as int]);
                    assert(hsv[i as int] == (hs@[i as int].0@, hs@[i as int].1@));
                    assert(encode_utf8(hsv[i as int].0) == key_lower@);
                    assert(spec_header_lookup(hsv.skip(i as int), key_lower@) == Some(
                        hsv[i as int].1,
                    ));
                }
                let found = kv.1.clone();
                proof {
                    assert(spec_header_lookup(hsv, spec_lower(encode_utf8(key@))) == Some(
                        found@,
                    ));
                }
                return Some(found);
            }
            proof {
                assert(hsv.skip(i as int)[0] == hsv[i as int]);
                assert(hsv.skip(i as int).skip(1) =~= hsv.skip(i as int + 1));
            }
            i = i + 1;
        }
        proof {
            assert(hsv.skip(hsv.len() as int) =~= Seq::<(Seq<char>, Seq<char>)>::empty());
        }
        None
    }

    pub fn body(&self) -> (r: Option<&String>)
        ensures
            match self.body {
                Some(_) => r matches Some(b) && *b == self.body->0,
                None => r is None,
            },
    {
        self.body.as_ref()
    }


    /// Parses the status line into version, status code and status text.
    fn parse_status_line(line: &Vec<u8>) -> (r: Option<(String, u16, String)>)
        ensures
            match r {
                Some(sl) => spec_parse_status_line(line@) == Some((sl.0@, sl.1, sl.2@)),
                None => spec_parse_status_line(line@) is None,
            },
    {
        let space: [u8; 1] = [32];
        proof {
            assert(space@ =~= spec_space());
        }
        let tokens = split_bytes(line.as_slice(), space.as_slice());
        if tokens.len() < 3 {
            return None;
        }
        proof {
            assert(tokens.deep_view()[0] == tokens@[0]@);
            assert(tokens.deep_view()[1] == tokens@[1]@);
            assert(tokens.deep_view()[2] == tokens@[2]@);
        }
        let status_code = match parse_u16_dec(tokens[1].as_slice()) {
            None => {
                return None;
            },
            Some(v) => v,
        };
        let version = match string_from_utf8(tokens[0].clone()) {
            None => {
                return None;
            },
            Some(s) => s,
        };
        let status_text = match string_from_utf8(tokens[2].clone()) {
            None => {
                return None;
            },
            Some(s) => s,
        };
        Some((version, status_code, status_text))
    }

    /// Parses every line after the first into a lowercased key and a value.
    fn parse_header_entries(lines: &Vec<Vec<u8>>) -> (r: Option<Vec<(String, String)>>)
        requires
            lines@.len() >= 1,
        ensures
            match r {
                Some(hs) => spec_parse_header_entries(lines.deep_view().skip(1)) == Some(
                    hs@.map_values(|p: (String, String)| (p.0@, p.1@)),
                ),
                None => spec_parse_header_entries(lines.deep_view().skip(1)) is None,
            },
    {
        let ghost tail = lines.deep_view().skip(1);
        let ghost f = |p: (String, String)| (p.0@, p.1@);
        let mut out: Vec<(String, String)> = Vec::new();
        proof {
            assert(tail.skip(0) =~= tail);
            match spec_parse_header_entries(tail) {
                None => {},
                Some(rest) => {
                    assert(out@.map_values(f) + rest =~= rest);
                },
            }
        }
        let mut i: usize = 1;
        while i < lines.len()
            invariant
                1 <= i <= lines@.len(),
                tail == lines.deep_view().skip(1),
                lines.deep_view().len() == lines@.len(),
                f == (|p: (String, String)| (p.0@, p.1@)),
                match spec_parse_header_entries(tail.skip(i - 1)) {
                    None => spec_parse_header_entries(tail) is None,
                    Some(rest) => spec_parse_header_entries(tail) == Some(
                        out@.map_values(f) + rest,
                    ),
                },
            decreases lines@.len() - i,
        {
            proof {
                assert(tail.skip(i - 1)[0] == lines.deep_view()[i as int]);
                assert(lines.deep_view()[i as int] =~= lines@[i as int]@);
                assert(tail.skip(i - 1).skip(1) =~= tail.skip(i as int));
            }
            let entry = match Self::parse_header_entry(&lines[i]) {
                None => {
                    return None;
                },
                Some(kv) => kv,
            };
            let ghost out_old = out@;
            out.push(entry);
            proof {
                let kv = (entry.0@, entry.1@);
                assert(spec_parse_header_entry(tail.skip(i - 1)[0]) == Some(kv));
                match spec_parse_header_entries(tail.skip(i as int)) {
                    None => {},
                    Some(rest2) => {
                        assert(spec_parse_header_entries(tail.skip(i - 1)) == Some(
                            seq![kv] + rest2,
                        ));
                        assert(out@.map_values(f) =~= out_old.map_values(f).push(kv));
                        assert(out_old.map_values(f) + (seq![kv] + rest2) =~= out@.map_values(f)
                            + rest2);
                    },
                }
            }
            i = i + 1;
        }
        proof {
            assert(i - 1 == tail.len());
            assert(tail.skip(tail.len() as int) =~= Seq::<Seq<u8>>::empty());
            assert(spec_parse_header_entries(tail.skip(tail.len() as int)) == Some(
                Seq::<(Seq<char>, Seq<char>)>::empty(),
            ));
            match spec_parse_header_entries(tail) {
                None => {},
                Some(rest) => {
                    assert(out@.map_values(f) + Seq::<(Seq<char>, Seq<char>)>::empty() =~= out@
                        .map_values(f));
                },
            }
        }
        Some(out)
    }

    /// Parses one header line at its first colon.
    fn parse_header_entry(line: &Vec<u8>) -> (r: Option<(String, String)>)
        ensures
            match r {
                Some(kv) => spec_parse_header_entry(line@) == Some((kv.0@, kv.1@)),
                None => spec_parse_header_entry(line@) is None,
            },
    {
        let colon: [u8; 1] = [58];
        proof {
            assert(colon@ =~= spec_colon());
        }
        let n = line.len();
        let ci = match find_subseq(line.as_slice(), colon.as_slice()) {
            None => {
                return None;
            },
            Some(i) => i,
        };
        proof {
            lemma_find_characterization(line@, spec_colon());
        }
        let key_bytes = lower_bytes(
            trim_bytes(vstd::slice::slice_subrange(line.as_slice(), 0, ci)).as_slice(),
        );
        let value_bytes = trim_bytes(vstd::slice::slice_subrange(line.as_slice(), ci + 1, n));
        let key = match string_from_utf8(key_bytes) {
            None => {
                return None;
            },
            Some(s) => s,
        };
        let value = match string_from_utf8(value_bytes) {
            None => {
                return None;
            },
            Some(s) => s,
        };
        Some((key, value))
    }
}

impl Parse for Response {
    open spec fn spec_parse(bytes: Seq<u8>) -> Option<ResponseV> {
        spec_parse_response(bytes)
    }

    /// Parses an upgrade response out of the byte buffer, exactly as
    /// `spec_parse_response` describes; anything it does not accept is a
    /// `ParseError`.
    fn parse(bytes: &[u8]) -> (r: Result<Response, ParseError>)
        ensures
            match r {
                Ok(resp) => spec_parse_response(bytes@) == Some(resp@),
                Err(_) => spec_parse_response(bytes@) is None,
            },
    {
        let n = bytes.len();
        let blank: [u8; 4] = [13, 10, 13, 10];
        proof {
            assert(blank@ =~= spec_crlfcrlf());
        }
        let end_header = match find_subseq(bytes, blank.as_slice()) {
            None => {
                return Err(ParseError);
            },
            Some(i) => i,
        };
        proof {
            lemma_find_characterization(bytes@, spec_crlfcrlf());
        }
        let head = vstd::slice::slice_subrange(bytes, 0, end_header);
        let body_bytes = vstd::slice::slice_to_vec(
            vstd::slice::slice_subrange(bytes, end_header + 4, n),
        );
        let crlf: [u8; 2] = [13, 10];
        proof {
            assert(crlf@ =~= spec_crlf());
        }
        let lines = split_bytes(head, crlf.as_slice());
        let ghost linesv = spec_split(head@, spec_crlf());
        proof {
            assert(head@ =~= bytes@.take(end_header as int));
            assert(body_bytes@ =~= bytes@.skip(end_header as int + 4));
            assert(linesv == lines.deep_view());
            assert(linesv.len() == lines@.len());
            assert(lines.deep_view()[0] =~= lines@[0]@);
        }
        let status_line = match Self::parse_status_line(&lines[0]) {
            None => {
                return Err(ParseError);
            },
            Some(sl) => sl,
        };
        let headers = match Self::parse_header_entries(&lines) {
            None => {
                return Err(ParseError);
            },
            Some(hs) => hs,
        };
        let body_valid = string_from_utf8(body_bytes);
        let body_string = match body_valid {
            None => {
                return Err(ParseError);
            },
            Some(s) => s,
        };
        let (version, status_code, status_text) = status_line;
        let headers_opt: Option<Vec<(String, String)>> = if headers.len() == 0 {
            None
        } else {
            Some(headers)
        };
        let body_opt: Option<String> = if body_string.as_str().as_bytes().len() == 0 {
            proof {
                assert(encode_utf8(body_string@).len() == 0);
            }
            None
        } else {
            Some(body_string)
        };
        let resp = Response {
            version,
            status_code,
            status_text,
            headers: headers_opt,
            body: body_opt,
        };
        proof {
            assert(spec_parse_response(bytes@) =~~= Some(resp@));
        }
        Ok(resp)
    }

}

} // verus!
