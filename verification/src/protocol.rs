//! The request/response schema of the wire protocol, and its transport-safe
//! text framing.
//!
//! A `Request` or `Response` is serialized with the field-tagged binary layer
//! of [`crate::wire`], then framed as base64 text so it can travel as a
//! single HTTP header value or body. Both transforms are lossless: decoding
//! an encoded message yields the message back, which
//! [`lemma_request_round_trip`] and [`lemma_response_round_trip`] prove for
//! the binary layer, and the `from_b64` contracts extend through the text
//! layer.

use vstd::prelude::*;
use vstd::string::*;
use vstd::utf8::{decode_utf8, encode_utf8, valid_utf8};

use crate::errors::MoabError;
use crate::wire::{
    check_trailing_fields, lemma_has_prefix_concat, lemma_lenfield_round_trip,
    lemma_u32field_round_trip, lenfield_enc, parse_lenfield, parse_u32field, read_lenfield,
    read_u32field, skip_fields, u32field_enc, write_lenfield, write_u32field,
};

verus! {

broadcast use vstd::utf8::encode_utf8_valid_utf8, vstd::utf8::encode_utf8_decode_utf8;

/// A data request: what to fetch, over which interval, under which identity.
/// Absent credentials are carried as empty strings; the schema has every
/// field present in every message.
#[derive(Debug, Clone, PartialEq, Eq)]
pub struct Request {
    pub symbol: String,
    pub start: u32,
    pub end: u32,
    pub datatype: String,
    pub username: String,
    pub token: String,
}

/// The mathematical content of a `Request`.
pub ghost struct RequestV {
    pub symbol: Seq<char>,
    pub start: u32,
    pub end: u32,
    pub datatype: Seq<char>,
    pub username: Seq<char>,
    pub token: Seq<char>,
}

impl View for Request {
    type V = RequestV;

    open spec fn view(&self) -> RequestV {
        RequestV {
            symbol: self.symbol@,
            start: self.start,
            end: self.end,
            datatype: self.datatype@,
            username: self.username@,
            token: self.token@,
        }
    }
}

/// A server reply: a protocol status code and an opaque payload. The status
/// lives here, in the schema, not in the HTTP status line.
#[derive(Debug, Clone, PartialEq, Eq)]
pub struct Response {
    pub code: u32,
    pub data: Vec<u8>,
}

/// The mathematical content of a `Response`.
pub ghost struct ResponseV {
    pub code: u32,
    pub data: Seq<u8>,
}

impl View for Response {
    type V = ResponseV;

    open spec fn view(&self) -> ResponseV {
        ResponseV { code: self.code, data: self.data@ }
    }
}

/// The binary form of a request: its six fields, tagged and in ascending
/// key order, text fields as UTF-8 bytes.
pub open spec fn encode_request(r: RequestV) -> Seq<u8> {
    lenfield_enc(0x0A, encode_utf8(r.symbol)) + u32field_enc(0x10, r.start) + u32field_enc(
        0x18,
        r.end,
    ) + lenfield_enc(0x22, encode_utf8(r.datatype)) + lenfield_enc(0x2A, encode_utf8(r.username))
        + lenfield_enc(0x32, encode_utf8(r.token))
}

/// The binary form of a response: status code, then payload bytes.
pub open spec fn encode_response(r: ResponseV) -> Seq<u8> {
    u32field_enc(0x08, r.code) + lenfield_enc(0x12, r.data)
}

/// Parse the request schema: the six known fields in order, then any run of
/// well-formed unknown fields, which a reader of this schema ignores. The
/// parse fails on anything else — truncated input, a missing field, an
/// out-of-range value, or text bytes that are not UTF-8.
pub open spec fn parse_request(s: Seq<u8>) -> Option<RequestV> {
    match parse_lenfield(s, 0, 0x0A) {
        Some((sym, i1)) => match parse_u32field(s, i1, 0x10) {
            Some((start, i2)) => match parse_u32field(s, i2, 0x18) {
                Some((end, i3)) => match parse_lenfield(s, i3, 0x22) {
                    Some((dt, i4)) => match parse_lenfield(s, i4, 0x2A) {
                        Some((un, i5)) => match parse_lenfield(s, i5, 0x32) {
                            Some((tk, i6)) => if skip_fields(s, i6) && valid_utf8(sym)
                                && valid_utf8(dt) && valid_utf8(un) && valid_utf8(tk) {
                                Some(
                                    RequestV {
                                        symbol: decode_utf8(sym),
                                        start,
                                        end,
                                        datatype: decode_utf8(dt),
                                        username: decode_utf8(un),
                                        token: decode_utf8(tk),
                                    },
                                )
                            } else {
                                None
                            },
                            None => None,
                        },
                        None => None,
                    },
                    None => None,
                },
                None => None,
            },
            None => None,
        },
        None => None,
    }
}

/// Parse the response schema: the two known fields in order, then any run of
/// well-formed unknown fields.
pub open spec fn parse_response(s: Seq<u8>) -> Option<ResponseV> {
    match parse_u32field(s, 0, 0x08) {
        Some((code, i1)) => match parse_lenfield(s, i1, 0x12) {
            Some((data, i2)) => if skip_fields(s, i2) {
                Some(ResponseV { code, data })
            } else {
                None
            },
            None => None,
        },
        None => None,
    }
}

/// The text a request or response travels as: the base64 form of the binary
/// encoding. Relies on `base64::encode` (standard alphabet, padded), whose
/// output depends on the input bytes alone.
pub uninterp spec fn base64_text(bytes: Seq<u8>) -> Seq<char>;

/// Relies on `base64::encode`: the standard, padded base64 text of the
/// bytes. The length bound keeps the encoder's own output-size arithmetic,
/// which grows the input by a third, within `usize`; beyond it the encoder
/// panics.
#[verifier::external_body]
fn base64_encode(b: &[u8]) -> (r: String)
    requires
        b@.len() <= usize::MAX / 4,
    ensures
        r@ == base64_text(b@),
{
    base64::encode(b)
}

/// Relies on `base64::decode`: it inverts `base64::encode`, and it never
/// rejects text that `base64::encode` produced.
#[verifier::external_body]
fn base64_decode(s: &str) -> (r: Option<Vec<u8>>)
    ensures
        match r {
            Some(v) => forall|b: Seq<u8>| s@ == base64_text(b) ==> v@ == b,
            None => forall|b: Seq<u8>| s@ != base64_text(b),
        },
{
    match base64::decode(s) {
        Ok(v) => Some(v),
        Err(_) => None,
    }
}

/// Relies on `core::str::from_utf8`: it accepts exactly the byte runs that
/// are valid UTF-8, and returns the text whose bytes they are.
#[verifier::external_body]
fn utf8_to_string(v: &[u8]) -> (r: Option<String>)
    ensures
        match r {
            Some(s) => encode_utf8(s@) == v@ && s@ == decode_utf8(v@),
            None => !valid_utf8(v@),
        },
{
    match core::str::from_utf8(v) {
        Ok(s) => Some(s.to_owned()),
        Err(_) => None,
    }
}

impl Request {
    /// The binary encoding of this request.
    pub fn serialize(&self) -> (r: Vec<u8>)
        ensures
            r@ == encode_request(self@),
    {
        let mut out: Vec<u8> = Vec::new();
        write_lenfield(&mut out, 0x0A, self.symbol.as_str().as_bytes());
        write_u32field(&mut out, 0x10, self.start);
        write_u32field(&mut out, 0x18, self.end);
        write_lenfield(&mut out, 0x22, self.datatype.as_str().as_bytes());
        write_lenfield(&mut out, 0x2A, self.username.as_str().as_bytes());
        write_lenfield(&mut out, 0x32, self.token.as_str().as_bytes());
        assert(out@ =~= encode_request(self@));
        out
    }

    /// The wire text of this request: its binary encoding framed as base64.
    pub fn b64(&self) -> (r: String)
        requires
            encode_request(self@).len() <= usize::MAX / 4,
        ensures
            r@ == base64_text(encode_request(self@)),
    {
        let bytes = self.serialize();
        base64_encode(bytes.as_slice())
    }

    /// Decode a binary encoding back into a request. Succeeds exactly on the
    /// byte runs `parse_request` accepts, and returns exactly the parsed
    /// message; everything else is a decode failure.
    pub fn deserialize(bytes: &[u8]) -> (r: Result<Request, MoabError>)
        ensures
            match parse_request(bytes@) {
                Some(v) => r matches Ok(req) && req@ == v,
                None => r == Err::<Request, MoabError>(MoabError::DecodeError),
            },
    {
        let (sym_bytes, i1) = match read_lenfield(bytes, 0, 0x0A) {
            Some(p) => p,
            None => { return Err(MoabError::DecodeError) },
        };
        let (start, i2) = match read_u32field(bytes, i1, 0x10) {
            Some(p) => p,
            None => { return Err(MoabError::DecodeError) },
        };
        let (end, i3) = match read_u32field(bytes, i2, 0x18) {
            Some(p) => p,
            None => { return Err(MoabError::DecodeError) },
        };
        let (dt_bytes, i4) = match read_lenfield(bytes, i3, 0x22) {
            Some(p) => p,
            None => { return Err(MoabError::DecodeError) },
        };
        let (un_bytes, i5) = match read_lenfield(bytes, i4, 0x2A) {
            Some(p) => p,
            None => { return Err(MoabError::DecodeError) },
        };
        let (tk_bytes, i6) = match read_lenfield(bytes, i5, 0x32) {
            Some(p) => p,
            None => { return Err(MoabError::DecodeError) },
        };
        if !check_trailing_fields(bytes, i6) {
            return Err(MoabError::DecodeError);
        }
        let symbol = match utf8_to_string(sym_bytes) {
            Some(s) => s,
            None => { return Err(MoabError::DecodeError) },
        };
        let datatype = match utf8_to_string(dt_bytes) {
            Some(s) => s,
            None => { return Err(MoabError::DecodeError) },
        };
        let username = match utf8_to_string(un_bytes) {
            Some(s) => s,
            None => { return Err(MoabError::DecodeError) },
        };
        let token = match utf8_to_string(tk_bytes) {
            Some(s) => s,
            None => { return Err(MoabError::DecodeError) },
        };
        Ok(Request { symbol, start, end, datatype, username, token })
    }

    /// Decode wire text back into a request. On any text that `b64`
    /// produced for a request, this returns that request.
    pub fn from_b64(s: &str) -> (r: Result<Request, MoabError>)
        ensures
            forall|b: Seq<u8>|
                s@ == base64_text(b) ==> match parse_request(b) {
                    Some(v) => r matches Ok(req) && req@ == v,
                    None => r == Err::<Request, MoabError>(MoabError::DecodeError),
                },
            r matches Err(e) ==> e == MoabError::DecodeError,
    {
        match base64_decode(s) {
            Some(bytes) => Request::deserialize(bytes.as_slice()),
            None => Err(MoabError::DecodeError),
        }
    }
}

impl Response {
    /// The binary encoding of this response.
    pub fn serialize(&self) -> (r: Vec<u8>)
        ensures
            r@ == encode_response(self@),
    {
        let mut out: Vec<u8> = Vec::new();
        write_u32field(&mut out, 0x08, self.code);
        write_lenfield(&mut out, 0x12, self.data.as_slice());
        assert(out@ =~= encode_response(self@));
        out
    }

    /// The wire text of this response: its binary encoding framed as base64.
    pub fn b64(&self) -> (r: String)
        requires
            encode_response(self@).len() <= usize::MAX / 4,
        ensures
            r@ == base64_text(encode_response(self@)),
    {
        let bytes = self.serialize();
        base64_encode(bytes.as_slice())
    }

    /// Decode a binary encoding back into a response. Succeeds exactly on
    /// the byte runs `parse_response` accepts, and returns exactly the
    /// parsed message.
    pub fn deserialize(bytes: &[u8]) -> (r: Result<Response, MoabError>)
        ensures
            match parse_response(bytes@) {
                Some(v) => r matches Ok(resp) && resp@ == v,
                None => r == Err::<Response, MoabError>(MoabError::DecodeError),
            },
    {
        let (code, i1) = match read_u32field(bytes, 0, 0x08) {
            Some(p) => p,
            None => { return Err(MoabError::DecodeError) },
        };
        let (data_bytes, i2) = match read_lenfield(bytes, i1, 0x12) {
            Some(p) => p,
            None => { return Err(MoabError::DecodeError) },
        };
        if !check_trailing_fields(bytes, i2) {
            return Err(MoabError::DecodeError);
        }
        let data = vstd::slice::slice_to_vec(data_bytes);
        Ok(Response { code, data })
    }

    /// Decode wire text back into a response. On any text that `b64`
    /// produced for a response, this returns that response.
    pub fn from_b64(s: &str) -> (r: Result<Response, MoabError>)
        ensures
            forall|b: Seq<u8>|
                s@ == base64_text(b) ==> match parse_response(b) {
                    Some(v) => r matches Ok(resp) && resp@ == v,
                    None => r == Err::<Response, MoabError>(MoabError::DecodeError),
                },
            r matches Err(e) ==> e == MoabError::DecodeError,
    {
        match base64_decode(s) {
            Some(bytes) => Response::deserialize(bytes.as_slice()),
            None => Err(MoabError::DecodeError),
        }
    }
}

/// The binary layer loses nothing: parsing an encoded request yields the
/// request back, for every request.
pub proof fn lemma_request_round_trip(r: RequestV)
    ensures
        parse_request(encode_request(r)) == Some(r),
{
    let e1 = lenfield_enc(0x0A, encode_utf8(r.symbol));
    let e2 = u32field_enc(0x10, r.start);
    let e3 = u32field_enc(0x18, r.end);
    let e4 = lenfield_enc(0x22, encode_utf8(r.datatype));
    let e5 = lenfield_enc(0x2A, encode_utf8(r.username));
    let e6 = lenfield_enc(0x32, encode_utf8(r.token));
    let s = encode_request(r);
    assert(s.subrange(0, s.len() as int) =~= s);
    lemma_has_prefix_concat(s, 0, e1 + e2 + e3 + e4 + e5, e6);
    lemma_has_prefix_concat(s, 0, e1 + e2 + e3 + e4, e5);
    lemma_has_prefix_concat(s, 0, e1 + e2 + e3, e4);
    lemma_has_prefix_concat(s, 0, e1 + e2, e3);
    lemma_has_prefix_concat(s, 0, e1, e2);
    let i1 = e1.len() as int;
    let i2 = i1 + e2.len();
    let i3 = i2 + e3.len();
    let i4 = i3 + e4.len();
    let i5 = i4 + e5.len();
    let i6 = i5 + e6.len();
    lemma_lenfield_round_trip(s, 0, 0x0A, encode_utf8(r.symbol));
    lemma_u32field_round_trip(s, i1, 0x10, r.start);
    lemma_u32field_round_trip(s, i2, 0x18, r.end);
    lemma_lenfield_round_trip(s, i3, 0x22, encode_utf8(r.datatype));
    lemma_lenfield_round_trip(s, i4, 0x2A, encode_utf8(r.username));
    lemma_lenfield_round_trip(s, i5, 0x32, encode_utf8(r.token));
    assert(i6 == s.len());
    assert(skip_fields(s, i6));
}

/// The binary layer loses nothing: parsing an encoded response yields the
/// response back, for every response.
pub proof fn lemma_response_round_trip(r: ResponseV)
    ensures
        parse_response(encode_response(r)) == Some(r),
{
    let e1 = u32field_enc(0x08, r.code);
    let e2 = lenfield_enc(0x12, r.data);
    let s = encode_response(r);
    assert(s.subrange(0, s.len() as int) =~= s);
    lemma_has_prefix_concat(s, 0, e1, e2);
    let i1 = e1.len() as int;
    let i2 = i1 + e2.len();
    lemma_u32field_round_trip(s, 0, 0x08, r.code);
    lemma_lenfield_round_trip(s, i1, 0x12, r.data);
    assert(i2 == s.len());
    assert(skip_fields(s, i2));
}

} // verus!
