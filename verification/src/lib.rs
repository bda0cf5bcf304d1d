//! Client-side protocol layer for the moabdb market-data service.
//!
//! The crate covers the request/response wire protocol (a field-tagged binary
//! schema framed in a text-safe base64 layer), the time-window calculator that
//! resolves partial `{start, end, length}` input into an absolute interval,
//! and the mapping from protocol status codes onto the library's error kinds.
//! The network exchange itself and the columnar decoding of a successful
//! payload are left to the surrounding application.

use vstd::prelude::*;

pub mod credentials;
pub mod errors;
pub mod protocol;
pub mod window;
pub mod wire;

use crate::credentials::Credentials;
use crate::errors::MoabError;
use crate::protocol::{base64_text, parse_response, Request, Response};
use crate::window::Window;

verus! {

/// The dataset selector for daily-granularity data.
pub open spec fn daily_datatype() -> Seq<char> {
    "daily_stocks"@
}

/// The dataset selector for intraday-granularity data.
pub open spec fn intraday_datatype() -> Seq<char> {
    "intraday_stocks"@
}

/// The error each non-success protocol status code maps to.
pub open spec fn status_error(code: u32) -> MoabError {
    if code == 400 {
        MoabError::RequestError
    } else if code == 401 {
        MoabError::Unauthorized
    } else if code == 404 {
        MoabError::NotFound
    } else if code == 500 {
        MoabError::ServerInternalError
    } else {
        MoabError::UnknownError
    }
}

/// Compose the request one fetch sends: the symbol, the window's bounds as
/// 32-bit unix seconds, the dataset selector the `intraday` flag picks, and
/// the credentials — as empty strings when the caller supplies none, never
/// as absent fields. The wire schema carries timestamps in 32 bits, so the
/// caller keeps the window within that range.
pub fn build_request(
    ticker: &str,
    window: &Window,
    intraday: bool,
    credentials: &Option<Credentials>,
) -> (r: Request)
    requires
        0 <= window.start < 0x1_0000_0000,
        0 <= window.end < 0x1_0000_0000,
    ensures
        r@.symbol == ticker@,
        r@.start == window.start,
        r@.end == window.end,
        r@.datatype == if intraday {
            intraday_datatype()
        } else {
            daily_datatype()
        },
        match credentials {
            Some(c) => r@.username == c.username@ && r@.token == c.token@,
            None => r@.username == Seq::<char>::empty() && r@.token == Seq::<char>::empty(),
        },
{
    let datatype = if intraday {
        "intraday_stocks".to_owned()
    } else {
        "daily_stocks".to_owned()
    };
    let (username, token) = match credentials {
        Some(c) => (c.username.clone(), c.token.clone()),
        None => (String::new(), String::new()),
    };
    Request {
        symbol: ticker.to_owned(),
        start: window.start as u32,
        end: window.end as u32,
        datatype,
        username,
        token,
    }
}

/// Turn a decoded response into the fetch outcome: status 200 releases the
/// payload bytes to the caller, and every other status maps to its error
/// kind.
pub fn handle_response(resp: Response) -> (r: Result<Vec<u8>, MoabError>)
    ensures
        resp.code == 200 ==> (r matches Ok(d) && d@ == resp@.data),
        resp.code != 200 ==> r == Err::<Vec<u8>, MoabError>(status_error(resp.code)),
{
    match resp.code {
        200 => Ok(resp.data),
        400 => Err(MoabError::RequestError),
        401 => Err(MoabError::Unauthorized),
        404 => Err(MoabError::NotFound),
        500 => Err(MoabError::ServerInternalError),
        _ => Err(MoabError::UnknownError),
    }
}

/// Interpret the outcome of the one network exchange a fetch performs.
/// `None` stands for a transport-level failure — the connection failed, or
/// the body never arrived as text — and maps to `TransportError` no matter
/// what else happened. A body that arrived but does not decode as a
/// response is folded into the same `TransportError` kind; a decoded
/// response is judged by its status code, and on success the payload bytes
/// come back for the caller's tabular decoder.
pub fn interpret_exchange(body: Option<String>) -> (r: Result<Vec<u8>, MoabError>)
    ensures
        body is None ==> r == Err::<Vec<u8>, MoabError>(MoabError::TransportError),
        body matches Some(s) ==> forall|b: Seq<u8>|
            s@ == base64_text(b) ==> match parse_response(b) {
                Some(v) => if v.code == 200 {
                    r matches Ok(d) && d@ == v.data
                } else {
                    r == Err::<Vec<u8>, MoabError>(status_error(v.code))
                },
                None => r == Err::<Vec<u8>, MoabError>(MoabError::TransportError),
            },
{
    match body {
        None => Err(MoabError::TransportError),
        Some(s) => match Response::from_b64(s.as_str()) {
            Ok(resp) => handle_response(resp),
            Err(_) => Err(MoabError::TransportError),
        },
    }
}

} // verus!
