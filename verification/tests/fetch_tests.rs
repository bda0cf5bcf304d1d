use moabdb::credentials::Credentials;
use moabdb::errors::MoabError;
use moabdb::protocol::Response;
use moabdb::window::Window;
use moabdb::{build_request, handle_response, interpret_exchange};

#[test]
fn status_codes_map_to_their_error_kinds() {
    let cases: Vec<(u32, MoabError)> = vec![
        (400, MoabError::RequestError),
        (401, MoabError::Unauthorized),
        (404, MoabError::NotFound),
        (500, MoabError::ServerInternalError),
        (999, MoabError::UnknownError),
    ];
    for (code, err) in cases {
        let wire = Response { code, data: Vec::new() }.b64();
        assert_eq!(interpret_exchange(Some(wire)), Err(err));
    }
    let wire = Response { code: 200, data: vec![9, 8, 7] }.b64();
    assert_eq!(interpret_exchange(Some(wire)), Ok(vec![9, 8, 7]));
}

#[test]
fn handle_response_releases_payload_on_success() {
    let r = handle_response(Response { code: 200, data: vec![1, 2] });
    assert_eq!(r, Ok(vec![1, 2]));
    let r = handle_response(Response { code: 401, data: vec![1, 2] });
    assert_eq!(r, Err(MoabError::Unauthorized));
}

#[test]
fn transport_failure_is_a_transport_error() {
    assert_eq!(interpret_exchange(None), Err(MoabError::TransportError));
}

#[test]
fn undecodable_body_is_a_transport_error() {
    assert_eq!(interpret_exchange(Some("not wire text".to_string())), Err(MoabError::TransportError));
    assert_eq!(interpret_exchange(Some("AAAA".to_string())), Err(MoabError::TransportError));
}

#[test]
fn omitted_credentials_become_empty_strings() {
    let w = Window { start: 0, end: 86400 };
    let req = build_request("AAPL", &w, false, &None);
    assert_eq!(req.username, String::new());
    assert_eq!(req.token, String::new());
    assert_eq!(req.symbol, "AAPL".to_string());
    assert_eq!(req.start, 0);
    assert_eq!(req.end, 86400);
    assert_eq!(req.datatype, "daily_stocks".to_string());
}

#[test]
fn supplied_credentials_are_carried() {
    let w = Window { start: 10, end: 20 };
    let creds = Credentials::new("user", "api-token");
    let req = build_request("TSLA", &w, true, &Some(creds.clone()));
    assert_eq!(req.username, creds.username);
    assert_eq!(req.token, creds.token);
    assert_eq!(req.datatype, "intraday_stocks".to_string());
}

#[test]
fn credentials_hold_what_they_were_built_from() {
    let c = Credentials::new("name", "key");
    assert_eq!(c.username, "name".to_string());
    assert_eq!(c.token, "key".to_string());
}
