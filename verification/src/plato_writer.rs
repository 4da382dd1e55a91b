//! The decisions around PLATO's HTTP API: the addresses of its endpoints and
//! what an answer of PLATO means. The requests themselves are sent by the
//! application.
use vstd::prelude::*;
use crate::{SubmitResponse, TileResponse};
use crate::text::str_eq;

verus! {

/// `reqwest::Error`, an HTTP failure, carried as an opaque value.
#[verifier::external_type_specification]
#[verifier::external_body]
pub struct ExReqwestError(reqwest::Error);

/// `serde_json::Error`, a JSON failure, carried as an opaque value.
#[verifier::external_type_specification]
#[verifier::external_body]
pub struct ExSerdeJsonError(serde_json::Error);

/// What can go wrong when talking to PLATO.
pub enum PlatoError {
    /// The HTTP request failed.
    Request(reqwest::Error),
    /// The answer was not the JSON expected.
    Json(serde_json::Error),
    /// PLATO rejected the tile at one of its gates.
    Rejected { reason: String, gate: String },
    /// There is no such room.
    RoomNotFound(String),
    /// The answer had an unexpected format.
    InvalidResponse,
}

/// The address of the submit endpoint.
pub fn submit_url(base_url: &str) -> (r: String)
    ensures
        r@ == base_url@ + "/submit"@,
{
    let mut r = String::from_str(base_url);
    r.append("/submit");
    r
}

/// The address of a room.
pub fn room_url(base_url: &str, room: &str) -> (r: String)
    ensures
        r@ == base_url@ + "/room/"@ + room@,
{
    let mut r = String::from_str(base_url);
    r.append("/room/");
    r.append(room);
    r
}

/// The address of the room listing.
pub fn rooms_url(base_url: &str) -> (r: String)
    ensures
        r@ == base_url@ + "/"@,
{
    let mut r = String::from_str(base_url);
    r.append("/");
    r
}

/// What PLATO's answer to a submitted tile means: a tile whose status is
/// `rejected` was refused, with PLATO's reason and gate; any other answer is
/// handed back as it is.
pub fn check_submit_response(response: SubmitResponse) -> (r: Result<SubmitResponse, PlatoError>)
    ensures
        response.status@ == "rejected"@ ==> (r matches Err(PlatoError::Rejected { reason, gate }) && reason
            == response.reason && gate == response.gate),
        response.status@ != "rejected"@ ==> r == Ok::<SubmitResponse, PlatoError>(response),
{
    if str_eq(response.status.as_str(), "rejected") {
        Err(PlatoError::Rejected { reason: response.reason.clone(), gate: response.gate.clone() })
    } else {
        Ok(response)
    }
}

/// What the HTTP status of a room request means: 404 is a room that does
/// not exist.
pub fn check_room_status(status: u16, room: &str) -> (r: Result<(), PlatoError>)
    ensures
        status == 404 ==> (r matches Err(PlatoError::RoomNotFound(name)) && name@ == room@),
        status != 404 ==> r is Ok,
{
    if status == 404 {
        Err(PlatoError::RoomNotFound(String::from_str(room)))
    } else {
        Ok(())
    }
}

/// The tiles of a room stored since a time (seconds since the epoch). The
/// tiles carry no time of their own, so every tile is kept.
pub fn tiles_since(tiles: Vec<TileResponse>, since_timestamp: i64) -> (r: Vec<TileResponse>)
    ensures
        r == tiles,
{
    tiles
}

} // verus!
