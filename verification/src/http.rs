//! Responses of the data source: when one is accepted, and what is kept of it.
use crate::entity::{EntityKind, NewObject};
use crate::json::{json_from_slice, json_value};
use crate::timestamp::{TimeSpan, Timestamp};
use vstd::prelude::*;

verus! {

/// How many requests may be under way at once.
pub const MAX_CONCURRENT_REQUESTS: usize = 20;

/// The status of a response whose server stands behind a gateway that could not reach it.
pub const BAD_GATEWAY: u16 = 502;

/// How long, in seconds, all free request slots are held back after a bad gateway.
pub const CIRCUIT_BREAK_SECONDS: u64 = 5;

/// What a response holds, and when it was asked for.
#[derive(Debug, Clone)]
pub struct ClientResponse {
    pub _url: String,
    pub timestamp_before: Timestamp,
    pub timestamp_after: Timestamp,
    pub data: Vec<u8>,
    pub _status_code: u16,
    pub _was_cached: bool,
}

/// Why what a response holds could not be used.
#[derive(Debug)]
pub enum ResponseError {
    /// Bytes that are no JSON.
    Json(serde_json::Error),
    /// A text that is no URL, with the reason.
    Url(String),
}

/// What to do next with a response, before its body is read.
#[derive(Clone, Copy, Debug, PartialEq, Eq, Structural)]
pub enum ResponseStep {
    /// Hold back all free request slots for a while, then decide again.
    BreakCircuit,
    /// Give the response up: its status is an error.
    Reject,
    /// Read the body.
    ReadBody,
}

/// Whether a status is an error of the client or of the server.
pub open spec fn is_error_status(status: u16) -> bool {
    400 <= status < 600
}

/// The step that a response of this status calls for: a bad gateway breaks the circuit, once; an
/// error is given up; anything else is read.
pub open spec fn step_for(status: u16, circuit_broken: bool) -> ResponseStep {
    if status == BAD_GATEWAY && !circuit_broken {
        ResponseStep::BreakCircuit
    } else if is_error_status(status) {
        ResponseStep::Reject
    } else {
        ResponseStep::ReadBody
    }
}

/// Decides what to do next with a response, `circuit_broken` telling whether the circuit was
/// broken for it already.
pub fn response_step(status: u16, circuit_broken: bool) -> (step: ResponseStep)
    ensures
        step == step_for(status, circuit_broken),
        step == ResponseStep::BreakCircuit <==> status == 502 && !circuit_broken,
        step == ResponseStep::ReadBody <==> status < 400 || status >= 600,
{
    if status == BAD_GATEWAY && !circuit_broken {
        ResponseStep::BreakCircuit
    } else if 400 <= status && status < 600 {
        ResponseStep::Reject
    } else {
        ResponseStep::ReadBody
    }
}

/// By its number: 502 breaks the circuit where it is not broken yet, every other status from 400 to
/// 599 is given up, and any status outside of these is read.
pub proof fn law_step_by_status_number(status: u16, circuit_broken: bool)
    ensures
        step_for(status, circuit_broken) == ResponseStep::BreakCircuit <==> status == 502
            && !circuit_broken,
        step_for(status, circuit_broken) == ResponseStep::ReadBody <==> status < 400 || status
            >= 600,
        step_for(status, circuit_broken) == ResponseStep::Reject <==> 400 <= status < 600 && (status
            != 502 || circuit_broken),
{
}

/// A response that broke the circuit is given up afterwards and never read; no response breaks it
/// twice; and every body that is read comes with a status that is no error.
pub proof fn law_bad_gateway_is_waited_out_then_rejected(status: u16, circuit_broken: bool)
    ensures
        step_for(status, false) == ResponseStep::BreakCircuit ==> step_for(status, true)
            == ResponseStep::Reject,
        step_for(status, true) != ResponseStep::BreakCircuit,
        step_for(status, circuit_broken) == ResponseStep::ReadBody <==> !is_error_status(status),
{
}

impl ClientResponse {
    /// A response as it came over the wire, not out of a cache.
    pub fn fetched(
        url: String,
        timestamp_before: Timestamp,
        timestamp_after: Timestamp,
        data: Vec<u8>,
        status_code: u16,
    ) -> (response: ClientResponse)
        ensures
            response._url == url,
            response.timestamp_before == timestamp_before,
            response.timestamp_after == timestamp_after,
            response.data == data,
            response._status_code == status_code,
            !response._was_cached,
    {
        ClientResponse {
            _url: url,
            timestamp_before,
            timestamp_after,
            data,
            _status_code: status_code,
            _was_cached: false,
        }
    }

    /// The JSON value that the body holds.
    pub fn parse(&self) -> (parsed: Result<serde_json::Value, ResponseError>)
        ensures
            match parsed {
                Ok(value) => json_value(self.data@) == Some(value),
                Err(e) => e is Json && json_value(self.data@) is None,
            },
    {
        match json_from_slice(self.data.as_slice()) {
            Ok(value) => Ok(value),
            Err(e) => Err(ResponseError::Json(e)),
        }
    }

    /// Whether `object` is the observation of the entity `entity_id` that the response makes with
    /// the value `data`.
    pub open spec fn observes(
        &self,
        object: NewObject,
        data: serde_json::Value,
        kind: EntityKind,
        entity_id: Seq<char>,
    ) -> bool {
        &&& object.data == data
        &&& object.kind == kind
        &&& object.entity_id@ == entity_id
        &&& object.request_time.nanoseconds == self.timestamp_after.unix_nanos()
            - self.timestamp_before.unix_nanos()
        &&& object.timestamp == self.timestamp_before
    }

    /// The observation of the entity `entity_id` that the response makes with the value `parsed`.
    pub fn observation(
        &self,
        parsed: serde_json::Value,
        kind: EntityKind,
        entity_id: &str,
    ) -> (object: NewObject)
        ensures
            self.observes(object, parsed, kind, entity_id@),
            object.data == parsed,
            object.kind == kind,
            object.entity_id@ == entity_id@,
            object.request_time.nanoseconds == (self.timestamp_after.unix_seconds
                - self.timestamp_before.unix_seconds) * 1_000_000_000 + (
            self.timestamp_after.nanosecond - self.timestamp_before.nanosecond),
            object.timestamp == self.timestamp_before,
    {
        NewObject {
            data: parsed,
            kind,
            entity_id: entity_id.to_owned(),
            request_time: self.request_time(),
            timestamp: self.timestamp(),
        }
    }

    /// The observation of the entity `entity_id` that the response makes: the value of its body,
    /// seen when the request went out.
    pub fn to_chron(&self, kind: EntityKind, entity_id: &str) -> (object: Result<
        NewObject,
        ResponseError,
    >)
        ensures
            match object {
                Ok(o) => json_value(self.data@) matches Some(data) && self.observes(
                    o,
                    data,
                    kind,
                    entity_id@,
                ),
                Err(e) => e is Json && json_value(self.data@) is None,
            },
            object matches Ok(o) ==> {
                &&& json_value(self.data@) == Some(o.data)
                &&& o.kind == kind
                &&& o.entity_id@ == entity_id@
                &&& o.request_time.nanoseconds == (self.timestamp_after.unix_seconds
                    - self.timestamp_before.unix_seconds) * 1_000_000_000 + (
                self.timestamp_after.nanosecond - self.timestamp_before.nanosecond)
                &&& o.timestamp == self.timestamp_before
            },
    {
        match self.parse() {
            Ok(parsed) => Ok(self.observation(parsed, kind, entity_id)),
            Err(e) => Err(e),
        }
    }

    /// How long the response took.
    pub fn request_time(&self) -> (span: TimeSpan)
        ensures
            span.nanoseconds == self.timestamp_after.unix_nanos()
                - self.timestamp_before.unix_nanos(),
            span.nanoseconds == (self.timestamp_after.unix_seconds
                - self.timestamp_before.unix_seconds) * 1_000_000_000 + (
            self.timestamp_after.nanosecond - self.timestamp_before.nanosecond),
    {
        self.timestamp_after.since(&self.timestamp_before)
    }

    /// When the response was asked for.
    pub fn timestamp(&self) -> (at: Timestamp)
        ensures
            at == self.timestamp_before,
    {
        self.timestamp_before
    }
}

} // verus!
