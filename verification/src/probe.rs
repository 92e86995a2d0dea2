//! What a probe reports, the ping that is recorded for it, and what the
//! dispatcher feeds into the incident engine.

use vstd::prelude::*;
use vstd::string::*;
use std::collections::HashMap;
use crate::text::{replace, replaced, trim_start_matches, trimmed};

verus! {

/// The latency that is recorded where the measured one does not fit.
pub const LATENCY_SENTINEL: i32 = i32::MAX;

/// The status that is recorded where a failed request gave none.
pub const DEFAULT_FAILURE_STATUS: i32 = 503;

/// What an HTTP probe saw.
#[derive(Debug)]
pub struct HttpPingResponse {
    pub success: bool,
    pub status: i32,
    pub body: Option<String>,
    pub latency: i32,
    pub headers: HashMap<String, String>,
}

/// An HTTP probe that failed, with what is known of the response.
#[derive(Debug)]
pub struct HttpPingErrorResponse {
    pub response: HttpPingResponse,
    pub error: String,
}

/// What a TCP probe saw.
#[derive(Debug)]
pub struct TcpPingResponse {
    pub success: bool,
    pub latency: i32,
}

/// A TCP probe that failed.
#[derive(Debug)]
pub struct TcpPingErrorResponse {
    pub error: String,
    pub response: TcpPingResponse,
}

/// The protocols that a monitor can be probed with.
#[derive(Copy, Clone, Debug, PartialEq, Eq, Structural)]
pub enum ProbeProtocol {
    Http,
    Tcp,
}

/// The protocol that a tag names, if it names one.
pub open spec fn protocol_of(tag: Seq<char>) -> Option<ProbeProtocol> {
    if tag == "http"@ {
        Some(ProbeProtocol::Http)
    } else if tag == "tcp"@ {
        Some(ProbeProtocol::Tcp)
    } else {
        None
    }
}

impl ProbeProtocol {
    /// Reads a protocol from its tag, `http` or `tcp`. Any other tag names
    /// no supported protocol.
    pub fn parse(tag: &String) -> (res: Option<ProbeProtocol>)
        ensures
            res == protocol_of(tag@),
    {
        if *tag == String::from_str("http") {
            Some(ProbeProtocol::Http)
        } else if *tag == String::from_str("tcp") {
            Some(ProbeProtocol::Tcp)
        } else {
            None
        }
    }

    /// The protocol's tag.
    pub fn tag(&self) -> (res: String)
        ensures
            protocol_of(res@) == Some(*self),
            res@ == match *self {
                ProbeProtocol::Http => "http"@,
                ProbeProtocol::Tcp => "tcp"@,
            },
    {
        proof {
            reveal_strlit("http");
            reveal_strlit("tcp");
            assert("http"@.len() == 4 && "tcp"@.len() == 3);
        }
        match self {
            ProbeProtocol::Http => String::from_str("http"),
            ProbeProtocol::Tcp => String::from_str("tcp"),
        }
    }
}

/// The latency to record for a measured number of milliseconds.
pub open spec fn clamped(millis: int) -> int {
    if i32::MIN <= millis <= i32::MAX {
        millis
    } else {
        LATENCY_SENTINEL as int
    }
}

/// The latency to record for a measured number of milliseconds: the number
/// itself where it fits, else the sentinel.
pub fn clamp_latency(millis: i64) -> (res: i32)
    ensures
        res == clamped(millis as int),
{
    if millis < i32::MIN as i64 || millis > i32::MAX as i64 {
        LATENCY_SENTINEL
    } else {
        millis as i32
    }
}

/// Whether an HTTP status counts as the endpoint being up.
pub fn http_success(status: i32) -> (res: bool)
    ensures
        res == (status == 200),
{
    status == 200
}

/// The response to report for an answered HTTP request.
pub fn http_response(
    status: u16,
    latency_millis: i64,
    body: Option<String>,
    headers: HashMap<String, String>,
) -> (res: HttpPingResponse)
    ensures
        res.success == (status == 200),
        res.status == status,
        res.latency == clamped(latency_millis as int),
        res.body == body,
        res.headers == headers,
{
    HttpPingResponse {
        success: http_success(status as i32),
        status: status as i32,
        body,
        latency: clamp_latency(latency_millis),
        headers,
    }
}

/// The failure to report for an HTTP request that got no usable answer.
/// `status` is the status that the error carries, if it carries one;
/// `headers` is expected empty.
pub fn http_failure(
    status: Option<u16>,
    latency_millis: i64,
    error: String,
    headers: HashMap<String, String>,
) -> (res: HttpPingErrorResponse)
    ensures
        !res.response.success,
        res.response.status == match status {
            Some(s) => s as i32,
            None => DEFAULT_FAILURE_STATUS,
        },
        res.response.latency == clamped(latency_millis as int),
        res.response.body.is_none(),
        res.response.headers == headers,
        res.error == error,
{
    HttpPingErrorResponse {
        response: HttpPingResponse {
            success: false,
            status: match status {
                Some(s) => s as i32,
                None => DEFAULT_FAILURE_STATUS,
            },
            body: None,
            latency: clamp_latency(latency_millis),
            headers,
        },
        error,
    }
}

/// The response to report for a TCP connection that was or was not made.
pub fn tcp_response(connected: bool, latency_millis: i64) -> (res: TcpPingResponse)
    ensures
        res.success == connected,
        res.latency == clamped(latency_millis as int),
{
    TcpPingResponse { success: connected, latency: clamp_latency(latency_millis) }
}

/// The two addresses that an HTTP probe tries, the secure one first.
#[derive(Debug)]
pub struct ProbeUrls {
    pub secure: String,
    pub plain: String,
}

/// The target without any scheme at its start.
pub open spec fn bare_target(target: Seq<char>) -> Seq<char> {
    trimmed(trimmed(target, "http://"@), "https://"@)
}

/// The address that is probed first: the bare target over `https`.
pub open spec fn secure_url(target: Seq<char>) -> Seq<char> {
    "https://"@ + bare_target(target)
}

/// The address that is probed where the first one fails: the first one with
/// every `https://` in it turned into `http://`.
pub open spec fn plain_url(target: Seq<char>) -> Seq<char> {
    replaced(secure_url(target), "https://"@, "http://"@)
}

/// The addresses to probe for a monitor's target, with or without a scheme
/// at its start.
pub fn probe_urls(target: &str) -> (urls: ProbeUrls)
    ensures
        urls.secure@ == secure_url(target@),
        urls.plain@ == plain_url(target@),
{
    let without_http = trim_start_matches(target, "http://");
    let bare = trim_start_matches(without_http.as_str(), "https://");
    let mut secure = String::from_str("https://");
    secure.append(bare.as_str());
    let plain = replace(secure.as_str(), "https://", "http://");
    ProbeUrls { secure, plain }
}

/// The ping that is recorded for one probe.
#[derive(Debug)]
pub struct PingRecord {
    pub monitor_id: String,
    pub protocol: ProbeProtocol,
    pub success: bool,
    /// The HTTP status; TCP probes have none.
    pub status: Option<i32>,
    pub latency: i32,
}

/// The ping to record for an HTTP probe. A failed probe is recorded too,
/// as a failure with the status and latency that its error carries.
pub fn http_ping_record(
    monitor_id: String,
    outcome: &Result<HttpPingResponse, HttpPingErrorResponse>,
) -> (ping: PingRecord)
    ensures
        ping.monitor_id == monitor_id,
        ping.protocol == ProbeProtocol::Http,
        match *outcome {
            Ok(r) => ping.success == r.success && ping.status == Some(r.status) && ping.latency
                == r.latency,
            Err(e) => !ping.success && ping.status == Some(e.response.status) && ping.latency
                == e.response.latency,
        },
{
    match outcome {
        Ok(r) => PingRecord {
            monitor_id,
            protocol: ProbeProtocol::Http,
            success: r.success,
            status: Some(r.status),
            latency: r.latency,
        },
        Err(e) => PingRecord {
            monitor_id,
            protocol: ProbeProtocol::Http,
            success: false,
            status: Some(e.response.status),
            latency: e.response.latency,
        },
    }
}

/// The ping to record for a TCP probe, failed or not.
pub fn tcp_ping_record(
    monitor_id: String,
    outcome: &Result<TcpPingResponse, TcpPingErrorResponse>,
) -> (ping: PingRecord)
    ensures
        ping.monitor_id == monitor_id,
        ping.protocol == ProbeProtocol::Tcp,
        ping.status.is_none(),
        match *outcome {
            Ok(r) => ping.success == r.success && ping.latency == r.latency,
            Err(e) => ping.success == e.response.success && ping.latency == e.response.latency,
        },
{
    match outcome {
        Ok(r) => PingRecord {
            monitor_id,
            protocol: ProbeProtocol::Tcp,
            success: r.success,
            status: None,
            latency: r.latency,
        },
        Err(e) => PingRecord {
            monitor_id,
            protocol: ProbeProtocol::Tcp,
            success: e.response.success,
            status: None,
            latency: e.response.latency,
        },
    }
}

/// What the dispatcher feeds into the incident engine after a probe.
#[derive(Copy, Clone, Debug, PartialEq, Eq, Structural)]
pub enum EngineCall {
    /// Automatic incidents are switched off: the engine is left alone.
    Skip,
    /// The probe came back: count a success.
    OnSuccess,
    /// The probe failed: check the monitor's health.
    OnFailure,
}

/// Chooses the engine call for a probe that came back (`answered`) or
/// failed, under the automatic detection being switched on or off.
pub fn engine_call(answered: bool, auto_enabled: bool) -> (call: EngineCall)
    ensures
        call == if !auto_enabled {
            EngineCall::Skip
        } else if answered {
            EngineCall::OnSuccess
        } else {
            EngineCall::OnFailure
        },
{
    if !auto_enabled {
        EngineCall::Skip
    } else if answered {
        EngineCall::OnSuccess
    } else {
        EngineCall::OnFailure
    }
}

} // verus!
