//! The local companion server: where it is looked for, how its health answer
//! is read, and when a probed port counts as found.

use vstd::prelude::*;
use crate::number::{decimal, decimal_string};
use crate::text::same_text;

verus! {

#[verifier::external_type_specification]
#[verifier::external_body]
pub struct ExJsonValue(serde_json::Value);

/// A server that answered on a local port.
#[derive(Debug)]
pub struct ServerInfo {
    pub url: String,
    pub port: u16,
    pub healthy: bool,
}

/// A server's answer to the health query.
#[derive(Debug)]
pub struct ServerHealth {
    pub status: String,
    pub version: Option<String>,
}

/// The local ports probed for a server, in order.
pub fn candidate_ports() -> (r: Vec<u16>)
    ensures
        r@ == seq![4321u16, 4322u16, 4323u16, 3000u16, 8080u16],
{
    let r: Vec<u16> = vec![4321, 4322, 4323, 3000, 8080];
    r
}

/// The address of a server on local port `port`.
pub fn local_server_url(port: u16) -> (r: String)
    ensures
        r@ == "http://localhost:"@ + decimal(port as nat),
{
    let mut r = String::from_str("http://localhost:");
    r.append(decimal_string(port as u64).as_str());
    r
}

/// The health query address of the server at `url`.
pub fn health_endpoint(url: &str) -> (r: String)
    ensures
        r@ == url@ + "/api/health"@,
{
    let mut r = String::from_str(url);
    r.append("/api/health");
    r
}

/// The health answer made of its two text fields: a missing status counts
/// as `ok`, a missing version stays missing.
pub fn health_from_fields(status: Option<String>, version: Option<String>) -> (r: ServerHealth)
    ensures
        r.status@ == match status {
            Some(s) => s@,
            None => "ok"@,
        },
        r.version == version,
{
    let status = match status {
        Some(s) => s,
        None => String::from_str("ok"),
    };
    ServerHealth { status, version }
}

/// Relies on `serde_json::Value::get`: the member `key` of an object, none
/// for another key or another kind of value.
#[verifier::external_body]
fn json_member<'a>(v: &'a serde_json::Value, key: &str) -> (r: Option<&'a serde_json::Value>) {
    v.get(key)
}

/// Relies on `serde_json::Value::as_str`: the text of a string value, none
/// for another kind of value.
#[verifier::external_body]
fn json_text(v: &serde_json::Value) -> (r: Option<String>) {
    match v.as_str() {
        Some(s) => Some(s.to_string()),
        None => None,
    }
}

fn text_member(body: &serde_json::Value, key: &str) -> (r: Option<String>) {
    match json_member(body, key) {
        Some(f) => json_text(f),
        None => None,
    }
}

/// Reads a health answer from its JSON body: its `status` and `version`
/// text members, with the defaults of `health_from_fields`.
pub fn health_from_body(body: &serde_json::Value) -> (r: ServerHealth) {
    health_from_fields(text_member(body, "status"), text_member(body, "version"))
}

/// A probed port counts as a found server exactly when its status is `ok`.
pub fn accept_server(url: String, port: u16, health: &ServerHealth) -> (r: Option<ServerInfo>)
    ensures
        r is Some <==> health.status@ == "ok"@,
        r is Some ==> r->0.url == url && r->0.port == port && r->0.healthy,
{
    if same_text(health.status.as_str(), "ok") {
        Some(ServerInfo { url, port, healthy: true })
    } else {
        None
    }
}

} // verus!
