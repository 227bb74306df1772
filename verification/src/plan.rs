//! Deriving the HTTP client settings from a run configuration.
//!
//! The client is built once and shared by every worker. Its timeouts come
//! straight from the configuration; its idle-connection pool and default
//! `Connection` header follow the reuse policy; certificate validation is
//! switched off for `https` targets, a deliberate relaxation for load
//! testing against non-production endpoints.

use vstd::prelude::*;
use vstd::arithmetic::div_mod::lemma_fundamental_div_mod;
use crate::config::{is_https_prefix, url_is_https, RunConfig};

verus! {

/// The default `Connection` header attached to every request.
#[derive(PartialEq, Eq, Structural, Debug, Clone, Copy)]
pub enum ConnectionHeader {
    KeepAlive,
    Close,
}

impl ConnectionHeader {
    /// The header value as it goes on the wire.
    pub fn value_str(&self) -> (r: String)
        ensures
            *self == ConnectionHeader::KeepAlive ==> r@ == "keep-alive"@,
            *self == ConnectionHeader::Close ==> r@ == "close"@,
    {
        match self {
            ConnectionHeader::KeepAlive => String::from_str("keep-alive"),
            ConnectionHeader::Close => String::from_str("close"),
        }
    }
}

/// Everything the HTTP client is configured with.
pub struct ClientPlan {
    /// Per-request timeout, in milliseconds.
    pub request_timeout_ms: u64,
    /// Connect timeout, in milliseconds.
    pub connect_timeout_ms: u64,
    /// Idle-connection-pool capacity per host.
    pub pool_max_idle_per_host: usize,
    /// Accept invalid or self-signed certificates.
    pub accept_invalid_certs: bool,
    /// Default `Connection` header for every request.
    pub connection_header: ConnectionHeader,
}

/// Derive the client settings from the configuration: timeouts are
/// copied; with connection reuse the pool holds ten idle connections per
/// worker and every request says `Connection: keep-alive`; without it the
/// pool capacity is zero and every request says `Connection: close`;
/// certificate validation is disabled exactly for `https` targets.
pub fn client_plan(cfg: &RunConfig) -> (p: ClientPlan)
    requires
        cfg.num_threads <= usize::MAX / 10,
    ensures
        p.request_timeout_ms == cfg.request_timeout_ms,
        p.connect_timeout_ms == cfg.connect_timeout_ms,
        p.accept_invalid_certs == is_https_prefix(cfg.url@),
        cfg.reuse_connects ==> p.connection_header == ConnectionHeader::KeepAlive
            && p.pool_max_idle_per_host == 10 * cfg.num_threads,
        !cfg.reuse_connects ==> p.connection_header == ConnectionHeader::Close
            && p.pool_max_idle_per_host == 0,
{
    proof {
        lemma_fundamental_div_mod(usize::MAX as int, 10);
    }
    let pool: usize = if cfg.reuse_connects {
        cfg.num_threads * 10
    } else {
        0
    };
    let header = if cfg.reuse_connects {
        ConnectionHeader::KeepAlive
    } else {
        ConnectionHeader::Close
    };
    let accept_invalid_certs = url_is_https(cfg.url.as_str());
    ClientPlan {
        request_timeout_ms: cfg.request_timeout_ms,
        connect_timeout_ms: cfg.connect_timeout_ms,
        pool_max_idle_per_host: pool,
        accept_invalid_certs,
        connection_header: header,
    }
}

} // verus!
