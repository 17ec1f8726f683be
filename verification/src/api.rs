//! Synchronous request surface, verified half. Each request body maps 1:1
//! onto a probe configuration, with the documented defaults filled in for
//! omitted fields; each response wraps either a result or an error text.
//! The HTTP plumbing around these shapes lives in the surrounding
//! application.

use vstd::prelude::*;

verus! {

use crate::dns::{DnsConfig, DnsQueryType};
use crate::ping::PingConfig;
use crate::tcping::TcpingConfig;
use crate::traceroute::TracerouteConfig;
use crate::website::WebsiteTestConfig;

/// The uniform response wrapper: a result or an error text, never both.
#[derive(Clone, Debug)]
pub struct ApiResponse<T> {
    /// Whether the probe execution produced a result.
    pub success: bool,
    /// The result, when there is one.
    pub data: Option<T>,
    /// The error text, when there is none.
    pub error: Option<String>,
}

impl<T> ApiResponse<T> {
    /// Wrap a probe result.
    pub fn success(data: T) -> (r: Self)
        ensures
            r.success,
            r.data == Some(data),
            r.error is None,
    {
        ApiResponse { success: true, data: Some(data), error: None }
    }

    /// Wrap an error text.
    pub fn error(error: String) -> (r: Self)
        ensures
            !r.success,
            r.data is None,
            r.error == Some(error),
    {
        ApiResponse { success: false, data: None, error: Some(error) }
    }
}

/// Request body of an echo run.
#[derive(Clone, Debug)]
pub struct PingRequest {
    pub host: String,
    pub count: Option<u32>,
}

impl PingRequest {
    /// The configuration this request stands for, defaults filled in.
    pub fn into_config(self) -> (r: PingConfig)
        ensures
            r.host == self.host,
            r.count == (match self.count {
                Some(c) => c,
                None => 4u32,
            }),
            r.timeout_ms == 2000,
            r.packet_size == 56,
    {
        let mut config = PingConfig::default();
        config.host = self.host;
        if let Some(c) = self.count {
            config.count = c;
        }
        config
    }
}

/// Request body of a TCP connect run.
#[derive(Clone, Debug)]
pub struct TcpingRequest {
    pub host: String,
    pub port: u16,
    pub count: Option<u32>,
}

impl TcpingRequest {
    /// The configuration this request stands for, defaults filled in.
    pub fn into_config(self) -> (r: TcpingConfig)
        ensures
            r.host == self.host,
            r.port == self.port,
            r.count == (match self.count {
                Some(c) => c,
                None => 4u32,
            }),
            r.timeout_ms == 3000,
            r.delay_ms == 100,
    {
        let mut config = TcpingConfig::default();
        config.host = self.host;
        config.port = self.port;
        if let Some(c) = self.count {
            config.count = c;
        }
        config
    }
}

/// Request body of an HTTP probe.
#[derive(Clone, Debug)]
pub struct WebsiteRequest {
    pub url: String,
    pub method: Option<String>,
}

impl WebsiteRequest {
    /// The configuration this request stands for, defaults filled in.
    pub fn into_config(self) -> (r: WebsiteTestConfig)
        ensures
            r.url == self.url,
            r.method == (match self.method {
                Some(m) => m,
                None => r.method,
            }),
            self.method is None ==> r.method@ == "GET"@,
            r.timeout_ms == 30000,
            r.follow_redirects,
            r.verify_ssl,
            r.headers@.len() == 1,
            r.headers@[0].0@ == "User-Agent"@,
            r.headers@[0].1@ == "NetworkProbe/1.0"@,
    {
        let mut config = WebsiteTestConfig::default();
        config.url = self.url;
        if let Some(m) = self.method {
            config.method = m;
        }
        config
    }
}

/// Request body of a hop-discovery run.
#[derive(Clone, Debug)]
pub struct TracerouteRequest {
    pub host: String,
    pub max_hops: Option<u32>,
}

impl TracerouteRequest {
    /// The configuration this request stands for, defaults filled in.
    pub fn into_config(self) -> (r: TracerouteConfig)
        ensures
            r.host == self.host,
            r.max_hops == (match self.max_hops {
                Some(m) => m,
                None => 30u32,
            }),
            r.timeout_ms == 3000,
            r.delay_ms == 100,
            r.packet_size == 60,
    {
        let mut config = TracerouteConfig::default();
        config.host = self.host;
        if let Some(m) = self.max_hops {
            config.max_hops = m;
        }
        config
    }
}

/// Request body of a DNS query.
#[derive(Clone, Debug)]
pub struct DnsRequest {
    pub domain: String,
    pub query_type: Option<String>,
    pub nameserver: Option<String>,
}

impl DnsRequest {
    /// The configuration this request stands for: the named query type
    /// when it is one of the canonical names, else `A`, with the default
    /// deadline.
    pub fn into_config(self) -> (r: DnsConfig)
        ensures
            r.domain == self.domain,
            r.nameserver == self.nameserver,
            r.timeout_ms == 5000,
            r.query_type == (match self.query_type {
                Some(name) => (match DnsQueryType::spec_parse_name(name@) {
                    Some(t) => t,
                    None => DnsQueryType::A,
                }),
                None => DnsQueryType::A,
            }),
    {
        let mut config = DnsConfig::default();
        config.domain = self.domain;
        config.nameserver = self.nameserver;
        if let Some(name) = &self.query_type {
            if let Some(t) = DnsQueryType::from_name(name.as_str()) {
                config.query_type = t;
            }
        }
        config
    }
}

} // verus!
