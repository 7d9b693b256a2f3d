//! Service configuration: bind addresses, log level and the URL of the
//! upstream redirect source.

use vstd::prelude::*;
use vstd::string::*;
use crate::text::{dec_str, parse_u16_spec, parse_u16, push_char, u64_to_string};

verus! {

/// Why a configuration could not be assembled.
#[derive(Debug)]
pub enum ConfigError {
    /// No redirect source URL was supplied; there is no default for it.
    MissingRedirectsUrl,
    /// The app server port is not a decimal 16-bit number.
    InvalidPort,
    /// The metrics server port is not a decimal 16-bit number.
    InvalidMetricsPort,
}

/// A `host:port` socket string.
pub open spec fn socket_spec(host: Seq<char>, port: u16) -> Seq<char> {
    host + seq![':'] + dec_str(port as nat)
}

/// What a port setting resolves to: the default where none was supplied,
/// else the parsed decimal value, or nothing when parsing fails.
pub open spec fn port_spec(o: Option<Seq<char>>, default: u16) -> Option<u16> {
    match o {
        None => Some(default),
        Some(s) => parse_u16_spec(s),
    }
}

/// Defines the configuration for the service.
#[derive(Debug, Clone)]
pub struct Config {
    pub log_level: String,
    pub redirects_url: String,
    pub host: String,
    pub servy_port: u16,
    pub metrics_port: u16,
}

impl Config {
    /// Constructor for building a configuration by hand.
    pub fn new(
        host: &str,
        servy_port: u16,
        metrics_port: u16,
        log_level: &str,
        redirects_url: &str,
    ) -> (c: Self)
        ensures
            c.host@ == host@,
            c.servy_port == servy_port,
            c.metrics_port == metrics_port,
            c.log_level@ == log_level@,
            c.redirects_url@ == redirects_url@,
    {
        Config {
            host: host.to_owned(),
            servy_port,
            metrics_port,
            log_level: log_level.to_owned(),
            redirects_url: redirects_url.to_owned(),
        }
    }

    /// Default configuration constructor.
    pub fn default_with_redirects(redirects_url: &str) -> (c: Self)
        ensures
            c.host@ == "127.0.0.1"@,
            c.servy_port == 8080,
            c.metrics_port == 8081,
            c.log_level@ == "INFO"@,
            c.redirects_url@ == redirects_url@,
    {
        Config {
            host: "127.0.0.1".to_owned(),
            servy_port: 8080,
            metrics_port: 8081,
            log_level: "INFO".to_owned(),
            redirects_url: redirects_url.to_owned(),
        }
    }

    /// Assemble a configuration from optional settings, with defaults where
    /// appropriate. The redirect source URL is the one setting without a
    /// default; a port that is present but not a decimal 16-bit number is
    /// an error.
    pub fn from_values(
        redirects_url: Option<String>,
        log_level: Option<String>,
        host: Option<String>,
        servy_port: Option<String>,
        metrics_port: Option<String>,
    ) -> (r: Result<Config, ConfigError>)
        ensures
            r is Ok <==> redirects_url is Some && port_spec(servy_port.deep_view(), 8080) is Some
                && port_spec(metrics_port.deep_view(), 8081) is Some,
            r matches Ok(c) ==> {
                &&& c.redirects_url@ == redirects_url->Some_0@
                &&& c.log_level@ == (match log_level {
                    Some(l) => l@,
                    None => "INFO"@,
                })
                &&& c.host@ == (match host {
                    Some(h) => h@,
                    None => "127.0.0.1"@,
                })
                &&& Some(c.servy_port) == port_spec(servy_port.deep_view(), 8080)
                &&& Some(c.metrics_port) == port_spec(metrics_port.deep_view(), 8081)
            },
            r matches Err(e) ==> {
                &&& (e is MissingRedirectsUrl <==> redirects_url is None)
                &&& (e is InvalidPort ==> redirects_url is Some && port_spec(
                    servy_port.deep_view(),
                    8080,
                ) is None)
                &&& (e is InvalidMetricsPort ==> redirects_url is Some && port_spec(
                    servy_port.deep_view(),
                    8080,
                ) is Some && port_spec(metrics_port.deep_view(), 8081) is None)
            },
    {
        let url = match redirects_url {
            Some(u) => u,
            None => {
                return Err(ConfigError::MissingRedirectsUrl);
            },
        };
        let sp: u16 = match servy_port {
            None => 8080,
            Some(s) => match parse_u16(s.as_str()) {
                Some(p) => p,
                None => {
                    return Err(ConfigError::InvalidPort);
                },
            },
        };
        let mp: u16 = match metrics_port {
            None => 8081,
            Some(s) => match parse_u16(s.as_str()) {
                Some(p) => p,
                None => {
                    return Err(ConfigError::InvalidMetricsPort);
                },
            },
        };
        let ll = match log_level {
            Some(l) => l,
            None => "INFO".to_owned(),
        };
        let h = match host {
            Some(h) => h,
            None => "127.0.0.1".to_owned(),
        };
        Ok(Config { redirects_url: url, log_level: ll, host: h, servy_port: sp, metrics_port: mp })
    }

    /// Return a `String` naming the socket to bind the app server to.
    pub fn servy_socket(&self) -> (r: String)
        ensures
            r@ == socket_spec(self.host@, self.servy_port),
    {
        let mut s = self.host.clone();
        push_char(&mut s, ':');
        let port = u64_to_string(self.servy_port as u64);
        let r = s.concat(port.as_str());
        proof {
            assert(r@ =~= socket_spec(self.host@, self.servy_port));
        }
        r
    }

    /// Return a `String` naming the socket to bind the metrics server to.
    pub fn metrics_socket(&self) -> (r: String)
        ensures
            r@ == socket_spec(self.host@, self.metrics_port),
    {
        let mut s = self.host.clone();
        push_char(&mut s, ':');
        let port = u64_to_string(self.metrics_port as u64);
        let r = s.concat(port.as_str());
        proof {
            assert(r@ =~= socket_spec(self.host@, self.metrics_port));
        }
        r
    }
}

} // verus!
