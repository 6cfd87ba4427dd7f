//! The errors of a TLS analysis and their messages.
use vstd::prelude::*;

use crate::text::{decimal, owned, push_decimal, push_str};

verus! {

/// Everything that can go wrong while analysing a TLS connection. Causes
/// that come from elsewhere (I/O, URLs, JSON, the clock) are held as the
/// text they display.
#[derive(Debug)]
pub enum TlsError {
    /// Network connection errors
    ConnectionFailed { host: String, port: u16, source: String },
    /// Connection timed out
    ConnectionTimeout { host: String, port: u16 },
    /// DNS resolution failed
    DnsResolution { host: String },
    /// Connection refused by server
    ConnectionRefused { host: String, port: u16 },
    /// Invalid server name format
    InvalidServerName { name: String },
    /// TLS handshake failed
    HandshakeFailed { reason: String },
    /// No server certificate received
    NoCertificateReceived { host: String },
    /// Empty certificate chain
    EmptyCertificateChain,
    /// Certificate parsing failed
    CertificateParsing,
    /// Failed to add certificate to trust store
    CertificateStoreError { reason: String },
    /// Failed to extract secrets from TLS connection
    SecretExtraction { reason: String },
    /// JSON serialization error
    JsonSerialization(String),
    /// IO error (file operations, socket operations)
    Io(String),
    /// System time error
    SystemTime(String),
    /// Crypto provider initialization failed
    CryptoProviderInit,
    /// Generic TLS protocol error
    TlsProtocol(String),
    /// URL parsing error
    UrlParse(String),
    /// Any other error
    Other(String),
}

/// The message of an error, as its `Display` shows it.
pub open spec fn error_message(e: TlsError) -> Seq<char> {
    match e {
        TlsError::ConnectionFailed { host, port, source } => "Failed to connect to "@ + host@ + ":"@
            + decimal(port as nat) + ": "@ + source@,
        TlsError::ConnectionTimeout { host, port } => "Connection to "@ + host@ + ":"@ + decimal(
            port as nat,
        ) + " timed out"@,
        TlsError::DnsResolution { host } => "Failed to resolve hostname: "@ + host@,
        TlsError::ConnectionRefused { host, port } => "Connection refused by "@ + host@ + ":"@
            + decimal(port as nat),
        TlsError::InvalidServerName { name } => "Invalid server name format: "@ + name@,
        TlsError::HandshakeFailed { reason } => "TLS handshake failed: "@ + reason@,
        TlsError::NoCertificateReceived { host } => "No server certificate received from "@
            + host@,
        TlsError::EmptyCertificateChain => "Server returned an empty certificate chain"@,
        TlsError::CertificateParsing => "Failed to parse X.509 certificate"@,
        TlsError::CertificateStoreError { reason } => "Failed to add certificate to trust store: "@
            + reason@,
        TlsError::SecretExtraction { reason } => "Failed to extract traffic secrets: "@ + reason@,
        TlsError::JsonSerialization(s) => "Failed to serialize to JSON: "@ + s@,
        TlsError::Io(s) => "IO error: "@ + s@,
        TlsError::SystemTime(s) => "System time error: "@ + s@,
        TlsError::CryptoProviderInit => "Failed to initialize rustls crypto provider"@,
        TlsError::TlsProtocol(s) => "TLS protocol error: "@ + s@,
        TlsError::UrlParse(s) => "Invalid URL: "@ + s@,
        TlsError::Other(s) => "Internal error: "@ + s@,
    }
}

/// `e` is the catch-all error with text `s`.
pub open spec fn is_other(e: TlsError, s: Seq<char>) -> bool {
    e matches TlsError::Other(t) && t@ == s
}

/// A string of three parts.
fn join3(a: &str, b: &str, c: &str) -> (r: String)
    ensures
        r@ == a@ + b@ + c@,
{
    let mut s = owned(a);
    push_str(&mut s, b);
    push_str(&mut s, c);
    s
}

/// A string of two parts.
fn join2(a: &str, b: &str) -> (r: String)
    ensures
        r@ == a@ + b@,
{
    let mut s = owned(a);
    push_str(&mut s, b);
    s
}

/// `prefix`, `host`, `:`, `port`, then `suffix`.
fn host_port(prefix: &str, host: &str, port: u16, suffix: &str) -> (r: String)
    ensures
        r@ == prefix@ + host@ + ":"@ + decimal(port as nat) + suffix@,
{
    let mut s = join3(prefix, host, ":");
    push_decimal(&mut s, port as u64);
    push_str(&mut s, suffix);
    assert(s@ =~= prefix@ + host@ + ":"@ + decimal(port as nat) + suffix@);
    s
}

impl TlsError {
    /// The message of this error, as its `Display` shows it.
    pub fn message(&self) -> (r: String)
        ensures
            r@ == error_message(*self),
    {
        match self {
            TlsError::ConnectionFailed { host, port, source } => {
                let mut s = host_port("Failed to connect to ", host.as_str(), *port, ": ");
                push_str(&mut s, source.as_str());
                assert(s@ =~= error_message(*self));
                s
            },
            TlsError::ConnectionTimeout { host, port } => host_port(
                "Connection to ",
                host.as_str(),
                *port,
                " timed out",
            ),
            TlsError::DnsResolution { host } => join2("Failed to resolve hostname: ", host.as_str()),
            TlsError::ConnectionRefused { host, port } => {
                let s = host_port("Connection refused by ", host.as_str(), *port, "");
                assert(s@ =~= error_message(*self)) by {
                    reveal_strlit("");
                }
                s
            },
            TlsError::InvalidServerName { name } => join2("Invalid server name format: ", name.as_str()),
            TlsError::HandshakeFailed { reason } => join2("TLS handshake failed: ", reason.as_str()),
            TlsError::NoCertificateReceived { host } => join2("No server certificate received from ", host.as_str()),
            TlsError::EmptyCertificateChain => owned("Server returned an empty certificate chain"),
            TlsError::CertificateParsing => owned("Failed to parse X.509 certificate"),
            TlsError::CertificateStoreError { reason } => join2("Failed to add certificate to trust store: ", reason.as_str()),
            TlsError::SecretExtraction { reason } => join2("Failed to extract traffic secrets: ", reason.as_str()),
            TlsError::JsonSerialization(s) => join2("Failed to serialize to JSON: ", s.as_str()),
            TlsError::Io(s) => join2("IO error: ", s.as_str()),
            TlsError::SystemTime(s) => join2("System time error: ", s.as_str()),
            TlsError::CryptoProviderInit => owned("Failed to initialize rustls crypto provider"),
            TlsError::TlsProtocol(s) => join2("TLS protocol error: ", s.as_str()),
            TlsError::UrlParse(s) => join2("Invalid URL: ", s.as_str()),
            TlsError::Other(s) => join2("Internal error: ", s.as_str()),
        }
    }
}

} // verus!
