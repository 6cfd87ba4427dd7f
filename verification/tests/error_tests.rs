//! Error messages.

use tls_outputter::error::TlsError;

#[test]
fn test_connection_failed_error() {
    let err = TlsError::ConnectionFailed {
        host: "example.com".to_string(),
        port: 443,
        source: "connection refused".to_string(),
    };
    assert!(err.message().contains("example.com"));
    assert!(err.message().contains("443"));
}

#[test]
fn test_invalid_server_name_error() {
    let err = TlsError::InvalidServerName {
        name: "invalid..name".to_string(),
    };
    assert!(err.message().contains("Invalid server name"));
}

#[test]
fn test_no_certificate_error() {
    let err = TlsError::NoCertificateReceived {
        host: "example.com".to_string(),
    };
    assert!(err.message().contains("No server certificate"));
}

#[test]
fn test_error_chain_display() {
    let io_err = "timeout".to_string();
    let err = TlsError::ConnectionFailed {
        host: "slow.example.com".to_string(),
        port: 443,
        source: io_err,
    };
    let msg = err.message();
    assert!(msg.contains("slow.example.com"));
    assert!(msg.contains("443"));
}

#[test]
fn connection_failed_message_is_exact() {
    let err = TlsError::ConnectionFailed {
        host: "example.com".to_string(),
        port: 443,
        source: "connection refused".to_string(),
    };
    assert_eq!(
        err.message(),
        "Failed to connect to example.com:443: connection refused"
    );
}

#[test]
fn other_messages_are_exact() {
    assert_eq!(
        TlsError::ConnectionTimeout { host: "a.b".to_string(), port: 8443 }.message(),
        "Connection to a.b:8443 timed out"
    );
    assert_eq!(
        TlsError::ConnectionRefused { host: "h".to_string(), port: 0 }.message(),
        "Connection refused by h:0"
    );
    assert_eq!(
        TlsError::EmptyCertificateChain.message(),
        "Server returned an empty certificate chain"
    );
    assert_eq!(
        TlsError::CertificateParsing.message(),
        "Failed to parse X.509 certificate"
    );
    assert_eq!(
        TlsError::Other("boom".to_string()).message(),
        "Internal error: boom"
    );
    assert_eq!(
        TlsError::SecretExtraction { reason: "r".to_string() }.message(),
        "Failed to extract traffic secrets: r"
    );
}
