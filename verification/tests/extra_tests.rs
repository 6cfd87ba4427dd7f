//! Behaviour on concrete inputs: recording and decrypting records, the
//! certificate of a real server, rendering and the command line.

use tls_outputter::cli::{
    comparison_file_name, parse_args, report_file_name, url_target, url_target_from,
};
use tls_outputter::error::TlsError;
use tls_outputter::summary::{
    certificate_role, generate_cert_summary, handshake_stats, is_self_signed, key_bits_label,
    resumption_label, truncate,
};
use tls_outputter::text::{bytes_to_hex, bytes_to_hex_colon};
use tls_outputter::tls::certificates::{
    extract_extensions, extract_key_info, extract_san, get_extension_name, parse_certificate_chain,
    parse_x509_cert, RawExtension, SanEntry,
};
use tls_outputter::tls::encryption::{
    build_encryption_negotiation, build_extracted_secrets_info, extract_suite_code,
};
use tls_outputter::tls::fields::{FieldMap, FieldValue};
use tls_outputter::tls::handshake::{parse_handshake_fields, parse_new_session_ticket};
use tls_outputter::tls::http::{build_http_exchange, calculate_encrypted_size};
use tls_outputter::tls::pqc::{build_post_quantum_analysis, check_x25519_mlkem768_negotiated};
use tls_outputter::tls::session::build_session_ticket_info;
use tls_outputter::tls::stream::{decrypt_aead_record, TrackedStream};
use tls_outputter::tls::types::{
    AeadDetails, CertificateInfo, ExtractedSecrets, HandshakeMessage, TrafficCipher, TrafficSecret,
};
use tls_outputter::tls::{
    build_handshake_flow, build_http_request, build_report, extract_randoms_from_messages,
    get_cipher_suite, get_key_share_info, get_tls_version,
};

/// The DER of a Let's Encrypt leaf certificate for `lists.for-our.info`.
const CERT_DER: [u8; 1375] = [
    0x30, 0x82, 0x05, 0x5b, 0x30, 0x82, 0x04, 0x43, 0xa0, 0x03, 0x02, 0x01, 0x02, 0x02, 0x12, 0x03,
    0x20, 0x48, 0x03, 0x0b, 0xbb, 0x34, 0x10, 0xf9, 0x09, 0x3c, 0x57, 0xf2, 0xcb, 0x83, 0x08, 0xc8,
    0x05, 0x30, 0x0d, 0x06, 0x09, 0x2a, 0x86, 0x48, 0x86, 0xf7, 0x0d, 0x01, 0x01, 0x0b, 0x05, 0x00,
    0x30, 0x4a, 0x31, 0x0b, 0x30, 0x09, 0x06, 0x03, 0x55, 0x04, 0x06, 0x13, 0x02, 0x55, 0x53, 0x31,
    0x16, 0x30, 0x14, 0x06, 0x03, 0x55, 0x04, 0x0a, 0x13, 0x0d, 0x4c, 0x65, 0x74, 0x27, 0x73, 0x20,
    0x45, 0x6e, 0x63, 0x72, 0x79, 0x70, 0x74, 0x31, 0x23, 0x30, 0x21, 0x06, 0x03, 0x55, 0x04, 0x03,
    0x13, 0x1a, 0x4c, 0x65, 0x74, 0x27, 0x73, 0x20, 0x45, 0x6e, 0x63, 0x72, 0x79, 0x70, 0x74, 0x20,
    0x41, 0x75, 0x74, 0x68, 0x6f, 0x72, 0x69, 0x74, 0x79, 0x20, 0x58, 0x33, 0x30, 0x1e, 0x17, 0x0d,
    0x31, 0x39, 0x30, 0x37, 0x31, 0x32, 0x31, 0x31, 0x31, 0x32, 0x33, 0x30, 0x5a, 0x17, 0x0d, 0x31,
    0x39, 0x31, 0x30, 0x31, 0x30, 0x31, 0x31, 0x31, 0x32, 0x33, 0x30, 0x5a, 0x30, 0x1d, 0x31, 0x1b,
    0x30, 0x19, 0x06, 0x03, 0x55, 0x04, 0x03, 0x13, 0x12, 0x6c, 0x69, 0x73, 0x74, 0x73, 0x2e, 0x66,
    0x6f, 0x72, 0x2d, 0x6f, 0x75, 0x72, 0x2e, 0x69, 0x6e, 0x66, 0x6f, 0x30, 0x82, 0x01, 0x22, 0x30,
    0x0d, 0x06, 0x09, 0x2a, 0x86, 0x48, 0x86, 0xf7, 0x0d, 0x01, 0x01, 0x01, 0x05, 0x00, 0x03, 0x82,
    0x01, 0x0f, 0x00, 0x30, 0x82, 0x01, 0x0a, 0x02, 0x82, 0x01, 0x01, 0x00, 0xc5, 0x68, 0xb6, 0x2d,
    0xf8, 0x5f, 0x8e, 0x83, 0x68, 0x8d, 0xa7, 0x5f, 0x6e, 0x02, 0xf9, 0xa6, 0x76, 0x39, 0xf9, 0x26,
    0x84, 0xa6, 0xe2, 0x76, 0x25, 0xe2, 0x45, 0x3a, 0x27, 0xd4, 0xc2, 0xd2, 0x30, 0x69, 0x75, 0xa0,
    0xd5, 0xbd, 0x33, 0x24, 0x72, 0x61, 0x80, 0xb3, 0x3f, 0x88, 0xfa, 0x0c, 0xd2, 0x82, 0x84, 0x99,
    0xeb, 0xf1, 0x99, 0xd5, 0x4a, 0x18, 0x76, 0xa1, 0x90, 0xfe, 0xc8, 0x75, 0x8f, 0xf6, 0x5a, 0x67,
    0x5c, 0xc1, 0xa4, 0x6e, 0xc5, 0x31, 0x7a, 0x34, 0x4c, 0x53, 0xd8, 0x67, 0x68, 0x00, 0x79, 0xd2,
    0x95, 0xd1, 0x20, 0x30, 0x33, 0x6a, 0xf9, 0x15, 0x14, 0x28, 0x2e, 0x16, 0x52, 0x7c, 0x9c, 0xa9,
    0x2f, 0xfd, 0x8d, 0x40, 0xbe, 0x5c, 0x3b, 0xb5, 0xcd, 0x9a, 0x64, 0xe7, 0x77, 0x94, 0xe6, 0x41,
    0x12, 0xbf, 0x20, 0x27, 0xc9, 0x91, 0x0c, 0x6a, 0xaa, 0xb0, 0xd5, 0x3e, 0x67, 0x5d, 0x88, 0xea,
    0xc9, 0x44, 0xb2, 0xdc, 0xc6, 0x32, 0x9b, 0x2a, 0xe8, 0x07, 0xb0, 0x09, 0x5c, 0x38, 0x94, 0xc8,
    0xdd, 0x59, 0x68, 0x2e, 0x83, 0x35, 0x2b, 0xc5, 0x04, 0xd1, 0x02, 0xc1, 0xbc, 0xee, 0x89, 0xfa,
    0x80, 0xe8, 0x90, 0x1f, 0x67, 0x0c, 0x38, 0x33, 0x77, 0x2f, 0xb1, 0x6a, 0xe0, 0xa3, 0x8b, 0x40,
    0x88, 0xdb, 0xdf, 0xf9, 0x6e, 0x42, 0x10, 0x10, 0x86, 0x97, 0x4a, 0x98, 0x41, 0x85, 0x2e, 0x29,
    0xf7, 0x73, 0xe7, 0xf9, 0xa2, 0xbd, 0xed, 0x84, 0x20, 0xee, 0xc3, 0x00, 0xed, 0x39, 0x4d, 0x65,
    0x65, 0xff, 0xbc, 0xb7, 0xd4, 0xbc, 0xa5, 0x93, 0xcb, 0xad, 0x9a, 0xc8, 0xb3, 0xa1, 0xf6, 0xc6,
    0x35, 0xea, 0x09, 0x1b, 0x94, 0x63, 0xb8, 0x91, 0x35, 0xb3, 0xb5, 0xf1, 0x49, 0x1c, 0xea, 0xb9,
    0x43, 0x62, 0x10, 0x63, 0xf4, 0xb4, 0xfe, 0x72, 0x99, 0x81, 0x6c, 0x71, 0x02, 0x03, 0x01, 0x00,
    0x01, 0xa3, 0x82, 0x02, 0x66, 0x30, 0x82, 0x02, 0x62, 0x30, 0x0e, 0x06, 0x03, 0x55, 0x1d, 0x0f,
    0x01, 0x01, 0xff, 0x04, 0x04, 0x03, 0x02, 0x05, 0xa0, 0x30, 0x1d, 0x06, 0x03, 0x55, 0x1d, 0x25,
    0x04, 0x16, 0x30, 0x14, 0x06, 0x08, 0x2b, 0x06, 0x01, 0x05, 0x05, 0x07, 0x03, 0x01, 0x06, 0x08,
    0x2b, 0x06, 0x01, 0x05, 0x05, 0x07, 0x03, 0x02, 0x30, 0x0c, 0x06, 0x03, 0x55, 0x1d, 0x13, 0x01,
    0x01, 0xff, 0x04, 0x02, 0x30, 0x00, 0x30, 0x1d, 0x06, 0x03, 0x55, 0x1d, 0x0e, 0x04, 0x16, 0x04,
    0x14, 0x26, 0x3d, 0xa9, 0xbd, 0x1b, 0x65, 0xdc, 0x69, 0x68, 0x1f, 0x71, 0xde, 0xe8, 0x55, 0xf5,
    0x76, 0xcd, 0xd7, 0xd1, 0x51, 0x30, 0x1f, 0x06, 0x03, 0x55, 0x1d, 0x23, 0x04, 0x18, 0x30, 0x16,
    0x80, 0x14, 0xa8, 0x4a, 0x6a, 0x63, 0x04, 0x7d, 0xdd, 0xba, 0xe6, 0xd1, 0x39, 0xb7, 0xa6, 0x45,
    0x65, 0xef, 0xf3, 0xa8, 0xec, 0xa1, 0x30, 0x6f, 0x06, 0x08, 0x2b, 0x06, 0x01, 0x05, 0x05, 0x07,
    0x01, 0x01, 0x04, 0x63, 0x30, 0x61, 0x30, 0x2e, 0x06, 0x08, 0x2b, 0x06, 0x01, 0x05, 0x05, 0x07,
    0x30, 0x01, 0x86, 0x22, 0x68, 0x74, 0x74, 0x70, 0x3a, 0x2f, 0x2f, 0x6f, 0x63, 0x73, 0x70, 0x2e,
    0x69, 0x6e, 0x74, 0x2d, 0x78, 0x33, 0x2e, 0x6c, 0x65, 0x74, 0x73, 0x65, 0x6e, 0x63, 0x72, 0x79,
    0x70, 0x74, 0x2e, 0x6f, 0x72, 0x67, 0x30, 0x2f, 0x06, 0x08, 0x2b, 0x06, 0x01, 0x05, 0x05, 0x07,
    0x30, 0x02, 0x86, 0x23, 0x68, 0x74, 0x74, 0x70, 0x3a, 0x2f, 0x2f, 0x63, 0x65, 0x72, 0x74, 0x2e,
    0x69, 0x6e, 0x74, 0x2d, 0x78, 0x33, 0x2e, 0x6c, 0x65, 0x74, 0x73, 0x65, 0x6e, 0x63, 0x72, 0x79,
    0x70, 0x74, 0x2e, 0x6f, 0x72, 0x67, 0x2f, 0x30, 0x1d, 0x06, 0x03, 0x55, 0x1d, 0x11, 0x04, 0x16,
    0x30, 0x14, 0x82, 0x12, 0x6c, 0x69, 0x73, 0x74, 0x73, 0x2e, 0x66, 0x6f, 0x72, 0x2d, 0x6f, 0x75,
    0x72, 0x2e, 0x69, 0x6e, 0x66, 0x6f, 0x30, 0x4c, 0x06, 0x03, 0x55, 0x1d, 0x20, 0x04, 0x45, 0x30,
    0x43, 0x30, 0x08, 0x06, 0x06, 0x67, 0x81, 0x0c, 0x01, 0x02, 0x01, 0x30, 0x37, 0x06, 0x0b, 0x2b,
    0x06, 0x01, 0x04, 0x01, 0x82, 0xdf, 0x13, 0x01, 0x01, 0x01, 0x30, 0x28, 0x30, 0x26, 0x06, 0x08,
    0x2b, 0x06, 0x01, 0x05, 0x05, 0x07, 0x02, 0x01, 0x16, 0x1a, 0x68, 0x74, 0x74, 0x70, 0x3a, 0x2f,
    0x2f, 0x63, 0x70, 0x73, 0x2e, 0x6c, 0x65, 0x74, 0x73, 0x65, 0x6e, 0x63, 0x72, 0x79, 0x70, 0x74,
    0x2e, 0x6f, 0x72, 0x67, 0x30, 0x82, 0x01, 0x03, 0x06, 0x0a, 0x2b, 0x06, 0x01, 0x04, 0x01, 0xd6,
    0x79, 0x02, 0x04, 0x02, 0x04, 0x81, 0xf4, 0x04, 0x81, 0xf1, 0x00, 0xef, 0x00, 0x76, 0x00, 0x29,
    0x3c, 0x51, 0x96, 0x54, 0xc8, 0x39, 0x65, 0xba, 0xaa, 0x50, 0xfc, 0x58, 0x07, 0xd4, 0xb7, 0x6f,
    0xbf, 0x58, 0x7a, 0x29, 0x72, 0xdc, 0xa4, 0xc3, 0x0c, 0xf4, 0xe5, 0x45, 0x47, 0xf4, 0x78, 0x00,
    0x00, 0x01, 0x6b, 0xe6, 0x19, 0x5e, 0xf2, 0x00, 0x00, 0x04, 0x03, 0x00, 0x47, 0x30, 0x45, 0x02,
    0x20, 0x24, 0x0b, 0xd9, 0x29, 0xb5, 0xe1, 0xa0, 0x8c, 0x2f, 0x15, 0xfd, 0x6b, 0xd4, 0x5b, 0xc9,
    0x28, 0x32, 0x05, 0xf8, 0x9c, 0x84, 0xc4, 0x5d, 0x6e, 0xee, 0x90, 0x03, 0x63, 0x1b, 0xae, 0x5e,
    0x1e, 0x02, 0x21, 0x00, 0xd6, 0xf8, 0x09, 0xee, 0xc9, 0xea, 0x51, 0x60, 0xa0, 0xa2, 0xa1, 0x04,
    0xdd, 0x21, 0x1f, 0x2b, 0x78, 0xa8, 0x32, 0x8a, 0x73, 0x58, 0x1b, 0x0f, 0xbc, 0x6e, 0x8b, 0x74,
    0x2b, 0x82, 0x31, 0x10, 0x00, 0x75, 0x00, 0x6f, 0x53, 0x76, 0xac, 0x31, 0xf0, 0x31, 0x19, 0xd8,
    0x99, 0x00, 0xa4, 0x51, 0x15, 0xff, 0x77, 0x15, 0x1c, 0x11, 0xd9, 0x02, 0xc1, 0x00, 0x29, 0x06,
    0x8d, 0xb2, 0x08, 0x9a, 0x37, 0xd9, 0x13, 0x00, 0x00, 0x01, 0x6b, 0xe6, 0x19, 0x5f, 0x68, 0x00,
    0x00, 0x04, 0x03, 0x00, 0x46, 0x30, 0x44, 0x02, 0x20, 0x4c, 0x46, 0xab, 0x0d, 0xcb, 0xa3, 0x49,
    0xd2, 0x0b, 0x25, 0x2e, 0x4d, 0x17, 0xfd, 0xd8, 0x58, 0x06, 0x01, 0x2c, 0x16, 0x62, 0x38, 0xb9,
    0x50, 0x69, 0xd7, 0xb9, 0x89, 0xe9, 0x26, 0xb0, 0x2f, 0x02, 0x20, 0x70, 0xf0, 0x05, 0x95, 0x6a,
    0x0f, 0x1f, 0xcd, 0x9e, 0x28, 0x80, 0x08, 0x58, 0xf4, 0x41, 0x51, 0x35, 0xd2, 0xeb, 0x51, 0xc0,
    0x63, 0x4a, 0xd8, 0xa9, 0x2f, 0xcf, 0x3c, 0xbf, 0x2b, 0xb1, 0x2b, 0x30, 0x0d, 0x06, 0x09, 0x2a,
    0x86, 0x48, 0x86, 0xf7, 0x0d, 0x01, 0x01, 0x0b, 0x05, 0x00, 0x03, 0x82, 0x01, 0x01, 0x00, 0x17,
    0xc0, 0x41, 0x2c, 0x3b, 0xd2, 0x59, 0x98, 0x39, 0xec, 0x1e, 0x9a, 0x0e, 0xdc, 0xdf, 0x51, 0x34,
    0x86, 0x7a, 0xd0, 0x98, 0xb3, 0x79, 0x34, 0xbc, 0x9a, 0x82, 0x26, 0x52, 0xfe, 0x3f, 0x3e, 0xff,
    0x52, 0xbb, 0x82, 0x4a, 0xca, 0x23, 0x43, 0x3a, 0x79, 0x47, 0xa8, 0xef, 0xbe, 0x06, 0x10, 0xf3,
    0x73, 0x1a, 0x21, 0xdc, 0x1e, 0xda, 0x68, 0x2d, 0xf8, 0xe0, 0x90, 0x07, 0x9b, 0xfb, 0xca, 0x57,
    0x2d, 0xc8, 0x1c, 0xc1, 0x99, 0x82, 0x30, 0xf6, 0x73, 0xe7, 0xc4, 0x40, 0xbb, 0x1e, 0x57, 0x09,
    0x2f, 0x62, 0xbf, 0x93, 0x96, 0x63, 0x24, 0x54, 0x67, 0xbf, 0x89, 0x15, 0xd5, 0x28, 0xbc, 0xf9,
    0x32, 0x29, 0x10, 0x05, 0x74, 0x92, 0xc7, 0xf7, 0xf4, 0xa1, 0x8a, 0x7a, 0x61, 0xbc, 0x90, 0x68,
    0xb8, 0x19, 0x75, 0x75, 0xbf, 0x4d, 0xf3, 0x4a, 0xfd, 0x29, 0xf1, 0xa0, 0x9a, 0xae, 0x9b, 0xa8,
    0x48, 0xa0, 0x49, 0xe2, 0xa9, 0x41, 0xd0, 0x2b, 0xe6, 0x4b, 0x63, 0x2a, 0x57, 0x82, 0xa7, 0xcc,
    0xed, 0x0e, 0xda, 0x1d, 0x1c, 0xfd, 0x94, 0x38, 0x8e, 0x0e, 0xe5, 0xe7, 0x77, 0xa2, 0x37, 0xb5,
    0x4f, 0x75, 0x13, 0x0c, 0x3b, 0x50, 0xd1, 0xc3, 0xe3, 0x1a, 0x5b, 0xa2, 0x3f, 0x84, 0x46, 0x69,
    0xfa, 0x86, 0x50, 0xee, 0x18, 0x4a, 0x5e, 0x02, 0x94, 0x06, 0xf1, 0x78, 0x20, 0x6c, 0x32, 0xad,
    0xfc, 0x88, 0x67, 0xc0, 0x1e, 0x58, 0xa1, 0xb8, 0x20, 0xff, 0x7c, 0x08, 0xe8, 0x32, 0x45, 0xbc,
    0xfb, 0xaa, 0xda, 0xc0, 0x55, 0xeb, 0xd1, 0x28, 0x23, 0x34, 0x64, 0x2d, 0xad, 0xd3, 0x80, 0x36,
    0x15, 0xc8, 0xb1, 0xe3, 0x41, 0x4a, 0x11, 0xe8, 0x84, 0xd3, 0xdd, 0xc0, 0x8f, 0x77, 0x30, 0x78,
    0xc6, 0x31, 0x34, 0xb3, 0xe0, 0xc2, 0x04, 0x0f, 0xf1, 0x7b, 0xb7, 0x90, 0x0e, 0x50, 0x13,
];


fn tls_record(content_type: u8, payload: &[u8]) -> Vec<u8> {
    let len: usize = payload.len();
    let mut r: Vec<u8> = vec![content_type, 3, 3, (len >> 8) as u8, (len & 0xff) as u8];
    r.extend_from_slice(payload);
    r
}

fn handshake_message(msg_type: u8, body: &[u8]) -> Vec<u8> {
    let len: usize = body.len();
    let mut m: Vec<u8> = vec![msg_type, (len >> 16) as u8, (len >> 8) as u8, (len & 0xff) as u8];
    m.extend_from_slice(body);
    m
}

fn client_hello_body() -> Vec<u8> {
    let mut b: Vec<u8> = vec![3, 3];
    b.extend_from_slice(&[0x11u8; 32]);
    b.push(0);
    b.extend_from_slice(&[0, 4]);
    b
}

fn server_hello_body() -> Vec<u8> {
    let mut b: Vec<u8> = vec![3, 3];
    b.extend_from_slice(&[0x22u8; 32]);
    b.push(0);
    b.extend_from_slice(&[0x13, 0x02]);
    b.push(0);
    b
}

/// The bytes a client writes: a ClientHello record.
fn client_flight() -> Vec<u8> {
    tls_record(22, &handshake_message(1, &client_hello_body()))
}

/// The bytes a server writes: ServerHello, ChangeCipherSpec and one
/// application-data record.
fn server_flight() -> Vec<u8> {
    let mut d: Vec<u8> = tls_record(22, &handshake_message(2, &server_hello_body()));
    d.extend_from_slice(&tls_record(20, &[1]));
    d.extend_from_slice(&tls_record(23, &[0xaa, 0xbb, 0xcc, 0xdd, 0xee]));
    d
}

fn summary_of(ms: &[HandshakeMessage]) -> Vec<(usize, String, String, usize, bool)> {
    ms.iter()
        .map(|m| (m.sequence, m.direction.clone(), m.message_type.clone(), m.size, m.inferred))
        .collect()
}

fn text_field(f: &FieldMap, key: &str) -> String {
    match f.get(key) {
        Some(FieldValue::Text(t)) => t.clone(),
        _ => panic!("no text field {}", key),
    }
}

fn number_field(f: &FieldMap, key: &str) -> u64 {
    f.get(key).and_then(|v| v.as_u64()).expect("number field")
}

fn seal(alg: &'static ring::aead::Algorithm, key: &[u8], iv: [u8; 12], seq: u64, plaintext: &[u8]) -> Vec<u8> {
    let mut nonce: [u8; 12] = iv;
    let s: [u8; 8] = seq.to_be_bytes();
    for i in 0..8 {
        nonce[4 + i] ^= s[i];
    }
    let k = ring::aead::LessSafeKey::new(ring::aead::UnboundKey::new(alg, key).unwrap());
    let mut in_out: Vec<u8> = plaintext.to_vec();
    k.seal_in_place_append_tag(
        ring::aead::Nonce::assume_unique_for_key(nonce),
        ring::aead::Aad::empty(),
        &mut in_out,
    )
    .unwrap();
    in_out
}

fn secret(cipher: TrafficCipher, key: Vec<u8>, iv: [u8; 12]) -> TrafficSecret {
    TrafficSecret { cipher, key, iv }
}

fn message(sequence: usize, direction: &str, kind: &str, size: usize) -> HandshakeMessage {
    HandshakeMessage {
        sequence,
        direction: direction.to_string(),
        message_type: kind.to_string(),
        size,
        description: String::new(),
        fields: None,
        inferred: false,
    }
}

fn cert_with(subject: &str, issuer: &str, key_size: Option<usize>, sans: Vec<String>) -> CertificateInfo {
    CertificateInfo {
        subject: subject.to_string(),
        issuer: issuer.to_string(),
        not_before: String::new(),
        not_after: String::new(),
        serial_number: String::new(),
        fingerprint_sha256: String::new(),
        key_type: "RSA".to_string(),
        key_size,
        subject_alt_names: sans,
        extensions: Vec::new(),
    }
}

// ---------------------------------------------------------------- recording

#[test]
fn recorder_decodes_hellos_and_change_cipher_spec() {
    let mut t = TrackedStream::new();
    t.extract_tls_messages(&client_flight(), true);
    t.extract_tls_messages(&server_flight(), false);
    assert_eq!(t.post_handshake_encrypted_records(), 1);
    let ms = t.extract_messages();
    assert_eq!(ms.len(), 3 + 4);
    assert_eq!(ms[0].message_type, "ClientHello");
    assert_eq!(ms[0].direction, "Client → Server");
    assert_eq!(ms[0].size, 41);
    let ch = ms[0].fields.as_ref().unwrap();
    assert_eq!(text_field(ch, "client_version"), "0x0303");
    assert_eq!(text_field(ch, "random"), "11".repeat(32));
    assert_eq!(number_field(ch, "session_id_length"), 0);
    assert_eq!(number_field(ch, "cipher_suites_count"), 2);
    assert_eq!(ms[1].message_type, "ServerHello");
    assert_eq!(ms[1].direction, "Server → Client");
    let sh = ms[1].fields.as_ref().unwrap();
    assert_eq!(text_field(sh, "server_version"), "0x0303");
    assert_eq!(text_field(sh, "selected_cipher_suite"), "0x1302");
    assert_eq!(number_field(sh, "compression_method"), 0);
    assert_eq!(ms[2].message_type, "ChangeCipherSpec");
    assert_eq!(ms[2].size, 1);
    assert!(ms[2].fields.is_none());
    let inferred: Vec<&str> = ms[3..].iter().map(|m| m.message_type.as_str()).collect();
    assert_eq!(inferred, vec!["EncryptedExtensions", "Certificate", "CertificateVerify", "Finished"]);
    for (i, m) in ms.iter().enumerate() {
        assert_eq!(m.sequence, i);
    }
    assert!(ms[3..].iter().all(|m| m.inferred && m.direction == "Server → Client" && m.size == 0));
    let f = ms[3].fields.as_ref().unwrap();
    assert!(matches!(f.get("encrypted"), Some(FieldValue::Flag(true))));
    assert_eq!(text_field(f, "note"), "EncryptedExtensions sent encrypted (TLS 1.3)");
}

#[test]
fn recorder_infers_client_finished_when_both_sides_encrypt() {
    let mut t = TrackedStream::new();
    t.extract_tls_messages(&client_flight(), true);
    t.extract_tls_messages(&server_flight(), false);
    t.extract_tls_messages(&tls_record(23, &[1, 2, 3]), true);
    let ms = t.extract_messages();
    assert_eq!(ms.len(), 8);
    let last = &ms[7];
    assert_eq!(last.message_type, "Finished");
    assert_eq!(last.direction, "Client → Server");
    assert!(last.inferred);
    assert_eq!(last.sequence, 7);
    assert_eq!(
        text_field(last.fields.as_ref().unwrap(), "note"),
        "MAC of all handshake messages (TLS 1.3)"
    );
}

#[test]
fn recorder_without_encrypted_traffic_infers_nothing() {
    let mut t = TrackedStream::new();
    t.extract_tls_messages(&client_flight(), true);
    assert_eq!(t.post_handshake_encrypted_records(), 0);
    let ms = t.extract_messages();
    assert_eq!(ms.len(), 1);
    assert!(!ms[0].inferred);
}

#[test]
fn recorder_ignores_a_record_cut_short() {
    let mut t = TrackedStream::new();
    let full = client_flight();
    t.extract_tls_messages(&full[..full.len() - 1], true);
    t.extract_tls_messages(&[22, 3, 3], true);
    assert_eq!(t.extract_messages().len(), 0);
}

#[test]
fn recorder_reads_several_messages_in_one_record() {
    let mut payload: Vec<u8> = handshake_message(2, &server_hello_body());
    payload.extend_from_slice(&handshake_message(11, &[9, 9]));
    payload.extend_from_slice(&handshake_message(12, &[0xab; 20]));
    let mut t = TrackedStream::new();
    t.extract_tls_messages(&tls_record(22, &payload), false);
    let ms = t.extract_messages();
    let kinds: Vec<&str> = ms.iter().map(|m| m.message_type.as_str()).collect();
    assert_eq!(kinds, vec!["ServerHello", "ClientKeyExchange", "Finished"]);
    assert_eq!(number_field(ms[1].fields.as_ref().unwrap(), "payload_length"), 2);
    let fin = ms[2].fields.as_ref().unwrap();
    assert_eq!(number_field(fin, "verification_data_length"), 20);
    assert_eq!(text_field(fin, "verification_data_preview"), format!("{}...", "ab".repeat(16)));
}

#[test]
fn recording_in_chunks_at_record_boundaries_changes_nothing() {
    let mut all: Vec<u8> = server_flight();
    all.extend_from_slice(&tls_record(22, &handshake_message(8, &[0, 0, 0])));
    let cut: usize = all.len() - 12;
    let mut whole = TrackedStream::new();
    whole.extract_tls_messages(&all, false);
    let mut parts = TrackedStream::new();
    parts.extract_tls_messages(&all[..cut], false);
    parts.extract_tls_messages(&all[cut..], false);
    assert_eq!(summary_of(&whole.extract_messages()), summary_of(&parts.extract_messages()));
}

#[test]
fn certificate_message_counts_entries() {
    let body: Vec<u8> = vec![0, 0, 10, 0, 0, 2, 0xaa, 0xbb, 0, 0, 2, 0xcc, 0xdd];
    let f = parse_handshake_fields(8, &body).unwrap();
    assert_eq!(number_field(&f, "certificate_chain_length"), 10);
    assert_eq!(number_field(&f, "certificate_count"), 2);
    assert!(parse_handshake_fields(8, &[0, 1]).is_none());
}

// ---------------------------------------------------------------- decryption

#[test]
fn aes_record_opens_under_its_sequence_number() {
    let key: Vec<u8> = vec![7u8; 32];
    let iv: [u8; 12] = [9u8; 12];
    let ct = seal(&ring::aead::AES_256_GCM, &key, iv, 3, b"hello");
    assert_eq!(ct.len(), 5 + 16);
    let p = decrypt_aead_record(&ct, &key, &iv, 3, true).unwrap();
    assert_eq!(p, b"hello".to_vec());
    match decrypt_aead_record(&ct, &key, &iv, 4, true) {
        Err(TlsError::Other(m)) => assert_eq!(m, "AEAD decryption failed"),
        other => panic!("unexpected {:?}", other),
    }
}

#[test]
fn aes_128_and_chacha_records_open() {
    let iv: [u8; 12] = [1u8; 12];
    let k16: Vec<u8> = vec![5u8; 16];
    let ct = seal(&ring::aead::AES_128_GCM, &k16, iv, 0, b"abc");
    assert_eq!(decrypt_aead_record(&ct, &k16, &iv, 0, true).unwrap(), b"abc".to_vec());
    let k32: Vec<u8> = vec![6u8; 32];
    let ct = seal(&ring::aead::CHACHA20_POLY1305, &k32, iv, 0x0102030405060708, b"xyz");
    assert_eq!(
        decrypt_aead_record(&ct, &k32, &iv, 0x0102030405060708, false).unwrap(),
        b"xyz".to_vec()
    );
}

#[test]
fn record_decryption_errors() {
    let iv: [u8; 12] = [0u8; 12];
    match decrypt_aead_record(&[0u8; 15], &[0u8; 32], &iv, 0, true) {
        Err(TlsError::Other(m)) => assert_eq!(m, "Ciphertext too short for AEAD"),
        other => panic!("unexpected {:?}", other),
    }
    match decrypt_aead_record(&[0u8; 20], &[0u8; 20], &iv, 0, true) {
        Err(TlsError::Other(m)) => assert_eq!(m, "Invalid AES key size: 20"),
        other => panic!("unexpected {:?}", other),
    }
    match decrypt_aead_record(&[0u8; 20], &[0u8; 16], &iv, 0, false) {
        Err(TlsError::Other(m)) => assert_eq!(m, "Failed to create ChaCha20-Poly1305 key"),
        other => panic!("unexpected {:?}", other),
    }
}

#[test]
fn decrypted_server_records_yield_their_handshake_messages() {
    let rx_key: Vec<u8> = vec![3u8; 32];
    let rx_iv: [u8; 12] = [4u8; 12];
    let mut inner: Vec<u8> = handshake_message(4, &[0, 0, 0x1c, 0x20, 0, 0, 0, 0]);
    inner.push(22);
    let ct = seal(&ring::aead::AES_256_GCM, &rx_key, rx_iv, 0, &inner);
    let mut t = TrackedStream::new();
    t.extract_tls_messages(&tls_record(23, &ct), false);
    t.extract_tls_messages(&tls_record(23, &[0u8; 20]), true);
    let secrets = ExtractedSecrets {
        tx: (0, secret(TrafficCipher::Aes256Gcm, vec![8u8; 32], [0u8; 12])),
        rx: (0, secret(TrafficCipher::Aes256Gcm, rx_key, rx_iv)),
    };
    let (ms, dbg) = t.extract_messages_with_secrets(&secrets).unwrap();
    assert_eq!(dbg.total_encrypted_records_captured, 2);
    assert_eq!(dbg.encrypted_from_server, 1);
    assert_eq!(dbg.encrypted_from_client, 1);
    assert_eq!(dbg.successfully_decrypted, 1);
    assert_eq!(ms[0].message_type, "NewSessionTicket");
    assert_eq!(ms[0].direction, "Server → Client");
    assert_eq!(ms[0].size, 12);
    assert!(!ms[0].inferred);
    assert_eq!(ms.len(), 1 + 4 + 1);
    assert_eq!(ms[5].message_type, "Finished");
    assert_eq!(ms[5].direction, "Client → Server");
}

#[test]
fn server_records_before_the_secret_sequence_are_skipped() {
    let key: Vec<u8> = vec![3u8; 32];
    let iv: [u8; 12] = [4u8; 12];
    let ct = seal(&ring::aead::AES_256_GCM, &key, iv, 0, &[1, 2, 23]);
    let mut t = TrackedStream::new();
    t.extract_tls_messages(&tls_record(23, &ct), false);
    let secrets = ExtractedSecrets {
        tx: (0, secret(TrafficCipher::Aes256Gcm, vec![8u8; 32], [0u8; 12])),
        rx: (1, secret(TrafficCipher::Aes256Gcm, key, iv)),
    };
    let (_, dbg) = t.extract_messages_with_secrets(&secrets).unwrap();
    assert_eq!(dbg.successfully_decrypted, 0);
}

#[test]
fn extracted_secrets_are_rendered_in_hex() {
    let secrets = ExtractedSecrets {
        tx: (5, secret(TrafficCipher::Aes256Gcm, vec![0xab; 32], [1u8; 12])),
        rx: (7, secret(TrafficCipher::Chacha20Poly1305, vec![0x0f; 32], [0xff; 12])),
    };
    let info = build_extracted_secrets_info(&secrets).unwrap();
    assert_eq!(info.tx_secrets.sequence_number, 5);
    assert_eq!(info.tx_secrets.algorithm, "AES-256-GCM");
    assert_eq!(info.tx_secrets.key_hex, "ab".repeat(32));
    assert_eq!(info.tx_secrets.iv_hex, "01".repeat(12));
    assert_eq!(info.tx_secrets.key_size_bits, 256);
    assert_eq!(info.rx_secrets.sequence_number, 7);
    assert_eq!(info.rx_secrets.algorithm, "ChaCha20-Poly1305");
    assert_eq!(info.rx_secrets.key_hex, "0f".repeat(32));
    assert_eq!(info.rx_secrets.iv_hex, "ff".repeat(12));
    assert_eq!(info.decryption_capabilities.can_decrypt.len(), 3);
    assert_eq!(info.decryption_capabilities.cannot_decrypt.len(), 2);
    let aes128 = ExtractedSecrets {
        tx: (0, secret(TrafficCipher::Aes128Gcm, vec![0; 16], [0u8; 12])),
        rx: (0, secret(TrafficCipher::Aes128Gcm, vec![0; 16], [0u8; 12])),
    };
    assert_eq!(build_extracted_secrets_info(&aes128).unwrap().rx_secrets.key_size_bits, 128);
}

#[test]
fn unsupported_secrets_are_refused() {
    let tx_bad = ExtractedSecrets {
        tx: (0, secret(TrafficCipher::Unsupported, vec![], [0u8; 12])),
        rx: (0, secret(TrafficCipher::Unsupported, vec![], [0u8; 12])),
    };
    match build_extracted_secrets_info(&tx_bad) {
        Err(TlsError::SecretExtraction { reason }) => assert_eq!(reason, "Unknown TX secret variant"),
        other => panic!("unexpected {:?}", other),
    }
    let rx_bad = ExtractedSecrets {
        tx: (0, secret(TrafficCipher::Aes128Gcm, vec![0; 16], [0u8; 12])),
        rx: (0, secret(TrafficCipher::Unsupported, vec![], [0u8; 12])),
    };
    match build_extracted_secrets_info(&rx_bad) {
        Err(TlsError::SecretExtraction { reason }) => assert_eq!(reason, "Unknown RX secret variant"),
        other => panic!("unexpected {:?}", other),
    }
}

#[test]
fn new_session_ticket_is_decoded() {
    let data: Vec<u8> = vec![
        4, 0, 0, 0x1c, 0x20, 0, 0, 0, 5, 2, 0xaa, 0xbb, 0, 3, 1, 2, 3, 0, 0,
    ];
    let f = parse_new_session_ticket(&data).unwrap();
    assert_eq!(number_field(&f, "lifetime_seconds"), 7200);
    assert_eq!(number_field(&f, "age_add"), 5);
    assert_eq!(text_field(&f, "nonce_hex"), "aabb");
    assert_eq!(number_field(&f, "nonce_length"), 2);
    assert_eq!(text_field(&f, "ticket_hex"), "010203");
    assert_eq!(number_field(&f, "ticket_length"), 3);
    assert_eq!(number_field(&f, "extensions_length"), 0);
    assert_eq!(f.len(), 7);
    assert_eq!(parse_new_session_ticket(&data[..17]).unwrap().len(), 6);
    assert!(parse_new_session_ticket(&data[..9]).is_none());
    assert!(parse_new_session_ticket(&[4, 0, 0, 0, 0, 0, 0, 0, 0, 9, 1]).is_none());
    assert!(parse_new_session_ticket(&[4, 0, 0, 0, 0, 0, 0, 0, 0, 0, 0, 5, 1]).is_none());
}

// ---------------------------------------------------------------- certificates

#[test]
fn real_certificate_is_rendered() {
    let c = parse_x509_cert(&CERT_DER).unwrap();
    assert_eq!(c.subject, "CN=lists.for-our.info");
    assert_eq!(c.issuer, "C=US, O=Let's Encrypt, CN=Let's Encrypt Authority X3");
    assert_eq!(c.key_type, "RSA");
    assert_eq!(c.key_size, Some(2048));
    assert_eq!(c.subject_alt_names, vec!["lists.for-our.info".to_string()]);
    let digest = ring::digest::digest(&ring::digest::SHA256, &CERT_DER);
    let expected: Vec<String> = digest.as_ref().iter().map(|b| format!("{:02x}", b)).collect();
    assert_eq!(c.fingerprint_sha256, expected.join(":"));
    assert_eq!(c.fingerprint_sha256.len(), 95);
    assert!(c.extensions.iter().any(|e| e.name == "Subject Alternative Name" && e.oid == "2.5.29.17"));
    assert!(c.extensions.iter().any(|e| e.name == "Key Usage" && e.critical));
    for e in &c.extensions {
        assert_eq!(e.name, get_extension_name(&e.oid));
    }
    assert!(!c.not_before.is_empty());
    assert!(!c.not_after.is_empty());
    assert!(!c.serial_number.is_empty());
}

#[test]
fn chain_parses_certificate_by_certificate() {
    let chain = parse_certificate_chain(&[CERT_DER.to_vec(), CERT_DER.to_vec()]).unwrap();
    assert_eq!(chain.len(), 2);
    assert_eq!(chain[1].subject, "CN=lists.for-our.info");
    let mut broken: Vec<u8> = CERT_DER.to_vec();
    broken.truncate(100);
    assert!(matches!(
        parse_certificate_chain(&[CERT_DER.to_vec(), broken.clone()]),
        Err(TlsError::CertificateParsing)
    ));
    assert!(matches!(parse_x509_cert(&broken), Err(TlsError::CertificateParsing)));
    assert_eq!(parse_certificate_chain(&[]).unwrap().len(), 0);
}

#[test]
fn key_info_by_algorithm() {
    assert_eq!(extract_key_info("1.2.840.113549.1.1.1", 294), ("RSA".to_string(), Some(2048)));
    assert_eq!(extract_key_info("rsaEncryption", 30), ("RSA".to_string(), Some(240)));
    assert_eq!(extract_key_info("1.2.840.10045.2.1", 33), ("ECDSA".to_string(), Some(256)));
    assert_eq!(extract_key_info("1.2.840.10045.2.1", 49), ("ECDSA".to_string(), Some(384)));
    assert_eq!(extract_key_info("1.2.840.10045.2.1", 66), ("ECDSA".to_string(), Some(521)));
    assert_eq!(extract_key_info("id-ecPublicKey", 91), ("ECDSA".to_string(), Some(728)));
    assert_eq!(extract_key_info("1.3.101.112", 44), ("EdDSA (Ed25519)".to_string(), None));
    assert_eq!(extract_key_info("1.3.101.111", 44), ("EdDSA (Ed448)".to_string(), None));
    assert_eq!(extract_key_info("1.2.3", 10), ("Other (1.2.3)".to_string(), None));
}

#[test]
fn subject_alternative_names_are_rendered() {
    let entries = vec![
        SanEntry::Dns("a.example".to_string()),
        SanEntry::Ip(vec![192, 168, 0, 1]),
        SanEntry::Other,
        SanEntry::Ip(vec![0x20, 0x01, 0x0d, 0xb8, 0, 0, 0, 0, 0, 0, 0, 0, 0, 0, 0, 1]),
        SanEntry::Ip(vec![1, 2, 3]),
    ];
    assert_eq!(
        extract_san(&entries),
        vec![
            "a.example".to_string(),
            "IP:192.168.0.1".to_string(),
            "IP:2001:db8::1".to_string(),
            "IP:(invalid length 3)".to_string(),
        ]
    );
}

#[test]
fn extensions_are_named() {
    let raw = vec![
        RawExtension { oid: "2.5.29.19".to_string(), critical: true },
        RawExtension { oid: "1.3.6.1.4.1.11129.2.4.2".to_string(), critical: false },
    ];
    let e = extract_extensions(&raw);
    assert_eq!(e.len(), 2);
    assert_eq!(e[0].name, "Basic Constraints");
    assert!(e[0].critical);
    assert_eq!(e[1].name, "Unknown (1.3.6.1.4.1.11129.2.4.2)");
    assert_eq!(e[1].oid, "1.3.6.1.4.1.11129.2.4.2");
    assert_eq!(get_extension_name("1.3.6.1.5.5.7.1.1"), "Authority Information Access");
}

// ---------------------------------------------------------------- report

fn recorder_with_hellos() -> TrackedStream {
    let mut t = TrackedStream::new();
    t.extract_tls_messages(&client_flight(), true);
    t.extract_tls_messages(&server_flight(), false);
    t
}

fn recorded_hellos() -> Vec<HandshakeMessage> {
    recorder_with_hellos().extract_messages()
}

#[test]
fn randoms_come_from_the_hellos() {
    let ms = recorded_hellos();
    let (c, s) = extract_randoms_from_messages(&ms);
    assert_eq!(c, "11".repeat(32));
    assert_eq!(s, "22".repeat(32));
    let (c, s) = extract_randoms_from_messages(&ms[2..]);
    assert_eq!(c, "(not captured)");
    assert_eq!(s, "(not captured)");
}

#[test]
fn flow_singles_out_the_hellos_and_gives_them_back_in_order() {
    let ms = recorded_hellos();
    let flow = build_handshake_flow(&ms);
    assert_eq!(flow.client_hello.as_ref().unwrap().message_type, "ClientHello");
    assert_eq!(flow.server_hello.as_ref().unwrap().message_type, "ServerHello");
    assert_eq!(flow.subsequent_messages.len(), ms.len() - 2);
    assert_eq!(summary_of(&flow.all_messages()), summary_of(&ms));
}

#[test]
fn flow_keeps_the_last_hello_of_each_side() {
    let ms = vec![
        message(0, "Client → Server", "ClientHello", 10),
        message(1, "Client → Server", "ClientHello", 20),
        message(2, "Server → Client", "Certificate", 30),
    ];
    let flow = build_handshake_flow(&ms);
    assert_eq!(flow.client_hello.unwrap().size, 20);
    assert!(flow.server_hello.is_none());
    assert_eq!(flow.subsequent_messages.len(), 1);
}

#[test]
fn report_is_assembled_from_the_observations() {
    let request = build_http_request("lists.for-our.info");
    let response = "HTTP/1.1 200 OK\r\n\r\n";
    let r = build_report(
        "lists.for-our.info",
        443,
        1700000000,
        get_tls_version(Some(0x0304), "other"),
        get_cipher_suite(Some((Some("TLS13_AES_256_GCM_SHA384"), 0x1302))),
        get_key_share_info(),
        Some(vec![CERT_DER.to_vec()]),
        recorder_with_hellos(),
        None,
        &request,
        response,
    )
    .unwrap();
    assert_eq!(r.host, "lists.for-our.info");
    assert_eq!(r.port, 443);
    assert_eq!(r.timestamp, 1700000000);
    assert_eq!(r.tls_version, "TLS 1.3 (0x0304)");
    assert_eq!(r.cipher_suite, "TLS13_AES_256_GCM_SHA384 (0x1302)");
    assert_eq!(r.handshake_details.key_share, "x25519 (secp256r1, x448)");
    assert_eq!(r.handshake_details.supported_versions, vec!["TLS 1.3 (0x0304)".to_string()]);
    assert_eq!(r.handshake_details.signature_algorithms.len(), 7);
    assert_eq!(r.handshake_details.supported_groups.len(), 5);
    assert_eq!(r.certificate_chain.len(), 1);
    assert_eq!(r.certificate_chain[0].subject, "CN=lists.for-our.info");
    assert_eq!(r.encryption_negotiation.cipher_suite_code, "0x1302");
    assert_eq!(r.encryption_negotiation.secret_derivation.client_random, "11".repeat(32));
    assert_eq!(r.encryption_negotiation.secret_derivation.server_random, "22".repeat(32));
    assert_eq!(r.http_exchange.request.plaintext.content, request);
    assert_eq!(r.http_exchange.request.plaintext.size_bytes, request.len());
    assert_eq!(r.http_exchange.response.plaintext.content, response);
    assert!(r.handshake_messages.client_hello.is_some());
    assert_eq!(r.handshake_messages.subsequent_messages.len(), 5);
    assert!(!r.post_quantum_analysis.post_quantum_readiness.quantum_safe);
    assert!(r.extracted_secrets.is_none());
    assert!(r.decryption_debug.is_none());
}

#[test]
fn report_carries_the_extracted_secrets() {
    let rx_key: Vec<u8> = vec![3u8; 32];
    let rx_iv: [u8; 12] = [4u8; 12];
    let mut inner: Vec<u8> = handshake_message(4, &[0, 0, 0x1c, 0x20, 0, 0, 0, 0]);
    inner.push(22);
    let ct = seal(&ring::aead::AES_256_GCM, &rx_key, rx_iv, 1, &inner);
    let mut t = recorder_with_hellos();
    t.extract_tls_messages(&tls_record(23, &ct), false);
    let secrets = ExtractedSecrets {
        tx: (0, secret(TrafficCipher::Aes256Gcm, vec![8u8; 32], [0u8; 12])),
        rx: (1, secret(TrafficCipher::Aes256Gcm, rx_key, rx_iv)),
    };
    let request = build_http_request("lists.for-our.info");
    let r = build_report(
        "lists.for-our.info",
        443,
        1,
        get_tls_version(Some(0x0304), "other"),
        get_cipher_suite(Some((Some("TLS13_AES_256_GCM_SHA384"), 0x1302))),
        get_key_share_info(),
        Some(vec![CERT_DER.to_vec()]),
        t,
        Some(secrets),
        &request,
        "",
    )
    .unwrap();
    let s = r.extracted_secrets.unwrap();
    assert_eq!(s.tx_secrets.key_hex, "08".repeat(32));
    assert_eq!(s.rx_secrets.key_hex, "03".repeat(32));
    assert_eq!(s.rx_secrets.sequence_number, 1);
    assert!(!s.decryption_capabilities.can_decrypt.is_empty());
    let d = r.decryption_debug.unwrap();
    assert_eq!(d.total_encrypted_records_captured, 2);
    assert_eq!(d.encrypted_from_server, 2);
    assert_eq!(d.encrypted_from_client, 0);
    assert_eq!(d.successfully_decrypted, 1);
    assert!(r
        .handshake_messages
        .subsequent_messages
        .iter()
        .any(|m| m.message_type == "NewSessionTicket" && !m.inferred));
    let unsupported = ExtractedSecrets {
        tx: (0, secret(TrafficCipher::Unsupported, Vec::new(), [0u8; 12])),
        rx: (0, secret(TrafficCipher::Aes128Gcm, vec![0u8; 16], [0u8; 12])),
    };
    let e = build_report(
        "h",
        443,
        1,
        String::new(),
        String::new(),
        String::new(),
        Some(vec![CERT_DER.to_vec()]),
        recorder_with_hellos(),
        Some(unsupported),
        &request,
        "",
    );
    assert!(matches!(e, Err(TlsError::SecretExtraction { .. })));
}

#[test]
fn report_needs_parsable_certificates() {
    let req = build_http_request("h");
    let attempt = |certs: Option<Vec<Vec<u8>>>| {
        build_report(
            "h",
            443,
            0,
            String::new(),
            String::new(),
            String::new(),
            certs,
            TrackedStream::new(),
            None,
            &req,
            "",
        )
    };
    match attempt(None) {
        Err(TlsError::NoCertificateReceived { host }) => assert_eq!(host, "h"),
        other => panic!("unexpected {:?}", other.map(|r| r.host)),
    }
    assert!(matches!(attempt(Some(Vec::new())), Err(TlsError::EmptyCertificateChain)));
    assert!(matches!(attempt(Some(vec![vec![1, 2, 3]])), Err(TlsError::CertificateParsing)));
}

#[test]
fn http_request_text() {
    assert_eq!(
        build_http_request("example.com"),
        "GET / HTTP/1.1\r\nHost: example.com\r\nUser-Agent: tls-outputter\r\nConnection: close\r\n\r\n"
    );
}

#[test]
fn long_response_is_cut_at_five_hundred_bytes() {
    let response = "a".repeat(600);
    let x = build_http_exchange("GET /", &response).unwrap();
    assert_eq!(x.response.plaintext.content, format!("{}...[truncated 100 bytes]", "a".repeat(500)));
    assert_eq!(x.response.plaintext.size_bytes, 600);
    assert_eq!(x.response.encrypted.total_encrypted_size, 622);
    assert_eq!(x.request.encrypted.total_encrypted_size, 5 + 22);
    assert_eq!(x.response.encryption_analysis.encryption_overhead, 21);
    let accented = format!("a{}", "é".repeat(600));
    let y = build_http_exchange("GET / HTTP/1.1\r\n\r\n", &accented).unwrap();
    assert_eq!(y.response.plaintext.size_bytes, 1201);
    assert_eq!(
        y.response.plaintext.content,
        format!("a{}...[truncated 702 bytes]", "é".repeat(249))
    );
    let wide = "é".repeat(300);
    assert_eq!(
        build_http_exchange("", &wide).unwrap().response.plaintext.content,
        format!("{}...[truncated 100 bytes]", "é".repeat(250))
    );
    let exact = "b".repeat(500);
    assert_eq!(build_http_exchange("", &exact).unwrap().response.plaintext.content, exact);
}

#[test]
fn encrypted_size_adds_twenty_two_bytes() {
    assert_eq!(calculate_encrypted_size(0), 22);
    assert_eq!(calculate_encrypted_size(1000), 1022);
}

#[test]
fn version_and_suite_labels() {
    assert_eq!(get_tls_version(Some(0x0303), "x"), "TLS 1.2 (0x0303)");
    assert_eq!(get_tls_version(Some(0x0304), "x"), "TLS 1.3 (0x0304)");
    assert_eq!(get_tls_version(Some(0x0302), "TLSv1_1"), "TLSv1_1");
    assert_eq!(get_tls_version(None, "x"), "Unknown");
    assert_eq!(get_cipher_suite(Some((None, 0x00ff))), "Unknown (0x00ff)");
    assert_eq!(get_cipher_suite(None), "Unknown");
    assert_eq!(extract_suite_code("TLS13_AES_128_GCM_SHA256 (0x1301)"), "0x1301");
    assert_eq!(extract_suite_code("no code here"), "0x0000");
    assert_eq!(extract_suite_code("a (b) c (0xabcd)"), "0xabcd");
}

#[test]
fn mlkem_server_hello_is_recognised() {
    let mut f = FieldMap::new();
    f.push(
        "key_share",
        FieldValue::Object(vec![("group".to_string(), "X25519MLKEM768".to_string())]),
    );
    let mut sh = message(1, "Server → Client", "ServerHello", 90);
    sh.fields = Some(f);
    let ms = vec![message(0, "Client → Server", "ClientHello", 10), sh];
    assert!(check_x25519_mlkem768_negotiated(&ms));
    assert!(!check_x25519_mlkem768_negotiated(&ms[..1]));
}

// ---------------------------------------------------------------- rendering

#[test]
fn truncate_cuts_ascii_to_the_limit() {
    assert_eq!(truncate("hello world", 8), "hello...");
    assert_eq!(truncate("hello world", 8).len(), 8);
    assert_eq!(truncate("hello", 5), "hello");
    assert_eq!(truncate("hello", 2), "hello");
    assert_eq!(truncate("hello", 3), "...");
}

#[test]
fn truncate_keeps_whole_characters() {
    assert_eq!(truncate("héllo wörld", 6), "hé...");
    assert_eq!(truncate("日本語テキスト", 9), "日本...");
}

#[test]
fn certificate_summary_line() {
    let c = cert_with(
        "C=US, CN=example.com, O=Org",
        "C=US, CN=example.com, O=Org",
        Some(2048),
        vec!["a".to_string(), "b".to_string()],
    );
    assert!(is_self_signed(&c));
    assert_eq!(
        generate_cert_summary(&c, true),
        "Self-Signed • 2048-bit RSA • CN=example.com • +2 SANs"
    );
    let d = cert_with("O=NoName", "CN=Other", None, Vec::new());
    assert!(!is_self_signed(&d));
    assert_eq!(generate_cert_summary(&d, false), "RSA");
    let long = cert_with("CN=a-very-long-common-name-that-goes-on.example.org", "x", None, Vec::new());
    assert_eq!(generate_cert_summary(&long, false), "RSA • CN=a-very-long-common-name-tha...");
}

#[test]
fn table_cells() {
    assert_eq!(key_bits_label(&None), "N/A");
    let a = AeadDetails {
        algorithm: "AES-256-GCM".to_string(),
        key_bits: 256,
        nonce_bits: 96,
        tag_bits: 128,
        plaintext_record_size_limit: 16384,
    };
    assert_eq!(key_bits_label(&Some(a)), "256");
    let t = build_session_ticket_info("TLS 1.3 (0x0304)", &[], true).unwrap();
    assert_eq!(resumption_label(&t), "Yes (7 days)");
    let n = build_session_ticket_info("TLS 1.2 (0x0303)", &[], true).unwrap();
    assert_eq!(resumption_label(&n), "No");
    assert_eq!(certificate_role(0, 3), "🍃 Leaf");
    assert_eq!(certificate_role(1, 3), "🔗 Intermediate");
    assert_eq!(certificate_role(2, 3), "🔑 Root");
    assert_eq!(certificate_role(0, 1), "🍃 Leaf");
}

#[test]
fn message_statistics() {
    let ms = vec![
        message(0, "Client → Server", "ClientHello", 100),
        message(1, "Server → Client", "ServerHello", 90),
        message(2, "Server → Client", "Certificate", 3000),
        message(3, "Client → Server", "Finished", 0),
    ];
    assert_eq!(handshake_stats(&ms), (2, 2, 3190));
    assert_eq!(handshake_stats(&[]), (0, 0, 0));
}

#[test]
fn classical_suite_is_not_quantum_safe() {
    let n = build_encryption_negotiation("TLS13_AES_256_GCM_SHA384 (0x1302)", "c", "s").unwrap();
    let a = build_post_quantum_analysis(&n);
    assert!(!a.post_quantum_readiness.quantum_safe);
    assert!(a.hybrid_approach_available);
    assert_eq!(a.hybrid_ready, a.post_quantum_readiness.pqc_key_exchange_offered
        || a.post_quantum_readiness.pqc_signature_offered);
}

#[test]
fn command_line_options_and_urls() {
    let args: Vec<String> = ["--json", "--output-dir", "out", "https://a.example", "b.example"]
        .iter()
        .map(|s| s.to_string())
        .collect();
    let (dir, urls, json) = parse_args(&args).unwrap();
    assert_eq!(dir, "out");
    assert_eq!(urls, vec!["https://a.example".to_string(), "b.example".to_string()]);
    assert!(json);
    let (dir, urls, json) = parse_args(&["x".to_string()]).unwrap();
    assert_eq!((dir.as_str(), urls.len(), json), (".", 1, false));
}

#[test]
fn command_line_errors() {
    match parse_args(&["--output-dir".to_string()]) {
        Err(TlsError::Other(m)) => assert_eq!(m, "--output-dir requires a directory path"),
        other => panic!("unexpected {:?}", other),
    }
    match parse_args(&["a".to_string(), "--verbose".to_string()]) {
        Err(TlsError::Other(m)) => assert_eq!(m, "Unknown option: --verbose"),
        other => panic!("unexpected {:?}", other),
    }
}

#[test]
fn hex_and_decimal_rendering() {
    assert_eq!(bytes_to_hex(&[0x00, 0x0f, 0xa0, 0xff]), "000fa0ff");
    assert_eq!(bytes_to_hex(&[]), "");
    assert_eq!(bytes_to_hex_colon(&[0xde, 0xad, 0x01]), "de:ad:01");
    assert_eq!(bytes_to_hex_colon(&[7]), "07");
    assert_eq!(
        TlsError::ConnectionTimeout { host: "h".to_string(), port: 65535 }.message(),
        "Connection to h:65535 timed out"
    );
}

#[test]
fn url_gives_host_and_port() {
    assert_eq!(url_target("https://example.com/path").unwrap(), ("example.com".to_string(), 443));
    assert_eq!(url_target("https://example.com:8443").unwrap(), ("example.com".to_string(), 8443));
    assert_eq!(url_target("http://example.com").unwrap(), ("example.com".to_string(), 443));
    match url_target("not a url") {
        Err(TlsError::Other(m)) => {
            assert_eq!(m, "Failed to parse URL 'not a url': relative URL without a base")
        }
        other => panic!("unexpected {:?}", other),
    }
    match url_target("unix:/run/socket") {
        Err(TlsError::Other(m)) => assert_eq!(m, "URL must include a host"),
        other => panic!("unexpected {:?}", other),
    }
}

#[test]
fn url_target_from_parsed_parts() {
    assert_eq!(
        url_target_from("u", Ok((Some("h".to_string()), Some(1)))).unwrap(),
        ("h".to_string(), 1)
    );
    assert_eq!(url_target_from("u", Ok((Some("h".to_string()), None))).unwrap().1, 443);
    match url_target_from("u", Err("bad".to_string())) {
        Err(TlsError::Other(m)) => assert_eq!(m, "Failed to parse URL 'u': bad"),
        other => panic!("unexpected {:?}", other),
    }
    assert!(matches!(url_target_from("u", Ok((None, Some(1)))), Err(TlsError::Other(_))));
}

#[test]
fn output_file_names() {
    assert_eq!(report_file_name("example.com", "20240101_120000"), "tls_example.com_20240101_120000.json");
    assert_eq!(comparison_file_name("20240101_120000"), "tls_comparison_20240101_120000.json");
}

#[test]
fn tls13_handshake_shows_nine_messages() {
    let mut t = TrackedStream::new();
    t.extract_tls_messages(&client_flight(), true);
    t.extract_tls_messages(&server_flight(), false);
    let mut client_second: Vec<u8> = tls_record(20, &[1]);
    client_second.extend_from_slice(&tls_record(23, &[0u8; 40]));
    t.extract_tls_messages(&client_second, true);
    let ms = t.extract_messages();
    let seen: Vec<(&str, &str)> =
        ms.iter().map(|m| (m.direction.as_str(), m.message_type.as_str())).collect();
    let c = "Client → Server";
    let s = "Server → Client";
    assert_eq!(
        seen,
        vec![
            (c, "ClientHello"),
            (s, "ServerHello"),
            (s, "ChangeCipherSpec"),
            (c, "ChangeCipherSpec"),
            (s, "EncryptedExtensions"),
            (s, "Certificate"),
            (s, "CertificateVerify"),
            (s, "Finished"),
            (c, "Finished"),
        ]
    );
}

#[test]
fn tls13_suites_list_eight_secrets() {
    for cs in [
        "TLS13_AES_256_GCM_SHA384 (0x1302)",
        "TLS13_AES_128_GCM_SHA256 (0x1301)",
        "TLS_CHACHA20_POLY1305_SHA256 (0x1303)",
    ] {
        let n = build_encryption_negotiation(cs, "c", "s").unwrap();
        let names: Vec<&str> =
            n.secret_derivation.derived_secrets.iter().map(|d| d.name.as_str()).collect();
        assert_eq!(names.len(), 8);
        assert_eq!(names[0], "Early Secret");
        assert_eq!(names[7], "Exporter Master Secret");
    }
    let chacha = build_encryption_negotiation("TLS_CHACHA20_POLY1305_SHA256 (0x1303)", "c", "s").unwrap();
    assert_eq!(chacha.secret_derivation.prf_hash_algorithm, "SHA-256");
    let chacha_names: Vec<&str> =
        chacha.secret_derivation.derived_secrets.iter().map(|d| d.name.as_str()).collect();
    assert_eq!(
        chacha_names,
        vec![
            "Early Secret",
            "Handshake Secret",
            "Server Handshake Traffic Secret",
            "Client Handshake Traffic Secret",
            "Master Secret",
            "Server Application Traffic Secret",
            "Client Application Traffic Secret",
            "Exporter Master Secret",
        ]
    );
    assert_eq!(chacha.secret_derivation.derived_secrets[1].purpose, "Derives handshake traffic secrets");
    assert!(chacha.secret_derivation.derived_secrets.iter().all(|d| d.length_bits == 256));
}

#[test]
fn recorded_fields_name_each_field_once() {
    let mut t = TrackedStream::new();
    t.extract_tls_messages(&client_flight(), true);
    t.extract_tls_messages(&server_flight(), false);
    t.extract_tls_messages(&tls_record(23, &[1, 2, 3]), true);
    for m in t.extract_messages() {
        if let Some(f) = &m.fields {
            let mut keys: Vec<&str> = f.entries.iter().map(|(k, _)| k.as_str()).collect();
            let n: usize = keys.len();
            keys.sort();
            keys.dedup();
            assert_eq!(keys.len(), n, "{}", m.message_type);
        }
    }
}

#[test]
fn flow_moves_hellos_to_the_front_and_keeps_every_message() {
    let ms = vec![
        message(0, "Server → Client", "ServerHello", 10),
        message(1, "Server → Client", "Certificate", 20),
        message(2, "Client → Server", "ClientHello", 30),
    ];
    let back = build_handshake_flow(&ms).all_messages();
    let kinds: Vec<&str> = back.iter().map(|m| m.message_type.as_str()).collect();
    assert_eq!(kinds, vec!["ClientHello", "ServerHello", "Certificate"]);
    let mut sizes: Vec<usize> = back.iter().map(|m| m.size).collect();
    sizes.sort();
    assert_eq!(sizes, vec![10, 20, 30]);
}

#[test]
fn nine_messages_with_several_data_records_in_readme_order() {
    let mut t = TrackedStream::new();
    t.extract_tls_messages(&client_flight(), true);
    let mut server: Vec<u8> = tls_record(22, &handshake_message(2, &server_hello_body()));
    server.extend_from_slice(&tls_record(20, &[1]));
    t.extract_tls_messages(&server, false);
    t.extract_tls_messages(&tls_record(20, &[1]), true);
    t.extract_tls_messages(&tls_record(23, &[1; 30]), false);
    t.extract_tls_messages(&tls_record(23, &[2; 30]), true);
    t.extract_tls_messages(&tls_record(23, &[3; 30]), false);
    let ms = t.extract_messages();
    let kinds: Vec<&str> = ms.iter().map(|m| m.message_type.as_str()).collect();
    assert_eq!(
        kinds,
        vec![
            "ClientHello",
            "ServerHello",
            "ChangeCipherSpec",
            "ChangeCipherSpec",
            "EncryptedExtensions",
            "Certificate",
            "CertificateVerify",
            "Finished",
            "Finished",
        ]
    );
    assert_eq!(ms[3].direction, "Client → Server");
    assert!(ms[4..].iter().all(|m| m.size == 0 && m.inferred));
    for (i, m) in ms.iter().enumerate() {
        assert_eq!(m.sequence, i);
    }
}
