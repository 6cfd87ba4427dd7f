//! The certificate chain the server presented, rendered certificate by
//! certificate. Parsing X.509 is left to `x509-parser`; the rendering of
//! keys, names and extensions is this library's.
use vstd::prelude::*;
use x509_parser::certificate::X509Certificate;
use x509_parser::error::X509Error;
use x509_parser::extensions::GeneralName;
use x509_parser::nom;
use x509_parser::parse_x509_certificate;

use crate::error::TlsError;
use crate::text::{
    bytes_to_hex_colon,
    decimal,
    hex_joined,
    lemma_hex_joined_len,
    owned,
    push_decimal,
    push_str,
    str_eq,
};
use crate::tls::crypto::{sha256, sha256_digest};
use crate::tls::types::{lemma_strings_view_push, strings_view, CertificateInfo, ExtensionInfo};

verus! {

#[verifier::external_type_specification]
#[verifier::external_body]
#[verifier::reject_recursive_types(E)]
pub struct ExNomErr<E>(nom::Err<E>);

#[verifier::external_type_specification]
#[verifier::external_body]
pub struct ExX509Error(X509Error);

/// One subject alternative name as the certificate holds it.
#[derive(Debug)]
pub enum SanEntry {
    /// A DNS name.
    Dns(String),
    /// An IP address, as its encoded bytes.
    Ip(Vec<u8>),
    /// A kind of name this analysis does not show.
    Other,
}

/// The model of a [`SanEntry`].
pub enum SanView {
    Dns(Seq<char>),
    Ip(Seq<u8>),
    Other,
}

impl View for SanEntry {
    type V = SanView;

    open spec fn view(&self) -> SanView {
        match self {
            SanEntry::Dns(s) => SanView::Dns(s@),
            SanEntry::Ip(b) => SanView::Ip(b@),
            SanEntry::Other => SanView::Other,
        }
    }
}

/// One extension as the certificate holds it: its OID in dotted form and
/// whether it is critical.
#[derive(Debug)]
pub struct RawExtension {
    pub oid: String,
    pub critical: bool,
}

/// Whether `x509_parser::parse_x509_certificate` accepts `der`.
pub uninterp spec fn x509_parses(der: Seq<u8>) -> bool;

/// The subject of the certificate `der`, as `X509Name`'s `Display` writes it.
pub uninterp spec fn x509_subject_text(der: Seq<u8>) -> Seq<char>;

/// The issuer of the certificate `der`, as `X509Name`'s `Display` writes it.
pub uninterp spec fn x509_issuer_text(der: Seq<u8>) -> Seq<char>;

/// The start of validity of `der`, as `ASN1Time`'s `Display` writes it.
pub uninterp spec fn x509_not_before_text(der: Seq<u8>) -> Seq<char>;

/// The end of validity of `der`, as `ASN1Time`'s `Display` writes it.
pub uninterp spec fn x509_not_after_text(der: Seq<u8>) -> Seq<char>;

/// The serial number of `der`, as `BigUint`'s `Display` writes it.
pub uninterp spec fn x509_serial_text(der: Seq<u8>) -> Seq<char>;

/// The public key algorithm OID of `der`, as `Oid`'s `Display` writes it.
pub uninterp spec fn x509_key_algorithm(der: Seq<u8>) -> Seq<char>;

/// The length in bytes of the DER of the public key info of `der`.
pub uninterp spec fn x509_key_info_len(der: Seq<u8>) -> nat;

/// The general names of the subject alternative name extension of `der`
/// (none when it is missing or invalid).
pub uninterp spec fn x509_san_entries(der: Seq<u8>) -> Seq<SanView>;

/// The extensions of `der`, in order: OID in dotted form, critical flag.
pub uninterp spec fn x509_extension_list(der: Seq<u8>) -> Seq<(Seq<char>, bool)>;

/// The text of the IPv6 address with these 16 bytes, as
/// `core::net::Ipv6Addr`'s `Display` writes it.
pub uninterp spec fn ipv6_display(octets: Seq<u8>) -> Seq<char>;

/// Calls `x509_parser::parse_x509_certificate`. Trusted: it succeeds exactly
/// when the named predicate holds of the bytes.
#[verifier::external_body]
fn x509_check(der: &[u8]) -> (r: Result<(), nom::Err<X509Error>>)
    ensures
        r is Ok <==> x509_parses(der@),
{
    parse_x509_certificate(der).map(|_| ())
}

/// Parses `der` and renders the subject (`X509Name` `Display`). Trusted: a
/// result exactly when the bytes parse, equal to the named subject text.
#[verifier::external_body]
fn x509_subject(der: &[u8]) -> (r: Option<String>)
    ensures
        r is Some <==> x509_parses(der@),
        r matches Some(s) ==> s@ == x509_subject_text(der@),
{
    parse_x509_certificate(der).ok().map(|(_, c)| c.subject().to_string())
}

/// Parses `der` and renders the issuer (`X509Name` `Display`). Trusted: a
/// result exactly when the bytes parse, equal to the named issuer text.
#[verifier::external_body]
fn x509_issuer(der: &[u8]) -> (r: Option<String>)
    ensures
        r is Some <==> x509_parses(der@),
        r matches Some(s) ==> s@ == x509_issuer_text(der@),
{
    parse_x509_certificate(der).ok().map(|(_, c)| c.issuer().to_string())
}

/// Parses `der` and renders `not_before` (`ASN1Time` `Display`). Trusted: a
/// result exactly when the bytes parse, equal to the named text.
#[verifier::external_body]
fn x509_not_before(der: &[u8]) -> (r: Option<String>)
    ensures
        r is Some <==> x509_parses(der@),
        r matches Some(s) ==> s@ == x509_not_before_text(der@),
{
    parse_x509_certificate(der).ok().map(|(_, c)| c.validity().not_before.to_string())
}

/// Parses `der` and renders `not_after` (`ASN1Time` `Display`). Trusted: a
/// result exactly when the bytes parse, equal to the named text.
#[verifier::external_body]
fn x509_not_after(der: &[u8]) -> (r: Option<String>)
    ensures
        r is Some <==> x509_parses(der@),
        r matches Some(s) ==> s@ == x509_not_after_text(der@),
{
    parse_x509_certificate(der).ok().map(|(_, c)| c.validity().not_after.to_string())
}

/// Parses `der` and renders the serial number (`BigUint` `Display`).
/// Trusted: a result exactly when the bytes parse, equal to the named text.
#[verifier::external_body]
fn x509_serial(der: &[u8]) -> (r: Option<String>)
    ensures
        r is Some <==> x509_parses(der@),
        r matches Some(s) ==> s@ == x509_serial_text(der@),
{
    parse_x509_certificate(der).ok().map(|(_, c)| c.serial.to_string())
}

/// Parses `der` and gives the public key algorithm OID (`Oid` `Display`)
/// and the length of the raw public key info. Trusted: a result exactly
/// when the bytes parse, equal to the named values; the raw info is a slice
/// of the input, so it is no longer than `der`.
#[verifier::external_body]
fn x509_key(der: &[u8]) -> (r: Option<(String, usize)>)
    ensures
        r is Some <==> x509_parses(der@),
        r matches Some(k) ==> k.0@ == x509_key_algorithm(der@) && k.1 == x509_key_info_len(
            der@,
        ) && k.1 <= der@.len(),
{
    let (_, c) = parse_x509_certificate(der).ok()?;
    Some((c.public_key().algorithm.algorithm.to_string(), c.public_key().raw.len()))
}

/// Parses `der` and lists the general names of its subject alternative name
/// extension (`X509Certificate::subject_alternative_name`), none when it is
/// missing or invalid. Trusted: a result exactly when the bytes parse, equal
/// to the named list.
#[verifier::external_body]
fn x509_sans(der: &[u8]) -> (r: Option<Vec<SanEntry>>)
    ensures
        r is Some <==> x509_parses(der@),
        r matches Some(v) ==> v@.map_values(|e: SanEntry| e@) == x509_san_entries(der@),
{
    let (_, c): (_, X509Certificate) = parse_x509_certificate(der).ok()?;
    match c.subject_alternative_name() {
        Ok(Some(ext)) => Some(ext.value.general_names.iter().map(|gn| match gn {
            GeneralName::DNSName(n) => SanEntry::Dns(n.to_string()),
            GeneralName::IPAddress(ip) => SanEntry::Ip(ip.to_vec()),
            _ => SanEntry::Other,
        }).collect()),
        _ => Some(Vec::new()),
    }
}

/// Parses `der` and lists its extensions (`X509Certificate::extensions`):
/// OID (`Oid` `Display`) and critical flag. Trusted: a result exactly when
/// the bytes parse, equal to the named list.
#[verifier::external_body]
fn x509_extensions(der: &[u8]) -> (r: Option<Vec<RawExtension>>)
    ensures
        r is Some <==> x509_parses(der@),
        r matches Some(v) ==> v@.map_values(|e: RawExtension| (e.oid@, e.critical))
            == x509_extension_list(der@),
{
    let (_, c) = parse_x509_certificate(der).ok()?;
    Some(c.extensions().iter().map(|e| RawExtension { oid: e.oid.to_string(), critical: e.critical }).collect())
}

/// Calls `core::net::Ipv6Addr`'s `Display`. Trusted: the result is the named
/// text of the address.
#[verifier::external_body]
fn ipv6_text(octets: [u8; 16]) -> (r: String)
    ensures
        r@ == ipv6_display(octets@),
{
    core::net::Ipv6Addr::from(octets).to_string()
}

/// The dotted-decimal text of an IPv4 address.
pub open spec fn ipv4_text(b: Seq<u8>) -> Seq<char> {
    decimal(b[0] as nat) + "."@ + decimal(b[1] as nat) + "."@ + decimal(b[2] as nat) + "."@
        + decimal(b[3] as nat)
}

/// The text of one subject alternative name, or `None` for a kind not shown.
pub open spec fn san_text(e: SanView) -> Option<Seq<char>> {
    match e {
        SanView::Dns(s) => Some(s),
        SanView::Ip(b) => Some(
            "IP:"@ + if b.len() == 4 {
                ipv4_text(b)
            } else if b.len() == 16 {
                ipv6_display(b)
            } else {
                "(invalid length "@ + decimal(b.len()) + ")"@
            },
        ),
        SanView::Other => None,
    }
}

/// The texts of the subject alternative names shown, in order.
pub open spec fn san_texts(es: Seq<SanView>) -> Seq<Seq<char>>
    decreases es.len(),
{
    if es.len() == 0 {
        seq![]
    } else {
        match san_text(es.last()) {
            Some(t) => san_texts(es.drop_last()).push(t),
            None => san_texts(es.drop_last()),
        }
    }
}

/// The key type named by a public key algorithm OID.
pub open spec fn key_type_text(oid: Seq<char>) -> Seq<char> {
    if oid == "1.2.840.113549.1.1.1"@ || oid == "rsaEncryption"@ {
        "RSA"@
    } else if oid == "1.2.840.10045.2.1"@ || oid == "id-ecPublicKey"@ {
        "ECDSA"@
    } else if oid == "1.3.101.112"@ {
        "EdDSA (Ed25519)"@
    } else if oid == "1.3.101.111"@ {
        "EdDSA (Ed448)"@
    } else {
        "Other ("@ + oid + ")"@
    }
}

/// The key size estimated from the key info length: for RSA the bits after
/// 38 bytes of DER overhead, for EC keys the curve size of the usual
/// encodings, otherwise unknown.
pub open spec fn key_size_estimate(oid: Seq<char>, total: nat) -> Option<nat> {
    if oid == "1.2.840.113549.1.1.1"@ || oid == "rsaEncryption"@ {
        if total > 38 {
            Some(((total - 38) * 8) as nat)
        } else {
            Some(total * 8)
        }
    } else if oid == "1.2.840.10045.2.1"@ || oid == "id-ecPublicKey"@ {
        let bits = total * 8;
        if bits == 264 {
            Some(256)
        } else if bits == 392 {
            Some(384)
        } else if bits == 528 {
            Some(521)
        } else {
            Some(bits)
        }
    } else {
        None
    }
}

/// The name of a certificate extension OID.
pub open spec fn extension_name(oid: Seq<char>) -> Seq<char> {
    if oid == "2.5.29.14"@ {
        "Subject Key Identifier"@
    } else if oid == "2.5.29.15"@ {
        "Key Usage"@
    } else if oid == "2.5.29.19"@ {
        "Basic Constraints"@
    } else if oid == "2.5.29.31"@ {
        "CRL Distribution Points"@
    } else if oid == "2.5.29.32"@ {
        "Certificate Policies"@
    } else if oid == "2.5.29.35"@ {
        "Authority Key Identifier"@
    } else if oid == "1.3.6.1.5.5.7.1.1"@ {
        "Authority Information Access"@
    } else if oid == "2.5.29.37"@ {
        "Extended Key Usage"@
    } else if oid == "2.5.29.17"@ {
        "Subject Alternative Name"@
    } else {
        "Unknown ("@ + oid + ")"@
    }
}

/// The key type and estimated size for a public key algorithm OID and a key
/// info of `total_bytes` bytes.
pub fn extract_key_info(oid: &str, total_bytes: usize) -> (r: (String, Option<usize>))
    requires
        total_bytes * 8 <= usize::MAX,
    ensures
        r.0@ == key_type_text(oid@),
        r.1 matches Some(n) ==> key_size_estimate(oid@, total_bytes as nat) == Some(n as nat),
        r.1 is None ==> key_size_estimate(oid@, total_bytes as nat) is None,
{
    let rsa = str_eq(oid, "1.2.840.113549.1.1.1") || str_eq(oid, "rsaEncryption");
    let ec = str_eq(oid, "1.2.840.10045.2.1") || str_eq(oid, "id-ecPublicKey");
    let key_type = if rsa {
        owned("RSA")
    } else if ec {
        owned("ECDSA")
    } else if str_eq(oid, "1.3.101.112") {
        owned("EdDSA (Ed25519)")
    } else if str_eq(oid, "1.3.101.111") {
        owned("EdDSA (Ed448)")
    } else {
        let mut s = owned("Other (");
        push_str(&mut s, oid);
        push_str(&mut s, ")");
        s
    };
    let key_size = if rsa {
        let der_overhead: usize = 38;
        if total_bytes > der_overhead {
            Some((total_bytes - der_overhead) * 8)
        } else {
            Some(total_bytes * 8)
        }
    } else if ec {
        let bits = total_bytes * 8;
        if bits == 264 {
            Some(256)
        } else if bits == 392 {
            Some(384)
        } else if bits == 528 {
            Some(521)
        } else {
            Some(bits)
        }
    } else {
        None
    };
    (key_type, key_size)
}

/// The name of a certificate extension OID.
pub fn get_extension_name(oid: &str) -> (r: String)
    ensures
        r@ == extension_name(oid@),
{
    if str_eq(oid, "2.5.29.14") {
        owned("Subject Key Identifier")
    } else if str_eq(oid, "2.5.29.15") {
        owned("Key Usage")
    } else if str_eq(oid, "2.5.29.19") {
        owned("Basic Constraints")
    } else if str_eq(oid, "2.5.29.31") {
        owned("CRL Distribution Points")
    } else if str_eq(oid, "2.5.29.32") {
        owned("Certificate Policies")
    } else if str_eq(oid, "2.5.29.35") {
        owned("Authority Key Identifier")
    } else if str_eq(oid, "1.3.6.1.5.5.7.1.1") {
        owned("Authority Information Access")
    } else if str_eq(oid, "2.5.29.37") {
        owned("Extended Key Usage")
    } else if str_eq(oid, "2.5.29.17") {
        owned("Subject Alternative Name")
    } else {
        let mut s = owned("Unknown (");
        push_str(&mut s, oid);
        push_str(&mut s, ")");
        s
    }
}

/// The dotted-decimal text of an IPv4 address.
fn ipv4_to_text(b: &[u8]) -> (r: String)
    requires
        b@.len() == 4,
    ensures
        r@ == ipv4_text(b@),
{
    let mut s = String::new();
    push_decimal(&mut s, b[0] as u64);
    push_str(&mut s, ".");
    push_decimal(&mut s, b[1] as u64);
    push_str(&mut s, ".");
    push_decimal(&mut s, b[2] as u64);
    push_str(&mut s, ".");
    push_decimal(&mut s, b[3] as u64);
    assert(s@ =~= ipv4_text(b@));
    s
}

/// The texts of the subject alternative names shown: DNS names as they are,
/// IP addresses after `IP:`.
pub fn extract_san(entries: &Vec<SanEntry>) -> (r: Vec<String>)
    ensures
        strings_view(r@) == san_texts(entries@.map_values(|e: SanEntry| e@)),
{
    let ghost es = entries@.map_values(|e: SanEntry| e@);
    let mut sans: Vec<String> = Vec::new();
    let mut i: usize = 0;
    while i < entries.len()
        invariant
            i <= entries@.len(),
            es == entries@.map_values(|e: SanEntry| e@),
            strings_view(sans@) == san_texts(es.take(i as int)),
        decreases entries@.len() - i,
    {
        assert(es.take(i + 1).drop_last() =~= es.take(i as int));
        assert(es.take(i + 1).last() == entries@[i as int]@);
        match &entries[i] {
            SanEntry::Dns(name) => {
                let n = name.clone();
                proof {
                    lemma_strings_view_push(sans@, n);
                }
                sans.push(n);
                assert(strings_view(sans@) =~= san_texts(es.take(i + 1)));
            },
            SanEntry::Ip(ip) => {
                let mut s = owned("IP:");
                if ip.len() == 4 {
                    let t = ipv4_to_text(ip.as_slice());
                    push_str(&mut s, t.as_str());
                } else if ip.len() == 16 {
                    let octets: [u8; 16] = [
                        ip[0],
                        ip[1],
                        ip[2],
                        ip[3],
                        ip[4],
                        ip[5],
                        ip[6],
                        ip[7],
                        ip[8],
                        ip[9],
                        ip[10],
                        ip[11],
                        ip[12],
                        ip[13],
                        ip[14],
                        ip[15],
                    ];
                    assert(octets@ =~= ip@);
                    let t = ipv6_text(octets);
                    push_str(&mut s, t.as_str());
                } else {
                    push_str(&mut s, "(invalid length ");
                    push_decimal(&mut s, ip.len() as u64);
                    push_str(&mut s, ")");
                    assert(s@ =~= "IP:"@ + ("(invalid length "@ + decimal(ip@.len()) + ")"@));
                }
                assert(Some(s@) == san_text(entries@[i as int]@));
                proof {
                    lemma_strings_view_push(sans@, s);
                }
                sans.push(s);
                assert(strings_view(sans@) =~= san_texts(es.take(i + 1)));
            },
            SanEntry::Other => {
                assert(strings_view(sans@) =~= san_texts(es.take(i + 1)));
            },
        }
        i = i + 1;
    }
    assert(es.take(i as int) =~= es);
    sans
}

/// `e` names the extension `oid` with this critical flag.
pub open spec fn extension_info_is(e: ExtensionInfo, raw: (Seq<char>, bool)) -> bool {
    &&& e.oid@ == raw.0
    &&& e.critical == raw.1
    &&& e.name@ == extension_name(raw.0)
}

/// The extensions with their names.
pub fn extract_extensions(raw: &Vec<RawExtension>) -> (r: Vec<ExtensionInfo>)
    ensures
        r@.len() == raw@.len(),
        forall|i: int|
            0 <= i < raw@.len() ==> extension_info_is(
                #[trigger] r@[i],
                (raw@[i].oid@, raw@[i].critical),
            ),
{
    let mut extensions: Vec<ExtensionInfo> = Vec::new();
    let mut i: usize = 0;
    while i < raw.len()
        invariant
            i <= raw@.len(),
            extensions@.len() == i,
            forall|j: int|
                0 <= j < i ==> extension_info_is(
                    #[trigger] extensions@[j],
                    (raw@[j].oid@, raw@[j].critical),
                ),
        decreases raw@.len() - i,
    {
        let oid = raw[i].oid.as_str();
        extensions.push(
            ExtensionInfo {
                oid: raw[i].oid.clone(),
                critical: raw[i].critical,
                name: get_extension_name(oid),
            },
        );
        i = i + 1;
    }
    extensions
}

/// `c` renders the certificate `der`.
pub open spec fn cert_info_is(c: CertificateInfo, der: Seq<u8>) -> bool {
    let oid = x509_key_algorithm(der);
    let exts = x509_extension_list(der);
    &&& c.subject@ == x509_subject_text(der)
    &&& c.issuer@ == x509_issuer_text(der)
    &&& c.not_before@ == x509_not_before_text(der)
    &&& c.not_after@ == x509_not_after_text(der)
    &&& c.serial_number@ == x509_serial_text(der)
    &&& c.fingerprint_sha256@ == hex_joined(sha256(der), ':')
    &&& c.fingerprint_sha256@.len() == 95
    &&& c.key_type@ == key_type_text(oid)
    &&& (match c.key_size {
        Some(n) => key_size_estimate(oid, x509_key_info_len(der)) == Some(n as nat),
        None => key_size_estimate(oid, x509_key_info_len(der)) is None,
    })
    &&& strings_view(c.subject_alt_names@) == san_texts(x509_san_entries(der))
    &&& c.extensions@.len() == exts.len()
    &&& forall|i: int| 0 <= i < exts.len() ==> extension_info_is(#[trigger] c.extensions@[i], exts[i])
}

/// Renders one certificate given in DER: subject, issuer, validity, serial,
/// SHA-256 fingerprint, key type and size, subject alternative names and
/// extensions.
pub fn parse_x509_cert(cert_der: &[u8]) -> (r: Result<CertificateInfo, TlsError>)
    requires
        cert_der@.len() * 8 <= usize::MAX,
    ensures
        r is Ok <==> x509_parses(cert_der@),
        r matches Ok(c) ==> cert_info_is(c, cert_der@),
        r matches Err(e) ==> e is CertificateParsing,
{
    if x509_check(cert_der).is_err() {
        return Err(TlsError::CertificateParsing);
    }
    let subject = match x509_subject(cert_der) {
        Some(s) => s,
        None => {
            return Err(TlsError::CertificateParsing);
        },
    };
    let issuer = match x509_issuer(cert_der) {
        Some(s) => s,
        None => {
            return Err(TlsError::CertificateParsing);
        },
    };
    let not_before = match x509_not_before(cert_der) {
        Some(s) => s,
        None => {
            return Err(TlsError::CertificateParsing);
        },
    };
    let not_after = match x509_not_after(cert_der) {
        Some(s) => s,
        None => {
            return Err(TlsError::CertificateParsing);
        },
    };
    let serial_number = match x509_serial(cert_der) {
        Some(s) => s,
        None => {
            return Err(TlsError::CertificateParsing);
        },
    };
    let digest = sha256_digest(cert_der);
    let fingerprint_sha256 = bytes_to_hex_colon(digest.as_slice());
    proof {
        lemma_hex_joined_len(digest@, ':');
    }
    let (oid, key_len) = match x509_key(cert_der) {
        Some(k) => k,
        None => {
            return Err(TlsError::CertificateParsing);
        },
    };
    let (key_type, key_size) = extract_key_info(oid.as_str(), key_len);
    let sans = match x509_sans(cert_der) {
        Some(v) => v,
        None => {
            return Err(TlsError::CertificateParsing);
        },
    };
    let subject_alt_names = extract_san(&sans);
    let raw_extensions = match x509_extensions(cert_der) {
        Some(v) => v,
        None => {
            return Err(TlsError::CertificateParsing);
        },
    };
    let extensions = extract_extensions(&raw_extensions);
    proof {
        assert forall|i: int| 0 <= i < raw_extensions@.len() implies (raw_extensions@[i].oid@,
        raw_extensions@[i].critical) == x509_extension_list(cert_der@)[i] by {
            assert(raw_extensions@.map_values(|e: RawExtension| (e.oid@, e.critical))[i] == (
            raw_extensions@[i].oid@, raw_extensions@[i].critical));
        }
    }
    Ok(
        CertificateInfo {
            subject,
            issuer,
            not_before,
            not_after,
            serial_number,
            fingerprint_sha256,
            key_type,
            key_size,
            subject_alt_names,
            extensions,
        },
    )
}

/// Renders each certificate of a chain given in DER, leaf first; fails on the
/// first certificate that does not parse.
pub fn parse_certificate_chain(certs: &[Vec<u8>]) -> (r: Result<Vec<CertificateInfo>, TlsError>)
    requires
        forall|i: int| 0 <= i < certs@.len() ==> #[trigger] certs@[i]@.len() * 8 <= usize::MAX,
    ensures
        r is Ok <==> forall|i: int| 0 <= i < certs@.len() ==> x509_parses(#[trigger] certs@[i]@),
        r matches Ok(chain) ==> chain@.len() == certs@.len() && forall|i: int|
            0 <= i < certs@.len() ==> cert_info_is(#[trigger] chain@[i], certs@[i]@),
        r matches Err(e) ==> e is CertificateParsing,
{
    let mut chain: Vec<CertificateInfo> = Vec::new();
    let mut i: usize = 0;
    while i < certs.len()
        invariant
            i <= certs@.len(),
            chain@.len() == i,
            forall|j: int| 0 <= j < certs@.len() ==> #[trigger] certs@[j]@.len() * 8 <= usize::MAX,
            forall|j: int| 0 <= j < i ==> x509_parses(#[trigger] certs@[j]@),
            forall|j: int| 0 <= j < i ==> cert_info_is(#[trigger] chain@[j], certs@[j]@),
        decreases certs@.len() - i,
    {
        let parsed = parse_x509_cert(certs[i].as_slice());
        match parsed {
            Ok(c) => {
                chain.push(c);
            },
            Err(e) => {
                return Err(e);
            },
        }
        i = i + 1;
    }
    Ok(chain)
}

/// Each known extension OID has its own name, and any other OID is shown
/// as unknown with the OID itself.
pub proof fn law_extension_names(oid: Seq<char>)
    ensures
        extension_name("2.5.29.14"@) == "Subject Key Identifier"@,
        extension_name("2.5.29.15"@) == "Key Usage"@,
        extension_name("2.5.29.19"@) == "Basic Constraints"@,
        extension_name("2.5.29.31"@) == "CRL Distribution Points"@,
        extension_name("2.5.29.32"@) == "Certificate Policies"@,
        extension_name("2.5.29.35"@) == "Authority Key Identifier"@,
        extension_name("1.3.6.1.5.5.7.1.1"@) == "Authority Information Access"@,
        extension_name("2.5.29.37"@) == "Extended Key Usage"@,
        extension_name("2.5.29.17"@) == "Subject Alternative Name"@,
        oid != "2.5.29.14"@ && oid != "2.5.29.15"@ && oid != "2.5.29.19"@ && oid != "2.5.29.31"@
            && oid != "2.5.29.32"@ && oid != "2.5.29.35"@ && oid != "1.3.6.1.5.5.7.1.1"@ && oid
            != "2.5.29.37"@ && oid != "2.5.29.17"@ ==> extension_name(oid) == "Unknown ("@ + oid
            + ")"@,
{
    reveal_strlit("2.5.29.14");
    reveal_strlit("2.5.29.15");
    reveal_strlit("2.5.29.19");
    reveal_strlit("2.5.29.31");
    reveal_strlit("2.5.29.32");
    reveal_strlit("2.5.29.35");
    reveal_strlit("1.3.6.1.5.5.7.1.1");
    reveal_strlit("2.5.29.37");
    reveal_strlit("2.5.29.17");
    let o14 = "2.5.29.14"@;
    let o15 = "2.5.29.15"@;
    let o19 = "2.5.29.19"@;
    let o31 = "2.5.29.31"@;
    let o32 = "2.5.29.32"@;
    let o35 = "2.5.29.35"@;
    let o37 = "2.5.29.37"@;
    let o17 = "2.5.29.17"@;
    assert(o15[8] != o14[8]);
    assert(o19[8] != o14[8] && o19[8] != o15[8]);
    assert(o31[7] != o14[7] && o31[7] != o15[7] && o31[7] != o19[7]);
    assert(o32[8] != o31[8] && o32[7] != o14[7] && o32[7] != o15[7] && o32[7] != o19[7]);
    assert(o35[8] != o31[8] && o35[8] != o32[8] && o35[7] != o14[7] && o35[7] != o15[7] && o35[7]
        != o19[7]);
    assert(o37[8] != o31[8] && o37[8] != o32[8] && o37[8] != o35[8] && o37[7] != o14[7] && o37[7]
        != o15[7] && o37[7] != o19[7]);
    assert(o17[8] != o14[8] && o17[8] != o15[8] && o17[8] != o19[8] && o17[7] != o31[7] && o17[7]
        != o32[7] && o17[7] != o35[7] && o17[7] != o37[7]);
}

} // verus!
