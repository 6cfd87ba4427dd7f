//! Names of handshake message types and decoding of handshake message bodies.
use vstd::prelude::*;

use crate::text::{bytes_to_hex, decimal, hex_of, hex_u16, owned, push_decimal, push_hex_u16, push_str};
use crate::tls::fields::{
    distinct_keys,
    lookup,
    lookup_from,
    lemma_distinct_by_length,
    FieldMap,
    FieldValue,
    FieldValueView,
};

verus! {

/// A big-endian 16-bit number.
pub open spec fn be16(a: u8, b: u8) -> nat {
    (a as nat) * 256 + (b as nat)
}

/// A big-endian 24-bit number.
pub open spec fn be24(a: u8, b: u8, c: u8) -> nat {
    (a as nat) * 65536 + (b as nat) * 256 + (c as nat)
}

/// A big-endian 32-bit number.
pub open spec fn be32(a: u8, b: u8, c: u8, d: u8) -> nat {
    (a as nat) * 16777216 + (b as nat) * 65536 + (c as nat) * 256 + (d as nat)
}

/// The name of handshake message type `t`.
pub open spec fn handshake_type_name(t: u8) -> Seq<char> {
    if t == 0 {
        "HelloRequest"@
    } else if t == 1 {
        "ClientHello"@
    } else if t == 2 {
        "ServerHello"@
    } else if t == 3 {
        "HelloRetryRequest"@
    } else if t == 4 {
        "NewSessionTicket"@
    } else if t == 5 {
        "EndOfEarlyData"@
    } else if t == 6 {
        "EncryptedExtensions"@
    } else if t == 7 {
        "CertificateRequest"@
    } else if t == 8 {
        "Certificate"@
    } else if t == 9 {
        "ServerKeyExchange"@
    } else if t == 10 {
        "CertificateVerify"@
    } else if t == 11 {
        "ClientKeyExchange"@
    } else if t == 12 {
        "Finished"@
    } else if t == 13 {
        "CertificateStatus"@
    } else if t == 14 {
        "KeyUpdate"@
    } else {
        "Unknown("@ + decimal(t as nat) + ")"@
    }
}

/// The description of handshake message type `t`.
pub open spec fn handshake_type_description(t: u8) -> Seq<char> {
    if t == 0 {
        "Server requests renegotiation (TLS 1.2)"@
    } else if t == 1 {
        "Client initiates TLS handshake with supported versions, ciphers, and extensions"@
    } else if t == 2 {
        "Server selects TLS version and cipher suite from client options"@
    } else if t == 3 {
        "Server requests retry with different parameters (TLS 1.3)"@
    } else if t == 4 {
        "Server provides session resumption ticket (TLS 1.3)"@
    } else if t == 5 {
        "Client signals end of early data (TLS 1.3)"@
    } else if t == 6 {
        "Server sends encrypted TLS extensions (TLS 1.3)"@
    } else if t == 7 {
        "Server requests client certificate (optional)"@
    } else if t == 8 {
        "Server presents certificate chain for authentication"@
    } else if t == 9 {
        "Server provides key exchange parameters (TLS 1.2)"@
    } else if t == 10 {
        "Client/Server proves possession of private key via signature"@
    } else if t == 11 {
        "Client sends key exchange parameters (TLS 1.2)"@
    } else if t == 12 {
        "Handshake complete, includes MAC of all messages"@
    } else if t == 13 {
        "Server provides OCSP response (TLS 1.2)"@
    } else if t == 14 {
        "Update traffic keys (TLS 1.3)"@
    } else {
        "Unknown message type"@
    }
}

/// The name and description of handshake message type `msg_type`.
pub fn parse_handshake_type(msg_type: u8) -> (r: (String, String))
    ensures
        r.0@ == handshake_type_name(msg_type),
        r.1@ == handshake_type_description(msg_type),
{
    match msg_type {
        0 => (owned("HelloRequest"), owned("Server requests renegotiation (TLS 1.2)")),
        1 => (
            owned("ClientHello"),
            owned(
                "Client initiates TLS handshake with supported versions, ciphers, and extensions",
            ),
        ),
        2 => (
            owned("ServerHello"),
            owned("Server selects TLS version and cipher suite from client options"),
        ),
        3 => (
            owned("HelloRetryRequest"),
            owned("Server requests retry with different parameters (TLS 1.3)"),
        ),
        4 => (
            owned("NewSessionTicket"),
            owned("Server provides session resumption ticket (TLS 1.3)"),
        ),
        5 => (owned("EndOfEarlyData"), owned("Client signals end of early data (TLS 1.3)")),
        6 => (
            owned("EncryptedExtensions"),
            owned("Server sends encrypted TLS extensions (TLS 1.3)"),
        ),
        7 => (
            owned("CertificateRequest"),
            owned("Server requests client certificate (optional)"),
        ),
        8 => (
            owned("Certificate"),
            owned("Server presents certificate chain for authentication"),
        ),
        9 => (
            owned("ServerKeyExchange"),
            owned("Server provides key exchange parameters (TLS 1.2)"),
        ),
        10 => (
            owned("CertificateVerify"),
            owned("Client/Server proves possession of private key via signature"),
        ),
        11 => (
            owned("ClientKeyExchange"),
            owned("Client sends key exchange parameters (TLS 1.2)"),
        ),
        12 => (owned("Finished"), owned("Handshake complete, includes MAC of all messages")),
        13 => (owned("CertificateStatus"), owned("Server provides OCSP response (TLS 1.2)")),
        14 => (owned("KeyUpdate"), owned("Update traffic keys (TLS 1.3)")),
        _ => {
            let mut name = owned("Unknown(");
            push_decimal(&mut name, msg_type as u64);
            push_str(&mut name, ")");
            (name, owned("Unknown message type"))
        },
    }
}

/// A text field.
pub open spec fn text_field(key: Seq<char>, v: Seq<char>) -> (Seq<char>, FieldValueView) {
    (key, FieldValueView::Text(v))
}

/// A number field.
pub open spec fn number_field(key: Seq<char>, n: nat) -> (Seq<char>, FieldValueView) {
    (key, FieldValueView::Number(n as u64))
}

/// The fields of a hello body (`ClientHello` when `client`, else `ServerHello`).
pub open spec fn hello_fields(client: bool, d: Seq<u8>) -> Seq<(Seq<char>, FieldValueView)> {
    let version_key = if client {
        "client_version"@
    } else {
        "server_version"@
    };
    let head = seq![
        text_field(version_key, "0x"@ + hex_u16(be16(d[0], d[1]) as u16)),
        text_field("random"@, hex_of(d.subrange(2, 34))),
    ];
    if d.len() > 34 {
        let sid = d[34] as int;
        let cs = 35 + sid;
        let with_sid = head.push(number_field("session_id_length"@, sid as nat));
        if client {
            if d.len() > cs + 1 {
                with_sid.push(
                    number_field("cipher_suites_count"@, be16(d[cs], d[cs + 1]) / 2),
                )
            } else {
                with_sid
            }
        } else {
            let with_suite = if d.len() > cs + 1 {
                with_sid.push(
                    text_field(
                        "selected_cipher_suite"@,
                        "0x"@ + hex_u16(be16(d[cs], d[cs + 1]) as u16),
                    ),
                )
            } else {
                with_sid
            };
            if d.len() > cs + 2 {
                with_suite.push(number_field("compression_method"@, d[cs + 2] as nat))
            } else {
                with_suite
            }
        }
    } else {
        head
    }
}

/// The measure that the certificate walk decreases.
pub open spec fn walk_measure(len: nat, pos: int) -> nat {
    if pos <= len {
        (len - pos) as nat
    } else {
        0
    }
}

/// Number of certificate entries found walking `d` from `pos`, each entry a
/// 3-byte length and that many bytes, while `pos` stays below both the end
/// of `d` and `limit`.
pub open spec fn certificate_count_from(d: Seq<u8>, pos: int, limit: int) -> nat
    decreases walk_measure(d.len(), pos),
{
    if 0 <= pos && pos < d.len() && pos < limit && pos + 3 <= d.len() {
        1 + certificate_count_from(
            d,
            pos + 3 + be24(d[pos], d[pos + 1], d[pos + 2]),
            limit,
        )
    } else {
        0
    }
}

/// The first 16 bytes of a `Finished` body in hex, with `...` when there are more.
pub open spec fn finished_preview(d: Seq<u8>) -> Seq<char> {
    if d.len() > 16 {
        hex_of(d.take(16)) + "..."@
    } else {
        hex_of(d)
    }
}

/// The decoded fields of a handshake body of type `t`, or `None` when the
/// body is too short for its type.
pub open spec fn handshake_fields(t: u8, d: Seq<u8>) -> Option<Seq<(Seq<char>, FieldValueView)>> {
    if t == 1 || t == 2 {
        if d.len() < 34 {
            None
        } else {
            Some(hello_fields(t == 1, d))
        }
    } else if t == 8 {
        if d.len() < 3 {
            None
        } else {
            let chain_len = be24(d[0], d[1], d[2]);
            Some(
                seq![
                    number_field("certificate_chain_length"@, chain_len),
                    number_field("certificate_count"@, certificate_count_from(d, 3, 3 + chain_len as int)),
                ],
            )
        }
    } else if t == 12 {
        let first = seq![number_field("verification_data_length"@, d.len())];
        if d.len() > 0 {
            Some(first.push(text_field("verification_data_preview"@, finished_preview(d))))
        } else {
            Some(first)
        }
    } else {
        Some(seq![number_field("payload_length"@, d.len())])
    }
}

/// A text field value holding `0x` and the four hex digits of `v`.
fn hex_u16_text(v: u16) -> (r: FieldValue)
    ensures
        r@ == FieldValueView::Text("0x"@ + hex_u16(v)),
{
    let mut s = String::new();
    push_hex_u16(&mut s, v);
    assert(s@ =~= "0x"@ + hex_u16(v));
    FieldValue::Text(s)
}

/// Decodes a hello body; `client` selects `ClientHello` over `ServerHello`.
fn parse_hello_fields(client: bool, data: &[u8]) -> (r: FieldMap)
    requires
        data@.len() >= 34,
    ensures
        r@ == hello_fields(client, data@),
{
    let d = data;
    let mut fields = FieldMap::new();
    let version = (data[0] as u16) * 256 + (data[1] as u16);
    if client {
        fields.push("client_version", hex_u16_text(version));
    } else {
        fields.push("server_version", hex_u16_text(version));
    }
    let random = bytes_to_hex(&data[2..34]);
    fields.push("random", FieldValue::Text(random));
    let ghost head = fields@;
    assert(head =~= seq![
        text_field(if client { "client_version"@ } else { "server_version"@ }, "0x"@ + hex_u16(be16(d@[0], d@[1]) as u16)),
        text_field("random"@, hex_of(d@.subrange(2, 34))),
    ]);
    if data.len() > 34 {
        let sid = data[34] as usize;
        fields.push("session_id_length", FieldValue::Number(sid as u64));
        let cs = 35 + sid;
        if client {
            if data.len() > cs + 1 {
                let cs_len = (data[cs] as u64) * 256 + (data[cs + 1] as u64);
                fields.push("cipher_suites_count", FieldValue::Number(cs_len / 2));
            }
        } else {
            if data.len() > cs + 1 {
                let suite = (data[cs] as u16) * 256 + (data[cs + 1] as u16);
                fields.push("selected_cipher_suite", hex_u16_text(suite));
            }
            if data.len() > cs + 2 {
                fields.push("compression_method", FieldValue::Number(data[cs + 2] as u64));
            }
        }
    }
    fields
}

/// Counts the certificate entries of a `Certificate` body.
fn count_certificates(data: &[u8], chain_len: usize) -> (r: usize)
    requires
        chain_len < 16777216,
    ensures
        r == certificate_count_from(data@, 3, 3 + chain_len),
{
    let mut count: usize = 0;
    let mut pos: usize = 3;
    let limit: usize = 3 + chain_len;
    while pos < data.len() && pos < limit
        invariant
            3 <= pos,
            limit == 3 + chain_len,
            count <= pos,
            count + certificate_count_from(data@, pos as int, limit as int) == certificate_count_from(
                data@,
                3,
                limit as int,
            ),
        decreases data@.len() - pos,
    {
        if data.len() - pos >= 3 {
            let cert_len = (data[pos] as usize) * 65536 + (data[pos + 1] as usize) * 256
                + (data[pos + 2] as usize);
            count = count + 1;
            if cert_len >= data.len() - pos - 3 {
                proof {
                    assert(certificate_count_from(
                        data@,
                        pos + 3 + cert_len,
                        limit as int,
                    ) == 0);
                }
                return count;
            }
            pos = pos + 3 + cert_len;
        } else {
            return count;
        }
    }
    count
}

/// Decodes the body of a handshake message of type `msg_type`.
pub fn parse_handshake_fields(msg_type: u8, data: &[u8]) -> (r: Option<FieldMap>)
    ensures
        r matches Some(m) ==> handshake_fields(msg_type, data@) == Some(m@),
        r is None ==> handshake_fields(msg_type, data@) is None,
{
    if msg_type == 1 || msg_type == 2 {
        if data.len() < 34 {
            return None;
        }
        Some(parse_hello_fields(msg_type == 1, data))
    } else if msg_type == 8 {
        if data.len() < 3 {
            return None;
        }
        let chain_len = (data[0] as usize) * 65536 + (data[1] as usize) * 256 + (data[2] as usize);
        let mut fields = FieldMap::new();
        fields.push("certificate_chain_length", FieldValue::Number(chain_len as u64));
        let count = count_certificates(data, chain_len);
        fields.push("certificate_count", FieldValue::Number(count as u64));
        Some(fields)
    } else if msg_type == 12 {
        let mut fields = FieldMap::new();
        fields.push("verification_data_length", FieldValue::Number(data.len() as u64));
        if data.len() > 0 {
            let shown: usize = if data.len() < 16 {
                data.len()
            } else {
                16
            };
            let mut preview = bytes_to_hex(&data[0..shown]);
            if data.len() > 16 {
                push_str(&mut preview, "...");
            } else {
                assert(data@.subrange(0, shown as int) =~= data@);
            }
            proof {
                if data.len() > 16 {
                    assert(data@.subrange(0, 16) =~= data@.take(16));
                }
            }
            fields.push("verification_data_preview", FieldValue::Text(preview));
        }
        Some(fields)
    } else {
        let mut fields = FieldMap::new();
        fields.push("payload_length", FieldValue::Number(data.len() as u64));
        Some(fields)
    }
}

/// The decoded fields of a `NewSessionTicket` body (after its type byte),
/// or `None` when the body is shorter than its lengths say.
pub open spec fn new_session_ticket_fields(d: Seq<u8>) -> Option<Seq<(Seq<char>, FieldValueView)>> {
    if d.len() < 10 {
        None
    } else {
        let lifetime = be32(d[1], d[2], d[3], d[4]);
        let age_add = be32(d[5], d[6], d[7], d[8]);
        let nonce_len = d[9] as int;
        if 10 + nonce_len > d.len() {
            None
        } else {
            let pos = 10 + nonce_len;
            if pos + 2 > d.len() {
                None
            } else {
                let ticket_len = be16(d[pos], d[pos + 1]) as int;
                let tpos = pos + 2;
                if tpos + ticket_len > d.len() {
                    None
                } else {
                    let end = tpos + ticket_len;
                    let base = seq![
                        number_field("lifetime_seconds"@, lifetime),
                        number_field("age_add"@, age_add),
                        text_field("nonce_hex"@, hex_of(d.subrange(10, pos))),
                        number_field("nonce_length"@, nonce_len as nat),
                        text_field("ticket_hex"@, hex_of(d.subrange(tpos, end))),
                        number_field("ticket_length"@, ticket_len as nat),
                    ];
                    if end + 2 <= d.len() {
                        Some(base.push(number_field("extensions_length"@, be16(d[end], d[end + 1]))))
                    } else {
                        Some(base)
                    }
                }
            }
        }
    }
}

/// Decodes a `NewSessionTicket` message: lifetime, age add, nonce, ticket
/// and, when present, the length of its extensions.
pub fn parse_new_session_ticket(data: &[u8]) -> (r: Option<FieldMap>)
    ensures
        r matches Some(m) ==> new_session_ticket_fields(data@) == Some(m@),
        r is None ==> new_session_ticket_fields(data@) is None,
{
    if data.len() < 10 {
        return None;
    }
    let lifetime = (data[1] as u64) * 16777216 + (data[2] as u64) * 65536 + (data[3] as u64) * 256
        + (data[4] as u64);
    let age_add = (data[5] as u64) * 16777216 + (data[6] as u64) * 65536 + (data[7] as u64) * 256
        + (data[8] as u64);
    let nonce_len = data[9] as usize;
    if nonce_len > data.len() - 10 {
        return None;
    }
    let pos = 10 + nonce_len;
    if data.len() - pos < 2 {
        return None;
    }
    let ticket_len = (data[pos] as usize) * 256 + (data[pos + 1] as usize);
    let tpos = pos + 2;
    if ticket_len > data.len() - tpos {
        return None;
    }
    let end = tpos + ticket_len;
    let mut fields = FieldMap::new();
    fields.push("lifetime_seconds", FieldValue::Number(lifetime));
    fields.push("age_add", FieldValue::Number(age_add));
    fields.push("nonce_hex", FieldValue::Text(bytes_to_hex(&data[10..pos])));
    fields.push("nonce_length", FieldValue::Number(nonce_len as u64));
    fields.push("ticket_hex", FieldValue::Text(bytes_to_hex(&data[tpos..end])));
    fields.push("ticket_length", FieldValue::Number(ticket_len as u64));
    if data.len() - end >= 2 {
        let ext_len = (data[end] as u64) * 256 + (data[end + 1] as u64);
        fields.push("extensions_length", FieldValue::Number(ext_len));
    }
    Some(fields)
}

/// The decoded fields of a handshake message, and of a session ticket, name
/// each field once, as the keys of a map would.
pub proof fn law_decoded_fields_are_distinct(t: u8, d: Seq<u8>)
    ensures
        handshake_fields(t, d) matches Some(m) ==> distinct_keys(m),
        new_session_ticket_fields(d) matches Some(m) ==> distinct_keys(m),
{
    reveal_strlit("client_version");
    reveal_strlit("server_version");
    reveal_strlit("random");
    reveal_strlit("session_id_length");
    reveal_strlit("cipher_suites_count");
    reveal_strlit("selected_cipher_suite");
    reveal_strlit("compression_method");
    reveal_strlit("certificate_chain_length");
    reveal_strlit("certificate_count");
    reveal_strlit("verification_data_length");
    reveal_strlit("verification_data_preview");
    reveal_strlit("payload_length");
    reveal_strlit("lifetime_seconds");
    reveal_strlit("age_add");
    reveal_strlit("nonce_hex");
    reveal_strlit("nonce_length");
    reveal_strlit("ticket_hex");
    reveal_strlit("ticket_length");
    reveal_strlit("extensions_length");
    if let Some(m) = handshake_fields(t, d) {
        lemma_distinct_by_length(m);
    }
    if let Some(m) = new_session_ticket_fields(d) {
        lemma_distinct_by_length(m);
    }
}

/// A `ServerHello` body laid out as version, random, session id with its
/// length byte, cipher suite and compression method decodes each field from
/// its own place: the suite and compression are read after the session id,
/// whatever its length.
pub proof fn law_server_hello_layout(
    version: Seq<u8>,
    random: Seq<u8>,
    sid: Seq<u8>,
    suite: Seq<u8>,
    comp: u8,
    rest: Seq<u8>,
)
    requires
        version.len() == 2,
        random.len() == 32,
        sid.len() < 256,
        suite.len() == 2,
    ensures
        ({
            let d = version + random + seq![sid.len() as u8] + sid + suite + seq![comp] + rest;
            let f = handshake_fields(2, d);
            &&& f is Some
            &&& lookup(f->0, "server_version"@) == Some(
                FieldValueView::Text(
                    "0x"@ + hex_u16((version[0] as nat * 256 + version[1] as nat) as u16),
                ),
            )
            &&& lookup(f->0, "random"@) == Some(FieldValueView::Text(hex_of(random)))
            &&& lookup(f->0, "session_id_length"@) == Some(
                FieldValueView::Number(sid.len() as u64),
            )
            &&& lookup(f->0, "selected_cipher_suite"@) == Some(
                FieldValueView::Text(
                    "0x"@ + hex_u16((suite[0] as nat * 256 + suite[1] as nat) as u16),
                ),
            )
            &&& lookup(f->0, "compression_method"@) == Some(FieldValueView::Number(comp as u64))
        }),
{
    let d = version + random + seq![sid.len() as u8] + sid + suite + seq![comp] + rest;
    let n = sid.len() as int;
    assert(d[0] == version[0] && d[1] == version[1]);
    assert(d.subrange(2, 34) =~= random);
    assert(d[34] == sid.len() as u8);
    assert(d[34] as int == n);
    assert(d[35 + n] == suite[0]);
    assert(d[36 + n] == suite[1]);
    assert(d[37 + n] == comp);
    assert(d.len() > 37 + n);
    reveal_strlit("server_version");
    reveal_strlit("random");
    reveal_strlit("session_id_length");
    reveal_strlit("selected_cipher_suite");
    reveal_strlit("compression_method");
    let m = handshake_fields(2, d)->0;
    let v = text_field(
        "server_version"@,
        "0x"@ + hex_u16((version[0] as nat * 256 + version[1] as nat) as u16),
    );
    let r = text_field("random"@, hex_of(random));
    let l = number_field("session_id_length"@, n as nat);
    let c = text_field(
        "selected_cipher_suite"@,
        "0x"@ + hex_u16((suite[0] as nat * 256 + suite[1] as nat) as u16),
    );
    let p = number_field("compression_method"@, comp as nat);
    assert(m =~= seq![v, r, l, c, p]);
    lemma_lookup_at(m, 0, "server_version"@);
    lemma_lookup_at(m, 1, "random"@);
    lemma_lookup_at(m, 2, "session_id_length"@);
    lemma_lookup_at(m, 3, "selected_cipher_suite"@);
    lemma_lookup_at(m, 4, "compression_method"@);
}

/// The lookup of the key at position `i` finds that entry when no entry
/// before it has a key of the same length.
proof fn lemma_lookup_at(m: Seq<(Seq<char>, FieldValueView)>, i: int, key: Seq<char>)
    requires
        0 <= i < m.len(),
        m[i].0 == key,
        forall|j: int| 0 <= j < i ==> (#[trigger] m[j]).0.len() != key.len(),
    ensures
        lookup(m, key) == Some(m[i].1),
{
    lemma_lookup_from_at(m, 0, i, key);
}

/// The induction behind [`lemma_lookup_at`].
proof fn lemma_lookup_from_at(m: Seq<(Seq<char>, FieldValueView)>, k: int, i: int, key: Seq<char>)
    requires
        0 <= k <= i < m.len(),
        m[i].0 == key,
        forall|j: int| 0 <= j < i ==> (#[trigger] m[j]).0.len() != key.len(),
    ensures
        lookup_from(m, key, k) == Some(m[i].1),
    decreases i - k,
{
    if k < i {
        assert(m[k].0.len() != key.len());
        lemma_lookup_from_at(m, k + 1, i, key);
    }
}

/// A `ClientHello` body laid out as version, random, session id with its
/// length byte, then the cipher-suite list length decodes the number of
/// suites from the two bytes after the session id, whatever its length.
pub proof fn law_client_hello_layout(
    version: Seq<u8>,
    random: Seq<u8>,
    sid: Seq<u8>,
    suites_len: Seq<u8>,
    rest: Seq<u8>,
)
    requires
        version.len() == 2,
        random.len() == 32,
        sid.len() < 256,
        suites_len.len() == 2,
    ensures
        ({
            let d = version + random + seq![sid.len() as u8] + sid + suites_len + rest;
            let f = handshake_fields(1, d);
            &&& f is Some
            &&& lookup(f->0, "client_version"@) == Some(
                FieldValueView::Text(
                    "0x"@ + hex_u16((version[0] as nat * 256 + version[1] as nat) as u16),
                ),
            )
            &&& lookup(f->0, "random"@) == Some(FieldValueView::Text(hex_of(random)))
            &&& lookup(f->0, "session_id_length"@) == Some(
                FieldValueView::Number(sid.len() as u64),
            )
            &&& lookup(f->0, "cipher_suites_count"@) == Some(
                FieldValueView::Number(
                    ((suites_len[0] as nat * 256 + suites_len[1] as nat) / 2) as u64,
                ),
            )
        }),
{
    let d = version + random + seq![sid.len() as u8] + sid + suites_len + rest;
    let n = sid.len() as int;
    assert(d[0] == version[0] && d[1] == version[1]);
    assert(d.subrange(2, 34) =~= random);
    assert(d[34] == sid.len() as u8);
    assert(d[34] as int == n);
    assert(d[35 + n] == suites_len[0]);
    assert(d[36 + n] == suites_len[1]);
    assert(d.len() > 36 + n);
    reveal_strlit("client_version");
    reveal_strlit("random");
    reveal_strlit("session_id_length");
    reveal_strlit("cipher_suites_count");
    let m = handshake_fields(1, d)->0;
    let v = text_field(
        "client_version"@,
        "0x"@ + hex_u16((version[0] as nat * 256 + version[1] as nat) as u16),
    );
    let r = text_field("random"@, hex_of(random));
    let l = number_field("session_id_length"@, n as nat);
    let c = number_field(
        "cipher_suites_count"@,
        (suites_len[0] as nat * 256 + suites_len[1] as nat) / 2,
    );
    assert(m =~= seq![v, r, l, c]);
    lemma_lookup_at(m, 0, "client_version"@);
    lemma_lookup_at(m, 1, "random"@);
    lemma_lookup_at(m, 2, "session_id_length"@);
    lemma_lookup_at(m, 3, "cipher_suites_count"@);
}

/// A session ticket that decodes shows its lifetime and age add as the
/// big-endian 32-bit numbers after the type byte, and the lengths of its
/// nonce and ticket as they are written.
pub proof fn law_session_ticket_numbers(d: Seq<u8>)
    requires
        new_session_ticket_fields(d) is Some,
    ensures
        ({
            let m = new_session_ticket_fields(d)->0;
            &&& lookup(m, "lifetime_seconds"@) == Some(
                FieldValueView::Number(
                    (d[1] as nat * 16777216 + d[2] as nat * 65536 + d[3] as nat * 256
                        + d[4] as nat) as u64,
                ),
            )
            &&& lookup(m, "age_add"@) == Some(
                FieldValueView::Number(
                    (d[5] as nat * 16777216 + d[6] as nat * 65536 + d[7] as nat * 256
                        + d[8] as nat) as u64,
                ),
            )
            &&& lookup(m, "nonce_length"@) == Some(FieldValueView::Number(d[9] as u64))
            &&& lookup(m, "nonce_hex"@) == Some(
                FieldValueView::Text(hex_of(d.subrange(10, 10 + d[9] as int))),
            )
        }),
{
    reveal_strlit("lifetime_seconds");
    reveal_strlit("age_add");
    reveal_strlit("nonce_hex");
    reveal_strlit("nonce_length");
    let m = new_session_ticket_fields(d)->0;
    assert(m[0].0 == "lifetime_seconds"@ && m[1].0 == "age_add"@ && m[2].0 == "nonce_hex"@
        && m[3].0 == "nonce_length"@);
    lemma_lookup_at(m, 0, "lifetime_seconds"@);
    lemma_lookup_at(m, 1, "age_add"@);
    lemma_lookup_at(m, 2, "nonce_hex"@);
    lemma_lookup_at(m, 3, "nonce_length"@);
}

/// Writing a lifetime as four big-endian bytes after the type byte and
/// decoding the ticket gives that lifetime back, for every 32-bit lifetime.
pub proof fn law_session_ticket_lifetime_round_trip(lifetime: u32, rest: Seq<u8>)
    requires
        new_session_ticket_fields(
            seq![
                4u8,
                (lifetime / 16777216) as u8,
                ((lifetime / 65536) % 256) as u8,
                ((lifetime / 256) % 256) as u8,
                (lifetime % 256) as u8,
            ] + rest,
        ) is Some,
    ensures
        lookup(
            new_session_ticket_fields(
                seq![
                    4u8,
                    (lifetime / 16777216) as u8,
                    ((lifetime / 65536) % 256) as u8,
                    ((lifetime / 256) % 256) as u8,
                    (lifetime % 256) as u8,
                ] + rest,
            )->0,
            "lifetime_seconds"@,
        ) == Some(FieldValueView::Number(lifetime as u64)),
{
    let d = seq![
        4u8,
        (lifetime / 16777216) as u8,
        ((lifetime / 65536) % 256) as u8,
        ((lifetime / 256) % 256) as u8,
        (lifetime % 256) as u8,
    ] + rest;
    law_session_ticket_numbers(d);
    assert(d[1] == (lifetime / 16777216) as u8 && d[2] == ((lifetime / 65536) % 256) as u8 && d[3]
        == ((lifetime / 256) % 256) as u8 && d[4] == (lifetime % 256) as u8);
    assert((lifetime / 16777216) as u8 as nat * 16777216 + ((lifetime / 65536) % 256) as u8 as nat
        * 65536 + ((lifetime / 256) % 256) as u8 as nat * 256 + (lifetime % 256) as u8 as nat
        == lifetime) by (nonlinear_arith);
}

} // verus!
