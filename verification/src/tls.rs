//! Analysis of a TLS connection: the parts that decode, classify and
//! assemble what was observed. Connecting and exchanging bytes is left to
//! the caller, which feeds what it saw to [`stream::TrackedStream`] and
//! hands the rest to [`build_report`].
use vstd::prelude::*;
use vstd::string::*;

pub mod certificates;
pub mod crypto;
pub mod encryption;
pub mod fields;
pub mod handshake;
pub mod http;
pub mod pqc;
pub mod session;
pub mod stream;
pub mod types;

use crate::error::TlsError;
use crate::text::{hex_u16, owned, push_hex_u16, push_str, str_eq};
use crate::tls::certificates::{cert_info_is, parse_certificate_chain, x509_parses};
use crate::tls::encryption::{
    build_encryption_negotiation,
    build_extracted_secrets_info,
    is_secrets_info,
    negotiation_for,
    secrets_supported,
};
use crate::tls::fields::{lookup, FieldValueView};
use crate::tls::http::{build_http_exchange, is_http_exchange};
use crate::tls::pqc::{
    build_post_quantum_analysis_with_messages,
    is_mlkem_server_hello,
    is_post_quantum_analysis,
    mlkem_server_hello_view,
};
use crate::tls::stream::{final_messages, is_debug_info, TrackedStream, TrackerView};
use crate::tls::types::{
    flow_messages,
    lemma_messages_view_push,
    lemma_strings_view_push,
    messages_view,
    opt_message_view,
    strings_view,
    DecryptionDebugInfo,
    ExtractedSecrets,
    HandshakeDetails,
    HandshakeFlow,
    HandshakeMessage,
    MessageView,
    SecretsView,
    TLSAnalysisReport,
};

verus! {

/// The label of a protocol version: TLS 1.2 and 1.3 by name and code,
/// `Unknown` when none was negotiated, else `other` (how the caller
/// renders that version).
pub open spec fn tls_version_label(version: Option<u16>, other: Seq<char>) -> Seq<char> {
    match version {
        Some(v) => if v == 0x0303 {
            "TLS 1.2 (0x0303)"@
        } else if v == 0x0304 {
            "TLS 1.3 (0x0304)"@
        } else {
            other
        },
        None => "Unknown"@,
    }
}

/// The label of the negotiated protocol version (see [`tls_version_label`]).
pub fn get_tls_version(version: Option<u16>, other: &str) -> (r: String)
    ensures
        r@ == tls_version_label(version, other@),
{
    match version {
        Some(v) => if v == 0x0303 {
            owned("TLS 1.2 (0x0303)")
        } else if v == 0x0304 {
            owned("TLS 1.3 (0x0304)")
        } else {
            owned(other)
        },
        None => owned("Unknown"),
    }
}

/// The label of a cipher suite: its name (`Unknown` when it has none) and
/// its code in hex, or `Unknown` when no suite was negotiated.
pub open spec fn cipher_suite_label(suite: Option<(Option<Seq<char>>, u16)>) -> Seq<char> {
    match suite {
        Some((name, code)) => (match name {
            Some(n) => n,
            None => "Unknown"@,
        }) + " ("@ + "0x"@ + hex_u16(code) + ")"@,
        None => "Unknown"@,
    }
}

/// The label of the negotiated cipher suite (see [`cipher_suite_label`]).
pub fn get_cipher_suite(suite: Option<(Option<&str>, u16)>) -> (r: String)
    ensures
        r@ == cipher_suite_label(
            match suite {
                Some((n, c)) => Some(
                    (
                        match n {
                            Some(s) => Some(s@),
                            None => None,
                        },
                        c,
                    ),
                ),
                None => None,
            },
        ),
{
    match suite {
        Some((name, code)) => {
            let mut s = match name {
                Some(n) => owned(n),
                None => owned("Unknown"),
            };
            let ghost head = s@;
            push_str(&mut s, " (");
            push_hex_u16(&mut s, code);
            push_str(&mut s, ")");
            assert(s@ =~= head + " ("@ + "0x"@ + hex_u16(code) + ")"@);
            s
        },
        None => owned("Unknown"),
    }
}

/// The key share the client offers.
pub fn get_key_share_info() -> (r: String)
    ensures
        r@ == "x25519 (secp256r1, x448)"@,
{
    owned("x25519 (secp256r1, x448)")
}

/// The hello parameters the client offers.
pub open spec fn is_default_handshake_details(d: HandshakeDetails, key_share: Seq<char>) -> bool {
    &&& strings_view(d.supported_versions@) == seq!["TLS 1.3 (0x0304)"@]
    &&& d.key_share@ == key_share
    &&& strings_view(d.signature_algorithms@) == seq![
        "rsa_pss_rsae_sha256"@,
        "rsa_pss_rsae_sha384"@,
        "rsa_pss_rsae_sha512"@,
        "rsa_pkcs1_sha256"@,
        "rsa_pkcs1_sha384"@,
        "ecdsa_secp256r1_sha256"@,
        "ecdsa_secp384r1_sha384"@,
    ]
    &&& strings_view(d.supported_groups@) == seq![
        "secp256r1 (P-256)"@,
        "secp384r1 (P-384)"@,
        "secp521r1 (P-521)"@,
        "x25519"@,
        "x448"@,
    ]
}

/// Appends `s` to a list of strings.
fn push_owned(v: &mut Vec<String>, s: &str)
    ensures
        strings_view(final(v)@) == strings_view(old(v)@).push(s@),
{
    let o = owned(s);
    proof {
        lemma_strings_view_push(v@, o);
    }
    v.push(o);
}

/// The hello parameters the client offers, with this key share.
pub fn build_handshake_details(key_share: String) -> (r: HandshakeDetails)
    ensures
        is_default_handshake_details(r, key_share@),
{
    let mut versions: Vec<String> = Vec::new();
    push_owned(&mut versions, "TLS 1.3 (0x0304)");
    let mut sigs: Vec<String> = Vec::new();
    push_owned(&mut sigs, "rsa_pss_rsae_sha256");
    push_owned(&mut sigs, "rsa_pss_rsae_sha384");
    push_owned(&mut sigs, "rsa_pss_rsae_sha512");
    push_owned(&mut sigs, "rsa_pkcs1_sha256");
    push_owned(&mut sigs, "rsa_pkcs1_sha384");
    push_owned(&mut sigs, "ecdsa_secp256r1_sha256");
    push_owned(&mut sigs, "ecdsa_secp384r1_sha384");
    let mut groups: Vec<String> = Vec::new();
    push_owned(&mut groups, "secp256r1 (P-256)");
    push_owned(&mut groups, "secp384r1 (P-384)");
    push_owned(&mut groups, "secp521r1 (P-521)");
    push_owned(&mut groups, "x25519");
    push_owned(&mut groups, "x448");
    assert(strings_view(versions@) =~= seq!["TLS 1.3 (0x0304)"@]);
    assert(strings_view(sigs@) =~= seq![
        "rsa_pss_rsae_sha256"@,
        "rsa_pss_rsae_sha384"@,
        "rsa_pss_rsae_sha512"@,
        "rsa_pkcs1_sha256"@,
        "rsa_pkcs1_sha384"@,
        "ecdsa_secp256r1_sha256"@,
        "ecdsa_secp384r1_sha384"@,
    ]);
    assert(strings_view(groups@) =~= seq![
        "secp256r1 (P-256)"@,
        "secp384r1 (P-384)"@,
        "secp521r1 (P-521)"@,
        "x25519"@,
        "x448"@,
    ]);
    HandshakeDetails {
        supported_versions: versions,
        key_share,
        signature_algorithms: sigs,
        supported_groups: groups,
    }
}

/// The `random` field of `m` when `m` is of type `kind` and carries one as text.
pub open spec fn random_field(m: MessageView, kind: Seq<char>) -> Option<Seq<char>> {
    if m.message_type == kind {
        match m.fields {
            Some(f) => match lookup(f, "random"@) {
                Some(FieldValueView::Text(t)) => Some(t),
                _ => None,
            },
            None => None,
        }
    } else {
        None
    }
}

/// The random of the last message of type `kind` that carries one, or
/// `(not captured)`.
pub open spec fn last_random(ms: Seq<MessageView>, kind: Seq<char>) -> Seq<char>
    decreases ms.len(),
{
    if ms.len() == 0 {
        "(not captured)"@
    } else {
        match random_field(ms.last(), kind) {
            Some(t) => t,
            None => last_random(ms.drop_last(), kind),
        }
    }
}

/// The `random` of `m` when it is a message of type `kind` that carries one.
fn message_random(m: &HandshakeMessage, kind: &str) -> (r: Option<String>)
    ensures
        r matches Some(s) ==> random_field(m@, kind@) == Some(s@),
        r is None ==> random_field(m@, kind@) is None,
{
    if !str_eq(m.message_type.as_str(), kind) {
        return None;
    }
    match &m.fields {
        Some(f) => match f.get("random") {
            Some(v) => match v.as_text() {
                Some(t) => Some(t.clone()),
                None => None,
            },
            None => None,
        },
        None => None,
    }
}

/// The client and server randoms of the last hellos that carry them.
pub fn extract_randoms_from_messages(messages: &[HandshakeMessage]) -> (r: (String, String))
    ensures
        r.0@ == last_random(messages_view(messages@), "ClientHello"@),
        r.1@ == last_random(messages_view(messages@), "ServerHello"@),
{
    let ghost ms = messages_view(messages@);
    let mut client_random = owned("(not captured)");
    let mut server_random = owned("(not captured)");
    let mut i: usize = 0;
    while i < messages.len()
        invariant
            i <= messages@.len(),
            ms == messages_view(messages@),
            client_random@ == last_random(ms.take(i as int), "ClientHello"@),
            server_random@ == last_random(ms.take(i as int), "ServerHello"@),
        decreases messages@.len() - i,
    {
        assert(ms.take(i + 1).drop_last() =~= ms.take(i as int));
        assert(ms.take(i + 1).last() == messages@[i as int]@);
        if let Some(c) = message_random(&messages[i], "ClientHello") {
            client_random = c;
        }
        if let Some(s) = message_random(&messages[i], "ServerHello") {
            server_random = s;
        }
        i = i + 1;
    }
    assert(ms.take(i as int) =~= ms);
    (client_random, server_random)
}

/// The last message of type `kind`.
pub open spec fn last_of_kind(ms: Seq<MessageView>, kind: Seq<char>) -> Option<MessageView>
    decreases ms.len(),
{
    if ms.len() == 0 {
        None
    } else if ms.last().message_type == kind {
        Some(ms.last())
    } else {
        last_of_kind(ms.drop_last(), kind)
    }
}

/// The messages that are neither a `ClientHello` nor a `ServerHello`, in order.
pub open spec fn non_hello_messages(ms: Seq<MessageView>) -> Seq<MessageView>
    decreases ms.len(),
{
    if ms.len() == 0 {
        seq![]
    } else if ms.last().message_type == "ClientHello"@ || ms.last().message_type == "ServerHello"@ {
        non_hello_messages(ms.drop_last())
    } else {
        non_hello_messages(ms.drop_last()).push(ms.last())
    }
}

/// Singles out the hellos: the last `ClientHello`, the last `ServerHello`,
/// and every other message in order.
pub fn build_handshake_flow(messages: &[HandshakeMessage]) -> (r: HandshakeFlow)
    ensures
        opt_message_view(r.client_hello) == last_of_kind(messages_view(messages@), "ClientHello"@),
        opt_message_view(r.server_hello) == last_of_kind(messages_view(messages@), "ServerHello"@),
        messages_view(r.subsequent_messages@) == non_hello_messages(messages_view(messages@)),
{
    let ghost ms = messages_view(messages@);
    let mut client_hello: Option<HandshakeMessage> = None;
    let mut server_hello: Option<HandshakeMessage> = None;
    let mut subsequent: Vec<HandshakeMessage> = Vec::new();
    let mut i: usize = 0;
    assert(ms.take(0) =~= Seq::<MessageView>::empty());
    assert(messages_view(subsequent@) =~= Seq::<MessageView>::empty());
    while i < messages.len()
        invariant
            i <= messages@.len(),
            ms == messages_view(messages@),
            opt_message_view(client_hello) == last_of_kind(ms.take(i as int), "ClientHello"@),
            opt_message_view(server_hello) == last_of_kind(ms.take(i as int), "ServerHello"@),
            messages_view(subsequent@) == non_hello_messages(ms.take(i as int)),
        decreases messages@.len() - i,
    {
        assert(ms.take(i + 1).drop_last() =~= ms.take(i as int));
        assert(ms.take(i + 1).last() == messages@[i as int]@);
        let msg = &messages[i];
        if str_eq(msg.message_type.as_str(), "ClientHello") {
            proof {
                reveal_strlit("ClientHello");
                reveal_strlit("ServerHello");
                assert("ClientHello"@[0] != "ServerHello"@[0]);
            }
            client_hello = Some(msg.duplicate());
        } else if str_eq(msg.message_type.as_str(), "ServerHello") {
            proof {
                reveal_strlit("ClientHello");
                reveal_strlit("ServerHello");
                assert("ClientHello"@[0] != "ServerHello"@[0]);
            }
            server_hello = Some(msg.duplicate());
        } else {
            let m = msg.duplicate();
            proof {
                lemma_messages_view_push(subsequent@, m);
            }
            subsequent.push(m);
        }
        i = i + 1;
    }
    assert(ms.take(i as int) =~= ms);
    HandshakeFlow { client_hello, server_hello, subsequent_messages: subsequent }
}

/// The message is a hello of either side.
pub open spec fn is_hello(m: MessageView) -> bool {
    m.message_type == "ClientHello"@ || m.message_type == "ServerHello"@
}

/// With no message of type `kind` after position `j`, the last one of that
/// type is the one at `j`.
pub proof fn lemma_last_of_kind_at(ms: Seq<MessageView>, kind: Seq<char>, j: int)
    requires
        0 <= j < ms.len(),
        ms[j].message_type == kind,
        forall|i: int| j < i < ms.len() ==> ms[i].message_type != kind,
    ensures
        last_of_kind(ms, kind) == Some(ms[j]),
    decreases ms.len(),
{
    if ms.len() - 1 != j {
        assert(ms.drop_last()[j] == ms[j]);
        lemma_last_of_kind_at(ms.drop_last(), kind, j);
    }
}

/// With the hellos at the front and no other hello, the rest is every
/// message after them.
pub proof fn lemma_non_hello_tail(ms: Seq<MessageView>)
    requires
        ms.len() >= 2,
        is_hello(ms[0]),
        is_hello(ms[1]),
        forall|i: int| 2 <= i < ms.len() ==> !is_hello(#[trigger] ms[i]),
    ensures
        non_hello_messages(ms) == ms.skip(2),
    decreases ms.len(),
{
    if ms.len() == 2 {
        let a = ms.drop_last();
        assert(a.last() == ms[0]);
        assert(ms.last() == ms[1]);
        assert(non_hello_messages(ms) == non_hello_messages(a));
        assert(a.drop_last().len() == 0);
        assert(non_hello_messages(a) == non_hello_messages(a.drop_last()));
        assert(non_hello_messages(a.drop_last()) =~= Seq::<MessageView>::empty());
        assert(ms.skip(2) =~= Seq::<MessageView>::empty());
    } else {
        let a = ms.drop_last();
        assert forall|i: int| 2 <= i < a.len() implies !is_hello(#[trigger] a[i]) by {
            assert(a[i] == ms[i]);
        }
        lemma_non_hello_tail(a);
        assert(!is_hello(ms[ms.len() - 1]));
        assert(non_hello_messages(ms) == non_hello_messages(a).push(ms.last()));
        assert(ms.skip(2) =~= a.skip(2).push(ms.last()));
    }
}

/// A handshake that opens with the client's hello and then the server's,
/// with no other hello, is given back in its order by the flow's messages:
/// singling out the hellos loses and reorders nothing.
pub proof fn law_flow_round_trip(ms: Seq<MessageView>)
    requires
        ms.len() >= 2,
        ms[0].message_type == "ClientHello"@,
        ms[1].message_type == "ServerHello"@,
        forall|i: int| 2 <= i < ms.len() ==> !is_hello(#[trigger] ms[i]),
    ensures
        flow_messages(
            last_of_kind(ms, "ClientHello"@),
            last_of_kind(ms, "ServerHello"@),
            non_hello_messages(ms),
        ) == ms,
{
    reveal_strlit("ClientHello");
    reveal_strlit("ServerHello");
    assert("ClientHello"@[0] != "ServerHello"@[0]);
    assert forall|i: int| 0 < i < ms.len() implies ms[i].message_type != "ClientHello"@ by {
        if i >= 2 {
            assert(!is_hello(ms[i]));
        }
    }
    assert forall|i: int| 1 < i < ms.len() implies ms[i].message_type != "ServerHello"@ by {
        assert(!is_hello(ms[i]));
    }
    lemma_last_of_kind_at(ms, "ClientHello"@, 0);
    lemma_last_of_kind_at(ms, "ServerHello"@, 1);
    lemma_non_hello_tail(ms);
    assert(seq![ms[0]] + seq![ms[1]] + ms.skip(2) =~= ms);
}

/// Number of messages of type `kind`.
pub open spec fn count_of_kind(ms: Seq<MessageView>, kind: Seq<char>) -> nat
    decreases ms.len(),
{
    if ms.len() == 0 {
        0
    } else {
        count_of_kind(ms.drop_last(), kind) + if ms.last().message_type == kind {
            1nat
        } else {
            0nat
        }
    }
}

/// With no message of type `kind` there is no last one.
proof fn lemma_none_of_kind(ms: Seq<MessageView>, kind: Seq<char>)
    requires
        count_of_kind(ms, kind) == 0,
    ensures
        last_of_kind(ms, kind) is None,
    decreases ms.len(),
{
    if ms.len() > 0 {
        lemma_none_of_kind(ms.drop_last(), kind);
    }
}

/// The messages of a flow, as a multiset: each hello present, and the rest.
proof fn lemma_flow_multiset(ch: Option<MessageView>, sh: Option<MessageView>, rest: Seq<MessageView>)
    ensures
        flow_messages(ch, sh, rest).to_multiset() =~= (match ch {
            Some(m) => seq![m],
            None => Seq::<MessageView>::empty(),
        }).to_multiset().add(
            (match sh {
                Some(m) => seq![m],
                None => Seq::<MessageView>::empty(),
            }).to_multiset(),
        ).add(rest.to_multiset()),
{
    let a = match ch {
        Some(m) => seq![m],
        None => Seq::<MessageView>::empty(),
    };
    let b = match sh {
        Some(m) => seq![m],
        None => Seq::<MessageView>::empty(),
    };
    vstd::seq_lib::lemma_multiset_commutative(a + b, rest);
    vstd::seq_lib::lemma_multiset_commutative(a, b);
}

/// With at most one hello of each side, singling out the hellos loses and
/// adds nothing: the flow's messages are the messages themselves, as a
/// multiset, with the hellos moved to the front.
pub proof fn law_flow_keeps_every_message(ms: Seq<MessageView>)
    requires
        count_of_kind(ms, "ClientHello"@) <= 1,
        count_of_kind(ms, "ServerHello"@) <= 1,
    ensures
        flow_messages(
            last_of_kind(ms, "ClientHello"@),
            last_of_kind(ms, "ServerHello"@),
            non_hello_messages(ms),
        ).to_multiset() =~= ms.to_multiset(),
    decreases ms.len(),
{
    broadcast use vstd::seq_lib::group_to_multiset_ensures, vstd::multiset::group_multiset_axioms;

    reveal_strlit("ClientHello");
    reveal_strlit("ServerHello");
    assert("ClientHello"@[0] != "ServerHello"@[0]);
    let ch = "ClientHello"@;
    let sh = "ServerHello"@;
    if ms.len() == 0 {
        assert(flow_messages(None, None, seq![]) =~= Seq::<MessageView>::empty());
    } else {
        let a = ms.drop_last();
        let x = ms.last();
        assert(a.push(x) =~= ms);
        law_flow_keeps_every_message(a);
        lemma_flow_multiset(last_of_kind(a, ch), last_of_kind(a, sh), non_hello_messages(a));
        lemma_flow_multiset(last_of_kind(ms, ch), last_of_kind(ms, sh), non_hello_messages(ms));
        if x.message_type == ch {
            lemma_none_of_kind(a, ch);
            assert(seq![x].to_multiset() =~= vstd::multiset::Multiset::<MessageView>::empty().insert(x)) by {
                assert(seq![x] =~= Seq::<MessageView>::empty().push(x));
            }
        } else if x.message_type == sh {
            lemma_none_of_kind(a, sh);
            assert(seq![x].to_multiset() =~= vstd::multiset::Multiset::<MessageView>::empty().insert(x)) by {
                assert(seq![x] =~= Seq::<MessageView>::empty().push(x));
            }
        } else {
            assert(non_hello_messages(ms) == non_hello_messages(a).push(x));
        }
    }
}

/// The HTTP request sent to `host`.
pub open spec fn http_request_text(host: Seq<char>) -> Seq<char> {
    "GET / HTTP/1.1\r\nHost: "@ + host + "\r\nUser-Agent: tls-outputter\r\nConnection: close\r\n\r\n"@
}

/// The HTTP request sent to `host`.
pub fn build_http_request(host: &str) -> (r: String)
    ensures
        r@ == http_request_text(host@),
{
    let mut s = owned("GET / HTTP/1.1\r\nHost: ");
    push_str(&mut s, host);
    push_str(&mut s, "\r\nUser-Agent: tls-outputter\r\nConnection: close\r\n\r\n");
    s
}

/// The certificates the server presented, or the error when it presented
/// none: `NoCertificateReceived` when there were none at all,
/// `EmptyCertificateChain` when the list was empty.
pub fn check_peer_certificates(peer_certs: Option<Vec<Vec<u8>>>, host: &str) -> (r: Result<
    Vec<Vec<u8>>,
    TlsError,
>)
    ensures
        peer_certs is None ==> (r matches Err(TlsError::NoCertificateReceived { host: h }) && h@
            == host@),
        peer_certs matches Some(c) ==> (c@.len() == 0 ==> r matches Err(
            TlsError::EmptyCertificateChain,
        )),
        peer_certs matches Some(c) ==> (c@.len() > 0 ==> (r matches Ok(v) && v == c)),
{
    match peer_certs {
        None => Err(TlsError::NoCertificateReceived { host: owned(host) }),
        Some(c) => if c.len() == 0 {
            Err(TlsError::EmptyCertificateChain)
        } else {
            Ok(c)
        },
    }
}

/// The extracted-secrets part of a report: absent without secrets, else the
/// secrets rendered and the count of records they decrypted.
pub open spec fn secrets_part_is(r: TLSAnalysisReport, st: TrackerView, secrets: Option<SecretsView>) -> bool {
    match secrets {
        None => r.extracted_secrets is None && r.decryption_debug is None,
        Some(s) => {
            &&& r.extracted_secrets matches Some(i) && is_secrets_info(i, s)
            &&& r.decryption_debug matches Some(d) && is_debug_info(d, st, s)
        },
    }
}

/// `r` reports on `host:port` at `timestamp` what the connection showed:
/// version and suite labels, the offered hello parameters, the messages the
/// recorder `st` reports (see [`final_messages`]) arranged around the hellos,
/// the meaning of the suite (with the hellos' randoms), the HTTP exchange,
/// the certificate chain, the post-quantum analysis, and the extracted
/// secrets when there are some.
pub open spec fn is_report(
    r: TLSAnalysisReport,
    host: Seq<char>,
    port: u16,
    timestamp: u64,
    tls_version: Seq<char>,
    cipher_suite: Seq<char>,
    key_share: Seq<char>,
    certs: Seq<Vec<u8>>,
    st: TrackerView,
    secrets: Option<SecretsView>,
    http_request: &str,
    http_response: &str,
) -> bool {
    let ms = final_messages(st, secrets);
    &&& r.host@ == host
    &&& r.port == port
    &&& r.timestamp == timestamp
    &&& r.tls_version@ == tls_version
    &&& r.cipher_suite@ == cipher_suite
    &&& is_default_handshake_details(r.handshake_details, key_share)
    &&& opt_message_view(r.handshake_messages.client_hello) == last_of_kind(ms, "ClientHello"@)
    &&& opt_message_view(r.handshake_messages.server_hello) == last_of_kind(ms, "ServerHello"@)
    &&& messages_view(r.handshake_messages.subsequent_messages@) == non_hello_messages(ms)
    &&& negotiation_for(
        r.encryption_negotiation,
        cipher_suite,
        last_random(ms, "ClientHello"@),
        last_random(ms, "ServerHello"@),
    )
    &&& is_http_exchange(r.http_exchange, http_request, http_response)
    &&& r.certificate_chain@.len() == certs.len()
    &&& forall|i: int|
        0 <= i < certs.len() ==> cert_info_is(#[trigger] r.certificate_chain@[i], certs[i]@)
    &&& is_post_quantum_analysis(
        r.post_quantum_analysis,
        r.encryption_negotiation.cipher_suite_name@,
        r.encryption_negotiation.key_exchange.group@,
        exists|i: int| 0 <= i < ms.len() && mlkem_server_hello_view(#[trigger] ms[i]),
    )
    &&& secrets_part_is(r, st, secrets)
}

/// The model of optional secrets.
pub open spec fn opt_secrets_view(s: Option<ExtractedSecrets>) -> Option<SecretsView> {
    match s {
        Some(x) => Some(x@),
        None => None,
    }
}

/// The messages the recorder reports and, with secrets, the count of
/// records they decrypted.
fn recorded_messages(recorder: TrackedStream, secrets: &Option<ExtractedSecrets>) -> (r: (
    Vec<HandshakeMessage>,
    Option<DecryptionDebugInfo>,
))
    requires
        recorder.wf(),
    ensures
        messages_view(r.0@) == final_messages(recorder@, opt_secrets_view(*secrets)),
        match secrets {
            None => r.1 is None,
            Some(s) => r.1 matches Some(d) && is_debug_info(d, recorder@, s@),
        },
{
    match secrets {
        None => (recorder.extract_messages(), None),
        Some(s) => match recorder.extract_messages_with_secrets(s) {
            Ok((ms, dbg)) => (ms, Some(dbg)),
            Err(_) => (Vec::new(), None),
        },
    }
}

/// Assembles the report on a connection from what was observed: the
/// version and suite labels, the server's certificates (DER), the recorder
/// that saw the connection's bytes, the traffic secrets when they could be
/// extracted, and the HTTP request and response. Fails when the server
/// presented no certificate or one that does not parse, or when a secret is
/// of a cipher this analysis does not handle.
pub fn build_report(
    host: &str,
    port: u16,
    timestamp: u64,
    tls_version: String,
    cipher_suite: String,
    key_share: String,
    peer_certs: Option<Vec<Vec<u8>>>,
    recorder: TrackedStream,
    secrets: Option<ExtractedSecrets>,
    http_request: &str,
    http_response: &str,
) -> (r: Result<TLSAnalysisReport, TlsError>)
    requires
        recorder.wf(),
        peer_certs matches Some(c) ==> forall|i: int|
            0 <= i < c@.len() ==> #[trigger] c@[i]@.len() * 8 <= usize::MAX,
        http_request.spec_bytes().len() + 22 <= usize::MAX,
        http_response.spec_bytes().len() + 22 <= usize::MAX,
    ensures
        peer_certs is None ==> (r matches Err(TlsError::NoCertificateReceived { host: h }) && h@
            == host@),
        peer_certs matches Some(c) ==> (c@.len() == 0 ==> r matches Err(
            TlsError::EmptyCertificateChain,
        )),
        peer_certs matches Some(c) ==> c@.len() > 0 ==> {
            let parse_ok = forall|i: int| 0 <= i < c@.len() ==> x509_parses(#[trigger] c@[i]@);
            let secrets_ok = secrets matches Some(s) ==> secrets_supported(s@);
            &&& r is Ok <==> parse_ok && secrets_ok
            &&& !parse_ok ==> (r matches Err(TlsError::CertificateParsing))
            &&& parse_ok && !secrets_ok ==> (r matches Err(TlsError::SecretExtraction { .. }))
            &&& r matches Ok(rep) ==> is_report(
                rep,
                host@,
                port,
                timestamp,
                tls_version@,
                cipher_suite@,
                key_share@,
                c@,
                recorder@,
                opt_secrets_view(secrets),
                http_request,
                http_response,
            )
        },
{
    let ghost st = recorder@;
    let certs = match check_peer_certificates(peer_certs, host) {
        Ok(c) => c,
        Err(e) => {
            return Err(e);
        },
    };
    let certificate_chain = match parse_certificate_chain(certs.as_slice()) {
        Ok(chain) => chain,
        Err(e) => {
            return Err(e);
        },
    };
    let extracted_secrets = match &secrets {
        None => None,
        Some(s) => match build_extracted_secrets_info(s) {
            Ok(info) => Some(info),
            Err(e) => {
                return Err(e);
            },
        },
    };
    let (messages, decryption_debug) = recorded_messages(recorder, &secrets);
    let ghost ms = messages_view(messages@);
    let handshake_details = build_handshake_details(key_share);
    let (client_random, server_random) = extract_randoms_from_messages(messages.as_slice());
    let encryption_negotiation = match build_encryption_negotiation(
        cipher_suite.as_str(),
        client_random.as_str(),
        server_random.as_str(),
    ) {
        Ok(n) => n,
        Err(e) => {
            return Err(e);
        },
    };
    let http_exchange = match build_http_exchange(http_request, http_response) {
        Ok(x) => x,
        Err(e) => {
            return Err(e);
        },
    };
    let post_quantum_analysis = build_post_quantum_analysis_with_messages(
        &encryption_negotiation,
        messages.as_slice(),
    );
    proof {
        assert forall|i: int| 0 <= i < messages@.len() implies #[trigger] ms[i] == messages@[i]@ by {}
        assert((exists|i: int| 0 <= i < messages@.len() && is_mlkem_server_hello(
            #[trigger] messages@[i],
        )) == (exists|i: int| 0 <= i < ms.len() && mlkem_server_hello_view(#[trigger] ms[i]))) by {
            if exists|i: int| 0 <= i < messages@.len() && is_mlkem_server_hello(
                #[trigger] messages@[i],
            ) {
                let i = choose|i: int| 0 <= i < messages@.len() && is_mlkem_server_hello(
                    #[trigger] messages@[i],
                );
                assert(ms[i] == messages@[i]@);
                assert(mlkem_server_hello_view(ms[i]));
            }
            if exists|i: int| 0 <= i < ms.len() && mlkem_server_hello_view(#[trigger] ms[i]) {
                let i = choose|i: int| 0 <= i < ms.len() && mlkem_server_hello_view(
                    #[trigger] ms[i],
                );
                assert(ms[i] == messages@[i]@);
                assert(is_mlkem_server_hello(messages@[i]));
            }
        }
    }
    let handshake_flow = build_handshake_flow(messages.as_slice());
    Ok(
        TLSAnalysisReport {
            host: owned(host),
            port,
            timestamp,
            tls_version,
            cipher_suite,
            handshake_details,
            handshake_messages: handshake_flow,
            encryption_negotiation,
            http_exchange,
            certificate_chain,
            post_quantum_analysis,
            extracted_secrets,
            decryption_debug,
        },
    )
}

} // verus!
