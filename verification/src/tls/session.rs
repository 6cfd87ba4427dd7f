//! Session resumption as the handshake shows it.
use vstd::prelude::*;

use crate::error::TlsError;
use crate::text::{contains_seq, owned, str_contains, str_eq};
use crate::tls::types::{
    HandshakeMessage,
    PreSharedKeyInfo,
    ResumptionInstructions,
    ResumptionSecret,
    SessionTicketInfo,
};

verus! {

/// Some message of `messages` is a `NewSessionTicket`.
pub open spec fn has_session_ticket(messages: Seq<HandshakeMessage>) -> bool {
    exists|i: int| 0 <= i < messages.len() && #[trigger] messages[i].message_type@ == "NewSessionTicket"@
}

/// Whether a session ticket was received: a `NewSessionTicket` message was
/// seen, or the connection is TLS 1.3 and data followed the handshake.
pub open spec fn ticket_received(tls_version: Seq<char>, messages: Seq<HandshakeMessage>, post: bool) -> bool {
    has_session_ticket(messages) || (contains_seq(tls_version, "1.3"@) && post)
}

/// `t` is the session resumption account for a connection of `tls_version`
/// that did (`received`) or did not receive a session ticket.
pub open spec fn is_session_ticket_info(t: SessionTicketInfo, tls13: bool, received: bool) -> bool {
    &&& t.is_session_resumption_supported == (tls13 && received)
    &&& t.new_session_ticket_message == received
    &&& t.ticket_lifetime_seconds == 604800
    &&& t.ticket_age_add == 2147483647
    &&& t.ticket_nonce@ == "(encrypted, not captured)"@
    &&& t.resumption_master_secret.secret_type@ == "PSK (Pre-Shared Key)"@
    &&& t.resumption_master_secret.derivation@
        == "HKDF-Expand-Label(Master Secret, 'res master', hash)"@
    &&& t.resumption_master_secret.purpose@
        == "Base for deriving pre-shared key identity and binder"@
    &&& t.resumption_master_secret.length_bits == if tls13 {
        384nat
    } else {
        256nat
    }
    &&& t.pre_shared_key.mode@ == if received {
        "PSK with ECDHE (psk_dhe_ke)"@
    } else {
        "Not supported"@
    }
    &&& t.pre_shared_key.identity_obfuscation@ == "Ticket age is obfuscated with ticket_age_add"@
    &&& !t.pre_shared_key.early_exporter_master_secret
    &&& t.pre_shared_key.max_early_data_size == if received {
        16384nat
    } else {
        0nat
    }
    &&& t.pre_shared_key.psk_key_exchange_mode@ == if received {
        "psk_dhe_ke (recommended)"@
    } else {
        "None"@
    }
    &&& t.resumption_instructions.step_1@
        == "Server sends NewSessionTicket message (encrypted in TLS 1.3)"@
    &&& t.resumption_instructions.step_2@
        == "Client stores ticket and derives obfuscated_ticket_age for next connection"@
    &&& t.resumption_instructions.step_3@
        == "On resumption, client sends PSK identity in ClientHello pre_shared_key extension"@
    &&& t.resumption_instructions.step_4@
        == "Server validates ticket and resumes session without full handshake"@
    &&& t.resumption_instructions.expected_obfuscated_ticket_age@
        == "Verified by server's ticket validation"@
    &&& t.resumption_instructions.psk_identity_format@
        == "{ identity: opaque<1..2^16-1>, obfuscated_ticket_age: uint32 }"@
}

/// Whether some message is a `NewSessionTicket`.
fn any_session_ticket(messages: &[HandshakeMessage]) -> (r: bool)
    ensures
        r == has_session_ticket(messages@),
{
    let mut i: usize = 0;
    while i < messages.len()
        invariant
            i <= messages@.len(),
            forall|j: int| 0 <= j < i ==> messages@[j].message_type@ != "NewSessionTicket"@,
        decreases messages@.len() - i,
    {
        if str_eq(messages[i].message_type.as_str(), "NewSessionTicket") {
            return true;
        }
        i = i + 1;
    }
    false
}

/// What the handshake shows of session resumption: whether a ticket came
/// (a `NewSessionTicket` message, or TLS 1.3 with data after the handshake),
/// and the resumption parameters of the protocol version.
pub fn build_session_ticket_info(
    tls_version: &str,
    messages: &[HandshakeMessage],
    has_post_handshake_data: bool,
) -> (r: Result<SessionTicketInfo, TlsError>)
    ensures
        r matches Ok(t) && is_session_ticket_info(
            t,
            contains_seq(tls_version@, "1.3"@),
            ticket_received(tls_version@, messages@, has_post_handshake_data),
        ),
{
    let is_tls13 = str_contains(tls_version, "1.3");
    let received = any_session_ticket(messages) || (is_tls13 && has_post_handshake_data);
    Ok(
        SessionTicketInfo {
            is_session_resumption_supported: is_tls13 && received,
            new_session_ticket_message: received,
            ticket_lifetime_seconds: 604800,
            ticket_age_add: 2147483647,
            ticket_nonce: owned("(encrypted, not captured)"),
            resumption_master_secret: ResumptionSecret {
                secret_type: owned("PSK (Pre-Shared Key)"),
                derivation: owned("HKDF-Expand-Label(Master Secret, 'res master', hash)"),
                purpose: owned("Base for deriving pre-shared key identity and binder"),
                length_bits: if is_tls13 {
                    384
                } else {
                    256
                },
            },
            pre_shared_key: PreSharedKeyInfo {
                mode: if received {
                    owned("PSK with ECDHE (psk_dhe_ke)")
                } else {
                    owned("Not supported")
                },
                identity_obfuscation: owned("Ticket age is obfuscated with ticket_age_add"),
                early_exporter_master_secret: false,
                max_early_data_size: if received {
                    16384
                } else {
                    0
                },
                psk_key_exchange_mode: if received {
                    owned("psk_dhe_ke (recommended)")
                } else {
                    owned("None")
                },
            },
            resumption_instructions: ResumptionInstructions {
                step_1: owned("Server sends NewSessionTicket message (encrypted in TLS 1.3)"),
                step_2: owned(
                    "Client stores ticket and derives obfuscated_ticket_age for next connection",
                ),
                step_3: owned(
                    "On resumption, client sends PSK identity in ClientHello pre_shared_key extension",
                ),
                step_4: owned("Server validates ticket and resumes session without full handshake"),
                expected_obfuscated_ticket_age: owned("Verified by server's ticket validation"),
                psk_identity_format: owned(
                    "{ identity: opaque<1..2^16-1>, obfuscated_ticket_age: uint32 }",
                ),
            },
        },
    )
}

/// Resumption is reported only for TLS 1.3 connections that received a
/// ticket; without a ticket no early data is allowed.
pub proof fn resumption_needs_tls13_and_ticket(t: SessionTicketInfo, tls13: bool, received: bool)
    requires
        is_session_ticket_info(t, tls13, received),
    ensures
        t.is_session_resumption_supported ==> tls13 && t.new_session_ticket_message,
        !t.new_session_ticket_message ==> t.pre_shared_key.max_early_data_size == 0,
{
}

/// A `NewSessionTicket` message seen in the handshake means a ticket was
/// received, whatever the version: resumption by pre-shared key with ECDHE
/// and early data up to 16384 bytes are reported. Without one, a ticket is
/// reported only for TLS 1.3 with data after the handshake.
pub proof fn law_seen_ticket_is_reported(
    t: SessionTicketInfo,
    tls_version: Seq<char>,
    messages: Seq<HandshakeMessage>,
    post: bool,
)
    requires
        is_session_ticket_info(
            t,
            contains_seq(tls_version, "1.3"@),
            ticket_received(tls_version, messages, post),
        ),
    ensures
        (exists|i: int|
            0 <= i < messages.len() && #[trigger] messages[i].message_type@
                == "NewSessionTicket"@) ==> {
            &&& t.new_session_ticket_message
            &&& t.pre_shared_key.mode@ == "PSK with ECDHE (psk_dhe_ke)"@
            &&& t.pre_shared_key.max_early_data_size == 16384
        },
        t.new_session_ticket_message == ((exists|i: int|
            0 <= i < messages.len() && #[trigger] messages[i].message_type@
                == "NewSessionTicket"@) || (contains_seq(tls_version, "1.3"@) && post)),
        t.is_session_resumption_supported == (contains_seq(tls_version, "1.3"@)
            && t.new_session_ticket_message),
{
}

} // verus!
