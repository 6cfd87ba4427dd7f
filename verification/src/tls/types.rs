//! The data that an analysis reports.
use vstd::prelude::*;

use crate::tls::fields::{FieldMap, FieldValueView};

verus! {

/// The model of a list of strings.
pub open spec fn strings_view(v: Seq<String>) -> Seq<Seq<char>> {
    v.map_values(|s: String| s@)
}

/// Pushing a string pushes its model.
pub proof fn lemma_strings_view_push(v: Seq<String>, s: String)
    ensures
        strings_view(v.push(s)) == strings_view(v).push(s@),
{
    assert(strings_view(v.push(s)) =~= strings_view(v).push(s@));
}

/// The whole report on one server.
#[derive(Debug)]
pub struct TLSAnalysisReport {
    pub host: String,
    pub port: u16,
    pub timestamp: u64,
    pub tls_version: String,
    pub cipher_suite: String,
    pub handshake_details: HandshakeDetails,
    pub handshake_messages: HandshakeFlow,
    pub encryption_negotiation: EncryptionNegotiation,
    pub http_exchange: HttpExchange,
    pub certificate_chain: Vec<CertificateInfo>,
    pub post_quantum_analysis: PostQuantumAnalysis,
    pub extracted_secrets: Option<ExtractedSecretsInfo>,
    pub decryption_debug: Option<DecryptionDebugInfo>,
}

/// The handshake messages, with the hellos singled out.
#[derive(Debug)]
pub struct HandshakeFlow {
    pub client_hello: Option<HandshakeMessage>,
    pub server_hello: Option<HandshakeMessage>,
    pub subsequent_messages: Vec<HandshakeMessage>,
}

/// Counts of the encrypted records seen and decrypted.
#[derive(Debug)]
pub struct DecryptionDebugInfo {
    pub total_encrypted_records_captured: usize,
    pub encrypted_from_server: usize,
    pub encrypted_from_client: usize,
    pub successfully_decrypted: usize,
}

/// The application traffic secrets of both directions, rendered.
#[derive(Debug)]
pub struct ExtractedSecretsInfo {
    pub note: String,
    pub tx_secrets: TrafficSecretsInfo,
    pub rx_secrets: TrafficSecretsInfo,
    pub decryption_capabilities: DecryptionCapabilities,
}

/// What the extracted secrets can and cannot decrypt.
#[derive(Debug)]
pub struct DecryptionCapabilities {
    pub can_decrypt: Vec<String>,
    pub cannot_decrypt: Vec<String>,
    pub explanation: String,
}

/// One direction's traffic secret, rendered.
#[derive(Debug)]
pub struct TrafficSecretsInfo {
    pub sequence_number: u64,
    pub algorithm: String,
    pub key_hex: String,
    pub iv_hex: String,
    pub key_size_bits: usize,
}

/// One handshake message seen on the wire or inferred.
#[derive(Debug)]
pub struct HandshakeMessage {
    pub sequence: usize,
    pub direction: String,
    pub message_type: String,
    pub size: usize,
    pub description: String,
    pub fields: Option<FieldMap>,
    pub inferred: bool,
}

/// The model of a [`HandshakeMessage`].
pub struct MessageView {
    pub sequence: usize,
    pub direction: Seq<char>,
    pub message_type: Seq<char>,
    pub size: usize,
    pub description: Seq<char>,
    pub fields: Option<Seq<(Seq<char>, FieldValueView)>>,
    pub inferred: bool,
}

/// The model of optional fields.
pub open spec fn opt_fields_view(f: Option<FieldMap>) -> Option<Seq<(Seq<char>, FieldValueView)>> {
    match f {
        Some(m) => Some(m@),
        None => None,
    }
}

impl View for HandshakeMessage {
    type V = MessageView;

    open spec fn view(&self) -> MessageView {
        MessageView {
            sequence: self.sequence,
            direction: self.direction@,
            message_type: self.message_type@,
            size: self.size,
            description: self.description@,
            fields: opt_fields_view(self.fields),
            inferred: self.inferred,
        }
    }
}

/// The model of a list of messages.
pub open spec fn messages_view(v: Seq<HandshakeMessage>) -> Seq<MessageView> {
    v.map_values(|m: HandshakeMessage| m@)
}

/// Pushing a message pushes its model.
pub proof fn lemma_messages_view_push(v: Seq<HandshakeMessage>, m: HandshakeMessage)
    ensures
        messages_view(v.push(m)) == messages_view(v).push(m@),
{
    assert(messages_view(v.push(m)) =~= messages_view(v).push(m@));
}

/// Taking one more message takes one more model.
pub proof fn lemma_messages_view_take(v: Seq<HandshakeMessage>, i: int)
    requires
        0 <= i < v.len(),
    ensures
        messages_view(v.take(i + 1)) == messages_view(v.take(i)).push(v[i]@),
{
    assert(messages_view(v.take(i + 1)) =~= messages_view(v.take(i)).push(v[i]@));
}

/// What the client offered in its hello.
#[derive(Debug)]
pub struct HandshakeDetails {
    pub supported_versions: Vec<String>,
    pub key_share: String,
    pub signature_algorithms: Vec<String>,
    pub supported_groups: Vec<String>,
}

/// The HTTP request and response sent over the connection.
#[derive(Debug)]
pub struct HttpExchange {
    pub request: HttpMessage,
    pub response: HttpMessage,
}

/// One HTTP message, as plaintext and as it travels encrypted.
#[derive(Debug)]
pub struct HttpMessage {
    pub plaintext: PlaintextData,
    pub encrypted: EncryptedData,
    pub encryption_analysis: EncryptionAnalysis,
}

/// The plaintext of an HTTP message.
#[derive(Debug)]
pub struct PlaintextData {
    pub content: String,
    pub size_bytes: usize,
}

/// How an HTTP message travels in TLS records.
#[derive(Debug)]
pub struct EncryptedData {
    pub tls_record_type: String,
    pub tls_record_type_code: u8,
    pub ciphertext_preview: String,
    pub total_encrypted_size: usize,
    pub content_type_in_record: String,
}

/// The bytes that encryption adds to an HTTP message.
#[derive(Debug)]
pub struct EncryptionAnalysis {
    pub encryption_overhead: usize,
    pub record_header_size: usize,
    pub authentication_tag_size: usize,
    pub content_type_byte: usize,
    pub content_type_padding: String,
    pub total_size_with_record_header: usize,
    pub encryption_note: String,
}

/// What the negotiated cipher suite means.
#[derive(Debug)]
pub struct EncryptionNegotiation {
    pub cipher_suite_code: String,
    pub cipher_suite_name: String,
    pub encryption_algorithm: CipherAlgorithm,
    pub mac_algorithm: Option<MacAlgorithm>,
    pub aead_details: Option<AeadDetails>,
    pub key_exchange: KeyExchangeDetails,
    pub signature_algorithm: String,
    pub secret_derivation: SecretDerivation,
}

/// How the session secrets are derived.
#[derive(Debug)]
pub struct SecretDerivation {
    pub client_random: String,
    pub server_random: String,
    pub randoms_combined_length: usize,
    pub key_derivation_function: String,
    pub prf_hash_algorithm: String,
    pub derived_secrets: Vec<DerivedSecret>,
}

/// The bulk cipher.
#[derive(Debug)]
pub struct CipherAlgorithm {
    pub algorithm: String,
    pub mode: String,
    pub key_bits: usize,
    pub block_size: usize,
}

/// A separate MAC, where the suite has one.
#[derive(Debug)]
pub struct MacAlgorithm {
    pub algorithm: String,
    pub hash_bits: usize,
    pub output_bits: usize,
}

/// The AEAD parameters.
#[derive(Debug)]
pub struct AeadDetails {
    pub algorithm: String,
    pub key_bits: usize,
    pub nonce_bits: usize,
    pub tag_bits: usize,
    pub plaintext_record_size_limit: usize,
}

/// The key exchange.
#[derive(Debug)]
pub struct KeyExchangeDetails {
    pub algorithm: String,
    pub group: String,
    pub forward_secrecy: bool,
}

/// One secret of the key schedule.
#[derive(Debug)]
pub struct DerivedSecret {
    pub name: String,
    pub purpose: String,
    pub length_bits: usize,
    pub kdf_formula: String,
}

/// One certificate of the chain, rendered.
#[derive(Debug)]
pub struct CertificateInfo {
    pub subject: String,
    pub issuer: String,
    pub not_before: String,
    pub not_after: String,
    pub serial_number: String,
    pub fingerprint_sha256: String,
    pub key_type: String,
    pub key_size: Option<usize>,
    pub subject_alt_names: Vec<String>,
    pub extensions: Vec<ExtensionInfo>,
}

/// One certificate extension.
#[derive(Debug)]
pub struct ExtensionInfo {
    pub oid: String,
    pub critical: bool,
    pub name: String,
}

/// How ready the connection is for post-quantum cryptography.
#[derive(Debug)]
pub struct PostQuantumAnalysis {
    pub hybrid_ready: bool,
    pub hybrid_approach_available: bool,
    pub pqc_algorithms_available: Vec<String>,
    pub recommended_hybrid_suites: Vec<String>,
    pub hybrid_key_exchange: HybridKeyExchange,
    pub post_quantum_readiness: PostQuantumReadiness,
    pub migration_strategy: MigrationStrategy,
}

/// A hybrid classical and post-quantum key exchange.
#[derive(Debug)]
pub struct HybridKeyExchange {
    pub classical_key_agreement: ClassicalKeyAgreement,
    pub post_quantum_key_agreement: PostQuantumKeyAgreement,
    pub hybrid_secret_derivation: String,
}

/// The classical half of a hybrid key exchange.
#[derive(Debug)]
pub struct ClassicalKeyAgreement {
    pub algorithm: String,
    pub curve: String,
    pub key_size_bits: usize,
    pub estimated_security_bits: usize,
}

/// The post-quantum half of a hybrid key exchange.
#[derive(Debug)]
pub struct PostQuantumKeyAgreement {
    pub algorithms: Vec<PQCAlgorithm>,
    pub recommended: String,
    pub hybrid_with_classical: bool,
}

/// One post-quantum algorithm.
#[derive(Debug)]
pub struct PQCAlgorithm {
    pub name: String,
    pub family: String,
    pub key_size_bits: usize,
    pub ciphertext_size_bits: usize,
    pub shared_secret_size_bits: usize,
    pub estimated_quantum_security_bits: usize,
    pub status: String,
}

/// The verdict on post-quantum readiness.
#[derive(Debug)]
pub struct PostQuantumReadiness {
    pub quantum_safe: bool,
    pub hybrid_ready: bool,
    pub pqc_key_exchange_offered: bool,
    pub pqc_signature_offered: bool,
    pub recommendation: String,
}

/// The steps towards post-quantum security.
#[derive(Debug)]
pub struct MigrationStrategy {
    pub current_security_level: String,
    pub post_quantum_security_level: String,
    pub implementation_priority: String,
    pub timeline: String,
    pub action_items: Vec<String>,
}

/// Session resumption as the handshake shows it.
#[derive(Debug)]
pub struct SessionTicketInfo {
    pub is_session_resumption_supported: bool,
    pub new_session_ticket_message: bool,
    pub ticket_lifetime_seconds: u32,
    pub ticket_age_add: u32,
    pub ticket_nonce: String,
    pub resumption_master_secret: ResumptionSecret,
    pub pre_shared_key: PreSharedKeyInfo,
    pub resumption_instructions: ResumptionInstructions,
}

/// The resumption master secret.
#[derive(Debug)]
pub struct ResumptionSecret {
    pub secret_type: String,
    pub derivation: String,
    pub purpose: String,
    pub length_bits: usize,
}

/// The pre-shared key mode of resumption.
#[derive(Debug)]
pub struct PreSharedKeyInfo {
    pub mode: String,
    pub identity_obfuscation: String,
    pub early_exporter_master_secret: bool,
    pub max_early_data_size: usize,
    pub psk_key_exchange_mode: String,
}

/// The steps of a resumption.
#[derive(Debug)]
pub struct ResumptionInstructions {
    pub step_1: String,
    pub step_2: String,
    pub step_3: String,
    pub step_4: String,
    pub expected_obfuscated_ticket_age: String,
    pub psk_identity_format: String,
}

impl HandshakeMessage {
    /// A copy with the same model.
    pub fn duplicate(&self) -> (r: HandshakeMessage)
        ensures
            r@ == self@,
    {
        let fields = match &self.fields {
            Some(m) => Some(m.duplicate()),
            None => None,
        };
        HandshakeMessage {
            sequence: self.sequence,
            direction: self.direction.clone(),
            message_type: self.message_type.clone(),
            size: self.size,
            description: self.description.clone(),
            fields,
            inferred: self.inferred,
        }
    }
}

/// The model of an optional message.
pub open spec fn opt_message_view(m: Option<HandshakeMessage>) -> Option<MessageView> {
    match m {
        Some(x) => Some(x@),
        None => None,
    }
}

/// The messages of a flow in order: the client hello, the server hello, then the rest.
pub open spec fn flow_messages(
    client_hello: Option<MessageView>,
    server_hello: Option<MessageView>,
    rest: Seq<MessageView>,
) -> Seq<MessageView> {
    let a = match client_hello {
        Some(m) => seq![m],
        None => Seq::empty(),
    };
    let b = match server_hello {
        Some(m) => seq![m],
        None => Seq::empty(),
    };
    a + b + rest
}

impl HandshakeFlow {
    /// All messages of the flow: the client hello, the server hello, then the rest.
    pub fn all_messages(&self) -> (r: Vec<HandshakeMessage>)
        ensures
            messages_view(r@) == flow_messages(
                opt_message_view(self.client_hello),
                opt_message_view(self.server_hello),
                messages_view(self.subsequent_messages@),
            ),
    {
        let mut messages: Vec<HandshakeMessage> = Vec::new();
        if let Some(ch) = &self.client_hello {
            messages.push(ch.duplicate());
        }
        if let Some(sh) = &self.server_hello {
            messages.push(sh.duplicate());
        }
        let ghost head = messages_view(messages@);
        assert(head =~= flow_messages(
            opt_message_view(self.client_hello),
            opt_message_view(self.server_hello),
            Seq::empty(),
        ));
        let mut i: usize = 0;
        while i < self.subsequent_messages.len()
            invariant
                i <= self.subsequent_messages@.len(),
                messages_view(messages@) == head + messages_view(
                    self.subsequent_messages@.take(i as int),
                ),
            decreases self.subsequent_messages@.len() - i,
        {
            let m = self.subsequent_messages[i].duplicate();
            proof {
                lemma_messages_view_push(messages@, m);
                lemma_messages_view_take(self.subsequent_messages@, i as int);
            }
            messages.push(m);
            assert(messages_view(messages@) =~= head + messages_view(
                self.subsequent_messages@.take(i + 1),
            ));
            i = i + 1;
        }
        assert(self.subsequent_messages@.take(i as int) =~= self.subsequent_messages@);
        messages
    }
}

} // verus!

verus! {

/// The AEAD cipher of a traffic secret.
#[derive(Debug, Clone, Copy)]
pub enum TrafficCipher {
    Aes128Gcm,
    Aes256Gcm,
    Chacha20Poly1305,
    /// A cipher this analysis does not handle.
    Unsupported,
}

/// A traffic key and IV of one direction of a connection.
#[derive(Debug)]
pub struct TrafficSecret {
    pub cipher: TrafficCipher,
    pub key: Vec<u8>,
    pub iv: [u8; 12],
}

/// The model of a [`TrafficSecret`].
pub struct TrafficSecretView {
    pub cipher: TrafficCipher,
    pub key: Seq<u8>,
    pub iv: Seq<u8>,
}

impl View for TrafficSecret {
    type V = TrafficSecretView;

    open spec fn view(&self) -> TrafficSecretView {
        TrafficSecretView { cipher: self.cipher, key: self.key@, iv: self.iv@ }
    }
}

/// The traffic secrets of both directions, each with the sequence number
/// of the next record it protects.
#[derive(Debug)]
pub struct ExtractedSecrets {
    pub tx: (u64, TrafficSecret),
    pub rx: (u64, TrafficSecret),
}

/// The model of [`ExtractedSecrets`].
pub struct SecretsView {
    pub tx: (u64, TrafficSecretView),
    pub rx: (u64, TrafficSecretView),
}

impl View for ExtractedSecrets {
    type V = SecretsView;

    open spec fn view(&self) -> SecretsView {
        SecretsView { tx: (self.tx.0, self.tx.1@), rx: (self.rx.0, self.rx.1@) }
    }
}

} // verus!
