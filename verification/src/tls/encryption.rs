//! What a negotiated cipher suite means, and the rendering of extracted
//! traffic secrets.
use vstd::prelude::*;

use crate::error::TlsError;
use crate::text::{
    bytes_to_hex,
    chars_of,
    contains_seq,
    ends_with_seq,
    hex_of,
    owned,
    str_contains,
    str_ends_with,
};
use crate::tls::types::{
    strings_view,
    AeadDetails,
    CipherAlgorithm,
    DecryptionCapabilities,
    DerivedSecret,
    EncryptionNegotiation,
    ExtractedSecrets,
    ExtractedSecretsInfo,
    KeyExchangeDetails,
    SecretDerivation,
    SecretsView,
    TrafficCipher,
    TrafficSecret,
    TrafficSecretView,
    TrafficSecretsInfo,
};

verus! {

/// The position of the last `c` in `s`, or -1.
pub open spec fn last_index_of(s: Seq<char>, c: char) -> int
    decreases s.len(),
{
    if s.len() == 0 {
        -1
    } else if s.last() == c {
        s.len() - 1
    } else {
        last_index_of(s.drop_last(), c)
    }
}

/// The cipher suite code inside the trailing parentheses of a suite label,
/// such as `0x1302` in `TLS13_AES_256_GCM_SHA384 (0x1302)`: the text after
/// the last `(` (all of it when there is none) without its closing `)`, or
/// `0x0000` when it does not end with `)`.
pub open spec fn suite_code(cs: Seq<char>) -> Seq<char> {
    let seg = cs.skip(last_index_of(cs, '(') + 1);
    if ends_with_seq(seg, ")"@) {
        seg.drop_last()
    } else {
        "0x0000"@
    }
}

/// `d` is the secret `name` with this purpose, length and formula.
pub open spec fn secret_is(d: DerivedSecret, name: Seq<char>, purpose: Seq<char>, bits: nat, formula: Seq<char>) -> bool {
    &&& d.name@ == name
    &&& d.purpose@ == purpose
    &&& d.length_bits == bits
    &&& d.kdf_formula@ == formula
}

/// The eight secrets of the TLS 1.3 key schedule with a hash of `bits` bits.
pub open spec fn aead_secret_table(ds: Seq<DerivedSecret>, bits: nat) -> bool {
    &&& ds.len() == 8
    &&& secret_is(
        ds[0],
        "Early Secret"@,
        "Used for early data (0-RTT)"@,
        bits,
        "HKDF-Extract(salt=0, IKM=0x0000...)"@,
    )
    &&& secret_is(
        ds[1],
        "Handshake Secret"@,
        "Derives server_handshake_traffic_secret and client_handshake_traffic_secret"@,
        bits,
        "HKDF-Extract(salt=Early Secret, IKM=ECDHE shared secret)"@,
    )
    &&& secret_is(
        ds[2],
        "Server Handshake Traffic Secret"@,
        "Encrypts ServerHello, EncryptedExtensions, Certificate, CertificateVerify, Finished"@,
        bits,
        "HKDF-Expand-Label(Handshake Secret, 's hs traffic', ServerHello...Finished)"@,
    )
    &&& secret_is(
        ds[3],
        "Client Handshake Traffic Secret"@,
        "Encrypts Client Finished message"@,
        bits,
        "HKDF-Expand-Label(Handshake Secret, 'c hs traffic', ServerHello...Finished)"@,
    )
    &&& secret_is(
        ds[4],
        "Master Secret"@,
        "Base for all application traffic secrets"@,
        bits,
        "HKDF-Extract(salt=Handshake Secret, IKM=0x0000...)"@,
    )
    &&& secret_is(
        ds[5],
        "Server Application Traffic Secret 0"@,
        "Encrypts application data from server"@,
        bits,
        "HKDF-Expand-Label(Master Secret, 's ap traffic', ClientHello...Finished)"@,
    )
    &&& secret_is(
        ds[6],
        "Client Application Traffic Secret 0"@,
        "Encrypts application data from client"@,
        bits,
        "HKDF-Expand-Label(Master Secret, 'c ap traffic', ClientHello...Finished)"@,
    )
    &&& secret_is(
        ds[7],
        "Exporter Master Secret"@,
        "For exporters like SSLKEYLOGFILE"@,
        bits,
        "HKDF-Expand-Label(Master Secret, 'exp master', ClientHello...Finished)"@,
    )
}

/// The eight secrets listed for ChaCha20-Poly1305: the early secret, the six
/// handshake and application secrets in their ChaCha20 wording, and the
/// exporter master secret.
pub open spec fn chacha_secret_table(ds: Seq<DerivedSecret>) -> bool {
    &&& ds.len() == 8
    &&& secret_is(
        ds[0],
        "Early Secret"@,
        "Used for early data (0-RTT)"@,
        256,
        "HKDF-Extract(salt=0, IKM=0x0000...)"@,
    )
    &&& secret_is(
        ds[1],
        "Handshake Secret"@,
        "Derives handshake traffic secrets"@,
        256,
        "HKDF-Extract(salt=Early Secret, IKM=ECDHE shared secret)"@,
    )
    &&& secret_is(
        ds[2],
        "Server Handshake Traffic Secret"@,
        "Encrypts server handshake messages"@,
        256,
        "HKDF-Expand-Label(Handshake Secret, 's hs traffic', hash)"@,
    )
    &&& secret_is(
        ds[3],
        "Client Handshake Traffic Secret"@,
        "Encrypts client handshake messages"@,
        256,
        "HKDF-Expand-Label(Handshake Secret, 'c hs traffic', hash)"@,
    )
    &&& secret_is(
        ds[4],
        "Master Secret"@,
        "Base for application traffic secrets"@,
        256,
        "HKDF-Extract(salt=Handshake Secret, IKM=0x00...)"@,
    )
    &&& secret_is(
        ds[5],
        "Server Application Traffic Secret"@,
        "Encrypts server application data"@,
        256,
        "HKDF-Expand-Label(Master Secret, 's ap traffic', hash)"@,
    )
    &&& secret_is(
        ds[6],
        "Client Application Traffic Secret"@,
        "Encrypts client application data"@,
        256,
        "HKDF-Expand-Label(Master Secret, 'c ap traffic', hash)"@,
    )
    &&& secret_is(
        ds[7],
        "Exporter Master Secret"@,
        "For exporters like SSLKEYLOGFILE"@,
        256,
        "HKDF-Expand-Label(Master Secret, 'exp master', hash)"@,
    )
}

/// The two secrets listed for a suite this analysis does not know.
pub open spec fn unknown_secret_table(ds: Seq<DerivedSecret>) -> bool {
    &&& ds.len() == 2
    &&& secret_is(
        ds[0],
        "Handshake Secret"@,
        "Base secret for handshake phase"@,
        256,
        "HKDF-Extract(salt, IKM)"@,
    )
    &&& secret_is(
        ds[1],
        "Master Secret"@,
        "Base secret for application phase"@,
        256,
        "HKDF-Extract(salt, IKM)"@,
    )
}

/// `n` describes an AES-GCM suite with these parameters.
pub open spec fn is_aes_gcm_negotiation(
    n: EncryptionNegotiation,
    code: Seq<char>,
    name: Seq<char>,
    aead_name: Seq<char>,
    key_bits: nat,
    hash_bits: nat,
    hash_algo: Seq<char>,
    key_group: Seq<char>,
    sig_algo: Seq<char>,
    client_random: Seq<char>,
    server_random: Seq<char>,
) -> bool {
    &&& n.cipher_suite_code@ == code
    &&& n.cipher_suite_name@ == name
    &&& n.encryption_algorithm.algorithm@ == "AES"@
    &&& n.encryption_algorithm.mode@ == "GCM (Authenticated Encryption)"@
    &&& n.encryption_algorithm.key_bits == key_bits
    &&& n.encryption_algorithm.block_size == 128
    &&& n.mac_algorithm is None
    &&& n.aead_details matches Some(a) && a.algorithm@ == aead_name && a.key_bits == key_bits
        && a.nonce_bits == 96 && a.tag_bits == 128 && a.plaintext_record_size_limit == 16384
    &&& n.key_exchange.algorithm@ == "ECDHE (Elliptic Curve Diffie-Hellman Ephemeral)"@
    &&& n.key_exchange.group@ == key_group
    &&& n.key_exchange.forward_secrecy
    &&& n.signature_algorithm@ == sig_algo
    &&& n.secret_derivation.client_random@ == client_random
    &&& n.secret_derivation.server_random@ == server_random
    &&& n.secret_derivation.randoms_combined_length == 64
    &&& n.secret_derivation.key_derivation_function@
        == "HKDF (HMAC-based Extract-and-Expand Key Derivation Function)"@
    &&& n.secret_derivation.prf_hash_algorithm@ == hash_algo
    &&& aead_secret_table(n.secret_derivation.derived_secrets@, hash_bits)
}

/// `n` describes ChaCha20-Poly1305.
pub open spec fn is_chacha_negotiation(
    n: EncryptionNegotiation,
    code: Seq<char>,
    client_random: Seq<char>,
    server_random: Seq<char>,
) -> bool {
    &&& n.cipher_suite_code@ == code
    &&& n.cipher_suite_name@ == "TLS_CHACHA20_POLY1305_SHA256"@
    &&& n.encryption_algorithm.algorithm@ == "ChaCha20"@
    &&& n.encryption_algorithm.mode@ == "Poly1305 (Authenticated Encryption)"@
    &&& n.encryption_algorithm.key_bits == 256
    &&& n.encryption_algorithm.block_size == 512
    &&& n.mac_algorithm is None
    &&& n.aead_details matches Some(a) && a.algorithm@ == "ChaCha20-Poly1305"@ && a.key_bits
        == 256 && a.nonce_bits == 96 && a.tag_bits == 128 && a.plaintext_record_size_limit
        == 16384
    &&& n.key_exchange.algorithm@ == "ECDHE (Elliptic Curve Diffie-Hellman Ephemeral)"@
    &&& n.key_exchange.group@ == "x25519"@
    &&& n.key_exchange.forward_secrecy
    &&& n.signature_algorithm@ == "RSA-PSS-SHA256 or ECDSA-SHA256"@
    &&& n.secret_derivation.client_random@ == client_random
    &&& n.secret_derivation.server_random@ == server_random
    &&& n.secret_derivation.randoms_combined_length == 64
    &&& n.secret_derivation.key_derivation_function@
        == "HKDF (HMAC-based Extract-and-Expand Key Derivation Function)"@
    &&& n.secret_derivation.prf_hash_algorithm@ == "SHA-256"@
    &&& chacha_secret_table(n.secret_derivation.derived_secrets@)
}

/// `n` describes a suite this analysis does not know, named `cs`.
pub open spec fn is_unknown_negotiation(
    n: EncryptionNegotiation,
    code: Seq<char>,
    cs: Seq<char>,
    client_random: Seq<char>,
    server_random: Seq<char>,
) -> bool {
    &&& n.cipher_suite_code@ == code
    &&& n.cipher_suite_name@ == cs
    &&& n.encryption_algorithm.algorithm@ == "Unknown"@
    &&& n.encryption_algorithm.mode@ == "Unknown"@
    &&& n.encryption_algorithm.key_bits == 256
    &&& n.encryption_algorithm.block_size == 128
    &&& n.mac_algorithm is None
    &&& n.aead_details is None
    &&& n.key_exchange.algorithm@ == "ECDHE"@
    &&& n.key_exchange.group@ == "Unknown"@
    &&& n.key_exchange.forward_secrecy
    &&& n.signature_algorithm@ == "Unknown"@
    &&& n.secret_derivation.client_random@ == client_random
    &&& n.secret_derivation.server_random@ == server_random
    &&& n.secret_derivation.randoms_combined_length == 64
    &&& n.secret_derivation.key_derivation_function@ == "HKDF"@
    &&& n.secret_derivation.prf_hash_algorithm@ == "SHA-256 or SHA-384"@
    &&& unknown_secret_table(n.secret_derivation.derived_secrets@)
}

/// What the suite label `cs` means: AES-256-GCM, AES-128-GCM,
/// ChaCha20-Poly1305 or unknown, checked in that order by the name's text.
pub open spec fn negotiation_for(
    n: EncryptionNegotiation,
    cs: Seq<char>,
    client_random: Seq<char>,
    server_random: Seq<char>,
) -> bool {
    let code = suite_code(cs);
    if contains_seq(cs, "AES_256_GCM"@) {
        is_aes_gcm_negotiation(
            n,
            code,
            "TLS_AES_256_GCM_SHA384"@,
            "AES-256-GCM"@,
            256,
            384,
            "SHA-384"@,
            "x25519 or secp384r1"@,
            "RSA-PSS-SHA384 or ECDSA-SHA384"@,
            client_random,
            server_random,
        )
    } else if contains_seq(cs, "AES_128_GCM"@) {
        is_aes_gcm_negotiation(
            n,
            code,
            "TLS_AES_128_GCM_SHA256"@,
            "AES-128-GCM"@,
            128,
            256,
            "SHA-256"@,
            "x25519 or secp256r1"@,
            "RSA-PSS-SHA256 or ECDSA-SHA256"@,
            client_random,
            server_random,
        )
    } else if contains_seq(cs, "CHACHA20"@) {
        is_chacha_negotiation(n, code, client_random, server_random)
    } else {
        is_unknown_negotiation(n, code, cs, client_random, server_random)
    }
}

/// A derived secret.
fn secret(name: &str, purpose: &str, bits: usize, formula: &str) -> (r: DerivedSecret)
    ensures
        secret_is(r, name@, purpose@, bits as nat, formula@),
{
    DerivedSecret {
        name: owned(name),
        purpose: owned(purpose),
        length_bits: bits,
        kdf_formula: owned(formula),
    }
}

/// The cipher suite code of a suite label (see [`suite_code`]).
pub fn extract_suite_code(cipher_suite: &str) -> (r: String)
    ensures
        r@ == suite_code(cipher_suite@),
{
    let cs = chars_of(cipher_suite);
    let mut from: usize = 0;
    let mut i: usize = 0;
    assert(cs@.take(0) =~= Seq::<char>::empty());
    while i < cs.len()
        invariant
            i <= cs@.len(),
            cs@ == cipher_suite@,
            from == last_index_of(cs@.take(i as int), '(') + 1,
            from <= i,
        decreases cs@.len() - i,
    {
        assert(cs@.take(i + 1).drop_last() =~= cs@.take(i as int));
        assert(cs@.take(i + 1).last() == cs@[i as int]);
        if cs[i] == '(' {
            from = i + 1;
        }
        i = i + 1;
    }
    assert(cs@.take(i as int) =~= cs@);
    let seg = cipher_suite.substring_char(from, cs.len());
    assert(seg@ =~= cipher_suite@.skip(from as int));
    proof {
        reveal_strlit(")");
    }
    if str_ends_with(seg, ")") {
        let r = cipher_suite.substring_char(from, cs.len() - 1).to_string();
        assert(r@ =~= seg@.drop_last());
        r
    } else {
        owned("0x0000")
    }
}

/// The key-schedule secrets of an AES-GCM suite with a hash of `hash_bits` bits.
fn build_secret_derivation_aead(
    hash_bits: usize,
    hash_algo: &str,
    client_random: &str,
    server_random: &str,
) -> (r: SecretDerivation)
    ensures
        r.client_random@ == client_random@,
        r.server_random@ == server_random@,
        r.randoms_combined_length == 64,
        r.key_derivation_function@
            == "HKDF (HMAC-based Extract-and-Expand Key Derivation Function)"@,
        r.prf_hash_algorithm@ == hash_algo@,
        aead_secret_table(r.derived_secrets@, hash_bits as nat),
{
    let mut ds: Vec<DerivedSecret> = Vec::new();
    ds.push(
        secret(
            "Early Secret",
            "Used for early data (0-RTT)",
            hash_bits,
            "HKDF-Extract(salt=0, IKM=0x0000...)",
        ),
    );
    ds.push(
        secret(
            "Handshake Secret",
            "Derives server_handshake_traffic_secret and client_handshake_traffic_secret",
            hash_bits,
            "HKDF-Extract(salt=Early Secret, IKM=ECDHE shared secret)",
        ),
    );
    ds.push(
        secret(
            "Server Handshake Traffic Secret",
            "Encrypts ServerHello, EncryptedExtensions, Certificate, CertificateVerify, Finished",
            hash_bits,
            "HKDF-Expand-Label(Handshake Secret, 's hs traffic', ServerHello...Finished)",
        ),
    );
    ds.push(
        secret(
            "Client Handshake Traffic Secret",
            "Encrypts Client Finished message",
            hash_bits,
            "HKDF-Expand-Label(Handshake Secret, 'c hs traffic', ServerHello...Finished)",
        ),
    );
    ds.push(
        secret(
            "Master Secret",
            "Base for all application traffic secrets",
            hash_bits,
            "HKDF-Extract(salt=Handshake Secret, IKM=0x0000...)",
        ),
    );
    ds.push(
        secret(
            "Server Application Traffic Secret 0",
            "Encrypts application data from server",
            hash_bits,
            "HKDF-Expand-Label(Master Secret, 's ap traffic', ClientHello...Finished)",
        ),
    );
    ds.push(
        secret(
            "Client Application Traffic Secret 0",
            "Encrypts application data from client",
            hash_bits,
            "HKDF-Expand-Label(Master Secret, 'c ap traffic', ClientHello...Finished)",
        ),
    );
    ds.push(
        secret(
            "Exporter Master Secret",
            "For exporters like SSLKEYLOGFILE",
            hash_bits,
            "HKDF-Expand-Label(Master Secret, 'exp master', ClientHello...Finished)",
        ),
    );
    SecretDerivation {
        client_random: owned(client_random),
        server_random: owned(server_random),
        randoms_combined_length: 64,
        key_derivation_function: owned(
            "HKDF (HMAC-based Extract-and-Expand Key Derivation Function)",
        ),
        prf_hash_algorithm: owned(hash_algo),
        derived_secrets: ds,
    }
}

/// The negotiation of an AES-GCM suite with these parameters.
fn build_aead_encryption(
    code: String,
    name: &str,
    aead_name: &str,
    key_bits: usize,
    hash_bits: usize,
    hash_algo: &str,
    key_group: &str,
    sig_algo: &str,
    client_random: &str,
    server_random: &str,
) -> (r: EncryptionNegotiation)
    ensures
        is_aes_gcm_negotiation(
            r,
            code@,
            name@,
            aead_name@,
            key_bits as nat,
            hash_bits as nat,
            hash_algo@,
            key_group@,
            sig_algo@,
            client_random@,
            server_random@,
        ),
{
    EncryptionNegotiation {
        cipher_suite_code: code,
        cipher_suite_name: owned(name),
        encryption_algorithm: CipherAlgorithm {
            algorithm: owned("AES"),
            mode: owned("GCM (Authenticated Encryption)"),
            key_bits,
            block_size: 128,
        },
        mac_algorithm: None,
        aead_details: Some(
            AeadDetails {
                algorithm: owned(aead_name),
                key_bits,
                nonce_bits: 96,
                tag_bits: 128,
                plaintext_record_size_limit: 16384,
            },
        ),
        key_exchange: KeyExchangeDetails {
            algorithm: owned("ECDHE (Elliptic Curve Diffie-Hellman Ephemeral)"),
            group: owned(key_group),
            forward_secrecy: true,
        },
        signature_algorithm: owned(sig_algo),
        secret_derivation: build_secret_derivation_aead(
            hash_bits,
            hash_algo,
            client_random,
            server_random,
        ),
    }
}

/// The negotiation of ChaCha20-Poly1305.
fn build_chacha_encryption(code: String, client_random: &str, server_random: &str) -> (r:
    EncryptionNegotiation)
    ensures
        is_chacha_negotiation(r, code@, client_random@, server_random@),
{
    let mut ds: Vec<DerivedSecret> = Vec::new();
    ds.push(
        secret(
            "Early Secret",
            "Used for early data (0-RTT)",
            256,
            "HKDF-Extract(salt=0, IKM=0x0000...)",
        ),
    );
    ds.push(
        secret(
            "Handshake Secret",
            "Derives handshake traffic secrets",
            256,
            "HKDF-Extract(salt=Early Secret, IKM=ECDHE shared secret)",
        ),
    );
    ds.push(
        secret(
            "Server Handshake Traffic Secret",
            "Encrypts server handshake messages",
            256,
            "HKDF-Expand-Label(Handshake Secret, 's hs traffic', hash)",
        ),
    );
    ds.push(
        secret(
            "Client Handshake Traffic Secret",
            "Encrypts client handshake messages",
            256,
            "HKDF-Expand-Label(Handshake Secret, 'c hs traffic', hash)",
        ),
    );
    ds.push(
        secret(
            "Master Secret",
            "Base for application traffic secrets",
            256,
            "HKDF-Extract(salt=Handshake Secret, IKM=0x00...)",
        ),
    );
    ds.push(
        secret(
            "Server Application Traffic Secret",
            "Encrypts server application data",
            256,
            "HKDF-Expand-Label(Master Secret, 's ap traffic', hash)",
        ),
    );
    ds.push(
        secret(
            "Client Application Traffic Secret",
            "Encrypts client application data",
            256,
            "HKDF-Expand-Label(Master Secret, 'c ap traffic', hash)",
        ),
    );
    ds.push(
        secret(
            "Exporter Master Secret",
            "For exporters like SSLKEYLOGFILE",
            256,
            "HKDF-Expand-Label(Master Secret, 'exp master', hash)",
        ),
    );
    let secret_derivation = SecretDerivation {
        client_random: owned(client_random),
        server_random: owned(server_random),
        randoms_combined_length: 64,
        key_derivation_function: owned(
            "HKDF (HMAC-based Extract-and-Expand Key Derivation Function)",
        ),
        prf_hash_algorithm: owned("SHA-256"),
        derived_secrets: ds,
    };
    EncryptionNegotiation {
        cipher_suite_code: code,
        cipher_suite_name: owned("TLS_CHACHA20_POLY1305_SHA256"),
        encryption_algorithm: CipherAlgorithm {
            algorithm: owned("ChaCha20"),
            mode: owned("Poly1305 (Authenticated Encryption)"),
            key_bits: 256,
            block_size: 512,
        },
        mac_algorithm: None,
        aead_details: Some(
            AeadDetails {
                algorithm: owned("ChaCha20-Poly1305"),
                key_bits: 256,
                nonce_bits: 96,
                tag_bits: 128,
                plaintext_record_size_limit: 16384,
            },
        ),
        key_exchange: KeyExchangeDetails {
            algorithm: owned("ECDHE (Elliptic Curve Diffie-Hellman Ephemeral)"),
            group: owned("x25519"),
            forward_secrecy: true,
        },
        signature_algorithm: owned("RSA-PSS-SHA256 or ECDSA-SHA256"),
        secret_derivation,
    }
}

/// The negotiation of a suite this analysis does not know.
fn build_unknown_encryption(code: String, cipher_suite: &str, client_random: &str, server_random: &str) -> (r:
    EncryptionNegotiation)
    ensures
        is_unknown_negotiation(r, code@, cipher_suite@, client_random@, server_random@),
{
    let mut ds: Vec<DerivedSecret> = Vec::new();
    ds.push(
        secret(
            "Handshake Secret",
            "Base secret for handshake phase",
            256,
            "HKDF-Extract(salt, IKM)",
        ),
    );
    ds.push(
        secret(
            "Master Secret",
            "Base secret for application phase",
            256,
            "HKDF-Extract(salt, IKM)",
        ),
    );
    EncryptionNegotiation {
        cipher_suite_code: code,
        cipher_suite_name: owned(cipher_suite),
        encryption_algorithm: CipherAlgorithm {
            algorithm: owned("Unknown"),
            mode: owned("Unknown"),
            key_bits: 256,
            block_size: 128,
        },
        mac_algorithm: None,
        aead_details: None,
        key_exchange: KeyExchangeDetails {
            algorithm: owned("ECDHE"),
            group: owned("Unknown"),
            forward_secrecy: true,
        },
        signature_algorithm: owned("Unknown"),
        secret_derivation: SecretDerivation {
            client_random: owned(client_random),
            server_random: owned(server_random),
            randoms_combined_length: 64,
            key_derivation_function: owned("HKDF"),
            prf_hash_algorithm: owned("SHA-256 or SHA-384"),
            derived_secrets: ds,
        },
    }
}

/// What the negotiated cipher suite, given by its label such as
/// `TLS13_AES_256_GCM_SHA384 (0x1302)`, means for encryption, key exchange
/// and the key schedule.
pub fn build_encryption_negotiation(cipher_suite: &str, client_random: &str, server_random: &str) -> (r:
    Result<EncryptionNegotiation, TlsError>)
    ensures
        r matches Ok(n) && negotiation_for(n, cipher_suite@, client_random@, server_random@),
{
    let suite_code = extract_suite_code(cipher_suite);
    if str_contains(cipher_suite, "AES_256_GCM") {
        Ok(
            build_aead_encryption(
                suite_code,
                "TLS_AES_256_GCM_SHA384",
                "AES-256-GCM",
                256,
                384,
                "SHA-384",
                "x25519 or secp384r1",
                "RSA-PSS-SHA384 or ECDSA-SHA384",
                client_random,
                server_random,
            ),
        )
    } else if str_contains(cipher_suite, "AES_128_GCM") {
        Ok(
            build_aead_encryption(
                suite_code,
                "TLS_AES_128_GCM_SHA256",
                "AES-128-GCM",
                128,
                256,
                "SHA-256",
                "x25519 or secp256r1",
                "RSA-PSS-SHA256 or ECDSA-SHA256",
                client_random,
                server_random,
            ),
        )
    } else if str_contains(cipher_suite, "CHACHA20") {
        Ok(build_chacha_encryption(suite_code, client_random, server_random))
    } else {
        Ok(build_unknown_encryption(suite_code, cipher_suite, client_random, server_random))
    }
}

/// The label of a traffic cipher.
pub open spec fn cipher_label(c: TrafficCipher) -> Seq<char> {
    match c {
        TrafficCipher::Aes256Gcm => "AES-256-GCM"@,
        TrafficCipher::Aes128Gcm => "AES-128-GCM"@,
        TrafficCipher::Chacha20Poly1305 => "ChaCha20-Poly1305"@,
        TrafficCipher::Unsupported => Seq::empty(),
    }
}

/// The key size, in bits, of a traffic cipher.
pub open spec fn cipher_key_bits(c: TrafficCipher) -> nat {
    match c {
        TrafficCipher::Aes128Gcm => 128,
        _ => 256,
    }
}

/// `t` renders the secret `s` with sequence number `seq`.
pub open spec fn traffic_info_is(t: TrafficSecretsInfo, seq: u64, s: TrafficSecretView) -> bool {
    &&& t.sequence_number == seq
    &&& t.algorithm@ == cipher_label(s.cipher)
    &&& t.key_hex@ == hex_of(s.key)
    &&& t.iv_hex@ == hex_of(s.iv)
    &&& t.key_size_bits == cipher_key_bits(s.cipher)
}

/// The rendering of one direction's secret, or `None` for a cipher this
/// analysis does not handle.
fn traffic_info(seq: u64, s: &TrafficSecret) -> (r: Option<TrafficSecretsInfo>)
    ensures
        r is None <==> s.cipher is Unsupported,
        r matches Some(t) ==> traffic_info_is(t, seq, s@),
{
    let (algorithm, bits) = match s.cipher {
        TrafficCipher::Aes256Gcm => (owned("AES-256-GCM"), 256),
        TrafficCipher::Aes128Gcm => (owned("AES-128-GCM"), 128),
        TrafficCipher::Chacha20Poly1305 => (owned("ChaCha20-Poly1305"), 256),
        TrafficCipher::Unsupported => {
            return None;
        },
    };
    Some(
        TrafficSecretsInfo {
            sequence_number: seq,
            algorithm,
            key_hex: bytes_to_hex(s.key.as_slice()),
            iv_hex: bytes_to_hex(&s.iv),
            key_size_bits: bits,
        },
    )
}

/// The fixed account of what application traffic secrets can decrypt.
pub open spec fn is_decryption_capabilities(c: DecryptionCapabilities) -> bool {
    &&& strings_view(c.can_decrypt@) == seq![
        "✅ Application Data (HTTP responses, etc.)"@,
        "✅ NewSessionTicket messages (post-handshake)"@,
        "✅ KeyUpdate messages (key rotation)"@,
    ]
    &&& strings_view(c.cannot_decrypt@) == seq![
        "❌ Encrypted Handshake Messages (EncryptedExtensions, Certificate, etc.)"@,
        "❌ ClientHello/ServerHello (never encrypted)"@,
    ]
    &&& c.explanation@ == decryption_explanation()@
}

/// Why only post-handshake records can be decrypted.
pub open spec fn decryption_explanation() -> &'static str {
    "These are APPLICATION TRAFFIC SECRETS, used only after handshake completes. Handshake messages use different ephemeral keys (handshake traffic secrets) that rustls does not expose. To decrypt handshake messages, you'd need handshake traffic secrets which require cryptographic derivation from the handshake secret (not exposed by rustls). The extracted keys are sufficient for decrypting post-handshake encrypted records with external tools."
}

/// The fixed account of what application traffic secrets can decrypt.
fn decryption_capabilities() -> (r: DecryptionCapabilities)
    ensures
        is_decryption_capabilities(r),
{
    let mut can: Vec<String> = Vec::new();
    can.push(owned("✅ Application Data (HTTP responses, etc.)"));
    can.push(owned("✅ NewSessionTicket messages (post-handshake)"));
    can.push(owned("✅ KeyUpdate messages (key rotation)"));
    let mut cannot: Vec<String> = Vec::new();
    cannot.push(owned("❌ Encrypted Handshake Messages (EncryptedExtensions, Certificate, etc.)"));
    cannot.push(owned("❌ ClientHello/ServerHello (never encrypted)"));
    let r = DecryptionCapabilities {
        can_decrypt: can,
        cannot_decrypt: cannot,
        explanation: owned(
            "These are APPLICATION TRAFFIC SECRETS, used only after handshake completes. Handshake messages use different ephemeral keys (handshake traffic secrets) that rustls does not expose. To decrypt handshake messages, you'd need handshake traffic secrets which require cryptographic derivation from the handshake secret (not exposed by rustls). The extracted keys are sufficient for decrypting post-handshake encrypted records with external tools.",
        ),
    };
    assert(strings_view(r.can_decrypt@) =~= seq![
        "✅ Application Data (HTTP responses, etc.)"@,
        "✅ NewSessionTicket messages (post-handshake)"@,
        "✅ KeyUpdate messages (key rotation)"@,
    ]);
    assert(strings_view(r.cannot_decrypt@) =~= seq![
        "❌ Encrypted Handshake Messages (EncryptedExtensions, Certificate, etc.)"@,
        "❌ ClientHello/ServerHello (never encrypted)"@,
    ]);
    r
}

/// Both directions' ciphers are ones this analysis handles.
pub open spec fn secrets_supported(s: SecretsView) -> bool {
    !(s.tx.1.cipher is Unsupported) && !(s.rx.1.cipher is Unsupported)
}

/// `info` renders the secrets `s`: each direction's algorithm, key and IV in
/// hex, key size and sequence number, with what they can decrypt.
pub open spec fn is_secrets_info(info: ExtractedSecretsInfo, s: SecretsView) -> bool {
    &&& info.note@
        == "Successfully extracted session traffic secrets using rustls::dangerous_extract_secrets()"@
    &&& traffic_info_is(info.tx_secrets, s.tx.0, s.tx.1)
    &&& traffic_info_is(info.rx_secrets, s.rx.0, s.rx.1)
    &&& is_decryption_capabilities(info.decryption_capabilities)
}

/// Renders the extracted traffic secrets of both directions: algorithm, key
/// and IV in hex, key size and sequence number, with what they can decrypt.
/// Fails, naming the direction, for a cipher this analysis does not handle.
pub fn build_extracted_secrets_info(secrets: &ExtractedSecrets) -> (r: Result<ExtractedSecretsInfo, TlsError>)
    ensures
        secrets.tx.1.cipher is Unsupported ==> (r matches Err(TlsError::SecretExtraction { reason })
            && reason@ == "Unknown TX secret variant"@),
        !(secrets.tx.1.cipher is Unsupported) && secrets.rx.1.cipher is Unsupported ==> (r matches Err(
            TlsError::SecretExtraction { reason },
        ) && reason@ == "Unknown RX secret variant"@),
        secrets_supported(secrets@) ==> (r matches Ok(info) && is_secrets_info(info, secrets@)),
{
    let tx = match traffic_info(secrets.tx.0, &secrets.tx.1) {
        Some(t) => t,
        None => {
            return Err(TlsError::SecretExtraction { reason: owned("Unknown TX secret variant") });
        },
    };
    let rx = match traffic_info(secrets.rx.0, &secrets.rx.1) {
        Some(t) => t,
        None => {
            return Err(TlsError::SecretExtraction { reason: owned("Unknown RX secret variant") });
        },
    };
    Ok(
        ExtractedSecretsInfo {
            note: owned(
                "Successfully extracted session traffic secrets using rustls::dangerous_extract_secrets()",
            ),
            tx_secrets: tx,
            rx_secrets: rx,
            decryption_capabilities: decryption_capabilities(),
        },
    )
}

/// Whatever the suite, the negotiation lists key-schedule secrets, echoes
/// both randoms, and an AEAD's key size is the cipher's.
pub proof fn law_negotiation_is_complete(
    n: EncryptionNegotiation,
    cs: Seq<char>,
    client_random: Seq<char>,
    server_random: Seq<char>,
)
    requires
        negotiation_for(n, cs, client_random, server_random),
    ensures
        n.secret_derivation.derived_secrets@.len() > 0,
        n.secret_derivation.client_random@ == client_random,
        n.secret_derivation.server_random@ == server_random,
        n.cipher_suite_code@ == suite_code(cs),
        n.aead_details matches Some(a) ==> a.key_bits == n.encryption_algorithm.key_bits,
{
}

/// A TLS 1.3 AEAD suite (AES-GCM or ChaCha20-Poly1305) shows the whole key
/// schedule: eight secrets, from the early secret to the exporter master secret.
pub proof fn law_tls13_suites_show_eight_secrets(
    n: EncryptionNegotiation,
    cs: Seq<char>,
    client_random: Seq<char>,
    server_random: Seq<char>,
)
    requires
        negotiation_for(n, cs, client_random, server_random),
        contains_seq(cs, "AES_256_GCM"@) || contains_seq(cs, "AES_128_GCM"@) || contains_seq(
            cs,
            "CHACHA20"@,
        ),
    ensures
        n.secret_derivation.derived_secrets@.len() == 8,
        n.secret_derivation.derived_secrets@[0].name@ == "Early Secret"@,
        n.secret_derivation.derived_secrets@[7].name@ == "Exporter Master Secret"@,
{
}

/// The hash of the key schedule follows the suite: an AES-256-GCM suite
/// (a SHA-384 suite) derives every secret with SHA-384 at 384 bits; an
/// AES-128-GCM or ChaCha20-Poly1305 suite derives every secret with SHA-256
/// at 256 bits. The AEAD key is 256, 128 and 256 bits long respectively.
pub proof fn law_key_schedule_hash(
    n: EncryptionNegotiation,
    cs: Seq<char>,
    client_random: Seq<char>,
    server_random: Seq<char>,
)
    requires
        negotiation_for(n, cs, client_random, server_random),
    ensures
        contains_seq(cs, "AES_256_GCM"@) ==> {
            &&& n.secret_derivation.prf_hash_algorithm@ == "SHA-384"@
            &&& forall|i: int|
                0 <= i < n.secret_derivation.derived_secrets@.len()
                    ==> (#[trigger] n.secret_derivation.derived_secrets@[i]).length_bits == 384
            &&& n.encryption_algorithm.key_bits == 256
        },
        !contains_seq(cs, "AES_256_GCM"@) && (contains_seq(cs, "AES_128_GCM"@) || contains_seq(
            cs,
            "CHACHA20"@,
        )) ==> {
            &&& n.secret_derivation.prf_hash_algorithm@ == "SHA-256"@
            &&& forall|i: int|
                0 <= i < n.secret_derivation.derived_secrets@.len()
                    ==> (#[trigger] n.secret_derivation.derived_secrets@[i]).length_bits == 256
        },
        !contains_seq(cs, "AES_256_GCM"@) && contains_seq(cs, "AES_128_GCM"@)
            ==> n.encryption_algorithm.key_bits == 128,
{
    let ds = n.secret_derivation.derived_secrets@;
    assert forall|i: int| 0 <= i < ds.len() implies (#[trigger] ds[i]).length_bits == if contains_seq(
        cs,
        "AES_256_GCM"@,
    ) {
        384nat
    } else if contains_seq(cs, "AES_128_GCM"@) || contains_seq(cs, "CHACHA20"@) {
        256nat
    } else {
        ds[i].length_bits as nat
    } by {
        if contains_seq(cs, "AES_256_GCM"@) || contains_seq(cs, "AES_128_GCM"@) || contains_seq(
            cs,
            "CHACHA20"@,
        ) {
            assert(i == 0 || i == 1 || i == 2 || i == 3 || i == 4 || i == 5 || i == 6 || i == 7);
        }
    }
}

} // verus!
