//! How ready a connection is for post-quantum cryptography.
use vstd::prelude::*;

use crate::text::{contains_seq, owned, str_contains, str_eq};
use crate::tls::fields::{lookup, member_lookup_from, FieldValueView};
use crate::tls::types::{
    strings_view,
    ClassicalKeyAgreement,
    EncryptionNegotiation,
    HandshakeMessage,
    HybridKeyExchange,
    MessageView,
    MigrationStrategy,
    PQCAlgorithm,
    PostQuantumAnalysis,
    PostQuantumKeyAgreement,
    PostQuantumReadiness,
};

verus! {

/// The message model is a `ServerHello` whose `key_share` field names the
/// group `X25519MLKEM768`.
pub open spec fn mlkem_server_hello_view(m: MessageView) -> bool {
    &&& m.message_type == "ServerHello"@
    &&& m.fields matches Some(f) && lookup(f, "key_share"@) matches Some(
        FieldValueView::Object(o),
    ) && member_lookup_from(o, "group"@, 0) == Some("X25519MLKEM768"@)
}

/// The message is a `ServerHello` whose `key_share` field names the group
/// `X25519MLKEM768`.
pub open spec fn is_mlkem_server_hello(m: HandshakeMessage) -> bool {
    mlkem_server_hello_view(m@)
}

/// Whether some `ServerHello` shows that the hybrid group X25519MLKEM768 was
/// negotiated.
pub fn check_x25519_mlkem768_negotiated(messages: &[HandshakeMessage]) -> (r: bool)
    ensures
        r == exists|i: int| 0 <= i < messages@.len() && is_mlkem_server_hello(#[trigger] messages@[i]),
{
    let mut i: usize = 0;
    while i < messages.len()
        invariant
            i <= messages@.len(),
            forall|j: int| 0 <= j < i ==> !is_mlkem_server_hello(#[trigger] messages@[j]),
        decreases messages@.len() - i,
    {
        let msg = &messages[i];
        if str_eq(msg.message_type.as_str(), "ServerHello") {
            if let Some(fields) = &msg.fields {
                if let Some(share) = fields.get("key_share") {
                    if let Some(group) = share.member("group") {
                        if str_eq(group.as_str(), "X25519MLKEM768") {
                            return true;
                        }
                    }
                }
            }
        }
        i = i + 1;
    }
    false
}

/// Whether a post-quantum key exchange was offered.
pub open spec fn pqc_key_exchange(name: Seq<char>, mlkem: bool) -> bool {
    mlkem || contains_seq(name, "KYBER"@) || contains_seq(name, "MLKEM"@)
}

/// Whether a post-quantum signature was offered.
pub open spec fn pqc_signature(name: Seq<char>) -> bool {
    contains_seq(name, "DILITHIUM"@) || contains_seq(name, "MLDSA"@) || contains_seq(name, "FALCON"@)
}

/// `p` is the listed post-quantum algorithm.
pub open spec fn pqc_algorithm_is(
    p: PQCAlgorithm,
    name: Seq<char>,
    key_bits: nat,
    ct_bits: nat,
    status: Seq<char>,
) -> bool {
    &&& p.name@ == name
    &&& p.family@ == "Lattice-based (Module-LWE)"@
    &&& p.key_size_bits == key_bits
    &&& p.ciphertext_size_bits == ct_bits
    &&& p.shared_secret_size_bits == 256
    &&& p.estimated_quantum_security_bits == 192
    &&& p.status@ == status
}

/// The classical curve named by a key-exchange group.
pub open spec fn classical_curve(group: Seq<char>) -> Seq<char> {
    if contains_seq(group, "25519"@) {
        "X25519 (Curve25519)"@
    } else if contains_seq(group, "384"@) {
        "secp384r1 (P-384)"@
    } else {
        "secp256r1 (P-256)"@
    }
}

/// `a` is the post-quantum analysis of a suite named `name` with key-exchange
/// group `group`, where `mlkem` says whether X25519MLKEM768 was negotiated.
pub open spec fn is_post_quantum_analysis(a: PostQuantumAnalysis, name: Seq<char>, group: Seq<char>, mlkem: bool) -> bool {
    let kex = pqc_key_exchange(name, mlkem);
    let sig = pqc_signature(name);
    let qs = kex && sig;
    let hr = kex || sig;
    &&& a.hybrid_ready == hr
    &&& a.hybrid_approach_available == !qs
    &&& strings_view(a.pqc_algorithms_available@) == seq![
        "Kyber-512 (MLKEM512)"@,
        "Kyber-768 (MLKEM768)"@,
        "Kyber-1024 (MLKEM1024)"@,
        "Dilithium-2 (MLDSA44)"@,
        "Dilithium-3 (MLDSA65)"@,
        "Dilithium-5 (MLDSA87)"@,
        "FALCON-512"@,
        "FALCON-1024"@,
    ]
    &&& strings_view(a.recommended_hybrid_suites@) == if hr {
        seq![name]
    } else {
        seq![
            "TLS_ECDHE_X25519_KYBER768_WITH_AES_256_GCM_SHA384"@,
            "TLS_ECDHE_SECP256R1_KYBER512_WITH_AES_256_GCM_SHA384"@,
        ]
    }
    &&& a.hybrid_key_exchange.classical_key_agreement.algorithm@
        == "ECDHE (Elliptic Curve Diffie-Hellman Ephemeral)"@
    &&& a.hybrid_key_exchange.classical_key_agreement.curve@ == classical_curve(group)
    &&& a.hybrid_key_exchange.classical_key_agreement.key_size_bits == 256
    &&& a.hybrid_key_exchange.classical_key_agreement.estimated_security_bits == 128
    &&& a.hybrid_key_exchange.post_quantum_key_agreement.algorithms@.len() == 2
    &&& pqc_algorithm_is(
        a.hybrid_key_exchange.post_quantum_key_agreement.algorithms@[0],
        "Kyber-768 (MLKEM768)"@,
        1184,
        1088,
        "NIST standardized (FIPS 203)"@,
    )
    &&& pqc_algorithm_is(
        a.hybrid_key_exchange.post_quantum_key_agreement.algorithms@[1],
        "Dilithium-3 (MLDSA65)"@,
        2528,
        2701,
        "NIST standardized (FIPS 204)"@,
    )
    &&& a.hybrid_key_exchange.post_quantum_key_agreement.recommended@ == if qs {
        "Already deployed (using current cipher suite)"@
    } else {
        "Kyber-768 + Dilithium-3"@
    }
    &&& a.hybrid_key_exchange.post_quantum_key_agreement.hybrid_with_classical == !qs
    &&& a.hybrid_key_exchange.hybrid_secret_derivation@ == if hr {
        "HKDF-Expand(PRK, info || pqc_shared_secret || classical_shared_secret)"@
    } else {
        "HKDF-Expand(PRK, info || classical_shared_secret)"@
    }
    &&& a.post_quantum_readiness.quantum_safe == qs
    &&& a.post_quantum_readiness.hybrid_ready == hr
    &&& a.post_quantum_readiness.pqc_key_exchange_offered == kex
    &&& a.post_quantum_readiness.pqc_signature_offered == sig
    &&& a.post_quantum_readiness.recommendation@ == if qs {
        "✓ Server supports post-quantum cryptography. Quantum-safe connection established."@
    } else if hr {
        "~ Server offers hybrid PQC key exchange. Partial quantum protection for key agreement."@
    } else {
        "✗ Server does not support post-quantum cryptography. At risk from future quantum computers."@
    }
    &&& a.migration_strategy.current_security_level@ == if qs {
        "Quantum-safe: Protected by PQC algorithms"@
    } else if hr {
        "Hybrid: Partial PQC protection for key agreement; classical signatures"@
    } else {
        "Post-classical: ECDHE and AES-GCM only (vulnerable to quantum attacks)"@
    }
    &&& a.migration_strategy.post_quantum_security_level@
        == "Quantum-safe: Protected by hybrid/full PQC"@
    &&& a.migration_strategy.implementation_priority@ == if qs {
        "Complete - Already quantum-safe"@
    } else if hr {
        "High - Deploy signature algorithm"@
    } else {
        "Critical - Immediate migration required"@
    }
    &&& a.migration_strategy.timeline@ == if qs {
        "No action needed; already protected against quantum threats."@
    } else if hr {
        "Phase 1 (Now): Hybrid key exchange active | Phase 2 (2025): Add PQC signatures"@
    } else {
        "Phase 1 (2024): Deploy hybrid suites | Phase 2 (2025): Full PQC | Phase 3 (2026): Retire classical-only"@
    }
    &&& strings_view(a.migration_strategy.action_items@) == if qs {
        seq![
            "✓ No action required"@,
            "Monitor for security updates and re-key periodically"@,
            "Document PQC compliance status"@,
        ]
    } else if hr {
        seq![
            "Add post-quantum signature algorithm (Dilithium or FALCON)"@,
            "Enable hybrid classical+PQC signatures"@,
            "Test full PQC deployment path"@,
        ]
    } else {
        seq![
            "Deploy hybrid ECDHE+Kyber key exchange immediately"@,
            "Plan full PQC migration for Q1 2025"@,
            "Test hybrid cipher suites in staging environment"@,
            "Establish baseline for post-quantum readiness"@,
        ]
    }
}

/// A list of owned strings.
fn strings2(a: &str, b: &str) -> (r: Vec<String>)
    ensures
        strings_view(r@) == seq![a@, b@],
{
    let mut v: Vec<String> = Vec::new();
    v.push(owned(a));
    v.push(owned(b));
    assert(strings_view(v@) =~= seq![a@, b@]);
    v
}

/// A list of owned strings.
fn strings3(a: &str, b: &str, c: &str) -> (r: Vec<String>)
    ensures
        strings_view(r@) == seq![a@, b@, c@],
{
    let mut v: Vec<String> = Vec::new();
    v.push(owned(a));
    v.push(owned(b));
    v.push(owned(c));
    assert(strings_view(v@) =~= seq![a@, b@, c@]);
    v
}

/// A list of owned strings.
fn strings4(a: &str, b: &str, c: &str, d: &str) -> (r: Vec<String>)
    ensures
        strings_view(r@) == seq![a@, b@, c@, d@],
{
    let mut v: Vec<String> = Vec::new();
    v.push(owned(a));
    v.push(owned(b));
    v.push(owned(c));
    v.push(owned(d));
    assert(strings_view(v@) =~= seq![a@, b@, c@, d@]);
    v
}

/// The eight post-quantum algorithms the analysis lists.
fn pqc_algorithm_names() -> (r: Vec<String>)
    ensures
        strings_view(r@) == seq![
            "Kyber-512 (MLKEM512)"@,
            "Kyber-768 (MLKEM768)"@,
            "Kyber-1024 (MLKEM1024)"@,
            "Dilithium-2 (MLDSA44)"@,
            "Dilithium-3 (MLDSA65)"@,
            "Dilithium-5 (MLDSA87)"@,
            "FALCON-512"@,
            "FALCON-1024"@,
        ],
{
    let mut v: Vec<String> = Vec::new();
    v.push(owned("Kyber-512 (MLKEM512)"));
    v.push(owned("Kyber-768 (MLKEM768)"));
    v.push(owned("Kyber-1024 (MLKEM1024)"));
    v.push(owned("Dilithium-2 (MLDSA44)"));
    v.push(owned("Dilithium-3 (MLDSA65)"));
    v.push(owned("Dilithium-5 (MLDSA87)"));
    v.push(owned("FALCON-512"));
    v.push(owned("FALCON-1024"));
    assert(strings_view(v@) =~= seq![
        "Kyber-512 (MLKEM512)"@,
        "Kyber-768 (MLKEM768)"@,
        "Kyber-1024 (MLKEM1024)"@,
        "Dilithium-2 (MLDSA44)"@,
        "Dilithium-3 (MLDSA65)"@,
        "Dilithium-5 (MLDSA87)"@,
        "FALCON-512"@,
        "FALCON-1024"@,
    ]);
    v
}

/// One lattice-based algorithm.
fn lattice_algorithm(name: &str, key_bits: usize, ct_bits: usize, status: &str) -> (r: PQCAlgorithm)
    ensures
        pqc_algorithm_is(r, name@, key_bits as nat, ct_bits as nat, status@),
{
    PQCAlgorithm {
        name: owned(name),
        family: owned("Lattice-based (Module-LWE)"),
        key_size_bits: key_bits,
        ciphertext_size_bits: ct_bits,
        shared_secret_size_bits: 256,
        estimated_quantum_security_bits: 192,
        status: owned(status),
    }
}

/// The analysis for a suite, given whether X25519MLKEM768 was negotiated.
fn post_quantum_analysis(encryption_negotiation: &EncryptionNegotiation, mlkem: bool) -> (r: PostQuantumAnalysis)
    ensures
        is_post_quantum_analysis(
            r,
            encryption_negotiation.cipher_suite_name@,
            encryption_negotiation.key_exchange.group@,
            mlkem,
        ),
{
    let cipher_name = encryption_negotiation.cipher_suite_name.as_str();
    let group = encryption_negotiation.key_exchange.group.as_str();
    let pqc_key_exchange_offered = mlkem || str_contains(cipher_name, "KYBER") || str_contains(
        cipher_name,
        "MLKEM",
    );
    let pqc_signature_offered = str_contains(cipher_name, "DILITHIUM") || str_contains(
        cipher_name,
        "MLDSA",
    ) || str_contains(cipher_name, "FALCON");
    let quantum_safe = pqc_key_exchange_offered && pqc_signature_offered;
    let hybrid_ready = pqc_key_exchange_offered || pqc_signature_offered;
    let recommended_hybrid_suites = if hybrid_ready {
        let mut v: Vec<String> = Vec::new();
        v.push(encryption_negotiation.cipher_suite_name.clone());
        assert(strings_view(v@) =~= seq![encryption_negotiation.cipher_suite_name@]);
        v
    } else {
        strings2(
            "TLS_ECDHE_X25519_KYBER768_WITH_AES_256_GCM_SHA384",
            "TLS_ECDHE_SECP256R1_KYBER512_WITH_AES_256_GCM_SHA384",
        )
    };
    let curve = if str_contains(group, "25519") {
        owned("X25519 (Curve25519)")
    } else if str_contains(group, "384") {
        owned("secp384r1 (P-384)")
    } else {
        owned("secp256r1 (P-256)")
    };
    let mut algorithms: Vec<PQCAlgorithm> = Vec::new();
    algorithms.push(
        lattice_algorithm("Kyber-768 (MLKEM768)", 1184, 1088, "NIST standardized (FIPS 203)"),
    );
    algorithms.push(
        lattice_algorithm("Dilithium-3 (MLDSA65)", 2528, 2701, "NIST standardized (FIPS 204)"),
    );
    let hybrid_key_exchange = HybridKeyExchange {
        classical_key_agreement: ClassicalKeyAgreement {
            algorithm: owned("ECDHE (Elliptic Curve Diffie-Hellman Ephemeral)"),
            curve,
            key_size_bits: 256,
            estimated_security_bits: 128,
        },
        post_quantum_key_agreement: PostQuantumKeyAgreement {
            algorithms,
            recommended: if quantum_safe {
                owned("Already deployed (using current cipher suite)")
            } else {
                owned("Kyber-768 + Dilithium-3")
            },
            hybrid_with_classical: !quantum_safe,
        },
        hybrid_secret_derivation: if hybrid_ready {
            owned("HKDF-Expand(PRK, info || pqc_shared_secret || classical_shared_secret)")
        } else {
            owned("HKDF-Expand(PRK, info || classical_shared_secret)")
        },
    };
    let recommendation = if quantum_safe {
        owned("✓ Server supports post-quantum cryptography. Quantum-safe connection established.")
    } else if hybrid_ready {
        owned(
            "~ Server offers hybrid PQC key exchange. Partial quantum protection for key agreement.",
        )
    } else {
        owned(
            "✗ Server does not support post-quantum cryptography. At risk from future quantum computers.",
        )
    };
    let post_quantum_readiness = PostQuantumReadiness {
        quantum_safe,
        hybrid_ready,
        pqc_key_exchange_offered,
        pqc_signature_offered,
        recommendation,
    };
    let (priority, timeline) = if quantum_safe {
        (
            owned("Complete - Already quantum-safe"),
            owned("No action needed; already protected against quantum threats."),
        )
    } else if hybrid_ready {
        (
            owned("High - Deploy signature algorithm"),
            owned(
                "Phase 1 (Now): Hybrid key exchange active | Phase 2 (2025): Add PQC signatures",
            ),
        )
    } else {
        (
            owned("Critical - Immediate migration required"),
            owned(
                "Phase 1 (2024): Deploy hybrid suites | Phase 2 (2025): Full PQC | Phase 3 (2026): Retire classical-only",
            ),
        )
    };
    let action_items = if quantum_safe {
        strings3(
            "✓ No action required",
            "Monitor for security updates and re-key periodically",
            "Document PQC compliance status",
        )
    } else if hybrid_ready {
        strings3(
            "Add post-quantum signature algorithm (Dilithium or FALCON)",
            "Enable hybrid classical+PQC signatures",
            "Test full PQC deployment path",
        )
    } else {
        strings4(
            "Deploy hybrid ECDHE+Kyber key exchange immediately",
            "Plan full PQC migration for Q1 2025",
            "Test hybrid cipher suites in staging environment",
            "Establish baseline for post-quantum readiness",
        )
    };
    let migration_strategy = MigrationStrategy {
        current_security_level: if quantum_safe {
            owned("Quantum-safe: Protected by PQC algorithms")
        } else if hybrid_ready {
            owned("Hybrid: Partial PQC protection for key agreement; classical signatures")
        } else {
            owned("Post-classical: ECDHE and AES-GCM only (vulnerable to quantum attacks)")
        },
        post_quantum_security_level: owned("Quantum-safe: Protected by hybrid/full PQC"),
        implementation_priority: priority,
        timeline,
        action_items,
    };
    PostQuantumAnalysis {
        hybrid_ready,
        hybrid_approach_available: !quantum_safe,
        pqc_algorithms_available: pqc_algorithm_names(),
        recommended_hybrid_suites,
        hybrid_key_exchange,
        post_quantum_readiness,
        migration_strategy,
    }
}

/// The post-quantum analysis of a negotiated suite, judged by its name.
pub fn build_post_quantum_analysis(encryption_negotiation: &EncryptionNegotiation) -> (r:
    PostQuantumAnalysis)
    ensures
        is_post_quantum_analysis(
            r,
            encryption_negotiation.cipher_suite_name@,
            encryption_negotiation.key_exchange.group@,
            false,
        ),
{
    post_quantum_analysis(encryption_negotiation, false)
}

/// The post-quantum analysis of a negotiated suite, judged by its name and
/// by whether a `ServerHello` of `messages` shows X25519MLKEM768.
pub fn build_post_quantum_analysis_with_messages(
    encryption_negotiation: &EncryptionNegotiation,
    messages: &[HandshakeMessage],
) -> (r: PostQuantumAnalysis)
    ensures
        is_post_quantum_analysis(
            r,
            encryption_negotiation.cipher_suite_name@,
            encryption_negotiation.key_exchange.group@,
            exists|i: int| 0 <= i < messages@.len() && is_mlkem_server_hello(#[trigger] messages@[i]),
        ),
{
    let mlkem = check_x25519_mlkem768_negotiated(messages);
    post_quantum_analysis(encryption_negotiation, mlkem)
}

/// A quantum-safe connection is hybrid-ready, and needs no hybrid approach;
/// hybrid readiness is exactly an offered post-quantum key exchange or
/// signature.
pub proof fn quantum_safe_implies_hybrid_ready(a: PostQuantumAnalysis, name: Seq<char>, group: Seq<char>, mlkem: bool)
    requires
        is_post_quantum_analysis(a, name, group, mlkem),
    ensures
        a.post_quantum_readiness.quantum_safe ==> a.hybrid_ready && !a.hybrid_approach_available,
        a.hybrid_ready == (a.post_quantum_readiness.pqc_key_exchange_offered
            || a.post_quantum_readiness.pqc_signature_offered),
        a.post_quantum_readiness.quantum_safe == (a.post_quantum_readiness.pqc_key_exchange_offered
            && a.post_quantum_readiness.pqc_signature_offered),
{
}

/// The verdict follows from what was offered: a post-quantum key exchange
/// (X25519MLKEM768 negotiated, or KYBER/MLKEM in the suite name) and a
/// post-quantum signature (DILITHIUM, MLDSA or FALCON in the name). Both
/// make the connection quantum-safe, either makes it hybrid-ready; a
/// hybrid-ready suite is recommended as it is, others get two hybrid suites;
/// the recommendation is marked ✓, ~ or ✗; eight algorithms are listed.
pub proof fn law_post_quantum_verdict(a: PostQuantumAnalysis, name: Seq<char>, group: Seq<char>, mlkem: bool)
    requires
        is_post_quantum_analysis(a, name, group, mlkem),
    ensures
        a.post_quantum_readiness.pqc_key_exchange_offered == pqc_key_exchange(name, mlkem),
        a.post_quantum_readiness.pqc_signature_offered == pqc_signature(name),
        a.post_quantum_readiness.quantum_safe == (pqc_key_exchange(name, mlkem) && pqc_signature(
            name,
        )),
        a.hybrid_ready == a.post_quantum_readiness.hybrid_ready,
        a.hybrid_ready == (pqc_key_exchange(name, mlkem) || pqc_signature(name)),
        a.hybrid_approach_available == !a.post_quantum_readiness.quantum_safe,
        a.hybrid_ready ==> strings_view(a.recommended_hybrid_suites@) == seq![name],
        !a.hybrid_ready ==> strings_view(a.recommended_hybrid_suites@) == seq![
            "TLS_ECDHE_X25519_KYBER768_WITH_AES_256_GCM_SHA384"@,
            "TLS_ECDHE_SECP256R1_KYBER512_WITH_AES_256_GCM_SHA384"@,
        ],
        a.post_quantum_readiness.recommendation@[0] == if a.post_quantum_readiness.quantum_safe {
            '✓'
        } else if a.hybrid_ready {
            '~'
        } else {
            '✗'
        },
        a.pqc_algorithms_available@.len() == 8,
{
    reveal_strlit(
        "✓ Server supports post-quantum cryptography. Quantum-safe connection established.",
    );
    reveal_strlit(
        "~ Server offers hybrid PQC key exchange. Partial quantum protection for key agreement.",
    );
    reveal_strlit(
        "✗ Server does not support post-quantum cryptography. At risk from future quantum computers.",
    );
    assert(strings_view(a.pqc_algorithms_available@).len() == a.pqc_algorithms_available@.len());
}

} // verus!
