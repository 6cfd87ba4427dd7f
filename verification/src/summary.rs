//! Short texts for the human-readable output: truncation, certificate
//! summaries and the cells of the comparison table.
use vstd::prelude::*;

use crate::text::{
    chars_of,
    decimal,
    first_occurrence,
    lemma_first_occurrence_from,
    occurs_at,
    owned,
    push_decimal,
    push_str,
    str_eq,
    str_find,
    str_starts_with,
    starts_with_seq,
};
use crate::tls::pqc::{check_x25519_mlkem768_negotiated, is_mlkem_server_hello};
use crate::tls::types::{
    messages_view,
    AeadDetails,
    CertificateInfo,
    HandshakeMessage,
    MessageView,
    SessionTicketInfo,
    TLSAnalysisReport,
};

verus! {

/// Number of bytes of the UTF-8 encoding of `c`.
pub open spec fn char_width(c: char) -> nat {
    let v = c as u32;
    if v <= 0x7F {
        1
    } else if v <= 0x7FF {
        2
    } else if v <= 0xFFFF {
        3
    } else {
        4
    }
}

/// Number of bytes of the UTF-8 encoding of `s`.
pub open spec fn byte_len(s: Seq<char>) -> nat
    decreases s.len(),
{
    if s.len() == 0 {
        0
    } else {
        char_width(s[0]) + byte_len(s.drop_first())
    }
}

/// The byte length agrees with the length of vstd's UTF-8 encoding.
pub proof fn lemma_byte_len_encode(s: Seq<char>)
    ensures
        byte_len(s) == vstd::utf8::encode_utf8(s).len(),
    decreases s.len(),
{
    if s.len() > 0 {
        vstd::utf8::char_is_scalar(s[0]);
        lemma_byte_len_encode(s.drop_first());
    }
}

/// The bytes of two texts together are the bytes of each.
pub proof fn lemma_byte_len_concat(a: Seq<char>, b: Seq<char>)
    ensures
        byte_len(a + b) == byte_len(a) + byte_len(b),
    decreases a.len(),
{
    if a.len() > 0 {
        assert((a + b)[0] == a[0]);
        assert((a + b).drop_first() =~= a.drop_first() + b);
        lemma_byte_len_concat(a.drop_first(), b);
    } else {
        assert(a + b =~= b);
    }
}

/// One more character adds its width.
pub proof fn lemma_byte_len_push(s: Seq<char>, c: char)
    ensures
        byte_len(s.push(c)) == byte_len(s) + char_width(c),
    decreases s.len(),
{
    if s.len() == 0 {
        assert(s.push(c).drop_first() =~= Seq::<char>::empty());
        assert(s.push(c)[0] == c);
        assert(byte_len(s.push(c).drop_first()) == 0);
        assert(byte_len(s.push(c)) == char_width(c) + byte_len(s.push(c).drop_first()));
    } else {
        assert(s.push(c)[0] == s[0]);
        assert(s.push(c).drop_first() =~= s.drop_first().push(c));
        lemma_byte_len_push(s.drop_first(), c);
        assert(byte_len(s.push(c)) == char_width(s[0]) + byte_len(s.push(c).drop_first()));
    }
}

/// The first `k` at or after `from` at which the characters before take
/// `limit` bytes or more, or the number of characters.
pub open spec fn kept_from(s: Seq<char>, k: int, limit: nat) -> int
    decreases s.len() - k,
{
    if k < 0 || k >= s.len() || byte_len(s.take(k)) >= limit {
        k
    } else {
        kept_from(s, k + 1, limit)
    }
}

/// `s` cut to fit `max_len` bytes: unchanged when it fits or when `max_len`
/// is below 3, else the characters that start before byte `max_len - 3`
/// followed by `...`.
pub open spec fn truncated(s: Seq<char>, max_len: nat) -> Seq<char> {
    if byte_len(s) <= max_len || max_len < 3 {
        s
    } else {
        s.take(kept_from(s, 0, (max_len - 3) as nat)) + "..."@
    }
}

/// The width of a character in UTF-8.
pub(crate) fn char_width_exec(c: char) -> (r: usize)
    ensures
        r == char_width(c),
{
    let v = c as u32;
    if v <= 0x7F {
        1
    } else if v <= 0x7FF {
        2
    } else if v <= 0xFFFF {
        3
    } else {
        4
    }
}

/// `s` cut to fit `max_len` bytes (see [`truncated`]).
pub fn truncate(s: &str, max_len: usize) -> (r: String)
    ensures
        r@ == truncated(s@, max_len as nat),
{
    proof {
        lemma_byte_len_encode(s@);
    }
    let n = s.as_bytes().len();
    if n <= max_len {
        return owned(s);
    }
    if max_len < 3 {
        return owned(s);
    }
    let target = max_len - 3;
    let cs = chars_of(s);
    let mut k: usize = 0;
    let mut offset: usize = 0;
    assert(cs@.take(0) =~= Seq::<char>::empty());
    while k < cs.len() && offset < target
        invariant
            cs@ == s@,
            k <= cs@.len(),
            target == max_len - 3,
            offset == byte_len(cs@.take(k as int)),
            kept_from(cs@, 0, target as nat) == kept_from(cs@, k as int, target as nat),
        decreases cs@.len() - k,
    {
        let w = char_width_exec(cs[k]);
        proof {
            lemma_byte_len_push(cs@.take(k as int), cs@[k as int]);
            assert(cs@.take(k as int).push(cs@[k as int]) =~= cs@.take(k + 1));
        }
        offset = offset + w;
        k = k + 1;
    }
    let mut r = s.substring_char(0, k).to_string();
    push_str(&mut r, "...");
    assert(s@.subrange(0, k as int) =~= s@.take(k as int));
    r
}

/// Every character is ASCII.
pub open spec fn all_ascii(s: Seq<char>) -> bool {
    forall|i: int| 0 <= i < s.len() ==> (#[trigger] s[i] as u32) <= 0x7F
}

/// An ASCII text takes one byte per character.
pub proof fn lemma_ascii_byte_len(s: Seq<char>)
    requires
        all_ascii(s),
    ensures
        byte_len(s) == s.len(),
    decreases s.len(),
{
    if s.len() > 0 {
        assert(s[0] as u32 <= 0x7F);
        assert forall|i: int| 0 <= i < s.drop_first().len() implies (#[trigger] s.drop_first()[i]
            as u32) <= 0x7F by {
            assert(s.drop_first()[i] == s[i + 1]);
        }
        lemma_ascii_byte_len(s.drop_first());
    }
}

/// In an ASCII text the cut falls at the byte limit.
pub proof fn lemma_ascii_kept(s: Seq<char>, k: int, limit: nat)
    requires
        all_ascii(s),
        0 <= k <= limit < s.len(),
    ensures
        kept_from(s, k, limit) == limit,
    decreases limit - k,
{
    assert forall|i: int| 0 <= i < s.take(k).len() implies (#[trigger] s.take(k)[i] as u32) <= 0x7F by {
        assert(s.take(k)[i] == s[i]);
    }
    lemma_ascii_byte_len(s.take(k));
    if k < limit {
        lemma_ascii_kept(s, k + 1, limit);
    }
}

/// An ASCII text longer than the limit (at least 3) is cut to exactly the
/// limit, the last three characters being `...`.
pub proof fn law_truncate_ascii_exact(s: Seq<char>, max_len: nat)
    requires
        all_ascii(s),
        s.len() > max_len >= 3,
    ensures
        truncated(s, max_len).len() == max_len,
        truncated(s, max_len).skip(max_len - 3) == "..."@,
{
    lemma_ascii_byte_len(s);
    lemma_ascii_kept(s, 0, (max_len - 3) as nat);
    reveal_strlit("...");
    assert(truncated(s, max_len).skip(max_len - 3) =~= "..."@);
}

/// A text that fits is left as it is.
pub proof fn law_truncate_fits(s: Seq<char>, max_len: nat)
    requires
        byte_len(s) <= max_len,
    ensures
        truncated(s, max_len) == s,
{
}

/// Joins texts with `sep`.
pub open spec fn joined(parts: Seq<Seq<char>>, sep: Seq<char>) -> Seq<char>
    decreases parts.len(),
{
    if parts.len() == 0 {
        seq![]
    } else if parts.len() == 1 {
        parts[0]
    } else {
        joined(parts.drop_last(), sep) + sep + parts.last()
    }
}

/// The common name in a distinguished name: the text after the first `CN=`
/// up to the next `,`, or to the end.
pub open spec fn common_name(subject: Seq<char>) -> Option<Seq<char>> {
    match first_occurrence(subject, "CN="@) {
        None => None,
        Some(st) => {
            let rest = subject.skip(st);
            match first_occurrence(rest, ","@) {
                Some(e) => Some(subject.subrange(st + 3, st + e)),
                None => Some(subject.skip(st + 3)),
            }
        },
    }
}

/// The parts of a certificate summary.
pub open spec fn summary_parts(cert: CertificateInfo, is_self_signed: bool) -> Seq<Seq<char>> {
    let a: Seq<Seq<char>> = if is_self_signed {
        seq!["Self-Signed"@]
    } else {
        seq![]
    };
    let b = a.push(
        match cert.key_size {
            Some(n) => decimal(n as nat) + "-bit "@ + cert.key_type@,
            None => cert.key_type@,
        },
    );
    let c = match common_name(cert.subject@) {
        Some(cn) => b.push("CN="@ + truncated(cn, 30)),
        None => b,
    };
    if cert.subject_alt_names@.len() > 0 {
        c.push("+"@ + decimal(cert.subject_alt_names@.len()) + " SANs"@)
    } else {
        c
    }
}

/// The common name of `subject`, if it names one.
fn find_common_name(subject: &str) -> (r: Option<String>)
    ensures
        r matches Some(s) ==> common_name(subject@) == Some(s@),
        r is None ==> common_name(subject@) is None,
{
    match str_find(subject, "CN=") {
        None => None,
        Some(st) => {
            proof {
                lemma_first_occurrence_from(subject@, "CN="@, 0);
                reveal_strlit("CN=");
                reveal_strlit(",");
            }
            let n = crate::text::char_count(subject);
            let rest = subject.substring_char(st, n);
            assert(rest@ =~= subject@.skip(st as int));
            match str_find(rest, ",") {
                Some(e) => {
                    proof {
                        lemma_first_occurrence_from(rest@, ","@, 0);
                        assert(occurs_at(subject@, "CN="@, st as int));
                        assert(subject@.subrange(st as int, st + 3) == "CN="@);
                        assert(rest@[0] == 'C' && rest@[1] == 'N' && rest@[2] == '=');
                        if e < 3 {
                            assert(rest@.subrange(e as int, e + 1) == ","@);
                            assert(","@[0] == ',');
                            assert(rest@.subrange(e as int, e + 1)[0] == rest@[e as int]);
                            assert(rest@[e as int] == ',');
                        }
                    }
                    Some(subject.substring_char(st + 3, st + e).to_string())
                },
                None => Some(subject.substring_char(st + 3, n).to_string()),
            }
        },
    }
}

/// Appends `sep` and `part`, or just `part` when `s` holds no part yet.
fn push_part(s: &mut String, first: bool, part: &str)
    ensures
        final(s)@ == if first {
            old(s)@ + part@
        } else {
            old(s)@ + " • "@ + part@
        },
{
    if !first {
        push_str(s, " • ");
    }
    push_str(s, part);
}

/// A one-line summary of a certificate: self-signed mark, key, common name
/// (cut to 30 bytes) and number of alternative names, joined by ` • `.
pub fn generate_cert_summary(cert: &CertificateInfo, is_self_signed: bool) -> (r: String)
    ensures
        r@ == joined(summary_parts(*cert, is_self_signed), " • "@),
{
    let ghost parts = summary_parts(*cert, is_self_signed);
    let mut out = String::new();
    let mut first = true;
    let ghost done: Seq<Seq<char>> = seq![];
    if is_self_signed {
        push_part(&mut out, first, "Self-Signed");
        first = false;
        proof {
            done = done.push("Self-Signed"@);
        }
        assert(out@ == joined(done, " • "@));
    }
    let key_part = match cert.key_size {
        Some(size) => {
            let mut k = String::new();
            push_decimal(&mut k, size as u64);
            push_str(&mut k, "-bit ");
            push_str(&mut k, cert.key_type.as_str());
            k
        },
        None => cert.key_type.clone(),
    };
    proof {
        assert(done.push(key_part@).drop_last() =~= done);
    }
    push_part(&mut out, first, key_part.as_str());
    proof {
        done = done.push(key_part@);
    }
    assert(out@ =~= joined(done, " • "@));
    match find_common_name(cert.subject.as_str()) {
        Some(cn) => {
            let mut p = owned("CN=");
            let t = truncate(cn.as_str(), 30);
            push_str(&mut p, t.as_str());
            proof {
                assert(done.push(p@).drop_last() =~= done);
            }
            push_part(&mut out, false, p.as_str());
            proof {
                done = done.push(p@);
            }
            assert(out@ =~= joined(done, " • "@));
        },
        None => {},
    }
    if cert.subject_alt_names.len() > 0 {
        let mut p = owned("+");
        push_decimal(&mut p, cert.subject_alt_names.len() as u64);
        push_str(&mut p, " SANs");
        proof {
            assert(done.push(p@).drop_last() =~= done);
        }
        push_part(&mut out, false, p.as_str());
        proof {
            done = done.push(p@);
        }
        assert(out@ =~= joined(done, " • "@));
    }
    assert(done =~= parts);
    out
}

/// The key size cell: the AEAD key bits, or `N/A`.
pub fn key_bits_label(aead: &Option<AeadDetails>) -> (r: String)
    ensures
        r@ == match aead {
            Some(a) => decimal(a.key_bits as nat),
            None => "N/A"@,
        },
{
    match aead {
        Some(a) => {
            let mut s = String::new();
            push_decimal(&mut s, a.key_bits as u64);
            assert(s@ =~= decimal(a.key_bits as nat));
            s
        },
        None => owned("N/A"),
    }
}

/// The session resumption cell: `Yes` with the ticket lifetime in whole
/// days, or `No`.
pub fn resumption_label(ticket: &SessionTicketInfo) -> (r: String)
    ensures
        r@ == if ticket.is_session_resumption_supported {
            "Yes ("@ + decimal((ticket.ticket_lifetime_seconds / 86400) as nat) + " days)"@
        } else {
            "No"@
        },
{
    if ticket.is_session_resumption_supported {
        let days = ticket.ticket_lifetime_seconds / 86400;
        let mut s = owned("Yes (");
        push_decimal(&mut s, days as u64);
        push_str(&mut s, " days)");
        s
    } else {
        owned("No")
    }
}

/// The post-quantum cell: quantum-safe, X25519MLKEM768 negotiated, hybrid,
/// needing a hybrid approach, or not ready, in that order of precedence.
pub open spec fn pqc_status_text(quantum_safe: bool, mlkem: bool, hybrid_ready: bool, hybrid_available: bool) -> Seq<char> {
    if quantum_safe {
        "✓ Quantum-Safe"@
    } else if mlkem {
        "✓ X25519MLKEM768"@
    } else if hybrid_ready {
        "~ Hybrid (partial)"@
    } else if hybrid_available {
        "⚠ Needs Hybrid"@
    } else {
        "✗ Not Ready"@
    }
}

/// The post-quantum cell of a report (see [`pqc_status_text`]); `messages`
/// are the report's handshake messages.
pub fn pqc_status(report: &TLSAnalysisReport, messages: &[HandshakeMessage]) -> (r: String)
    ensures
        r@ == pqc_status_text(
            report.post_quantum_analysis.post_quantum_readiness.quantum_safe,
            exists|i: int| 0 <= i < messages@.len() && is_mlkem_server_hello(#[trigger] messages@[i]),
            report.post_quantum_analysis.hybrid_ready,
            report.post_quantum_analysis.hybrid_approach_available,
        ),
{
    let pqc = &report.post_quantum_analysis;
    let mlkem = check_x25519_mlkem768_negotiated(messages);
    if pqc.post_quantum_readiness.quantum_safe {
        owned("✓ Quantum-Safe")
    } else if mlkem {
        owned("✓ X25519MLKEM768")
    } else if pqc.hybrid_ready {
        owned("~ Hybrid (partial)")
    } else if pqc.hybrid_approach_available {
        owned("⚠ Needs Hybrid")
    } else {
        owned("✗ Not Ready")
    }
}

/// The role of certificate `idx` in a chain of `len`: leaf, root (the last)
/// or intermediate.
pub fn certificate_role(idx: usize, len: usize) -> (r: String)
    ensures
        r@ == if idx == 0 {
            "🍃 Leaf"@
        } else if idx + 1 == len {
            "🔑 Root"@
        } else {
            "🔗 Intermediate"@
        },
{
    if idx == 0 {
        owned("🍃 Leaf")
    } else if len > 0 && idx == len - 1 {
        owned("🔑 Root")
    } else {
        owned("🔗 Intermediate")
    }
}

/// Whether a certificate names itself as its issuer.
pub fn is_self_signed(cert: &CertificateInfo) -> (r: bool)
    ensures
        r == (cert.subject@ == cert.issuer@),
{
    str_eq(cert.subject.as_str(), cert.issuer.as_str())
}

/// Number of messages sent by the client.
pub open spec fn client_message_count(ms: Seq<MessageView>) -> nat
    decreases ms.len(),
{
    if ms.len() == 0 {
        0
    } else {
        client_message_count(ms.drop_last()) + if starts_with_seq(ms.last().direction, "Client"@) {
            1nat
        } else {
            0nat
        }
    }
}

/// Total size of the messages.
pub open spec fn total_message_size(ms: Seq<MessageView>) -> nat
    decreases ms.len(),
{
    if ms.len() == 0 {
        0
    } else {
        total_message_size(ms.drop_last()) + ms.last().size as nat
    }
}

/// The message counts of each side and the total size of the messages.
pub fn handshake_stats(messages: &[HandshakeMessage]) -> (r: (usize, usize, usize))
    requires
        total_message_size(messages_view(messages@)) <= usize::MAX,
    ensures
        r.0 == client_message_count(messages_view(messages@)),
        r.0 + r.1 == messages@.len(),
        r.2 == total_message_size(messages_view(messages@)),
{
    let ghost ms = messages_view(messages@);
    let mut client: usize = 0;
    let mut server: usize = 0;
    let mut total: usize = 0;
    let mut i: usize = 0;
    while i < messages.len()
        invariant
            i <= messages@.len(),
            ms == messages_view(messages@),
            total_message_size(ms) <= usize::MAX,
            client == client_message_count(ms.take(i as int)),
            client + server == i,
            total == total_message_size(ms.take(i as int)),
        decreases messages@.len() - i,
    {
        assert(ms.take(i + 1).drop_last() =~= ms.take(i as int));
        assert(ms.take(i + 1).last() == messages@[i as int]@);
        proof {
            lemma_total_size_prefix(ms, i + 1);
        }
        if str_starts_with(messages[i].direction.as_str(), "Client") {
            client = client + 1;
        } else {
            server = server + 1;
        }
        total = total + messages[i].size;
        i = i + 1;
    }
    assert(ms.take(i as int) =~= ms);
    (client, server, total)
}

/// A prefix's total size is at most the whole's.
pub proof fn lemma_total_size_prefix(ms: Seq<MessageView>, k: int)
    requires
        0 <= k <= ms.len(),
    ensures
        total_message_size(ms.take(k)) <= total_message_size(ms),
    decreases ms.len() - k,
{
    if k < ms.len() {
        lemma_total_size_prefix(ms, k + 1);
        assert(ms.take(k + 1).drop_last() =~= ms.take(k));
    } else {
        assert(ms.take(k) =~= ms);
    }
}

} // verus!
