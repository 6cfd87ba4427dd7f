//! The HTTP exchange sent over the connection, and what encryption adds to it.
use vstd::prelude::*;
use vstd::string::*;

use crate::error::TlsError;
use crate::summary::{
    byte_len,
    char_width_exec,
    lemma_byte_len_concat,
    lemma_byte_len_encode,
    lemma_byte_len_push,
};
use crate::text::{chars_of, decimal, owned, push_decimal, push_str};
use crate::tls::types::{EncryptedData, EncryptionAnalysis, HttpExchange, HttpMessage, PlaintextData};

verus! {

/// Size of a TLS 1.3 record carrying `plaintext_size` bytes: one byte of
/// inner content type, a 16-byte tag and a 5-byte header are added.
pub fn calculate_encrypted_size(plaintext_size: usize) -> (r: usize)
    requires
        plaintext_size + 22 <= usize::MAX,
    ensures
        r == plaintext_size + 22,
{
    plaintext_size + 1 + 16 + 5
}

/// The number of leading characters of `s`, counted from `k`, whose bytes
/// together stay within `limit`.
pub open spec fn chars_within(s: Seq<char>, k: int, limit: nat) -> int
    decreases s.len() - k,
{
    if 0 <= k < s.len() && byte_len(s.take(k + 1)) <= limit {
        chars_within(s, k + 1, limit)
    } else {
        k
    }
}

/// The response as the report shows it: whole up to 500 bytes, else its
/// first 500 bytes (down to the last whole character when byte 500 falls
/// inside one) and a note of how many bytes were cut.
pub open spec fn response_preview(response: &str) -> Seq<char> {
    let s = response@;
    if byte_len(s) > 500 {
        let head = s.take(chars_within(s, 0, 500));
        head + "...[truncated "@ + decimal((byte_len(s) - byte_len(head)) as nat) + " bytes]"@
    } else {
        s
    }
}

/// `m` is an HTTP message of `size` bytes showing `content`, with these
/// record texts.
pub open spec fn is_http_message(
    m: HttpMessage,
    content: Seq<char>,
    size: nat,
    content_type_in_record: Seq<char>,
    padding: Seq<char>,
    note: Seq<char>,
) -> bool {
    &&& m.plaintext.content@ == content
    &&& m.plaintext.size_bytes == size
    &&& m.encrypted.tls_record_type@ == "Application Data (type 23)"@
    &&& m.encrypted.tls_record_type_code == 23
    &&& m.encrypted.ciphertext_preview@ == "[Encrypted with AES-256-GCM]"@
    &&& m.encrypted.total_encrypted_size == size + 22
    &&& m.encrypted.content_type_in_record@ == content_type_in_record
    &&& m.encryption_analysis.encryption_overhead == 21
    &&& m.encryption_analysis.record_header_size == 5
    &&& m.encryption_analysis.authentication_tag_size == 16
    &&& m.encryption_analysis.content_type_byte == 1
    &&& m.encryption_analysis.content_type_padding@ == padding
    &&& m.encryption_analysis.total_size_with_record_header == size + 22
    &&& m.encryption_analysis.encryption_note@ == note
}

/// One HTTP message with these texts.
fn http_message(
    content: String,
    size: usize,
    content_type_in_record: &str,
    padding: &str,
    note: &str,
) -> (r: HttpMessage)
    requires
        size + 22 <= usize::MAX,
    ensures
        is_http_message(r, content@, size as nat, content_type_in_record@, padding@, note@),
{
    HttpMessage {
        plaintext: PlaintextData { content, size_bytes: size },
        encrypted: EncryptedData {
            tls_record_type: owned("Application Data (type 23)"),
            tls_record_type_code: 23,
            ciphertext_preview: owned("[Encrypted with AES-256-GCM]"),
            total_encrypted_size: calculate_encrypted_size(size),
            content_type_in_record: owned(content_type_in_record),
        },
        encryption_analysis: EncryptionAnalysis {
            encryption_overhead: 16 + 5,
            record_header_size: 5,
            authentication_tag_size: 16,
            content_type_byte: 1,
            content_type_padding: owned(padding),
            total_size_with_record_header: calculate_encrypted_size(size),
            encryption_note: owned(note),
        },
    }
}

/// `x` is the exchange of `request` and `response`: the request whole, the
/// response as [`response_preview`] shows it, each with its size and record
/// texts.
pub open spec fn is_http_exchange(x: HttpExchange, request: &str, response: &str) -> bool {
    &&& is_http_message(
        x.request,
        request@,
        request.spec_bytes().len(),
        "0x16 (Handshake) or 0x17 (Application Data)"@,
        "0x16 (after decryption)"@,
        "Request is encrypted with negotiated cipher suite (AES-256-GCM)"@,
    )
    &&& is_http_message(
        x.response,
        response_preview(response),
        response.spec_bytes().len(),
        "0x17 (Application Data)"@,
        "0x17 (content type appended, then padding added)"@,
        "Response is encrypted with same cipher suite; each TLS record can be up to 16KB of plaintext + overhead"@,
    )
}

/// The HTTP request and response as plaintext and as encrypted records.
pub fn build_http_exchange(request: &str, response: &str) -> (r: Result<HttpExchange, TlsError>)
    requires
        request.spec_bytes().len() + 22 <= usize::MAX,
        response.spec_bytes().len() + 22 <= usize::MAX,
    ensures
        r matches Ok(x) && is_http_exchange(x, request, response),
{
    let request_msg = http_message(
        owned(request),
        request.len(),
        "0x16 (Handshake) or 0x17 (Application Data)",
        "0x16 (after decryption)",
        "Request is encrypted with negotiated cipher suite (AES-256-GCM)",
    );
    let n = response.len();
    proof {
        lemma_byte_len_encode(response@);
    }
    let response_preview = if n > 500 {
        let cs = chars_of(response);
        let mut k: usize = 0;
        let mut offset: usize = 0;
        assert(cs@.take(0) =~= Seq::<char>::empty());
        while k < cs.len() && offset + char_width_exec(cs[k]) <= 500
            invariant
                cs@ == response@,
                k <= cs@.len(),
                offset <= 500,
                offset == byte_len(cs@.take(k as int)),
                chars_within(cs@, 0, 500) == chars_within(cs@, k as int, 500),
            decreases cs@.len() - k,
        {
            proof {
                lemma_byte_len_push(cs@.take(k as int), cs@[k as int]);
                assert(cs@.take(k as int).push(cs@[k as int]) =~= cs@.take(k + 1));
            }
            offset = offset + char_width_exec(cs[k]);
            k = k + 1;
        }
        proof {
            if k < cs@.len() {
                lemma_byte_len_push(cs@.take(k as int), cs@[k as int]);
                assert(cs@.take(k as int).push(cs@[k as int]) =~= cs@.take(k + 1));
            }
        }
        let head = response.substring_char(0, k);
        assert(head@ =~= response@.take(k as int));
        let mut c = owned(head);
        push_str(&mut c, "...[truncated ");
        push_decimal(&mut c, (n - offset) as u64);
        push_str(&mut c, " bytes]");
        c
    } else {
        owned(response)
    };
    let response_msg = http_message(
        response_preview,
        n,
        "0x17 (Application Data)",
        "0x17 (content type appended, then padding added)",
        "Response is encrypted with same cipher suite; each TLS record can be up to 16KB of plaintext + overhead",
    );
    Ok(HttpExchange { request: request_msg, response: response_msg })
}

/// On the wire a message takes its own size plus the encryption overhead
/// and the inner content type byte.
pub proof fn law_record_size_adds_overhead(
    m: HttpMessage,
    content: Seq<char>,
    size: nat,
    ct: Seq<char>,
    padding: Seq<char>,
    note: Seq<char>,
)
    requires
        is_http_message(m, content, size, ct, padding, note),
    ensures
        m.encrypted.total_encrypted_size == m.plaintext.size_bytes
            + m.encryption_analysis.encryption_overhead + m.encryption_analysis.content_type_byte,
        m.encryption_analysis.encryption_overhead == m.encryption_analysis.authentication_tag_size
            + m.encryption_analysis.record_header_size,
{
}

/// The exchange keeps the request whole and a response of at most 500
/// bytes whole, gives each message its size in bytes, and puts every message
/// in an application-data record 22 bytes longer than it.
pub proof fn law_http_exchange(x: HttpExchange, request: &str, response: &str)
    requires
        is_http_exchange(x, request, response),
    ensures
        x.request.plaintext.content@ == request@,
        x.request.plaintext.size_bytes == request.spec_bytes().len(),
        x.response.plaintext.size_bytes == response.spec_bytes().len(),
        response.spec_bytes().len() <= 500 ==> x.response.plaintext.content@ == response@,
        x.request.encrypted.total_encrypted_size == x.request.encryption_analysis.total_size_with_record_header
            == x.request.plaintext.size_bytes + 22,
        x.response.encrypted.total_encrypted_size
            == x.response.encryption_analysis.total_size_with_record_header
            == x.response.plaintext.size_bytes + 22,
        x.request.encrypted.tls_record_type_code == 23,
        x.response.encrypted.tls_record_type_code == 23,
{
    lemma_byte_len_encode(response@);
}

/// Prefixes with more characters take more bytes.
proof fn lemma_prefix_bytes_grow(s: Seq<char>, i: int, j: int)
    requires
        0 <= i < j <= s.len(),
    ensures
        byte_len(s.take(i)) < byte_len(s.take(j)),
{
    assert(s.take(i) + s.subrange(i, j) =~= s.take(j));
    lemma_byte_len_concat(s.take(i), s.subrange(i, j));
    lemma_chars_within_bytes(s.subrange(i, j));
}

/// The count from `k` on keeps within the limit and stops only where one
/// more character would pass it.
proof fn lemma_chars_within(s: Seq<char>, k: int, limit: nat)
    requires
        0 <= k <= s.len(),
        byte_len(s.take(k)) <= limit,
    ensures
        k <= chars_within(s, k, limit) <= s.len(),
        byte_len(s.take(chars_within(s, k, limit))) <= limit,
        chars_within(s, k, limit) < s.len() ==> byte_len(s.take(chars_within(s, k, limit) + 1))
            > limit,
    decreases s.len() - k,
{
    if k < s.len() && byte_len(s.take(k + 1)) <= limit {
        lemma_chars_within(s, k + 1, limit);
    }
}

/// A response longer than 500 bytes is cut at byte 500 when a character ends
/// there, and otherwise at the last character that ends before it: the part
/// shown takes at most 500 bytes and one more character would pass them,
/// and the note counts the bytes left out.
pub proof fn law_preview_cut(response: &str)
    requires
        byte_len(response@) > 500,
    ensures
        ({
            let s = response@;
            let k = chars_within(s, 0, 500);
            &&& 0 <= k < s.len()
            &&& byte_len(s.take(k)) <= 500 < byte_len(s.take(k + 1))
            &&& forall|j: int| 0 <= j <= s.len() && #[trigger] byte_len(s.take(j)) == 500 ==> j == k
            &&& response_preview(response) == s.take(k) + "...[truncated "@ + decimal(
                (byte_len(s) - byte_len(s.take(k))) as nat,
            ) + " bytes]"@
        }),
{
    let s = response@;
    assert(s.take(0) =~= Seq::<char>::empty());
    lemma_chars_within(s, 0, 500);
    let k = chars_within(s, 0, 500);
    assert(s.take(s.len() as int) =~= s);
    assert forall|j: int| 0 <= j <= s.len() && #[trigger] byte_len(s.take(j)) == 500 implies j == k by {
        if j < k {
            lemma_prefix_bytes_grow(s, j, k);
        } else if j > k {
            if j > k + 1 {
                lemma_prefix_bytes_grow(s, k + 1, j);
            }
        }
    }
}

/// A text has no more characters than bytes.
proof fn lemma_chars_within_bytes(s: Seq<char>)
    ensures
        s.len() <= byte_len(s),
    decreases s.len(),
{
    if s.len() > 0 {
        lemma_chars_within_bytes(s.drop_first());
    }
}

} // verus!
