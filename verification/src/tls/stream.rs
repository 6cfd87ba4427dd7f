//! Recording the TLS records that pass over a connection: the handshake
//! messages they carry, and the encrypted records for later decryption.
use vstd::prelude::*;

use crate::error::{is_other, TlsError};
use crate::text::{decimal, owned, push_decimal, push_str};
use crate::tls::crypto::{aead_open, ring_aead_open, AeadAlgorithm, OpenOutcome};
use crate::tls::fields::{
    distinct_keys,
    lemma_distinct_by_length,
    FieldMap,
    FieldValue,
    FieldValueView,
};
use crate::tls::handshake::{
    be16,
    be24,
    handshake_fields,
    handshake_type_description,
    handshake_type_name,
    law_decoded_fields_are_distinct,
    new_session_ticket_fields,
    parse_handshake_fields,
    parse_handshake_type,
    parse_new_session_ticket,
    walk_measure,
};
use crate::tls::types::{
    lemma_messages_view_push,
    messages_view,
    DecryptionDebugInfo,
    ExtractedSecrets,
    HandshakeMessage,
    MessageView,
    SecretsView,
    TrafficCipher,
};

verus! {

/// An application-data record as it passed, for decryption later.
#[derive(Debug)]
pub struct EncryptedRecord {
    pub data: Vec<u8>,
    pub direction_is_write: bool,
    pub sequence_number: u64,
}

/// The model of an [`EncryptedRecord`].
pub struct RecordView {
    pub data: Seq<u8>,
    pub write: bool,
    pub seq: u64,
}

impl View for EncryptedRecord {
    type V = RecordView;

    open spec fn view(&self) -> RecordView {
        RecordView { data: self.data@, write: self.direction_is_write, seq: self.sequence_number }
    }
}

/// The model of a list of records.
pub open spec fn records_view(v: Seq<EncryptedRecord>) -> Seq<RecordView> {
    v.map_values(|r: EncryptedRecord| r@)
}

/// Something a TLS record or a decrypted record carries.
pub enum WireItem {
    /// A handshake message: its type, its size with its 4-byte header, and
    /// its decoded fields where its body lies within the data.
    Handshake { msg_type: u8, size: nat, fields: Option<Seq<(Seq<char>, FieldValueView)>> },
    /// A change-cipher-spec record of `size` bytes.
    ChangeCipherSpec { size: nat },
    /// An application-data record with this payload.
    ApplicationData { payload: Seq<u8> },
    /// A session ticket found in decrypted application data.
    SessionTicket { size: nat, fields: Option<Seq<(Seq<char>, FieldValueView)>> },
}

/// The handshake messages found walking `rest` from `msg_pos` while a
/// 4-byte header fits in the first `len` bytes.
pub open spec fn handshake_items(rest: Seq<u8>, len: nat, msg_pos: int) -> Seq<WireItem>
    decreases walk_measure(len, msg_pos),
{
    if msg_pos < 0 || msg_pos + 4 > len || len > rest.len() {
        seq![]
    } else {
        let t = rest[msg_pos];
        let ml = be24(rest[msg_pos + 1], rest[msg_pos + 2], rest[msg_pos + 3]);
        let ps = msg_pos + 4;
        let pe = ps + ml;
        let fields = if pe <= rest.len() {
            handshake_fields(t, rest.subrange(ps, pe))
        } else {
            None
        };
        seq![WireItem::Handshake { msg_type: t, size: ml + 4, fields }] + handshake_items(
            rest,
            len,
            pe,
        )
    }
}

/// What one record of content type `ct` carries; `rest` starts at its
/// payload, which is `len` bytes long.
pub open spec fn record_items(ct: u8, rest: Seq<u8>, len: nat) -> Seq<WireItem> {
    if ct == 22 {
        handshake_items(rest, len, 0)
    } else if ct == 20 {
        seq![WireItem::ChangeCipherSpec { size: len }]
    } else if ct == 23 {
        seq![WireItem::ApplicationData { payload: rest.take(len as int) }]
    } else {
        seq![]
    }
}

/// What the TLS records in `data` carry, in order; a record cut short by the
/// end of the data ends the walk.
pub open spec fn wire_items(data: Seq<u8>) -> Seq<WireItem>
    decreases data.len(),
{
    if data.len() < 5 {
        seq![]
    } else {
        let ct = data[0];
        let len = be16(data[3], data[4]);
        let rest = data.skip(5);
        if len > rest.len() {
            seq![]
        } else {
            record_items(ct, rest, len) + wire_items(rest.skip(len as int))
        }
    }
}

/// The model of a [`TrackedStream`].
pub struct TrackerView {
    pub messages: Seq<MessageView>,
    pub records: Seq<RecordView>,
    pub handshake_complete: bool,
    pub decrypted: nat,
}

/// Number of records of `rs` that went in direction `write`.
pub open spec fn count_dir(rs: Seq<RecordView>, write: bool) -> nat
    decreases rs.len(),
{
    if rs.len() == 0 {
        0
    } else {
        count_dir(rs.drop_last(), write) + if rs.last().write == write {
            1nat
        } else {
            0nat
        }
    }
}

/// The direction label of a message.
pub open spec fn direction_text(write: bool) -> Seq<char> {
    if write {
        "Client → Server"@
    } else {
        "Server → Client"@
    }
}

/// `st` with one more message.
pub open spec fn push_message_view(
    st: TrackerView,
    direction: Seq<char>,
    message_type: Seq<char>,
    size: nat,
    description: Seq<char>,
    fields: Option<Seq<(Seq<char>, FieldValueView)>>,
    inferred: bool,
) -> TrackerView {
    TrackerView {
        messages: st.messages.push(
            MessageView {
                sequence: st.messages.len() as usize,
                direction,
                message_type,
                size: size as usize,
                description,
                fields,
                inferred,
            },
        ),
        ..st
    }
}

/// `st` after one item, recorded in direction `write`.
pub open spec fn apply_item(st: TrackerView, item: WireItem, write: bool) -> TrackerView {
    match item {
        WireItem::Handshake { msg_type, size, fields } => push_message_view(
            st,
            direction_text(write),
            handshake_type_name(msg_type),
            size,
            handshake_type_description(msg_type),
            fields,
            false,
        ),
        WireItem::ChangeCipherSpec { size } => push_message_view(
            st,
            direction_text(write),
            "ChangeCipherSpec"@,
            size,
            "Cipher suite change notification (TLS 1.2)"@,
            None,
            false,
        ),
        WireItem::SessionTicket { size, fields } => push_message_view(
            st,
            "Server → Client"@,
            handshake_type_name(4),
            size,
            handshake_type_description(4),
            fields,
            false,
        ),
        WireItem::ApplicationData { payload } => TrackerView {
            records: st.records.push(
                RecordView { data: payload, write, seq: count_dir(st.records, write) as u64 },
            ),
            ..st
        },
    }
}

/// `st` after all `items`, in order.
pub open spec fn apply_items(st: TrackerView, items: Seq<WireItem>, write: bool) -> TrackerView
    decreases items.len(),
{
    if items.len() == 0 {
        st
    } else {
        apply_items(apply_item(st, items[0], write), items.drop_first(), write)
    }
}

/// The messages are numbered by their positions.
pub open spec fn well_numbered(ms: Seq<MessageView>) -> bool {
    forall|i: int| 0 <= i < ms.len() ==> #[trigger] ms[i].sequence == i
}

/// The fields of a message inferred from encrypted traffic.
pub open spec fn inferred_fields(note: Seq<char>) -> Seq<(Seq<char>, FieldValueView)> {
    seq![
        ("encrypted"@, FieldValueView::Flag(true)),
        ("note"@, FieldValueView::Text(note)),
        (
            "inferred_reason"@,
            FieldValueView::Text("Encrypted in TLS 1.3; actual message not captured from wire"@),
        ),
    ]
}

/// `st` with a server message inferred from encrypted traffic.
pub open spec fn push_inferred_server(st: TrackerView, t: Seq<char>, d: Seq<char>) -> TrackerView {
    push_message_view(
        st,
        "Server → Client"@,
        t,
        0,
        d,
        Some(inferred_fields(t + " sent encrypted (TLS 1.3)"@)),
        true,
    )
}

/// `st` with the messages that encrypted traffic implies: the server's
/// encrypted flight when the server sent encrypted records and the handshake
/// is not marked complete, and the client's `Finished` when both sides did.
pub open spec fn with_inferred(st: TrackerView) -> TrackerView {
    let from_server = count_dir(st.records, false);
    let from_client = count_dir(st.records, true);
    let s1 = if from_server > 0 && !st.handshake_complete {
        let a = push_inferred_server(
            st,
            "EncryptedExtensions"@,
            "Server sends encrypted TLS extensions (TLS 1.3)"@,
        );
        let b = push_inferred_server(
            a,
            "Certificate"@,
            "Server presents certificate chain for authentication"@,
        );
        let c = push_inferred_server(
            b,
            "CertificateVerify"@,
            "Server proves possession of private key via signature"@,
        );
        push_inferred_server(c, "Finished"@, "Handshake complete, includes MAC of all messages"@)
    } else {
        st
    };
    if from_client > 0 && from_server > 0 {
        push_message_view(
            s1,
            "Client → Server"@,
            "Finished"@,
            0,
            "Client handshake complete with MAC"@,
            Some(inferred_fields("MAC of all handshake messages (TLS 1.3)"@)),
            true,
        )
    } else {
        s1
    }
}

/// The nonce of record number `seq` under `iv`: the IV with the big-endian
/// sequence number XORed into its last eight bytes.
pub open spec fn record_nonce(iv: Seq<u8>, seq: u64) -> Seq<u8> {
    Seq::new(
        12,
        |i: int|
            if i < 4 {
                iv[i]
            } else {
                iv[i] ^ ((seq >> ((11 - i) * 8) as u64) as u8)
            },
    )
}

/// The AEAD algorithm for a key of `key_len` bytes.
pub open spec fn record_algorithm(is_aes: bool, key_len: nat) -> AeadAlgorithm {
    if !is_aes {
        AeadAlgorithm::Chacha20Poly1305
    } else if key_len == 16 {
        AeadAlgorithm::Aes128Gcm
    } else {
        AeadAlgorithm::Aes256Gcm
    }
}

/// What decrypting `ct` as record `seq` gives: the plaintext, or the text of
/// the error.
pub open spec fn aead_record_result(
    ct: Seq<u8>,
    key: Seq<u8>,
    iv: Seq<u8>,
    seq: u64,
    is_aes: bool,
) -> Result<Seq<u8>, Seq<char>> {
    if ct.len() < 16 {
        Err("Ciphertext too short for AEAD"@)
    } else if is_aes && key.len() != 16 && key.len() != 32 {
        Err("Invalid AES key size: "@ + decimal(key.len()))
    } else if !is_aes && key.len() != 32 {
        Err("Failed to create ChaCha20-Poly1305 key"@)
    } else {
        match ring_aead_open(
            record_algorithm(is_aes, key.len()),
            key,
            record_nonce(iv, seq),
            ct,
        ) {
            Some(p) => Ok(p),
            None => Err("AEAD decryption failed"@),
        }
    }
}

/// The plaintext of `rec` under the secret of its direction, if it decrypts.
pub open spec fn record_plaintext(rec: RecordView, secrets: SecretsView) -> Option<Seq<u8>> {
    let s = if rec.write {
        secrets.tx.1
    } else {
        secrets.rx.1
    };
    let r = match s.cipher {
        TrafficCipher::Aes256Gcm => aead_record_result(rec.data, s.key, s.iv, rec.seq, true),
        TrafficCipher::Aes128Gcm => aead_record_result(rec.data, s.key, s.iv, rec.seq, true),
        TrafficCipher::Chacha20Poly1305 => aead_record_result(
            rec.data,
            s.key,
            s.iv,
            rec.seq,
            false,
        ),
        TrafficCipher::Unsupported => Err(Seq::empty()),
    };
    match r {
        Ok(p) => Some(p),
        Err(_) => None,
    }
}

/// What a decrypted record carries: handshake messages under inner content
/// type 22, or a session ticket in server application data.
pub open spec fn plaintext_items(pt: Seq<u8>, write: bool) -> Seq<WireItem> {
    if pt.len() == 0 {
        seq![]
    } else {
        let content = pt.drop_last();
        let ct = pt.last();
        if ct == 22 {
            handshake_items(content, content.len(), 0)
        } else if ct == 23 && !write && content.len() >= 4 && content[0] == 4 {
            seq![
                WireItem::SessionTicket {
                    size: content.len(),
                    fields: new_session_ticket_fields(content),
                },
            ]
        } else {
            seq![]
        }
    }
}

/// `st` after trying to decrypt `rec`: server records before the receive
/// secret's sequence number are skipped.
pub open spec fn decrypt_step(st: TrackerView, rec: RecordView, secrets: SecretsView) -> TrackerView {
    if rec.write || rec.seq >= secrets.rx.0 {
        match record_plaintext(rec, secrets) {
            Some(p) => if p.len() > 0 {
                apply_items(
                    TrackerView { decrypted: st.decrypted + 1, ..st },
                    plaintext_items(p, rec.write),
                    rec.write,
                )
            } else {
                st
            },
            None => st,
        }
    } else {
        st
    }
}

/// `st` after trying to decrypt each of `recs`, in order.
pub open spec fn decrypt_all(st: TrackerView, recs: Seq<RecordView>, secrets: SecretsView) -> TrackerView
    decreases recs.len(),
{
    if recs.len() == 0 {
        st
    } else {
        decrypt_all(decrypt_step(st, recs[0], secrets), recs.drop_first(), secrets)
    }
}

/// Applying a concatenation of items applies the first part, then the second.
pub proof fn lemma_apply_items_append(st: TrackerView, a: Seq<WireItem>, b: Seq<WireItem>, write: bool)
    ensures
        apply_items(st, a + b, write) == apply_items(apply_items(st, a, write), b, write),
    decreases a.len(),
{
    if a.len() == 0 {
        assert(a + b =~= b);
    } else {
        assert((a + b)[0] == a[0]);
        assert((a + b).drop_first() =~= a.drop_first() + b);
        lemma_apply_items_append(apply_item(st, a[0], write), a.drop_first(), b, write);
    }
}

/// Applying a single item.
pub proof fn lemma_apply_one(st: TrackerView, x: WireItem, rest: Seq<WireItem>, write: bool)
    ensures
        apply_items(st, seq![x] + rest, write) == apply_items(apply_item(st, x, write), rest, write),
{
    assert((seq![x] + rest)[0] == x);
    assert((seq![x] + rest).drop_first() =~= rest);
}

/// A direction's record count is at most the number of records, and the two
/// directions' counts add up to it.
pub proof fn lemma_count_dir(rs: Seq<RecordView>)
    ensures
        count_dir(rs, true) + count_dir(rs, false) == rs.len(),
    decreases rs.len(),
{
    if rs.len() > 0 {
        lemma_count_dir(rs.drop_last());
    }
}

/// Counting after one more record.
pub proof fn lemma_count_dir_push(rs: Seq<RecordView>, r: RecordView, write: bool)
    ensures
        count_dir(rs.push(r), write) == count_dir(rs, write) + if r.write == write {
            1nat
        } else {
            0nat
        },
{
    assert(rs.push(r).drop_last() =~= rs);
}

/// Each record is numbered by how many records of its direction came before
/// it, as TLS numbers records for their nonces.
pub open spec fn well_sequenced(rs: Seq<RecordView>) -> bool {
    forall|i: int|
        0 <= i < rs.len() ==> #[trigger] rs[i].seq == count_dir(rs.take(i), rs[i].write) as u64
}

/// Recording keeps records numbered per direction: each new record gets the
/// next number of its direction.
pub proof fn law_records_stay_sequenced(st: TrackerView, items: Seq<WireItem>, write: bool)
    requires
        well_sequenced(st.records),
    ensures
        well_sequenced(apply_items(st, items, write).records),
    decreases items.len(),
{
    if items.len() > 0 {
        let s1 = apply_item(st, items[0], write);
        assert(well_sequenced(s1.records)) by {
            if items[0] is ApplicationData {
                let r = s1.records.last();
                assert forall|i: int| 0 <= i < s1.records.len() implies #[trigger] s1.records[i].seq
                    == count_dir(s1.records.take(i), s1.records[i].write) as u64 by {
                    if i < st.records.len() {
                        assert(s1.records.take(i) =~= st.records.take(i));
                        assert(s1.records[i] == st.records[i]);
                    } else {
                        assert(s1.records.take(i) =~= st.records);
                    }
                }
            }
        }
        law_records_stay_sequenced(s1, items.drop_first(), write);
    }
}

/// Every handshake message that a header announces from `p` on ends within
/// the first `len` bytes.
pub open spec fn handshake_contained(rest: Seq<u8>, len: nat, p: int) -> bool
    decreases walk_measure(len, p),
{
    if p < 0 || p + 4 > len || len > rest.len() {
        true
    } else {
        let pe = p + 4 + be24(rest[p + 1], rest[p + 2], rest[p + 3]);
        pe <= len && handshake_contained(rest, len, pe)
    }
}

/// `data` is a whole number of TLS records, and every handshake message in
/// them ends within its record.
pub open spec fn record_aligned(data: Seq<u8>) -> bool
    decreases data.len(),
{
    if data.len() == 0 {
        true
    } else if data.len() < 5 {
        false
    } else {
        let len = be16(data[3], data[4]);
        let rest = data.skip(5);
        len <= rest.len() && (data[0] == 22 ==> handshake_contained(rest, len, 0)) && record_aligned(
            rest.skip(len as int),
        )
    }
}

/// Handshake messages contained in their record do not depend on what follows it.
pub proof fn lemma_handshake_items_extend(rest: Seq<u8>, x: Seq<u8>, len: nat, p: int)
    requires
        len <= rest.len(),
        handshake_contained(rest, len, p),
    ensures
        handshake_items(rest + x, len, p) == handshake_items(rest, len, p),
    decreases walk_measure(len, p),
{
    let y = rest + x;
    if p < 0 || p + 4 > len {
    } else {
        assert(y[p] == rest[p]);
        assert(y[p + 1] == rest[p + 1]);
        assert(y[p + 2] == rest[p + 2]);
        assert(y[p + 3] == rest[p + 3]);
        let pe = p + 4 + be24(rest[p + 1], rest[p + 2], rest[p + 3]);
        assert(y.subrange(p + 4, pe) =~= rest.subrange(p + 4, pe));
        lemma_handshake_items_extend(rest, x, len, pe);
    }
}

/// What whole records carry does not depend on what follows them.
pub proof fn lemma_wire_items_append(a: Seq<u8>, b: Seq<u8>)
    requires
        record_aligned(a),
    ensures
        wire_items(a + b) == wire_items(a) + wire_items(b),
    decreases a.len(),
{
    if a.len() == 0 {
        assert(a + b =~= b);
        assert(wire_items(a) =~= Seq::<WireItem>::empty());
        assert(wire_items(a) + wire_items(b) =~= wire_items(b));
    } else {
        let ab = a + b;
        let len = be16(a[3], a[4]);
        let rest = a.skip(5);
        assert(ab[0] == a[0] && ab[3] == a[3] && ab[4] == a[4]);
        assert(ab.skip(5) =~= rest + b);
        assert((rest + b).skip(len as int) =~= rest.skip(len as int) + b);
        if a[0] == 22 {
            lemma_handshake_items_extend(rest, b, len, 0);
        }
        assert((rest + b).take(len as int) =~= rest.take(len as int));
        assert(record_items(a[0], rest + b, len) == record_items(a[0], rest, len));
        lemma_wire_items_append(rest.skip(len as int), b);
        assert(wire_items(ab) == record_items(a[0], rest, len) + (wire_items(
            rest.skip(len as int),
        ) + wire_items(b)));
        assert(wire_items(a) == record_items(a[0], rest, len) + wire_items(rest.skip(len as int)));
        assert(record_items(a[0], rest, len) + (wire_items(rest.skip(len as int)) + wire_items(b))
            =~= (record_items(a[0], rest, len) + wire_items(rest.skip(len as int))) + wire_items(
            b,
        ));
    }
}

/// Recording data in two pieces, the first a whole number of records, is
/// recording it at once.
pub proof fn law_chunked_recording(st: TrackerView, a: Seq<u8>, b: Seq<u8>, write: bool)
    requires
        record_aligned(a),
    ensures
        apply_items(apply_items(st, wire_items(a), write), wire_items(b), write) == apply_items(
            st,
            wire_items(a + b),
            write,
        ),
{
    lemma_wire_items_append(a, b);
    lemma_apply_items_append(st, wire_items(a), wire_items(b), write);
}

/// The nonce of the first record of a direction is the IV itself.
pub proof fn law_first_nonce_is_iv(iv: Seq<u8>)
    requires
        iv.len() == 12,
    ensures
        record_nonce(iv, 0) == iv,
{
    assert forall|i: int| 4 <= i < 12 implies #[trigger] (iv[i] ^ ((0u64 >> ((11 - i) * 8) as u64) as u8))
        == iv[i] by {
        let x = iv[i];
        let k = ((11 - i) * 8) as u64;
        assert(x ^ ((0u64 >> k) as u8) == x) by (bit_vector);
    }
    assert(record_nonce(iv, 0) =~= iv);
}

/// The fields of `m`, if any, name each field once.
pub open spec fn message_fields_distinct(m: MessageView) -> bool {
    m.fields matches Some(f) ==> distinct_keys(f)
}

/// Every message names each of its fields once.
pub open spec fn messages_fields_distinct(ms: Seq<MessageView>) -> bool {
    forall|i: int| 0 <= i < ms.len() ==> message_fields_distinct(#[trigger] ms[i])
}

/// The fields an item carries, if any, name each field once.
pub open spec fn item_fields_distinct(x: WireItem) -> bool {
    match x {
        WireItem::Handshake { fields, .. } => fields matches Some(f) ==> distinct_keys(f),
        WireItem::SessionTicket { fields, .. } => fields matches Some(f) ==> distinct_keys(f),
        _ => true,
    }
}

/// Every item names each of its fields once.
pub open spec fn items_fields_distinct(items: Seq<WireItem>) -> bool {
    forall|k: int| 0 <= k < items.len() ==> item_fields_distinct(#[trigger] items[k])
}

/// The handshake messages found in a record name each field once.
proof fn lemma_handshake_items_distinct(rest: Seq<u8>, len: nat, p: int)
    ensures
        items_fields_distinct(handshake_items(rest, len, p)),
    decreases walk_measure(len, p),
{
    if !(p < 0 || p + 4 > len || len > rest.len()) {
        let ml = be24(rest[p + 1], rest[p + 2], rest[p + 3]);
        let pe = p + 4 + ml;
        lemma_handshake_items_distinct(rest, len, pe);
        if pe <= rest.len() {
            law_decoded_fields_are_distinct(rest[p], rest.subrange(p + 4, pe));
        }
        let items = handshake_items(rest, len, p);
        let tail = handshake_items(rest, len, pe);
        assert forall|k: int| 0 <= k < items.len() implies item_fields_distinct(#[trigger] items[k]) by {
            if k > 0 {
                assert(items[k] == tail[k - 1]);
            }
        }
    }
}

/// What TLS records carry names each field once.
proof fn lemma_wire_items_distinct(data: Seq<u8>)
    ensures
        items_fields_distinct(wire_items(data)),
    decreases data.len(),
{
    if data.len() >= 5 {
        let len = be16(data[3], data[4]);
        let rest = data.skip(5);
        if len <= rest.len() {
            lemma_wire_items_distinct(rest.skip(len as int));
            if data[0] == 22 {
                lemma_handshake_items_distinct(rest, len, 0);
            }
            let a = record_items(data[0], rest, len);
            let b = wire_items(rest.skip(len as int));
            assert forall|k: int| 0 <= k < (a + b).len() implies item_fields_distinct(
                #[trigger] (a + b)[k],
            ) by {
                if k >= a.len() {
                    assert((a + b)[k] == b[k - a.len()]);
                } else {
                    assert((a + b)[k] == a[k]);
                }
            }
        }
    }
}

/// What a decrypted record carries names each field once.
proof fn lemma_plaintext_items_distinct(pt: Seq<u8>, write: bool)
    ensures
        items_fields_distinct(plaintext_items(pt, write)),
{
    if pt.len() > 0 {
        let content = pt.drop_last();
        lemma_handshake_items_distinct(content, content.len(), 0);
        law_decoded_fields_are_distinct(0, content);
    }
}

/// Applying items whose fields are distinct keeps every message's fields distinct.
proof fn lemma_apply_items_distinct(st: TrackerView, items: Seq<WireItem>, write: bool)
    requires
        messages_fields_distinct(st.messages),
        items_fields_distinct(items),
    ensures
        messages_fields_distinct(apply_items(st, items, write).messages),
    decreases items.len(),
{
    if items.len() > 0 {
        let s1 = apply_item(st, items[0], write);
        assert(item_fields_distinct(items[0]));
        assert(messages_fields_distinct(s1.messages)) by {
            assert forall|i: int| 0 <= i < s1.messages.len() implies message_fields_distinct(
                #[trigger] s1.messages[i],
            ) by {
                if i < st.messages.len() {
                    assert(s1.messages[i] == st.messages[i]);
                }
            }
        }
        assert forall|k: int| 0 <= k < items.drop_first().len() implies item_fields_distinct(
            #[trigger] items.drop_first()[k],
        ) by {
            assert(items.drop_first()[k] == items[k + 1]);
        }
        lemma_apply_items_distinct(s1, items.drop_first(), write);
    }
}

/// A message pushed with fields whose keys are distinct keeps every
/// message's fields distinct.
proof fn lemma_push_distinct(
    st: TrackerView,
    direction: Seq<char>,
    message_type: Seq<char>,
    size: nat,
    description: Seq<char>,
    fields: Option<Seq<(Seq<char>, FieldValueView)>>,
    inferred: bool,
)
    requires
        messages_fields_distinct(st.messages),
        fields matches Some(f) ==> distinct_keys(f),
    ensures
        messages_fields_distinct(
            push_message_view(
                st,
                direction,
                message_type,
                size,
                description,
                fields,
                inferred,
            ).messages,
        ),
{
    let ms = push_message_view(
        st,
        direction,
        message_type,
        size,
        description,
        fields,
        inferred,
    ).messages;
    assert forall|i: int| 0 <= i < ms.len() implies message_fields_distinct(#[trigger] ms[i]) by {
        if i < st.messages.len() {
            assert(ms[i] == st.messages[i]);
        }
    }
}

/// Every message the recorder holds names each of its fields once, as the
/// keys of a map would: recording bytes, decrypting records and adding the
/// messages that encrypted traffic implies all keep this.
pub proof fn law_recorded_fields_are_distinct(
    st: TrackerView,
    data: Seq<u8>,
    write: bool,
    recs: Seq<RecordView>,
    secrets: SecretsView,
)
    requires
        messages_fields_distinct(st.messages),
    ensures
        messages_fields_distinct(apply_items(st, wire_items(data), write).messages),
        messages_fields_distinct(with_inferred(st).messages),
        messages_fields_distinct(decrypt_all(st, recs, secrets).messages),
    decreases recs.len(),
{
    lemma_wire_items_distinct(data);
    lemma_apply_items_distinct(st, wire_items(data), write);
    reveal_strlit("encrypted");
    reveal_strlit("note");
    reveal_strlit("inferred_reason");
    lemma_distinct_by_length(inferred_fields("MAC of all handshake messages (TLS 1.3)"@));
    let t1 = "EncryptedExtensions"@ + " sent encrypted (TLS 1.3)"@;
    let t2 = "Certificate"@ + " sent encrypted (TLS 1.3)"@;
    let t3 = "CertificateVerify"@ + " sent encrypted (TLS 1.3)"@;
    let t4 = "Finished"@ + " sent encrypted (TLS 1.3)"@;
    lemma_distinct_by_length(inferred_fields(t1));
    lemma_distinct_by_length(inferred_fields(t2));
    lemma_distinct_by_length(inferred_fields(t3));
    lemma_distinct_by_length(inferred_fields(t4));
    if count_dir(st.records, false) > 0 && !st.handshake_complete {
        let a = push_inferred_server(
            st,
            "EncryptedExtensions"@,
            "Server sends encrypted TLS extensions (TLS 1.3)"@,
        );
        let b = push_inferred_server(
            a,
            "Certificate"@,
            "Server presents certificate chain for authentication"@,
        );
        let c = push_inferred_server(
            b,
            "CertificateVerify"@,
            "Server proves possession of private key via signature"@,
        );
        let d = push_inferred_server(
            c,
            "Finished"@,
            "Handshake complete, includes MAC of all messages"@,
        );
        lemma_push_distinct(
            st,
            "Server → Client"@,
            "EncryptedExtensions"@,
            0,
            "Server sends encrypted TLS extensions (TLS 1.3)"@,
            Some(inferred_fields(t1)),
            true,
        );
        lemma_push_distinct(
            a,
            "Server → Client"@,
            "Certificate"@,
            0,
            "Server presents certificate chain for authentication"@,
            Some(inferred_fields(t2)),
            true,
        );
        lemma_push_distinct(
            b,
            "Server → Client"@,
            "CertificateVerify"@,
            0,
            "Server proves possession of private key via signature"@,
            Some(inferred_fields(t3)),
            true,
        );
        lemma_push_distinct(
            c,
            "Server → Client"@,
            "Finished"@,
            0,
            "Handshake complete, includes MAC of all messages"@,
            Some(inferred_fields(t4)),
            true,
        );
        lemma_push_distinct(
            d,
            "Client → Server"@,
            "Finished"@,
            0,
            "Client handshake complete with MAC"@,
            Some(inferred_fields("MAC of all handshake messages (TLS 1.3)"@)),
            true,
        );
    } else {
        lemma_push_distinct(
            st,
            "Client → Server"@,
            "Finished"@,
            0,
            "Client handshake complete with MAC"@,
            Some(inferred_fields("MAC of all handshake messages (TLS 1.3)"@)),
            true,
        );
    }
    if recs.len() > 0 {
        let rec = recs[0];
        let s1 = decrypt_step(st, rec, secrets);
        assert(messages_fields_distinct(s1.messages)) by {
            if rec.write || rec.seq >= secrets.rx.0 {
                if let Some(p) = record_plaintext(rec, secrets) {
                    if p.len() > 0 {
                        lemma_plaintext_items_distinct(p, rec.write);
                        lemma_apply_items_distinct(
                            TrackerView { decrypted: st.decrypted + 1, ..st },
                            plaintext_items(p, rec.write),
                            rec.write,
                        );
                    }
                }
            }
        }
        law_recorded_fields_are_distinct(s1, data, write, recs.drop_first(), secrets);
    }
}

/// The messages a recorder in state `st` reports: with the secrets, after
/// decrypting its records; in either case with the messages that encrypted
/// traffic implies.
pub open spec fn final_messages(st: TrackerView, secrets: Option<SecretsView>) -> Seq<MessageView> {
    match secrets {
        None => with_inferred(st).messages,
        Some(s) => with_inferred(decrypt_all(st, st.records, s)).messages,
    }
}

/// `dbg` counts the records of `st` and those that decrypt under `s`.
pub open spec fn is_debug_info(dbg: DecryptionDebugInfo, st: TrackerView, s: SecretsView) -> bool {
    &&& dbg.total_encrypted_records_captured == st.records.len()
    &&& dbg.encrypted_from_server == count_dir(st.records, false)
    &&& dbg.encrypted_from_client == count_dir(st.records, true)
    &&& dbg.successfully_decrypted == with_inferred(decrypt_all(st, st.records, s)).decrypted
}

/// Applying items only appends messages and decrypts nothing.
proof fn lemma_apply_items_extends(st: TrackerView, items: Seq<WireItem>, write: bool)
    ensures
        apply_items(st, items, write).messages.len() >= st.messages.len(),
        apply_items(st, items, write).messages.take(st.messages.len() as int) == st.messages,
        apply_items(st, items, write).decrypted == st.decrypted,
    decreases items.len(),
{
    if items.len() > 0 {
        let s1 = apply_item(st, items[0], write);
        lemma_apply_items_extends(s1, items.drop_first(), write);
        let fin = apply_items(s1, items.drop_first(), write);
        assert(s1.messages.take(st.messages.len() as int) =~= st.messages);
        assert(fin.messages.take(st.messages.len() as int) =~= s1.messages.take(
            s1.messages.len() as int,
        ).take(st.messages.len() as int));
    } else {
        assert(st.messages.take(st.messages.len() as int) =~= st.messages);
    }
}

/// Decrypting records only appends messages, and counts at most one
/// decryption per record.
proof fn lemma_decrypt_all_extends(st: TrackerView, recs: Seq<RecordView>, s: SecretsView)
    ensures
        decrypt_all(st, recs, s).messages.len() >= st.messages.len(),
        decrypt_all(st, recs, s).messages.take(st.messages.len() as int) == st.messages,
        st.decrypted <= decrypt_all(st, recs, s).decrypted <= st.decrypted + recs.len(),
        decrypt_all(st, recs, s).records == st.records,
    decreases recs.len(),
{
    if recs.len() > 0 {
        let rec = recs[0];
        let s1 = decrypt_step(st, rec, s);
        assert(s1.messages.len() >= st.messages.len() && s1.messages.take(st.messages.len() as int)
            == st.messages && st.decrypted <= s1.decrypted <= st.decrypted + 1 && s1.records
            == st.records) by {
            if rec.write || rec.seq >= s.rx.0 {
                if let Some(p) = record_plaintext(rec, s) {
                    if p.len() > 0 {
                        let bumped = TrackerView { decrypted: st.decrypted + 1, ..st };
                        lemma_apply_items_extends(bumped, plaintext_items(p, rec.write), rec.write);
                        lemma_plaintext_items_no_data(p, rec.write);
                        lemma_apply_items_records(bumped, plaintext_items(p, rec.write), rec.write);
                    }
                }
            }
            assert(st.messages.take(st.messages.len() as int) =~= st.messages);
        }
        lemma_decrypt_all_extends(s1, recs.drop_first(), s);
        let fin = decrypt_all(s1, recs.drop_first(), s);
        assert(fin.messages.take(st.messages.len() as int) =~= fin.messages.take(
            s1.messages.len() as int,
        ).take(st.messages.len() as int));
    } else {
        assert(st.messages.take(st.messages.len() as int) =~= st.messages);
    }
}

/// Decrypted records carry no application data, so the records stay as they were.
proof fn lemma_apply_items_records(st: TrackerView, items: Seq<WireItem>, write: bool)
    requires
        forall|k: int| 0 <= k < items.len() ==> !(#[trigger] items[k] is ApplicationData),
    ensures
        apply_items(st, items, write).records == st.records,
    decreases items.len(),
{
    if items.len() > 0 {
        assert(!(items[0] is ApplicationData));
        assert forall|k: int| 0 <= k < items.drop_first().len() implies !(
        #[trigger] items.drop_first()[k] is ApplicationData) by {
            assert(items.drop_first()[k] == items[k + 1]);
        }
        lemma_apply_items_records(apply_item(st, items[0], write), items.drop_first(), write);
    }
}

/// The items of a decrypted record are never application data.
proof fn lemma_plaintext_items_no_data(pt: Seq<u8>, write: bool)
    ensures
        forall|k: int|
            0 <= k < plaintext_items(pt, write).len() ==> !(#[trigger] plaintext_items(
                pt,
                write,
            )[k] is ApplicationData),
{
    if pt.len() > 0 {
        lemma_handshake_items_no_data(pt.drop_last(), (pt.len() - 1) as nat, 0);
    }
}

/// The handshake messages of a record are never application data.
proof fn lemma_handshake_items_no_data(rest: Seq<u8>, len: nat, p: int)
    ensures
        forall|k: int|
            0 <= k < handshake_items(rest, len, p).len() ==> !(#[trigger] handshake_items(
                rest,
                len,
                p,
            )[k] is ApplicationData),
    decreases walk_measure(len, p),
{
    if !(p < 0 || p + 4 > len || len > rest.len()) {
        let pe = p + 4 + be24(rest[p + 1], rest[p + 2], rest[p + 3]);
        lemma_handshake_items_no_data(rest, len, pe);
        let items = handshake_items(rest, len, p);
        let tail = handshake_items(rest, len, pe);
        assert forall|k: int| 0 <= k < items.len() implies !(#[trigger] items[k] is ApplicationData) by {
            if k > 0 {
                assert(items[k] == tail[k - 1]);
            }
        }
    }
}

/// Adding the implied messages only appends messages.
proof fn lemma_with_inferred_extends(st: TrackerView)
    ensures
        with_inferred(st).messages.len() >= st.messages.len(),
        with_inferred(st).messages.take(st.messages.len() as int) == st.messages,
        with_inferred(st).decrypted == st.decrypted,
        with_inferred(st).records == st.records,
{
    let w = with_inferred(st).messages;
    assert(w.take(st.messages.len() as int) =~= st.messages);
}

/// Decrypting a recorder's records keeps what was recorded before as the
/// start of the messages, decrypts each record at most once, and counts
/// every record in exactly one direction.
pub proof fn law_decryption_adds_up(st: TrackerView, s: SecretsView)
    ensures
        count_dir(st.records, false) + count_dir(st.records, true) == st.records.len(),
        final_messages(st, Some(s)).len() >= st.messages.len(),
        final_messages(st, Some(s)).take(st.messages.len() as int) == st.messages,
        st.decrypted <= with_inferred(decrypt_all(st, st.records, s)).decrypted <= st.decrypted
            + st.records.len(),
{
    lemma_count_dir(st.records);
    lemma_decrypt_all_extends(st, st.records, s);
    let d = decrypt_all(st, st.records, s);
    lemma_with_inferred_extends(d);
    assert(with_inferred(d).messages.take(st.messages.len() as int) =~= with_inferred(
        d,
    ).messages.take(d.messages.len() as int).take(st.messages.len() as int));
}

/// The messages that encrypted traffic implies are appended after those
/// recorded: when the server sent encrypted records and the handshake is not
/// marked complete, its EncryptedExtensions, Certificate, CertificateVerify
/// and Finished; when both sides did, the client's Finished. Each is inferred,
/// of size 0, and numbered by its position.
pub proof fn law_inferred_messages(st: TrackerView)
    ensures
        ({
            let w = with_inferred(st).messages;
            let n = st.messages.len() as int;
            let server = count_dir(st.records, false) > 0 && !st.handshake_complete;
            let client = count_dir(st.records, true) > 0 && count_dir(st.records, false) > 0;
            &&& w.len() == n + (if server {
                4nat
            } else {
                0nat
            }) + (if client {
                1nat
            } else {
                0nat
            })
            &&& w.take(n) == st.messages
            &&& forall|i: int|
                n <= i < w.len() ==> (#[trigger] w[i]).size == 0 && w[i].inferred && w[i].sequence
                    == i as usize
            &&& server ==> {
                &&& w[n].message_type == "EncryptedExtensions"@
                &&& w[n + 1].message_type == "Certificate"@
                &&& w[n + 2].message_type == "CertificateVerify"@
                &&& w[n + 3].message_type == "Finished"@
                &&& forall|i: int| n <= i < n + 4 ==> (#[trigger] w[i]).direction == "Server → Client"@
            }
            &&& client ==> w.last().message_type == "Finished"@ && w.last().direction
                == "Client → Server"@
        }),
{
    lemma_with_inferred_extends(st);
}

/// `st` after application-data records, each with its direction (`true`
/// for the client's) and payload, in the order they passed.
pub open spec fn apply_data_records(st: TrackerView, recs: Seq<(bool, Seq<u8>)>) -> TrackerView
    decreases recs.len(),
{
    if recs.len() == 0 {
        st
    } else {
        apply_data_records(
            apply_item(st, WireItem::ApplicationData { payload: recs[0].1 }, recs[0].0),
            recs.drop_first(),
        )
    }
}

/// Application-data records add no message, and a direction that sent one
/// has a record kept.
proof fn lemma_data_records(st: TrackerView, recs: Seq<(bool, Seq<u8>)>, w: bool)
    ensures
        apply_data_records(st, recs).messages == st.messages,
        apply_data_records(st, recs).handshake_complete == st.handshake_complete,
        count_dir(apply_data_records(st, recs).records, w) >= count_dir(st.records, w),
        (exists|i: int| 0 <= i < recs.len() && (#[trigger] recs[i]).0 == w) ==> count_dir(
            apply_data_records(st, recs).records,
            w,
        ) > 0,
    decreases recs.len(),
{
    if recs.len() > 0 {
        let r = recs[0];
        let s1 = apply_item(st, WireItem::ApplicationData { payload: r.1 }, r.0);
        let rec = RecordView { data: r.1, write: r.0, seq: count_dir(st.records, r.0) as u64 };
        assert(s1.records == st.records.push(rec));
        lemma_count_dir_push(st.records, rec, w);
        lemma_data_records(s1, recs.drop_first(), w);
        if exists|i: int| 0 <= i < recs.len() && (#[trigger] recs[i]).0 == w {
            let i = choose|i: int| 0 <= i < recs.len() && (#[trigger] recs[i]).0 == w;
            if i > 0 {
                assert(recs.drop_first()[i - 1] == recs[i]);
            }
        }
    }
}

/// The TLS 1.3 handshake as it is seen on the wire: the client's hello; the
/// server's hello and change-cipher-spec; the client's change-cipher-spec;
/// then encrypted application-data records of both sides, at least one of
/// each, in any number and order. The recorder then reports nine messages:
/// the two hellos, both change-cipher-spec messages, and the five messages
/// that the encryption hid, numbered 0 to 8.
pub proof fn law_tls13_handshake_messages(
    st: TrackerView,
    client_hello: WireItem,
    server_hello: WireItem,
    server_ccs: nat,
    client_ccs: nat,
    records: Seq<(bool, Seq<u8>)>,
)
    requires
        st.messages.len() == 0,
        st.records.len() == 0,
        !st.handshake_complete,
        client_hello matches WireItem::Handshake { msg_type, .. } && msg_type == 1,
        server_hello matches WireItem::Handshake { msg_type, .. } && msg_type == 2,
        exists|i: int| 0 <= i < records.len() && !(#[trigger] records[i]).0,
        exists|i: int| 0 <= i < records.len() && (#[trigger] records[i]).0,
    ensures
        ({
            let s1 = apply_items(st, seq![client_hello], true);
            let s2 = apply_items(
                s1,
                seq![server_hello, WireItem::ChangeCipherSpec { size: server_ccs }],
                false,
            );
            let s3 = apply_items(s2, seq![WireItem::ChangeCipherSpec { size: client_ccs }], true);
            let w = with_inferred(apply_data_records(s3, records)).messages;
            let c = "Client → Server"@;
            let s = "Server → Client"@;
            &&& w.len() == 9
            &&& forall|i: int| 0 <= i < 9 ==> (#[trigger] w[i]).sequence == i as usize
            &&& w[0].message_type == "ClientHello"@ && w[0].direction == c
            &&& w[1].message_type == "ServerHello"@ && w[1].direction == s
            &&& w[2].message_type == "ChangeCipherSpec"@ && w[2].direction == s
            &&& w[3].message_type == "ChangeCipherSpec"@ && w[3].direction == c
            &&& w[4].message_type == "EncryptedExtensions"@ && w[4].direction == s
            &&& w[5].message_type == "Certificate"@ && w[5].direction == s
            &&& w[6].message_type == "CertificateVerify"@ && w[6].direction == s
            &&& w[7].message_type == "Finished"@ && w[7].direction == s
            &&& w[8].message_type == "Finished"@ && w[8].direction == c
            &&& forall|i: int| 4 <= i < 9 ==> (#[trigger] w[i]).size == 0 && w[i].inferred
        }),
{
    let s1 = apply_items(st, seq![client_hello], true);
    let i2 = seq![server_hello, WireItem::ChangeCipherSpec { size: server_ccs }];
    let i3 = seq![WireItem::ChangeCipherSpec { size: client_ccs }];
    assert(s1 == apply_item(st, client_hello, true)) by {
        reveal_with_fuel(apply_items, 2);
        assert(seq![client_hello].drop_first() =~= Seq::<WireItem>::empty());
    }
    let a1 = apply_item(s1, i2[0], false);
    let a2 = apply_item(a1, i2[1], false);
    assert(apply_items(s1, i2, false) == a2) by {
        reveal_with_fuel(apply_items, 3);
        assert(i2.drop_first()[0] == i2[1]);
        assert(i2.drop_first().drop_first() =~= Seq::<WireItem>::empty());
    }
    let b1 = apply_item(a2, i3[0], true);
    assert(apply_items(a2, i3, true) == b1) by {
        reveal_with_fuel(apply_items, 2);
        assert(i3.drop_first() =~= Seq::<WireItem>::empty());
    }
    reveal_strlit("ClientHello");
    lemma_data_records(b1, records, false);
    lemma_data_records(b1, records, true);
    let d = apply_data_records(b1, records);
    assert(b1.records == st.records);
    law_inferred_messages(d);
    let w = with_inferred(d).messages;
    assert(w.take(4) =~= d.messages);
    assert(w[0] == b1.messages[0] && w[1] == b1.messages[1] && w[2] == b1.messages[2] && w[3]
        == b1.messages[3]);
}

/// The recorder's state: messages seen so far, encrypted records kept, and counters.
pub struct TrackedStream {
    messages: Vec<HandshakeMessage>,
    sequence: usize,
    handshake_complete: bool,
    encrypted_records_from_server: usize,
    encrypted_records_from_client: usize,
    encrypted_records: Vec<EncryptedRecord>,
    server_seq: u64,
    client_seq: u64,
    successfully_decrypted: usize,
}

impl View for TrackedStream {
    type V = TrackerView;

    closed spec fn view(&self) -> TrackerView {
        TrackerView {
            messages: messages_view(self.messages@),
            records: records_view(self.encrypted_records@),
            handshake_complete: self.handshake_complete,
            decrypted: self.successfully_decrypted as nat,
        }
    }
}

impl TrackedStream {
    /// The messages are numbered by position and `sequence` is the next number.
    closed spec fn messages_ok(&self) -> bool {
        &&& self.sequence == self.messages@.len()
        &&& well_numbered(messages_view(self.messages@))
    }

    /// The record counters match the records kept.
    closed spec fn records_ok(&self) -> bool {
        let rv = records_view(self.encrypted_records@);
        &&& self.encrypted_records_from_server == count_dir(rv, false)
        &&& self.encrypted_records_from_client == count_dir(rv, true)
        &&& self.server_seq == self.encrypted_records_from_server
        &&& self.client_seq == self.encrypted_records_from_client
    }

    /// Well-formedness: numbering and counters agree with what is kept, and
    /// nothing has been decrypted yet.
    pub closed spec fn wf(&self) -> bool {
        &&& self.messages_ok()
        &&& self.records_ok()
        &&& well_sequenced(records_view(self.encrypted_records@))
        &&& self.successfully_decrypted == 0
    }

    /// A recorder that has seen nothing.
    pub fn new() -> (r: TrackedStream)
        ensures
            r.wf(),
            r@.messages.len() == 0,
            r@.records.len() == 0,
            !r@.handshake_complete,
            r@.decrypted == 0,
    {
        let r = TrackedStream {
            messages: Vec::new(),
            sequence: 0,
            handshake_complete: false,
            encrypted_records_from_server: 0,
            encrypted_records_from_client: 0,
            encrypted_records: Vec::new(),
            server_seq: 0,
            client_seq: 0,
            successfully_decrypted: 0,
        };
        assert(records_view(r.encrypted_records@) =~= Seq::<RecordView>::empty());
        assert(messages_view(r.messages@) =~= Seq::<MessageView>::empty());
        r
    }

    /// Appends a message numbered with the next sequence number.
    fn push_message(
        &mut self,
        direction: String,
        message_type: String,
        size: usize,
        description: String,
        fields: Option<FieldMap>,
        inferred: bool,
    )
        requires
            old(self).messages_ok(),
        ensures
            final(self).messages_ok(),
            final(self)@ == push_message_view(
                old(self)@,
                direction@,
                message_type@,
                size as nat,
                description@,
                crate::tls::types::opt_fields_view(fields),
                inferred,
            ),
            final(self).encrypted_records == old(self).encrypted_records,
            final(self).encrypted_records_from_server == old(self).encrypted_records_from_server,
            final(self).encrypted_records_from_client == old(self).encrypted_records_from_client,
            final(self).server_seq == old(self).server_seq,
            final(self).client_seq == old(self).client_seq,
            final(self).successfully_decrypted == old(self).successfully_decrypted,
    {
        let m = HandshakeMessage {
            sequence: self.sequence,
            direction,
            message_type,
            size,
            description,
            fields,
            inferred,
        };
        proof {
            lemma_messages_view_push(self.messages@, m);
        }
        self.messages.push(m);
        self.sequence = self.messages.len();
        assert(well_numbered(messages_view(self.messages@))) by {
            let ms = messages_view(self.messages@);
            assert forall|i: int| 0 <= i < ms.len() implies #[trigger] ms[i].sequence == i by {
                if i < ms.len() - 1 {
                    assert(ms[i] == messages_view(old(self).messages@)[i]);
                }
            }
        }
        assert(self@ =~= push_message_view(
            old(self)@,
            direction@,
            message_type@,
            size as nat,
            description@,
            crate::tls::types::opt_fields_view(fields),
            inferred,
        ));
    }

    /// Keeps an application-data record of direction `is_write`.
    fn push_record(&mut self, data: Vec<u8>, is_write: bool)
        requires
            old(self).records_ok(),
        ensures
            final(self).records_ok(),
            final(self)@ == apply_item(
                old(self)@,
                WireItem::ApplicationData { payload: data@ },
                is_write,
            ),
            final(self).messages == old(self).messages,
            final(self).sequence == old(self).sequence,
            final(self).successfully_decrypted == old(self).successfully_decrypted,
    {
        let ghost rv = records_view(self.encrypted_records@);
        proof {
            lemma_count_dir(rv);
        }
        let seq = if is_write {
            self.client_seq
        } else {
            self.server_seq
        };
        let rec = EncryptedRecord { data, direction_is_write: is_write, sequence_number: seq };
        self.encrypted_records.push(rec);
        let _n = self.encrypted_records.len();
        let ghost nv = records_view(self.encrypted_records@);
        assert(nv =~= rv.push(rec@));
        proof {
            lemma_count_dir_push(rv, rec@, true);
            lemma_count_dir_push(rv, rec@, false);
            lemma_count_dir(nv);
        }
        if is_write {
            self.encrypted_records_from_client = self.encrypted_records_from_client + 1;
            self.client_seq = self.client_seq + 1;
        } else {
            self.encrypted_records_from_server = self.encrypted_records_from_server + 1;
            self.server_seq = self.server_seq + 1;
        }
        assert(self@ =~= apply_item(
            old(self)@,
            WireItem::ApplicationData { payload: data@ },
            is_write,
        ));
    }

    /// Records the handshake messages found in `data` from `start`, while a
    /// message header fits in the first `length` bytes from there.
    fn record_handshake_messages(&mut self, data: &[u8], start: usize, length: usize, is_write: bool)
        requires
            old(self).messages_ok(),
            start + length <= data@.len(),
        ensures
            final(self).messages_ok(),
            final(self)@ == apply_items(
                old(self)@,
                handshake_items(data@.skip(start as int), length as nat, 0),
                is_write,
            ),
            final(self).encrypted_records == old(self).encrypted_records,
            final(self).encrypted_records_from_server == old(self).encrypted_records_from_server,
            final(self).encrypted_records_from_client == old(self).encrypted_records_from_client,
            final(self).server_seq == old(self).server_seq,
            final(self).client_seq == old(self).client_seq,
            final(self).successfully_decrypted == old(self).successfully_decrypted,
    {
        let ghost rest = data@.skip(start as int);
        let ghost target = apply_items(self@, handshake_items(rest, length as nat, 0), is_write);
        let dlen = data.len();
        let mut msg_pos: usize = 0;
        while length >= 4 && msg_pos <= length - 4
            invariant
                self.messages_ok(),
                dlen == data@.len(),
                start + length <= data@.len(),
                rest == data@.skip(start as int),
                msg_pos <= length,
                apply_items(self@, handshake_items(rest, length as nat, msg_pos as int), is_write)
                    == target,
                self.encrypted_records == old(self).encrypted_records,
                self.encrypted_records_from_server == old(self).encrypted_records_from_server,
                self.encrypted_records_from_client == old(self).encrypted_records_from_client,
                self.server_seq == old(self).server_seq,
                self.client_seq == old(self).client_seq,
                self.successfully_decrypted == old(self).successfully_decrypted,
            decreases length - msg_pos,
        {
            let i = start + msg_pos;
            let msg_type = data[i];
            let msg_length = (data[i + 1] as usize) * 65536 + (data[i + 2] as usize) * 256
                + (data[i + 3] as usize);
            let (kind_name, description) = parse_handshake_type(msg_type);
            let total = msg_length + 4;
            let direction = if is_write {
                owned("Client → Server")
            } else {
                owned("Server → Client")
            };
            let payload_start = i + 4;
            let fields = if msg_length <= data.len() - payload_start {
                let f = parse_handshake_fields(
                    msg_type,
                    &data[payload_start..payload_start + msg_length],
                );
                assert(rest.subrange(msg_pos + 4, msg_pos + 4 + msg_length) =~= data@.subrange(
                    payload_start as int,
                    payload_start + msg_length,
                ));
                f
            } else {
                None
            };
            let ghost item = WireItem::Handshake {
                msg_type,
                size: total as nat,
                fields: crate::tls::types::opt_fields_view(fields),
            };
            assert(rest[msg_pos as int] == msg_type);
            assert(rest[msg_pos + 1] == data@[i + 1]);
            assert(rest[msg_pos + 2] == data@[i + 2]);
            assert(rest[msg_pos + 3] == data@[i + 3]);
            assert(handshake_items(rest, length as nat, msg_pos as int) == seq![item]
                + handshake_items(rest, length as nat, msg_pos + total));
            proof {
                lemma_apply_one(
                    self@,
                    item,
                    handshake_items(rest, length as nat, msg_pos + total),
                    is_write,
                );
            }
            self.push_message(direction, kind_name, total, description, fields, false);
            if total > length - msg_pos {
                assert(handshake_items(rest, length as nat, msg_pos + total) =~= Seq::<
                    WireItem,
                >::empty());
                assert(handshake_items(rest, length as nat, length as int) =~= Seq::<
                    WireItem,
                >::empty());
                msg_pos = length;
            } else {
                msg_pos = msg_pos + total;
            }
        }
        assert(handshake_items(rest, length as nat, msg_pos as int) =~= Seq::<WireItem>::empty());
    }

    /// Records what the TLS records in `data`, sent in direction `is_write`,
    /// carry: handshake messages, change-cipher-spec records, and encrypted
    /// application-data records.
    pub fn extract_tls_messages(&mut self, data: &[u8], is_write: bool)
        requires
            old(self).wf(),
        ensures
            final(self).wf(),
            final(self)@ == apply_items(old(self)@, wire_items(data@), is_write),
            well_numbered(final(self)@.messages),
            well_sequenced(final(self)@.records),
    {
        let ghost target = apply_items(self@, wire_items(data@), is_write);
        proof {
            law_records_stay_sequenced(self@, wire_items(data@), is_write);
        }
        let mut pos: usize = 0;
        assert(data@.skip(0) =~= data@);
        while pos <= data.len() && data.len() - pos >= 5
            invariant
                self.wf(),
                pos <= data@.len(),
                apply_items(self@, wire_items(data@.skip(pos as int)), is_write) == target,
                target == apply_items(old(self)@, wire_items(data@), is_write),
            decreases data@.len() - pos,
        {
            let ghost cur = data@.skip(pos as int);
            let ghost before = self@;
            let content_type = data[pos];
            let length = (data[pos + 3] as usize) * 256 + (data[pos + 4] as usize);
            let start = pos + 5;
            assert(cur[0] == content_type);
            assert(cur[3] == data@[pos + 3]);
            assert(cur[4] == data@[pos + 4]);
            assert(cur.skip(5) =~= data@.skip(start as int));
            if length > data.len() - start {
                assert(wire_items(cur) =~= Seq::<WireItem>::empty());
                assert(apply_items(self@, Seq::<WireItem>::empty(), is_write) == self@);
                return;
            }
            let ghost rest = data@.skip(start as int);
            assert(rest.skip(length as int) =~= data@.skip(start + length));
            assert(wire_items(cur) == record_items(content_type, rest, length as nat) + wire_items(
                data@.skip(start + length),
            ));
            proof {
                lemma_apply_items_append(
                    self@,
                    record_items(content_type, rest, length as nat),
                    wire_items(data@.skip(start + length)),
                    is_write,
                );
            }
            if content_type == 22 {
                self.record_handshake_messages(data, start, length, is_write);
            } else if content_type == 20 {
                let direction = if is_write {
                    owned("Client → Server")
                } else {
                    owned("Server → Client")
                };
                proof {
                    lemma_apply_one(
                        self@,
                        WireItem::ChangeCipherSpec { size: length as nat },
                        Seq::empty(),
                        is_write,
                    );
                    assert(seq![WireItem::ChangeCipherSpec { size: length as nat }] + Seq::<
                        WireItem,
                    >::empty() =~= seq![WireItem::ChangeCipherSpec { size: length as nat }]);
                }
                self.push_message(
                    direction,
                    owned("ChangeCipherSpec"),
                    length,
                    owned("Cipher suite change notification (TLS 1.2)"),
                    None,
                    false,
                );
            } else if content_type == 23 {
                let payload = vstd::slice::slice_to_vec(&data[start..start + length]);
                assert(payload@ =~= rest.take(length as int));
                proof {
                    lemma_apply_one(
                        self@,
                        WireItem::ApplicationData { payload: payload@ },
                        Seq::empty(),
                        is_write,
                    );
                    assert(seq![WireItem::ApplicationData { payload: payload@ }] + Seq::<
                        WireItem,
                    >::empty() =~= seq![WireItem::ApplicationData { payload: payload@ }]);
                }
                self.push_record(payload, is_write);
            } else {
                assert(record_items(content_type, rest, length as nat) =~= Seq::<WireItem>::empty());
            }
            assert(self@ == apply_items(before, record_items(content_type, rest, length as nat), is_write));
            proof {
                law_records_stay_sequenced(before, record_items(content_type, rest, length as nat), is_write);
            }
            pos = start + length;
        }
        assert(wire_items(data@.skip(pos as int)) =~= Seq::<WireItem>::empty());
    }

    /// Appends a server message inferred from encrypted traffic.
    fn push_inferred_server(&mut self, t: &str, d: &str)
        requires
            old(self).messages_ok(),
        ensures
            final(self).messages_ok(),
            final(self)@ == push_inferred_server(old(self)@, t@, d@),
            final(self).encrypted_records == old(self).encrypted_records,
            final(self).encrypted_records_from_server == old(self).encrypted_records_from_server,
            final(self).encrypted_records_from_client == old(self).encrypted_records_from_client,
            final(self).server_seq == old(self).server_seq,
            final(self).client_seq == old(self).client_seq,
            final(self).successfully_decrypted == old(self).successfully_decrypted,
    {
        let mut note = owned(t);
        push_str(&mut note, " sent encrypted (TLS 1.3)");
        let fields = inferred_field_map(note);
        self.push_message(owned("Server → Client"), owned(t), 0, owned(d), Some(fields), true);
    }

    /// Appends the messages that the encrypted traffic implies were exchanged.
    fn add_encrypted_handshake_messages(&mut self)
        requires
            old(self).messages_ok(),
            old(self).records_ok(),
        ensures
            final(self).messages_ok(),
            final(self).records_ok(),
            final(self)@ == with_inferred(old(self)@),
            final(self).encrypted_records == old(self).encrypted_records,
            final(self).successfully_decrypted == old(self).successfully_decrypted,
    {
        if self.encrypted_records_from_server > 0 && !self.handshake_complete {
            self.push_inferred_server(
                "EncryptedExtensions",
                "Server sends encrypted TLS extensions (TLS 1.3)",
            );
            self.push_inferred_server(
                "Certificate",
                "Server presents certificate chain for authentication",
            );
            self.push_inferred_server(
                "CertificateVerify",
                "Server proves possession of private key via signature",
            );
            self.push_inferred_server("Finished", "Handshake complete, includes MAC of all messages");
        }
        if self.encrypted_records_from_client > 0 && self.encrypted_records_from_server > 0 {
            let fields = inferred_field_map(owned("MAC of all handshake messages (TLS 1.3)"));
            self.push_message(
                owned("Client → Server"),
                owned("Finished"),
                0,
                owned("Client handshake complete with MAC"),
                Some(fields),
                true,
            );
        }
    }

    /// The messages seen, followed by those the encrypted traffic implies.
    pub fn extract_messages(self) -> (r: Vec<HandshakeMessage>)
        requires
            self.wf(),
        ensures
            messages_view(r@) == with_inferred(self@).messages,
            well_numbered(messages_view(r@)),
    {
        let mut this = self;
        this.add_encrypted_handshake_messages();
        this.messages
    }

    /// Records what a decrypted record carries. Its last byte is the inner
    /// content type.
    fn parse_decrypted_record(&mut self, plaintext: &[u8], is_write: bool)
        requires
            old(self).messages_ok(),
        ensures
            final(self).messages_ok(),
            final(self)@ == apply_items(old(self)@, plaintext_items(plaintext@, is_write), is_write),
            final(self).encrypted_records == old(self).encrypted_records,
            final(self).encrypted_records_from_server == old(self).encrypted_records_from_server,
            final(self).encrypted_records_from_client == old(self).encrypted_records_from_client,
            final(self).server_seq == old(self).server_seq,
            final(self).client_seq == old(self).client_seq,
            final(self).successfully_decrypted == old(self).successfully_decrypted,
    {
        if plaintext.len() == 0 {
            assert(apply_items(self@, Seq::<WireItem>::empty(), is_write) == self@);
            return;
        }
        let n = plaintext.len() - 1;
        let content = &plaintext[0..n];
        let content_type = plaintext[n];
        assert(content@ =~= plaintext@.drop_last());
        if content_type == 22 {
            assert(content@.skip(0) =~= content@);
            self.record_handshake_messages(content, 0, n, is_write);
        } else if content_type == 23 && !is_write && n >= 4 && content[0] == 4 {
            let (kind_name, description) = parse_handshake_type(4);
            let fields = parse_new_session_ticket(content);
            let ghost item = WireItem::SessionTicket {
                size: n as nat,
                fields: crate::tls::types::opt_fields_view(fields),
            };
            proof {
                lemma_apply_one(self@, item, Seq::empty(), is_write);
                assert(seq![item] + Seq::<WireItem>::empty() =~= seq![item]);
            }
            self.push_message(owned("Server → Client"), kind_name, n, description, fields, false);
        } else {
            assert(apply_items(self@, Seq::<WireItem>::empty(), is_write) == self@);
        }
    }

    /// Decrypts a record under the secret of its direction.
    fn decrypt_record(&self, data: &[u8], is_write: bool, seq: u64, secrets: &ExtractedSecrets) -> (r: Result<Vec<u8>, TlsError>)
        ensures
            r matches Ok(p) ==> record_plaintext(
                RecordView { data: data@, write: is_write, seq },
                secrets@,
            ) == Some(p@),
            r is Err ==> record_plaintext(
                RecordView { data: data@, write: is_write, seq },
                secrets@,
            ) is None,
    {
        let traffic_secret = if is_write {
            &secrets.tx.1
        } else {
            &secrets.rx.1
        };
        match traffic_secret.cipher {
            TrafficCipher::Aes256Gcm => decrypt_aead_record(
                data,
                traffic_secret.key.as_slice(),
                &traffic_secret.iv,
                seq,
                true,
            ),
            TrafficCipher::Aes128Gcm => decrypt_aead_record(
                data,
                traffic_secret.key.as_slice(),
                &traffic_secret.iv,
                seq,
                true,
            ),
            TrafficCipher::Chacha20Poly1305 => decrypt_aead_record(
                data,
                traffic_secret.key.as_slice(),
                &traffic_secret.iv,
                seq,
                false,
            ),
            TrafficCipher::Unsupported => Err(
                TlsError::SecretExtraction { reason: owned("Unknown traffic secret variant") },
            ),
        }
    }

    /// Decrypts the kept records that the secrets cover, records the handshake
    /// messages and session tickets they carry, adds the messages the
    /// encrypted traffic implies, and reports what was captured and decrypted.
    pub fn extract_messages_with_secrets(self, secrets: &ExtractedSecrets) -> (r: Result<
        (Vec<HandshakeMessage>, DecryptionDebugInfo),
        TlsError,
    >)
        requires
            self.wf(),
        ensures
            r matches Ok((ms, dbg)) && {
                &&& messages_view(ms@) == final_messages(self@, Some(secrets@))
                &&& is_debug_info(dbg, self@, secrets@)
                &&& messages_view(ms@).len() >= self@.messages.len()
                &&& messages_view(ms@).take(self@.messages.len() as int) == self@.messages
                &&& dbg.encrypted_from_server + dbg.encrypted_from_client
                    == dbg.total_encrypted_records_captured
                &&& dbg.successfully_decrypted <= dbg.total_encrypted_records_captured
            },
    {
        let mut this = self;
        let ghost init = this@;
        proof {
            law_decryption_adds_up(init, secrets@);
        }
        let ghost init_records = this.encrypted_records@;
        let ghost recs = init.records;
        let ghost target = decrypt_all(init, recs, secrets@);
        let n = this.encrypted_records.len();
        let mut i: usize = 0;
        assert(recs.skip(0) =~= recs);
        while i < n
            invariant
                n == this.encrypted_records@.len(),
                i <= n,
                this.messages_ok(),
                this.records_ok(),
                this.encrypted_records@ == init_records,
                recs == records_view(this.encrypted_records@),
                this.successfully_decrypted <= i,
                decrypt_all(this@, recs.skip(i as int), secrets@) == target,
                this@.records == recs,
            decreases n - i,
        {
            let data = vstd::slice::slice_to_vec(this.encrypted_records[i].data.as_slice());
            let is_write = this.encrypted_records[i].direction_is_write;
            let seq = this.encrypted_records[i].sequence_number;
            let ghost rec = recs[i as int];
            assert(rec == RecordView { data: data@, write: is_write, seq });
            assert(recs.skip(i as int)[0] == rec);
            assert(recs.skip(i as int).drop_first() =~= recs.skip(i + 1));
            let applicable = if is_write {
                true
            } else {
                seq >= secrets.rx.0
            };
            if applicable {
                match this.decrypt_record(data.as_slice(), is_write, seq, secrets) {
                    Ok(plaintext) => {
                        if plaintext.len() > 0 {
                            this.successfully_decrypted = this.successfully_decrypted + 1;
                            this.parse_decrypted_record(plaintext.as_slice(), is_write);
                        }
                    },
                    Err(_) => {},
                }
            }
            i = i + 1;
        }
        assert(recs.skip(i as int) =~= Seq::<RecordView>::empty());
        this.add_encrypted_handshake_messages();
        let debug_info = DecryptionDebugInfo {
            total_encrypted_records_captured: this.encrypted_records.len(),
            encrypted_from_server: this.encrypted_records_from_server,
            encrypted_from_client: this.encrypted_records_from_client,
            successfully_decrypted: this.successfully_decrypted,
        };
        Ok((this.messages, debug_info))
    }

    /// Number of encrypted records the server sent.
    pub fn post_handshake_encrypted_records(&self) -> (r: usize)
        requires
            self.wf(),
        ensures
            r == count_dir(self@.records, false),
    {
        self.encrypted_records_from_server
    }
}

/// The fields of a message inferred from encrypted traffic, with `note`.
fn inferred_field_map(note: String) -> (r: FieldMap)
    ensures
        r@ == inferred_fields(note@),
{
    let mut f = FieldMap::new();
    f.push("encrypted", FieldValue::Flag(true));
    f.push("note", FieldValue::Text(note));
    f.push(
        "inferred_reason",
        FieldValue::Text(owned("Encrypted in TLS 1.3; actual message not captured from wire")),
    );
    assert(f@ =~= inferred_fields(note@));
    f
}

/// Decrypts one TLS 1.3 record with AES-GCM (`is_aes`) or
/// ChaCha20-Poly1305: the nonce is the IV with the big-endian sequence
/// number XORed into its last eight bytes, and there is no associated data.
pub fn decrypt_aead_record(ciphertext: &[u8], key: &[u8], iv: &[u8; 12], seq_num: u64, is_aes: bool) -> (r: Result<
    Vec<u8>,
    TlsError,
>)
    ensures
        match aead_record_result(ciphertext@, key@, iv@, seq_num, is_aes) {
            Ok(p) => r matches Ok(q) && q@ == p,
            Err(m) => r matches Err(e) && is_other(e, m),
        },
{
    if ciphertext.len() < 16 {
        return Err(TlsError::Other(owned("Ciphertext too short for AEAD")));
    }
    let nonce: [u8; 12] = [
        iv[0],
        iv[1],
        iv[2],
        iv[3],
        iv[4] ^ ((seq_num >> 56u64) as u8),
        iv[5] ^ ((seq_num >> 48u64) as u8),
        iv[6] ^ ((seq_num >> 40u64) as u8),
        iv[7] ^ ((seq_num >> 32u64) as u8),
        iv[8] ^ ((seq_num >> 24u64) as u8),
        iv[9] ^ ((seq_num >> 16u64) as u8),
        iv[10] ^ ((seq_num >> 8u64) as u8),
        iv[11] ^ ((seq_num >> 0u64) as u8),
    ];
    assert(nonce@ =~= record_nonce(iv@, seq_num));
    let algorithm = if is_aes {
        if key.len() == 16 {
            AeadAlgorithm::Aes128Gcm
        } else if key.len() == 32 {
            AeadAlgorithm::Aes256Gcm
        } else {
            let mut msg = owned("Invalid AES key size: ");
            push_decimal(&mut msg, key.len() as u64);
            return Err(TlsError::Other(msg));
        }
    } else {
        AeadAlgorithm::Chacha20Poly1305
    };
    match aead_open(algorithm, key, nonce, ciphertext) {
        OpenOutcome::KeyRejected => {
            if is_aes {
                Err(TlsError::Other(owned("Failed to create AES-GCM key")))
            } else {
                Err(TlsError::Other(owned("Failed to create ChaCha20-Poly1305 key")))
            }
        },
        OpenOutcome::Failed => Err(TlsError::Other(owned("AEAD decryption failed"))),
        OpenOutcome::Opened(p) => Ok(p),
    }
}

} // verus!
