//! Version 1 of the transaction layouts: the signing payload, the wire form
//! and the transaction identifier.
use crate::codec::{
    from_le_u32, from_le_u64, le_u32, le_u64, lemma_le_round_trip, push_bytes, push_u32,
    push_u64, push_u8, read_bytes, read_u32, read_u64,
};
use crate::model::{
    AggregatedSignature, CoreView, EntryAmount, EntryView, Transaction, TransactionCore,
    TransactionEntry, TransactionType, TxError, TxView,
};
use sha2::Digest;
use vstd::prelude::*;

verus! {

/// The version tag that opens the signing payload and the wire form.
pub const VERSION_V1: u8 = 1;

/// The discriminant of `TransactionType::NonConfidentialTransfer`.
pub const TX_TYPE_NON_CONFIDENTIAL_TRANSFER: u8 = 0;

/// The discriminant of `EntryAmount::NonConfidential`.
pub const AMOUNT_NON_CONFIDENTIAL: u8 = 0;

/// The prefix hashed before the wire form to derive an identifier; it differs
/// from `VERSION_V1`, so an identifier preimage is never a signing payload.
pub const TX_ID_DOMAIN: u8 = 0x49;

/// The size of an encoded entry: key, discriminant and amount.
pub const ENTRY_SIZE: usize = 41;

/// The largest count that a length prefix can hold.
pub const MAX_PREFIXED_LEN: usize = 0xffff_ffff;

pub open spec fn tx_type_tag(t: TransactionType) -> u8 {
    match t {
        TransactionType::NonConfidentialTransfer => TX_TYPE_NON_CONFIDENTIAL_TRANSFER,
    }
}

pub open spec fn amount_bytes(a: EntryAmount) -> Seq<u8> {
    match a {
        EntryAmount::NonConfidential(v) => seq![AMOUNT_NON_CONFIDENTIAL] + le_u64(v as u64),
    }
}

/// An entry: its 32-byte key, the amount's discriminant and its payload.
pub open spec fn entry_bytes(e: EntryView) -> Seq<u8> {
    e.public_key + amount_bytes(e.amount)
}

/// The entries, encoded one after another in their order.
pub open spec fn entries_bytes(es: Seq<EntryView>) -> Seq<u8>
    decreases es.len(),
{
    if es.len() == 0 {
        Seq::empty()
    } else {
        entries_bytes(es.drop_last()) + entry_bytes(es.last())
    }
}

/// The canonical layout of a transaction core.
pub open spec fn core_bytes(c: CoreView) -> Seq<u8> {
    seq![tx_type_tag(c.tx_type)] + le_u32(c.entries.len() as u32) + entries_bytes(c.entries)
        + le_u64(c.nonce) + le_u32(c.lock_time) + le_u64(c.fees) + le_u32(c.data.len() as u32)
        + c.data
}

/// The bytes a signer signs: version, chain binding, core and timestamp.
pub open spec fn signing_payload(c: CoreView, timestamp: u64, chain_id: u64, genesis_hash: Seq<u8>) -> Seq<u8> {
    seq![VERSION_V1] + le_u64(chain_id) + genesis_hash + core_bytes(c) + le_u64(timestamp)
}

/// The wire form: version, core, length-prefixed signature and timestamp.
pub open spec fn wire_bytes(t: TxView) -> Seq<u8> {
    seq![VERSION_V1] + core_bytes(t.core) + le_u32(t.signature.len() as u32) + t.signature
        + le_u64(t.timestamp)
}

/// The bytes hashed to derive a transaction identifier.
pub open spec fn tx_id_preimage(t: TxView) -> Seq<u8> {
    seq![TX_ID_DOMAIN] + wire_bytes(t)
}

/// Every entry key is exactly 32 bytes.
pub open spec fn entries_wf(es: Seq<EntryView>) -> bool {
    forall|i: int| 0 <= i < es.len() ==> (#[trigger] es[i]).public_key.len() == 32
}

/// The core's variable-length parts fit their length prefixes.
pub open spec fn core_fits(c: CoreView) -> bool {
    &&& c.entries.len() <= MAX_PREFIXED_LEN
    &&& c.data.len() <= MAX_PREFIXED_LEN
}

/// The transaction's variable-length parts fit their length prefixes.
pub open spec fn tx_fits(t: TxView) -> bool {
    core_fits(t.core) && t.signature.len() <= MAX_PREFIXED_LEN
}

/// A model that some `Transaction` value has.
pub open spec fn tx_wf(t: TxView) -> bool {
    entries_wf(t.core.entries)
}

/// The digest of `b` under SHA-256.
pub uninterp spec fn sha256_of(b: Seq<u8>) -> Seq<u8>;

/// Relies on `sha2::Sha256::digest`: the SHA-256 digest of `b`, 32 bytes.
#[verifier::external_body]
fn sha256(b: &[u8]) -> (r: [u8; 32])
    ensures
        r@ == sha256_of(b@),
{
    sha2::Sha256::digest(b).into()
}

proof fn lemma_entries_bytes_step(es: Seq<EntryView>, i: int)
    requires
        0 <= i < es.len(),
    ensures
        entries_bytes(es.take(i + 1)) == entries_bytes(es.take(i)) + entry_bytes(es[i]),
{
    assert(es.take(i + 1).drop_last() =~= es.take(i));
}

fn encode_entry(out: &mut Vec<u8>, e: &TransactionEntry)
    ensures
        final(out)@ == old(out)@ + entry_bytes(e@),
{
    push_bytes(out, e.public_key.as_slice());
    match e.amount {
        EntryAmount::NonConfidential(v) => {
            push_u8(out, AMOUNT_NON_CONFIDENTIAL);
            push_u64(out, v as u64);
        },
    }
    assert(final(out)@ =~= old(out)@ + entry_bytes(e@));
}

fn encode_core(out: &mut Vec<u8>, core: &TransactionCore)
    requires
        core_fits(core@),
    ensures
        final(out)@ == old(out)@ + core_bytes(core@),
{
    let ghost es = core@.entries;
    let tag = match core.tx_type {
        TransactionType::NonConfidentialTransfer => TX_TYPE_NON_CONFIDENTIAL_TRANSFER,
    };
    push_u8(out, tag);
    push_u32(out, core.entries.len() as u32);
    let ghost head = out@;
    let mut i: usize = 0;
    while i < core.entries.len()
        invariant
            i <= core.entries@.len(),
            es == core@.entries,
            out@ == head + entries_bytes(es.take(i as int)),
        decreases core.entries@.len() - i,
    {
        encode_entry(out, &core.entries[i]);
        proof {
            lemma_entries_bytes_step(es, i as int);
        }
        i = i + 1;
    }
    assert(es.take(i as int) =~= es);
    push_u64(out, core.nonce);
    push_u32(out, core.lock_time);
    push_u64(out, core.fees);
    push_u32(out, core.data.len() as u32);
    push_bytes(out, core.data.as_slice());
    assert(final(out)@ =~= old(out)@ + core_bytes(core@));
}

fn check_core(core: &TransactionCore) -> (r: bool)
    ensures
        r == core_fits(core@),
{
    core.entries.len() <= MAX_PREFIXED_LEN && core.data.len() <= MAX_PREFIXED_LEN
}

/// The signing payload of `core` at `timestamp`, bound to a chain.
/// Fails with `InvalidLength` exactly when a length prefix cannot hold the
/// number of entries or of data bytes.
pub fn transaction_signing_payload_v1(
    core: &TransactionCore,
    timestamp: u64,
    chain_id: u64,
    genesis_hash: [u8; 32],
) -> (r: Result<Vec<u8>, TxError>)
    ensures
        r is Ok <==> core_fits(core@),
        r matches Ok(p) ==> p@ == signing_payload(core@, timestamp, chain_id, genesis_hash@),
        r matches Err(e) ==> e == TxError::InvalidLength,
{
    if !check_core(core) {
        return Err(TxError::InvalidLength);
    }
    let mut out: Vec<u8> = Vec::new();
    push_u8(&mut out, VERSION_V1);
    push_u64(&mut out, chain_id);
    push_bytes(&mut out, genesis_hash.as_slice());
    encode_core(&mut out, core);
    push_u64(&mut out, timestamp);
    assert(out@ =~= signing_payload(core@, timestamp, chain_id, genesis_hash@));
    Ok(out)
}

fn encode_wire_into(out: &mut Vec<u8>, tx: &Transaction)
    requires
        tx_fits(tx@),
    ensures
        final(out)@ == old(out)@ + wire_bytes(tx@),
{
    push_u8(out, VERSION_V1);
    encode_core(out, &tx.core);
    push_u32(out, tx.signature.0.len() as u32);
    push_bytes(out, tx.signature.0.as_slice());
    push_u64(out, tx.timestamp);
    assert(final(out)@ =~= old(out)@ + wire_bytes(tx@));
}

/// The wire form of `tx`. Fails with `InvalidLength` exactly when a length
/// prefix cannot hold the number of entries, data bytes or signature bytes.
pub fn encode_wire_tx_v1(tx: &Transaction) -> (r: Result<Vec<u8>, TxError>)
    ensures
        r is Ok <==> tx_fits(tx@),
        r matches Ok(w) ==> w@ == wire_bytes(tx@),
        r matches Err(e) ==> e == TxError::InvalidLength,
{
    if !check_core(&tx.core) || tx.signature.0.len() > MAX_PREFIXED_LEN {
        return Err(TxError::InvalidLength);
    }
    let mut out: Vec<u8> = Vec::new();
    encode_wire_into(&mut out, tx);
    Ok(out)
}

/// The bytes hashed into the identifier of `tx`: a domain tag, then the wire
/// form. Fails as `encode_wire_tx_v1` does.
pub fn tx_id_preimage_v1(tx: &Transaction) -> (r: Result<Vec<u8>, TxError>)
    ensures
        r is Ok <==> tx_fits(tx@),
        r matches Ok(w) ==> w@ == tx_id_preimage(tx@),
        r matches Err(e) ==> e == TxError::InvalidLength,
{
    if !check_core(&tx.core) || tx.signature.0.len() > MAX_PREFIXED_LEN {
        return Err(TxError::InvalidLength);
    }
    let mut out: Vec<u8> = Vec::new();
    push_u8(&mut out, TX_ID_DOMAIN);
    encode_wire_into(&mut out, tx);
    Ok(out)
}

/// The identifier of a transaction given by its wire form: the SHA-256
/// digest of the domain tag followed by `wire`.
pub fn tx_id_of_wire_v1(wire: &[u8]) -> (r: [u8; 32])
    ensures
        r@ == sha256_of(seq![TX_ID_DOMAIN] + wire@),
{
    let mut pre: Vec<u8> = Vec::new();
    push_u8(&mut pre, TX_ID_DOMAIN);
    push_bytes(&mut pre, wire);
    sha256(pre.as_slice())
}

/// The identifier of `tx`: the SHA-256 digest of its identifier preimage.
/// Fails as `encode_wire_tx_v1` does.
pub fn tx_id_v1(tx: &Transaction) -> (r: Result<[u8; 32], TxError>)
    ensures
        r is Ok <==> tx_fits(tx@),
        r matches Ok(id) ==> id@ == sha256_of(tx_id_preimage(tx@)),
        r matches Err(e) ==> e == TxError::InvalidLength,
{
    match tx_id_preimage_v1(tx) {
        Ok(pre) => Ok(sha256(pre.as_slice())),
        Err(e) => Err(e),
    }
}

/// The offset just past `n` encoded entries in a wire form.
pub open spec fn entries_end(n: u32) -> int {
    6 + ENTRY_SIZE * n
}

/// The entry encoded at offset `p` of `s`.
pub open spec fn entry_at(s: Seq<u8>, p: int) -> EntryView {
    EntryView {
        public_key: s.subrange(p, p + 32),
        amount: EntryAmount::NonConfidential(from_le_u64(s.subrange(p + 33, p + 41)) as i64),
    }
}

/// Some entry of the `n` entries in `s` has an unknown amount discriminant.
pub open spec fn bad_amount_tag(s: Seq<u8>, n: u32) -> bool {
    exists|i: int| 0 <= i < n && #[trigger] s[6 + ENTRY_SIZE * i + 32] != AMOUNT_NON_CONFIDENTIAL
}

/// What decoding a wire form yields. A field cut short, a length prefix that
/// runs past the end, or bytes left over give `Malformed`; an unknown version
/// or discriminant gives `Unsupported`; the first such fault in reading order
/// decides.
pub open spec fn decode_wire(s: Seq<u8>) -> Result<TxView, TxError> {
    if s.len() < 1 {
        Err(TxError::Malformed)
    } else if s[0] != VERSION_V1 {
        Err(TxError::Unsupported)
    } else if s.len() < 2 {
        Err(TxError::Malformed)
    } else if s[1] != TX_TYPE_NON_CONFIDENTIAL_TRANSFER {
        Err(TxError::Unsupported)
    } else if s.len() < 6 {
        Err(TxError::Malformed)
    } else {
        let n = from_le_u32(s.subrange(2, 6));
        let e = entries_end(n);
        if s.len() < e {
            Err(TxError::Malformed)
        } else if bad_amount_tag(s, n) {
            Err(TxError::Unsupported)
        } else if s.len() < e + 24 {
            Err(TxError::Malformed)
        } else {
            let dl = from_le_u32(s.subrange(e + 20, e + 24));
            let d = e + 24 + dl;
            if s.len() < d + 4 {
                Err(TxError::Malformed)
            } else {
                let sl = from_le_u32(s.subrange(d, d + 4));
                if s.len() != d + 4 + sl + 8 {
                    Err(TxError::Malformed)
                } else {
                    Ok(
                        TxView {
                            core: CoreView {
                                tx_type: TransactionType::NonConfidentialTransfer,
                                entries: Seq::new(n as nat, |i: int| entry_at(s, 6 + ENTRY_SIZE * i)),
                                nonce: from_le_u64(s.subrange(e, e + 8)),
                                lock_time: from_le_u32(s.subrange(e + 8, e + 12)),
                                fees: from_le_u64(s.subrange(e + 12, e + 20)),
                                data: s.subrange(e + 24, d),
                            },
                            signature: s.subrange(d + 4, d + 4 + sl),
                            timestamp: from_le_u64(s.subrange(d + 4 + sl, d + 12 + sl)),
                        },
                    )
                }
            }
        }
    }
}

/// The result of a decoder, seen through the model.
pub open spec fn decoded_view(r: Result<Transaction, TxError>) -> Result<TxView, TxError> {
    match r {
        Ok(t) => Ok(t@),
        Err(e) => Err(e),
    }
}

fn decode_entry(buf: &[u8], p: usize) -> (r: TransactionEntry)
    requires
        p + ENTRY_SIZE <= buf@.len(),
    ensures
        r@ == entry_at(buf@, p as int),
{
    let len = buf.len();
    let mut key = [0u8; 32];
    let mut j: usize = 0;
    while j < 32
        invariant
            j <= 32,
            p + ENTRY_SIZE <= buf@.len(),
            len == buf@.len(),
            forall|k: int| 0 <= k < j ==> key@[k] == buf@[p + k],
        decreases 32 - j,
    {
        key[j] = buf[p + j];
        j = j + 1;
    }
    assert(key@ =~= buf@.subrange(p as int, p + 32));
    let v = read_u64(buf, p + 33);
    TransactionEntry { public_key: key, amount: EntryAmount::NonConfidential(#[verifier::truncate] (v as i64)) }
}

/// Decodes a wire form. The result is `decode_wire(bytes@)`: it is `Ok` of
/// `t` exactly when `bytes` is the wire form of `t` (see
/// `lemma_decode_encoded_prefix`).
pub fn decode_wire_tx_v1(bytes: &[u8]) -> (r: Result<Transaction, TxError>)
    ensures
        decoded_view(r) == decode_wire(bytes@),
        bytes@.len() > 0 && bytes@[0] != VERSION_V1 ==> r == Err::<Transaction, TxError>(
            TxError::Unsupported,
        ),
        bytes@.len() == 0 ==> r == Err::<Transaction, TxError>(TxError::Malformed),
{
    let ghost s = bytes@;
    let len = bytes.len();
    if len < 1 {
        return Err(TxError::Malformed);
    }
    if bytes[0] != VERSION_V1 {
        return Err(TxError::Unsupported);
    }
    if len < 2 {
        return Err(TxError::Malformed);
    }
    if bytes[1] != TX_TYPE_NON_CONFIDENTIAL_TRANSFER {
        return Err(TxError::Unsupported);
    }
    if len < 6 {
        return Err(TxError::Malformed);
    }
    let n = read_u32(bytes, 2);
    let block: u64 = (n as u64) * (ENTRY_SIZE as u64);
    if ((len - 6) as u64) < block {
        return Err(TxError::Malformed);
    }
    let e: usize = 6 + block as usize;
    let mut entries: Vec<TransactionEntry> = Vec::new();
    let mut i: usize = 0;
    while i < n as usize
        invariant
            s == bytes@,
            len == s.len(),
            n == from_le_u32(s.subrange(2, 6)),
            e == entries_end(n),
            e <= len,
            i <= n,
            entries@.len() == i,
            forall|k: int| 0 <= k < i ==> #[trigger] s[6 + ENTRY_SIZE * k + 32] == AMOUNT_NON_CONFIDENTIAL,
            forall|k: int| 0 <= k < i ==> (#[trigger] entries@[k])@ == entry_at(s, 6 + ENTRY_SIZE * k),
        decreases n - i,
    {
        proof {
            assert(6 + ENTRY_SIZE * i + ENTRY_SIZE <= 6 + ENTRY_SIZE * n) by (nonlinear_arith)
                requires i < n;
        }
        let p: usize = 6 + ENTRY_SIZE * i;
        if bytes[p + 32] != AMOUNT_NON_CONFIDENTIAL {
            assert(bad_amount_tag(s, n));
            return Err(TxError::Unsupported);
        }
        let entry = decode_entry(bytes, p);
        entries.push(entry);
        i = i + 1;
    }
    assert(!bad_amount_tag(s, n));
    if len - e < 24 {
        return Err(TxError::Malformed);
    }
    let nonce = read_u64(bytes, e);
    let lock_time = read_u32(bytes, e + 8);
    let fees = read_u64(bytes, e + 12);
    let dl = read_u32(bytes, e + 20);
    let pd: usize = e + 24;
    if ((len - pd) as u64) < (dl as u64) + 4 {
        return Err(TxError::Malformed);
    }
    let data = read_bytes(bytes, pd, dl as usize);
    let q: usize = pd + dl as usize;
    let sl = read_u32(bytes, q);
    let ps: usize = q + 4;
    if ((len - ps) as u64) != (sl as u64) + 8 {
        return Err(TxError::Malformed);
    }
    let signature = read_bytes(bytes, ps, sl as usize);
    let timestamp = read_u64(bytes, ps + sl as usize);
    let core = TransactionCore {
        tx_type: TransactionType::NonConfidentialTransfer,
        entries,
        nonce,
        lock_time,
        fees,
        data,
    };
    let tx = Transaction { core, signature: AggregatedSignature(signature), timestamp };
    proof {
        let m = decode_wire(s)->Ok_0;
        assert(tx@.core.entries =~= m.core.entries);
        assert(tx@.core == m.core);
        assert(tx@ == m);
    }
    Ok(tx)
}

proof fn lemma_entries_layout(es: Seq<EntryView>)
    requires
        entries_wf(es),
    ensures
        entries_bytes(es).len() == ENTRY_SIZE * es.len(),
        forall|i: int|
            0 <= i < es.len() ==> #[trigger] entries_bytes(es).subrange(
                ENTRY_SIZE * i,
                ENTRY_SIZE * i + ENTRY_SIZE,
            ) == entry_bytes(es[i]),
    decreases es.len(),
{
    lemma_le_round_trip();
    if es.len() > 0 {
        let init = es.drop_last();
        assert(entries_wf(init)) by {
            assert forall|i: int| 0 <= i < init.len() implies (#[trigger] init[i]).public_key.len()
                == 32 by {
                assert(init[i] == es[i]);
            }
        }
        lemma_entries_layout(init);
        let a = entries_bytes(init);
        let last = es.last();
        assert(es[es.len() - 1].public_key.len() == 32);
        assert(entry_bytes(last).len() == ENTRY_SIZE);
        assert(ENTRY_SIZE * es.len() == ENTRY_SIZE * init.len() + ENTRY_SIZE) by (nonlinear_arith)
            requires es.len() == init.len() + 1;
        assert forall|i: int| 0 <= i < es.len() implies #[trigger] entries_bytes(es).subrange(
            ENTRY_SIZE * i,
            ENTRY_SIZE * i + ENTRY_SIZE,
        ) == entry_bytes(es[i]) by {
            if i < init.len() {
                assert(ENTRY_SIZE * i + ENTRY_SIZE <= ENTRY_SIZE * init.len()) by (nonlinear_arith)
                    requires i < init.len();
                assert(a.subrange(ENTRY_SIZE * i, ENTRY_SIZE * i + ENTRY_SIZE) == entry_bytes(
                    init[i],
                ));
                assert(entries_bytes(es).subrange(ENTRY_SIZE * i, ENTRY_SIZE * i + ENTRY_SIZE)
                    =~= a.subrange(ENTRY_SIZE * i, ENTRY_SIZE * i + ENTRY_SIZE));
            } else {
                assert(entries_bytes(es).subrange(ENTRY_SIZE * i, ENTRY_SIZE * i + ENTRY_SIZE)
                    =~= entry_bytes(last));
            }
        }
    }
}

proof fn lemma_amount_round_trip(v: i64)
    ensures
        ((v as u64) as i64) == v,
{
    assert(((v as u64) as i64) == v) by (bit_vector);
}

/// Decoding any prefix of a wire form: the whole of it gives back the
/// transaction, and every shorter prefix is `Malformed`.
pub proof fn lemma_decode_encoded_prefix(t: TxView, k: int)
    requires
        tx_wf(t),
        tx_fits(t),
        0 <= k <= wire_bytes(t).len(),
    ensures
        decode_wire(wire_bytes(t).take(k)) == (if k == wire_bytes(t).len() {
            Ok::<TxView, TxError>(t)
        } else {
            Err::<TxView, TxError>(TxError::Malformed)
        }),
{
    lemma_le_round_trip();
    let c = t.core;
    let es = c.entries;
    lemma_entries_layout(es);
    let w = wire_bytes(t);
    let s = w.take(k);
    let n = es.len() as u32;
    let ee = entries_bytes(es);
    let e = entries_end(n);
    let dl = c.data.len() as u32;
    let d = e + 24 + dl;
    let sl = t.signature.len() as u32;
    let total = d + 12 + sl;
    assert(e == 6 + ee.len());
    assert(w.len() == total);
    assert(forall|a: int, b: int| 0 <= a <= b <= k ==> #[trigger] s.subrange(a, b) == w.subrange(a, b));
    assert(w.subrange(2, 6) =~= le_u32(n));
    assert(w.subrange(6, e) =~= ee);
    assert(w.subrange(e, e + 8) =~= le_u64(c.nonce));
    assert(w.subrange(e + 8, e + 12) =~= le_u32(c.lock_time));
    assert(w.subrange(e + 12, e + 20) =~= le_u64(c.fees));
    assert(w.subrange(e + 20, e + 24) =~= le_u32(dl));
    assert(w.subrange(e + 24, d) =~= c.data);
    assert(w.subrange(d, d + 4) =~= le_u32(sl));
    assert(w.subrange(d + 4, d + 4 + sl) =~= t.signature);
    assert(w.subrange(d + 4 + sl, d + 12 + sl) =~= le_u64(t.timestamp));
    if k >= 1 {
        assert(s[0] == VERSION_V1);
    }
    if k >= 2 {
        assert(s[1] == tx_type_tag(c.tx_type));
    }
    if k >= 6 {
        assert(s.subrange(2, 6) == le_u32(n));
    }
    if k >= e {
        assert forall|i: int|
            #![trigger s[6 + ENTRY_SIZE * i + 32]]
            #![trigger entry_at(s, 6 + ENTRY_SIZE * i)]
            0 <= i < n implies {
            &&& s[6 + ENTRY_SIZE * i + 32] == AMOUNT_NON_CONFIDENTIAL
            &&& entry_at(s, 6 + ENTRY_SIZE * i) == es[i]
        } by {
            let p = 6 + ENTRY_SIZE * i;
            assert(ENTRY_SIZE * i + ENTRY_SIZE <= ENTRY_SIZE * n) by (nonlinear_arith)
                requires i < n;
            let eb = entry_bytes(es[i]);
            assert(ee.subrange(ENTRY_SIZE * i, ENTRY_SIZE * i + ENTRY_SIZE) == eb);
            assert(s.subrange(p, p + ENTRY_SIZE) =~= eb);
            assert(es[i].public_key.len() == 32);
            assert(s[p + 32] == eb[32]);
            let EntryAmount::NonConfidential(v) = es[i].amount;
            lemma_amount_round_trip(v);
            assert(s.subrange(p, p + 32) =~= es[i].public_key);
            assert(amount_bytes(es[i].amount) == seq![AMOUNT_NON_CONFIDENTIAL] + le_u64(v as u64));
            assert(eb.subrange(33, 41) =~= le_u64(v as u64));
            assert(s.subrange(p + 33, p + 41) =~= eb.subrange(33, 41));
        }
        assert(!bad_amount_tag(s, n));
        if k == total {
            let m = decode_wire(s)->Ok_0;
            assert forall|i: int| 0 <= i < n implies m.core.entries[i] == es[i] by {
                assert(m.core.entries[i] == entry_at(s, 6 + ENTRY_SIZE * i));
            }
            assert(m.core.entries =~= es);
            assert(m.core.data =~= c.data);
            assert(m.signature =~= t.signature);
            assert(m.core == c);
        }
    }
}

/// Decoding the wire form of a transaction gives back that transaction.
pub proof fn lemma_wire_round_trip(t: TxView)
    requires
        tx_wf(t),
        tx_fits(t),
    ensures
        decode_wire(wire_bytes(t)) == Ok::<TxView, TxError>(t),
{
    lemma_decode_encoded_prefix(t, wire_bytes(t).len() as int);
    assert(wire_bytes(t).take(wire_bytes(t).len() as int) =~= wire_bytes(t));
}

/// Decoding a wire form cut anywhere before its end is `Malformed`.
pub proof fn lemma_truncated_wire_malformed(t: TxView, k: int)
    requires
        tx_wf(t),
        tx_fits(t),
        0 <= k < wire_bytes(t).len(),
    ensures
        decode_wire(wire_bytes(t).take(k)) == Err::<TxView, TxError>(TxError::Malformed),
{
    lemma_decode_encoded_prefix(t, k);
}

/// The wire form is injective: two distinct transactions never share one.
pub proof fn lemma_wire_injective(t: TxView, u: TxView)
    requires
        tx_wf(t),
        tx_fits(t),
        tx_wf(u),
        tx_fits(u),
        wire_bytes(t) == wire_bytes(u),
    ensures
        t == u,
{
    lemma_wire_round_trip(t);
    lemma_wire_round_trip(u);
}

/// A change anywhere in a transaction (a byte of its data, of an entry's key,
/// of its signature, or any other field) changes the bytes that are hashed
/// into its identifier.
pub proof fn lemma_id_preimage_injective(t: TxView, u: TxView)
    requires
        tx_wf(t),
        tx_fits(t),
        tx_wf(u),
        tx_fits(u),
        t != u,
    ensures
        tx_id_preimage(t) != tx_id_preimage(u),
{
    if tx_id_preimage(t) == tx_id_preimage(u) {
        assert(wire_bytes(t) =~= tx_id_preimage(t).drop_first());
        assert(wire_bytes(u) =~= tx_id_preimage(u).drop_first());
        lemma_wire_injective(t, u);
    }
}

/// Identifiers and signing payloads are functions of their inputs: equal
/// inputs give equal bytes.
pub proof fn lemma_outputs_deterministic(
    t: TxView,
    u: TxView,
    chain_id: u64,
    genesis_hash: Seq<u8>,
)
    requires
        t == u,
    ensures
        sha256_of(tx_id_preimage(t)) == sha256_of(tx_id_preimage(u)),
        wire_bytes(t) == wire_bytes(u),
        signing_payload(t.core, t.timestamp, chain_id, genesis_hash) == signing_payload(
            u.core,
            u.timestamp,
            chain_id,
            genesis_hash,
        ),
{
}

/// The same core and timestamp under another chain id or genesis hash give
/// another signing payload.
pub proof fn lemma_signing_domain_separation(
    c: CoreView,
    timestamp: u64,
    chain_a: u64,
    genesis_a: Seq<u8>,
    chain_b: u64,
    genesis_b: Seq<u8>,
)
    requires
        genesis_a.len() == 32,
        genesis_b.len() == 32,
        chain_a != chain_b || genesis_a != genesis_b,
    ensures
        signing_payload(c, timestamp, chain_a, genesis_a) != signing_payload(
            c,
            timestamp,
            chain_b,
            genesis_b,
        ),
{
    lemma_le_round_trip();
    let pa = signing_payload(c, timestamp, chain_a, genesis_a);
    let pb = signing_payload(c, timestamp, chain_b, genesis_b);
    assert(pa.subrange(1, 9) =~= le_u64(chain_a));
    assert(pb.subrange(1, 9) =~= le_u64(chain_b));
    assert(pa.subrange(9, 41) =~= genesis_a);
    assert(pb.subrange(9, 41) =~= genesis_b);
}

/// An identifier preimage never equals a signing payload: their first bytes
/// differ.
pub proof fn lemma_id_preimage_not_signing_payload(
    t: TxView,
    c: CoreView,
    timestamp: u64,
    chain_id: u64,
    genesis_hash: Seq<u8>,
)
    ensures
        tx_id_preimage(t) != signing_payload(c, timestamp, chain_id, genesis_hash),
{
    assert(tx_id_preimage(t)[0] == TX_ID_DOMAIN);
    assert(signing_payload(c, timestamp, chain_id, genesis_hash)[0] == VERSION_V1);
}

/// Every `Transaction` value meets the well-formedness that the laws above
/// assume: its entry keys are arrays of 32 bytes.
pub proof fn lemma_transaction_wf(t: &Transaction)
    ensures
        tx_wf(t@),
{
    assert forall|i: int| 0 <= i < t@.core.entries.len() implies (
    #[trigger] t@.core.entries[i]).public_key.len() == 32 by {
        let e = t.core.entries@[i];
        vstd::array::array_len_matches_n(&e.public_key);
    }
}

} // verus!
