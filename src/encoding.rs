//! Canonical byte forms of the records that are hashed.
use vstd::prelude::*;
use vstd::utf8::encode_utf8;

use crate::crypto::{keccak256, keccak256_of};
use crate::types::{Agenda, BlockHeader, Commit, Hash256, Transaction};

verus! {

/// A `u64` as eight bytes, most significant first.
pub open spec fn be8(n: u64) -> Seq<u8> {
    seq![
        (n >> 56u64) as u8,
        (n >> 48u64) as u8,
        (n >> 40u64) as u8,
        (n >> 32u64) as u8,
        (n >> 24u64) as u8,
        (n >> 16u64) as u8,
        (n >> 8u64) as u8,
        n as u8,
    ]
}

/// A byte string preceded by its length.
pub open spec fn field(b: Seq<u8>) -> Seq<u8> {
    be8(b.len() as u64) + b
}

pub open spec fn transaction_bytes(t: Transaction) -> Seq<u8> {
    field(t.author.key@) + be8(t.timestamp) + field(encode_utf8(t.head@)) + field(
        encode_utf8(t.body@),
    )
}

/// The transactions one after the other, in order.
pub open spec fn transactions_bytes(txs: Seq<Transaction>) -> Seq<u8>
    decreases txs.len(),
{
    if txs.len() == 0 {
        Seq::empty()
    } else {
        transactions_bytes(txs.drop_last()) + transaction_bytes(txs.last())
    }
}

/// The digest over the ordered transactions of an agenda at `height`.
pub open spec fn transactions_digest(height: u64, txs: Seq<Transaction>) -> Seq<u8> {
    keccak256_of(be8(height) + transactions_bytes(txs))
}

pub open spec fn header_bytes(h: BlockHeader) -> Seq<u8> {
    field(h.author.key@) + h.previous_hash.hash@ + be8(h.height) + be8(h.timestamp)
        + h.agenda_hash.hash@
}

/// The digest that identifies a block header.
pub open spec fn header_digest(h: BlockHeader) -> Seq<u8> {
    keccak256_of(header_bytes(h))
}

pub open spec fn agenda_bytes(a: Agenda) -> Seq<u8> {
    field(a.author.key@) + be8(a.timestamp) + be8(a.height) + a.hash.hash@
}

/// The digest that identifies an agenda record, the one that its approvers sign.
pub open spec fn agenda_digest(a: Agenda) -> Seq<u8> {
    keccak256_of(agenda_bytes(a))
}

fn push_u64(out: &mut Vec<u8>, n: u64)
    ensures
        final(out)@ == old(out)@ + be8(n),
{
    out.push((n >> 56u64) as u8);
    out.push((n >> 48u64) as u8);
    out.push((n >> 40u64) as u8);
    out.push((n >> 32u64) as u8);
    out.push((n >> 24u64) as u8);
    out.push((n >> 16u64) as u8);
    out.push((n >> 8u64) as u8);
    out.push(n as u8);
    proof {
        assert(out@ =~= old(out)@ + be8(n));
    }
}

fn push_bytes(out: &mut Vec<u8>, b: &[u8])
    ensures
        final(out)@ == old(out)@ + b@,
{
    let ghost start = out@;
    let mut i: usize = 0;
    while i < b.len()
        invariant
            i <= b@.len(),
            out@ == start + b@.subrange(0, i as int),
        decreases b@.len() - i,
    {
        out.push(b[i]);
        i = i + 1;
        proof {
            assert(out@ =~= start + b@.subrange(0, i as int));
        }
    }
    proof {
        assert(b@.subrange(0, b@.len() as int) =~= b@);
    }
}

fn push_field(out: &mut Vec<u8>, b: &[u8])
    ensures
        final(out)@ == old(out)@ + field(b@),
{
    push_u64(out, b.len() as u64);
    push_bytes(out, b);
    proof {
        assert(out@ =~= old(out)@ + field(b@));
    }
}

pub(crate) fn push_transaction(out: &mut Vec<u8>, t: &Transaction)
    ensures
        final(out)@ == old(out)@ + transaction_bytes(*t),
{
    push_field(out, t.author.key.as_slice());
    push_u64(out, t.timestamp);
    push_field(out, t.head.as_str().as_bytes());
    push_field(out, t.body.as_str().as_bytes());
    proof {
        assert(out@ =~= old(out)@ + transaction_bytes(*t));
    }
}

/// The digest over the ordered transactions of an agenda at `height`.
pub fn digest_transactions(height: u64, txs: &Vec<Transaction>) -> (r: Hash256)
    ensures
        r.hash@ == transactions_digest(height, txs@),
{
    let mut out: Vec<u8> = Vec::new();
    push_u64(&mut out, height);
    let mut i: usize = 0;
    while i < txs.len()
        invariant
            i <= txs@.len(),
            out@ == be8(height) + transactions_bytes(txs@.subrange(0, i as int)),
        decreases txs@.len() - i,
    {
        push_transaction(&mut out, &txs[i]);
        proof {
            let next = txs@.subrange(0, i + 1);
            assert(next.drop_last() =~= txs@.subrange(0, i as int));
        }
        i = i + 1;
        proof {
            assert(out@ =~= be8(height) + transactions_bytes(txs@.subrange(0, i as int)));
        }
    }
    proof {
        assert(txs@.subrange(0, txs@.len() as int) =~= txs@);
    }
    keccak256(out.as_slice())
}

/// The digest over transactions given by their canonical bytes.
pub(crate) fn digest_collected(height: u64, collected: &Vec<u8>) -> (r: Hash256)
    ensures
        r.hash@ == keccak256_of(be8(height) + collected@),
{
    let mut out: Vec<u8> = Vec::new();
    push_u64(&mut out, height);
    push_bytes(&mut out, collected.as_slice());
    keccak256(out.as_slice())
}

/// The digest that identifies a block header.
pub fn digest_header(h: &BlockHeader) -> (r: Hash256)
    ensures
        r.hash@ == header_digest(*h),
{
    let mut out: Vec<u8> = Vec::new();
    push_field(&mut out, h.author.key.as_slice());
    push_bytes(&mut out, &h.previous_hash.hash);
    push_u64(&mut out, h.height);
    push_u64(&mut out, h.timestamp);
    push_bytes(&mut out, &h.agenda_hash.hash);
    proof {
        assert(out@ =~= header_bytes(*h));
    }
    keccak256(out.as_slice())
}

/// The digest that identifies an agenda record.
pub fn digest_agenda(a: &Agenda) -> (r: Hash256)
    ensures
        r.hash@ == agenda_digest(*a),
{
    let mut out: Vec<u8> = Vec::new();
    push_field(&mut out, a.author.key.as_slice());
    push_u64(&mut out, a.timestamp);
    push_u64(&mut out, a.height);
    push_bytes(&mut out, &a.hash.hash);
    proof {
        assert(out@ =~= agenda_bytes(*a));
    }
    keccak256(out.as_slice())
}

/// Whether every event of a sequence is an ordinary transaction.
pub open spec fn all_transactions(events: Seq<Commit>) -> bool {
    forall|i: int| 0 <= i < events.len() ==> (#[trigger] events[i]) is Transaction
}

/// The transactions that a sequence of transaction events carries.
pub open spec fn transactions_of(events: Seq<Commit>) -> Seq<Transaction> {
    events.map_values(|c: Commit| c->Transaction_0)
}

/// The digest over the transactions that a sequence of transaction events carries.
pub fn digest_transaction_events(height: u64, events: &Vec<Commit>) -> (r: Hash256)
    requires
        all_transactions(events@),
    ensures
        r.hash@ == transactions_digest(height, transactions_of(events@)),
{
    let ghost txs = transactions_of(events@);
    let mut out: Vec<u8> = Vec::new();
    push_u64(&mut out, height);
    let mut i: usize = 0;
    while i < events.len()
        invariant
            i <= events@.len(),
            all_transactions(events@),
            txs == transactions_of(events@),
            out@ == be8(height) + transactions_bytes(txs.subrange(0, i as int)),
        decreases events@.len() - i,
    {
        assert(events@[i as int] is Transaction);
        match &events[i] {
            Commit::Transaction(t) => {
                push_transaction(&mut out, t);
            },
            _ => {},
        }
        proof {
            let next = txs.subrange(0, i + 1);
            assert(next.drop_last() =~= txs.subrange(0, i as int));
        }
        i = i + 1;
        proof {
            assert(out@ =~= be8(height) + transactions_bytes(txs.subrange(0, i as int)));
        }
    }
    proof {
        assert(txs.subrange(0, events@.len() as int) =~= txs);
    }
    keccak256(out.as_slice())
}

} // verus!
