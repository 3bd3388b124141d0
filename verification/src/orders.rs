//! Escrowed orders, their content ids, and the book that keeps them.
use soroban_sdk::Env;
use vstd::prelude::*;

use crate::address::{lemma_xdr_prefix_free, Address};
use crate::encoding::{
    array_eq, be_bytes, lemma_array_ext, lemma_be_bytes_injective, lemma_be_bytes_len,
    lemma_byte_range_values, push_be, push_be_i128, twos_complement,
};
use crate::host::{keccak256, keccak256_digest};

verus! {

/// Lifecycle of an escrowed order on the source chain.
#[derive(Clone, Copy, Debug, PartialEq, Eq, Structural)]
pub enum OrderStatus {
    /// Funds are escrowed and awaiting a maker fill.
    Open,
    /// A maker released the escrow after proving destination-chain delivery.
    Claimed,
    /// The taker reclaimed the escrow after expiry.
    Refunded,
}

/// A cross-chain swap intent whose source-chain funds are escrowed.
///
/// The `taker` locks funds on the source chain; a maker later fills the intent on the
/// destination chain and releases the escrow. The order is content-addressed: its id is
/// the Keccak-256 digest of its terms (see [`order_id`]), so the id is the key under
/// which the order is kept and no field of it.
#[derive(Clone, Copy, Debug, PartialEq, Eq)]
pub struct Order {
    /// User who escrowed the source-chain funds.
    pub taker: Address,
    /// Escrowed source-chain asset.
    pub token_in: Address,
    /// Amount of `token_in` escrowed; the protocol fee is taken from this on claim.
    pub amount_in: i128,
    /// Requested destination-chain asset, in raw 32-byte form.
    pub token_out: [u8; 32],
    /// Requested amount of `token_out` on the destination chain.
    pub amount_out: i128,
    /// Recipient on the destination chain, in raw 32-byte form.
    pub recipient: [u8; 32],
    /// Destination chain identifier.
    pub dest_chain: u64,
    /// Ledger timestamp after which the taker may refund the escrow.
    pub deadline: u64,
    /// Caller-supplied salt that makes otherwise-identical orders unique.
    pub nonce: u64,
    pub status: OrderStatus,
}

impl Order {
    /// Whether two orders agree in everything but their status.
    pub open spec fn same_terms(self, other: Order) -> bool {
        self == (Order { status: self.status, ..other })
    }
}

/// The bytes that an order's id commits to, in this order and without separators: the XDR
/// of `taker` and of `token_in`, `amount_in` (16 bytes), `token_out`, `amount_out` (16
/// bytes), `recipient`, `dest_chain`, `deadline` and `nonce` (8 bytes each). Numbers are
/// big-endian. The contract on the destination chain hashes the same bytes.
pub open spec fn order_preimage(o: Order) -> Seq<u8> {
    o.taker.xdr() + (o.token_in.xdr() + (be_bytes(twos_complement(o.amount_in), 16) + o.token_out@
        + be_bytes(twos_complement(o.amount_out), 16) + o.recipient@ + be_bytes(
        o.dest_chain as nat,
        8,
    ) + be_bytes(o.deadline as nat, 8) + be_bytes(o.nonce as nat, 8)))
}

/// The content id of an order: the Keccak-256 digest of its preimage.
pub open spec fn content_id(o: Order) -> Seq<u8> {
    keccak256_digest(order_preimage(o))
}

/// The bytes that the id of `o` commits to.
pub fn order_preimage_bytes(e: &Env, o: &Order) -> (buf: Vec<u8>)
    ensures
        buf@ == order_preimage(*o),
        buf@.len() <= 208,
{
    let mut buf: Vec<u8> = o.taker.to_xdr(e);
    let mut token_in: Vec<u8> = o.token_in.to_xdr(e);
    buf.append(&mut token_in);
    push_be_i128(&mut buf, o.amount_in);
    buf.extend_from_slice(o.token_out.as_slice());
    push_be_i128(&mut buf, o.amount_out);
    buf.extend_from_slice(o.recipient.as_slice());
    push_be(&mut buf, o.dest_chain as u128, 8);
    push_be(&mut buf, o.deadline as u128, 8);
    push_be(&mut buf, o.nonce as u128, 8);
    proof {
        lemma_be_bytes_len(twos_complement(o.amount_in), 16);
        lemma_be_bytes_len(twos_complement(o.amount_out), 16);
        lemma_be_bytes_len(o.dest_chain as nat, 8);
        lemma_be_bytes_len(o.deadline as nat, 8);
        lemma_be_bytes_len(o.nonce as nat, 8);
        assert(buf@ =~= order_preimage(*o));
    }
    buf
}

/// Content id of an order: the Keccak-256 digest of a fixed-layout preimage of its terms,
/// which are every field except `status` (see [`order_preimage`]).
///
/// The digest is one that an EVM destination chain can recompute from the same bytes.
pub fn order_id(e: &Env, o: &Order) -> (id: [u8; 32])
    ensures
        id@ == content_id(*o),
{
    let buf: Vec<u8> = order_preimage_bytes(e, o);
    keccak256(e, &buf)
}

/// The status of an order is no part of its id.
pub proof fn lemma_id_ignores_status(o: Order, status: OrderStatus)
    ensures
        order_preimage(Order { status, ..o }) == order_preimage(o),
        content_id(Order { status, ..o }) == content_id(o),
{
}

/// Orders with the same preimage have the same terms: the id commits to every term, and
/// orders that differ in any term, such as the nonce alone, are hashed from different
/// bytes.
pub proof fn lemma_preimage_injective(a: Order, b: Order)
    requires
        order_preimage(a) == order_preimage(b),
    ensures
        a.same_terms(b),
{
    let (a1, b1) = (twos_complement(a.amount_in), twos_complement(b.amount_in));
    let (a2, b2) = (twos_complement(a.amount_out), twos_complement(b.amount_out));
    lemma_be_bytes_len(a1, 16);
    lemma_be_bytes_len(b1, 16);
    lemma_be_bytes_len(a2, 16);
    lemma_be_bytes_len(b2, 16);
    lemma_be_bytes_len(a.dest_chain as nat, 8);
    lemma_be_bytes_len(b.dest_chain as nat, 8);
    lemma_be_bytes_len(a.deadline as nat, 8);
    lemma_be_bytes_len(b.deadline as nat, 8);
    lemma_be_bytes_len(a.nonce as nat, 8);
    lemma_be_bytes_len(b.nonce as nat, 8);
    let tail_a = be_bytes(a1, 16) + a.token_out@ + be_bytes(a2, 16) + a.recipient@ + be_bytes(
        a.dest_chain as nat,
        8,
    ) + be_bytes(a.deadline as nat, 8) + be_bytes(a.nonce as nat, 8);
    let tail_b = be_bytes(b1, 16) + b.token_out@ + be_bytes(b2, 16) + b.recipient@ + be_bytes(
        b.dest_chain as nat,
        8,
    ) + be_bytes(b.deadline as nat, 8) + be_bytes(b.nonce as nat, 8);
    lemma_xdr_prefix_free(a.taker, b.taker, a.token_in.xdr() + tail_a, b.token_in.xdr() + tail_b);
    lemma_xdr_prefix_free(a.token_in, b.token_in, tail_a, tail_b);
    assert(be_bytes(a1, 16) =~= tail_a.subrange(0, 16));
    assert(be_bytes(b1, 16) =~= tail_b.subrange(0, 16));
    assert(a.token_out@ =~= tail_a.subrange(16, 48));
    assert(b.token_out@ =~= tail_b.subrange(16, 48));
    assert(be_bytes(a2, 16) =~= tail_a.subrange(48, 64));
    assert(be_bytes(b2, 16) =~= tail_b.subrange(48, 64));
    assert(a.recipient@ =~= tail_a.subrange(64, 96));
    assert(b.recipient@ =~= tail_b.subrange(64, 96));
    assert(be_bytes(a.dest_chain as nat, 8) =~= tail_a.subrange(96, 104));
    assert(be_bytes(b.dest_chain as nat, 8) =~= tail_b.subrange(96, 104));
    assert(be_bytes(a.deadline as nat, 8) =~= tail_a.subrange(104, 112));
    assert(be_bytes(b.deadline as nat, 8) =~= tail_b.subrange(104, 112));
    assert(be_bytes(a.nonce as nat, 8) =~= tail_a.subrange(112, 120));
    assert(be_bytes(b.nonce as nat, 8) =~= tail_b.subrange(112, 120));
    lemma_byte_range_values();
    lemma_be_bytes_injective(a1, b1, 16);
    lemma_be_bytes_injective(a2, b2, 16);
    lemma_be_bytes_injective(a.dest_chain as nat, b.dest_chain as nat, 8);
    lemma_be_bytes_injective(a.deadline as nat, b.deadline as nat, 8);
    lemma_be_bytes_injective(a.nonce as nat, b.nonce as nat, 8);
    lemma_array_ext(a.token_out, b.token_out);
    lemma_array_ext(a.recipient, b.recipient);
}

/// An order and the id under which it is kept.
#[derive(Clone, Copy, Debug, PartialEq, Eq)]
pub struct OrderEntry {
    pub id: [u8; 32],
    pub order: Order,
}

/// The orders of the escrow by id: all of them, or those that one invocation touches.
pub struct OrderBook {
    entries: Vec<OrderEntry>,
}

/// The orders of a list of entries by id. Of two entries with one id the later counts.
pub open spec fn entries_map(entries: Seq<OrderEntry>) -> Map<Seq<u8>, Order>
    decreases entries.len(),
{
    if entries.len() == 0 {
        Map::empty()
    } else {
        entries_map(entries.drop_last()).insert(entries.last().id@, entries.last().order)
    }
}

/// Whether no id occurs twice.
pub open spec fn ids_distinct(entries: Seq<OrderEntry>) -> bool {
    forall|i: int, j: int|
        0 <= i < j < entries.len() ==> (#[trigger] entries[i]).id@ != (#[trigger] entries[j]).id@
}

/// What a list of entries with distinct ids holds under each id.
proof fn lemma_entries_map(entries: Seq<OrderEntry>)
    requires
        ids_distinct(entries),
    ensures
        entries_map(entries).dom().finite(),
        forall|i: int|
            0 <= i < entries.len() ==> entries_map(entries).contains_key(
                (#[trigger] entries[i]).id@,
            ) && entries_map(entries)[entries[i].id@] == entries[i].order,
        forall|id: Seq<u8>|
            #[trigger] entries_map(entries).contains_key(id) ==> exists|i: int|
                0 <= i < entries.len() && (#[trigger] entries[i]).id@ == id,
    decreases entries.len(),
{
    if entries.len() > 0 {
        let front = entries.drop_last();
        assert(ids_distinct(front));
        lemma_entries_map(front);
        assert forall|i: int| 0 <= i < entries.len() implies entries_map(entries).contains_key(
            (#[trigger] entries[i]).id@,
        ) && entries_map(entries)[entries[i].id@] == entries[i].order by {
            if i < front.len() {
                assert(front[i] == entries[i]);
            }
        }
        assert forall|id: Seq<u8>| #[trigger] entries_map(entries).contains_key(id) implies exists|
            i: int,
        | 0 <= i < entries.len() && (#[trigger] entries[i]).id@ == id by {
            if id == entries.last().id@ {
                assert(entries[entries.len() - 1].id@ == id);
            } else {
                assert(entries_map(front).contains_key(id));
                let i = choose|i: int| 0 <= i < front.len() && (#[trigger] front[i]).id@ == id;
                assert(entries[i].id@ == id);
            }
        }
    }
}

impl View for OrderBook {
    type V = Map<Seq<u8>, Order>;

    closed spec fn view(&self) -> Map<Seq<u8>, Order> {
        entries_map(self.entries@)
    }
}

impl OrderBook {
    /// No id is kept twice.
    pub closed spec fn wf(self) -> bool {
        ids_distinct(self.entries@)
    }

    /// A book without orders.
    pub fn new() -> (book: OrderBook)
        ensures
            book.wf(),
            book@ == Map::<Seq<u8>, Order>::empty(),
    {
        OrderBook { entries: Vec::new() }
    }

    /// A well-formed book holds finitely many orders.
    pub proof fn lemma_finite(self)
        requires
            self.wf(),
        ensures
            self@.dom().finite(),
    {
        lemma_entries_map(self.entries@);
    }

    /// Where the order with this id is kept.
    fn position(&self, id: &[u8; 32]) -> (found: Option<usize>)
        requires
            self.wf(),
        ensures
            match found {
                Some(i) => i < self.entries@.len() && self.entries@[i as int].id@ == id@,
                None => !self@.contains_key(id@),
            },
    {
        let mut i: usize = 0;
        while i < self.entries.len()
            invariant
                i <= self.entries@.len(),
                forall|j: int| 0 <= j < i ==> (#[trigger] self.entries@[j]).id@ != id@,
            decreases self.entries@.len() - i,
        {
            if array_eq(&self.entries[i].id, id) {
                return Some(i);
            }
            i += 1;
        }
        proof {
            lemma_entries_map(self.entries@);
        }
        None
    }

    /// The order with this id, if there is one.
    pub fn get(&self, id: &[u8; 32]) -> (found: Option<Order>)
        requires
            self.wf(),
        ensures
            match found {
                Some(order) => self@.contains_key(id@) && self@[id@] == order,
                None => !self@.contains_key(id@),
            },
    {
        proof {
            lemma_entries_map(self.entries@);
        }
        match self.position(id) {
            Some(i) => Some(self.entries[i].order),
            None => None,
        }
    }

    /// Keeps `order` under `id`, in place of the order that was kept there, if any.
    pub fn insert(&mut self, id: [u8; 32], order: Order)
        requires
            old(self).wf(),
        ensures
            final(self).wf(),
            final(self)@ == old(self)@.insert(id@, order),
    {
        let ghost before = self.entries@;
        proof {
            lemma_entries_map(before);
        }
        match self.position(&id) {
            Some(i) => {
                self.entries[i] = OrderEntry { id, order };
                proof {
                    let after = self.entries@;
                    assert(after == before.update(i as int, OrderEntry { id, order }));
                    assert forall|j: int, k: int| 0 <= j < k < after.len() implies (
                    #[trigger] after[j]).id@ != (#[trigger] after[k]).id@ by {
                        assert(before[j].id@ == after[j].id@);
                        assert(before[k].id@ == after[k].id@);
                    }
                    lemma_entries_map(after);
                    assert(after[i as int].id@ == id@);
                    let expected = entries_map(before).insert(id@, order);
                    assert forall|key: Seq<u8>| #[trigger]
                        entries_map(after).contains_key(key) implies expected.contains_key(key)
                        && expected[key] == entries_map(after)[key] by {
                        let j = choose|j: int|
                            0 <= j < after.len() && (#[trigger] after[j]).id@ == key;
                        assert(before[j].id@ == key);
                    }
                    assert forall|key: Seq<u8>| #[trigger]
                        expected.contains_key(key) implies entries_map(after).contains_key(key) by {
                        if key != id@ {
                            assert(entries_map(before).contains_key(key));
                            let j = choose|j: int|
                                0 <= j < before.len() && (#[trigger] before[j]).id@ == key;
                            assert(after[j].id@ == key);
                        }
                    }
                    assert(entries_map(after).dom() =~= expected.dom());
                    assert(entries_map(after) =~= expected);
                }
            },
            None => {
                self.entries.push(OrderEntry { id, order });
                proof {
                    let after = self.entries@;
                    assert(after.drop_last() =~= before);
                    assert forall|j: int, k: int| 0 <= j < k < after.len() implies (
                    #[trigger] after[j]).id@ != (#[trigger] after[k]).id@ by {
                        assert(before[j] == after[j]);
                        if k < before.len() {
                            assert(before[k] == after[k]);
                        }
                    }
                }
            },
        }
    }
}

} // verus!
