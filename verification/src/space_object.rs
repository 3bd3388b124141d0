//! Source-chain escrow of the bridge.
//!
//! A taker locks funds on the source chain with [`SpaceObject::create_order`]. A maker
//! that fills the intent on the destination chain releases the escrow with
//! [`SpaceObject::claim`]. The escrow has an owner, who can pause it and who governs the
//! [`ProtocolConfig`].
//!
//! A [`SpaceObject`] is the escrow's state on the ledger. Its operations decide whether
//! an invocation goes through, change the state, and say which transfers, events and
//! lifetime extensions the invocation amounts to. A refused invocation changes nothing.
use soroban_sdk::Env;
use vstd::prelude::*;

use crate::access::{enforce_owner_auth, owner_gate, Invocation, Revert};
use crate::address::Address;
use crate::encoding::{array_eq, be_bytes, lemma_be_bytes_len, push_be};
use crate::host::{keccak256, keccak256_digest};
use crate::ledger::{instance_ttl, instance_ttl_spec, TtlExtension, DAY_IN_LEDGERS};
use crate::orders::{content_id, order_id, Order, OrderBook, OrderEntry, OrderStatus};

verus! {

/// Upper bound for the protocol fee, in basis points: all of the amount.
pub const MAX_FEE_BPS: u32 = 10_000;

/// How far to extend the lifetime of an order's entry when the order is created.
pub const ORDER_TTL_EXTEND: u32 = 30 * DAY_IN_LEDGERS;

/// The remaining lifetime below which an order's entry is extended.
pub const ORDER_TTL_THRESHOLD: u32 = ORDER_TTL_EXTEND - DAY_IN_LEDGERS;

/// The identifier of the source chain: its registered SLIP-44 coin type.
pub const STELLAR_CHAIN_ID: u64 = 148;

/// Why the escrow refuses a call.
#[derive(Clone, Copy, Debug, PartialEq, Eq, PartialOrd, Ord, Structural)]
pub enum Error {
    /// A configured `fee_bps` exceeded [`MAX_FEE_BPS`].
    InvalidFee,
    /// The caller is not the contract owner.
    Unauthorized,
    /// No order exists for the supplied id.
    OrderNotFound,
    /// The order is not in a state that allows the requested action.
    OrderInactive,
    /// `amount_in` or `amount_out` was not a positive value.
    InvalidAmount,
    /// `deadline` is not in the future.
    InvalidDeadline,
    /// An order with this content id already exists (duplicate or replay).
    OrderExists,
    /// The oracle has no proof of the fill.
    FillNotProven,
    /// The fill names another origin chain.
    OriginChainMismatch,
}

impl Error {
    /// The number by which the error is known on the ledger.
    pub open spec fn number(self) -> u32 {
        match self {
            Error::InvalidFee => 1,
            Error::Unauthorized => 2,
            Error::OrderNotFound => 3,
            Error::OrderInactive => 4,
            Error::InvalidAmount => 5,
            Error::InvalidDeadline => 6,
            Error::OrderExists => 7,
            Error::FillNotProven => 8,
            Error::OriginChainMismatch => 9,
        }
    }

    /// The number by which the error is known on the ledger.
    pub fn code(&self) -> (code: u32)
        ensures
            code == self.number(),
    {
        match self {
            Error::InvalidFee => 1,
            Error::Unauthorized => 2,
            Error::OrderNotFound => 3,
            Error::OrderInactive => 4,
            Error::InvalidAmount => 5,
            Error::InvalidDeadline => 6,
            Error::OrderExists => 7,
            Error::FillNotProven => 8,
            Error::OriginChainMismatch => 9,
        }
    }
}

/// Owner-governed protocol configuration.
#[derive(Clone, Copy, Debug, PartialEq, Eq)]
pub struct ProtocolConfig {
    /// Protocol fee charged on a filled order, in basis points (1 = 0.01%).
    pub fee_bps: u32,
    /// Account that accrues protocol fees.
    pub fee_collector: Address,
    /// Contract that answers whether a fill is proven.
    pub zk_oracle: Address,
}

/// What a maker presents to be repaid for a fill on the destination chain.
#[derive(Clone, Copy, Debug, PartialEq, Eq)]
pub struct FillReceipt {
    /// The order that was filled.
    pub order_id: [u8; 32],
    /// Who filled it, in raw 32-byte form.
    pub solver: [u8; 32],
    /// Who is repaid on the source chain.
    pub repayment_address: Address,
    /// The chain on which the order was opened.
    pub origin_chain: u64,
    /// Destination-chain timestamp of the fill.
    pub filled_at: u64,
}

/// A movement of `amount` of `token` between two addresses.
#[derive(Clone, Copy, Debug, PartialEq, Eq)]
pub struct Transfer {
    pub token: Address,
    pub from: Address,
    pub to: Address,
    pub amount: i128,
}

/// Emitted when a taker opens a new escrowed order.
#[derive(Clone, Copy, Debug, PartialEq, Eq)]
pub struct OrderCreated {
    pub order_id: [u8; 32],
    pub taker: Address,
    pub token_in: Address,
    pub amount_in: i128,
    pub token_out: [u8; 32],
    pub amount_out: i128,
    pub recipient: [u8; 32],
    pub dest_chain: u64,
    pub deadline: u64,
    pub nonce: u64,
}

/// Emitted when an order's escrow is released.
#[derive(Clone, Copy, Debug, PartialEq, Eq)]
pub struct Claimed {
    pub order_id: [u8; 32],
    pub solver: [u8; 32],
    pub repayment_address: Address,
    pub payout: i128,
    pub fee: i128,
}

/// A new escrow, and what deploying it amounts to.
pub struct Deployed {
    pub escrow: SpaceObject,
    pub instance_ttl: TtlExtension,
}

/// What replacing the configuration amounts to.
#[derive(Clone, Copy, Debug, PartialEq, Eq)]
pub struct Reconfigured {
    pub instance_ttl: TtlExtension,
}

/// What creating an order amounts to.
#[derive(Clone, Copy, Debug, PartialEq, Eq)]
pub struct Escrowed {
    /// The content id of the order.
    pub id: [u8; 32],
    /// The funds that move from the taker into the escrow.
    pub deposit: Transfer,
    pub event: OrderCreated,
    pub order_ttl: TtlExtension,
    pub instance_ttl: TtlExtension,
}

/// What claiming an order amounts to.
#[derive(Clone, Copy, Debug, PartialEq, Eq)]
pub struct Released {
    /// The protocol fee that moves from the escrow to the fee collector.
    pub fee: Transfer,
    /// The rest of the escrowed funds, which moves to the repayment address.
    pub payout: Transfer,
    pub event: Claimed,
}

/// The question to which the oracle has to say yes before an escrow is released.
#[derive(Clone, Copy, Debug, PartialEq, Eq)]
pub struct ProofQuery {
    /// The oracle to ask.
    pub oracle: Address,
    /// The chain on which the order was to be filled.
    pub chain_id: u64,
    /// The hash of the fill receipt.
    pub payload_hash: [u8; 32],
}

/// What an oracle answers.
#[derive(Clone, Copy, Debug, PartialEq, Eq)]
pub struct OracleAnswer {
    /// What it was asked.
    pub query: ProofQuery,
    /// Whether the statement is proven.
    pub proven: bool,
}

/// The escrow's state: its owner, whether it is paused, its configuration, and its orders
/// by id.
#[verifier::ext_equal]
pub struct EscrowState {
    pub owner: Option<Address>,
    pub paused: bool,
    pub config: ProtocolConfig,
    pub orders: Map<Seq<u8>, Order>,
}

impl EscrowState {
    /// What holds of every state that the operations below lead to: the fee is at most
    /// all of the amount, and both amounts of every order are positive.
    pub open spec fn valid(self) -> bool {
        &&& self.config.fee_bps <= MAX_FEE_BPS
        &&& forall|id: Seq<u8>| #[trigger]
            self.orders.contains_key(id) ==> self.orders[id].amount_in > 0
                && self.orders[id].amount_out > 0
    }

    /// Whether every order is kept under the id of its terms.
    pub open spec fn content_addressed(self) -> bool {
        forall|id: Seq<u8>| #[trigger]
            self.orders.contains_key(id) ==> id == content_id(self.orders[id])
    }

    /// The state after the configuration was replaced.
    pub open spec fn with_config(self, config: ProtocolConfig) -> EscrowState {
        EscrowState { config, ..self }
    }

    /// The state after the escrow was paused or unpaused.
    pub open spec fn with_paused(self, paused: bool) -> EscrowState {
        EscrowState { paused, ..self }
    }

    /// The state after `order` was opened under `id`.
    pub open spec fn with_order(self, id: Seq<u8>, order: Order) -> EscrowState {
        EscrowState { orders: self.orders.insert(id, order), ..self }
    }

    /// The state after the order kept under `id` was claimed.
    pub open spec fn with_claimed(self, id: Seq<u8>) -> EscrowState {
        self.with_order(id, Order { status: OrderStatus::Claimed, ..self.orders[id] })
    }
}

/// Why the configuration cannot be replaced by `config`, if it cannot.
pub open spec fn config_refusal(
    state: EscrowState,
    call: Invocation,
    config: ProtocolConfig,
) -> Option<Revert<Error>> {
    match owner_gate::<Error>(state.owner, call) {
        Some(revert) => Some(revert),
        None => if config.fee_bps > MAX_FEE_BPS {
            Some(Revert::Contract(Error::InvalidFee))
        } else {
            None
        },
    }
}

/// Why `caller` cannot pause the escrow, if it cannot.
pub open spec fn pause_refusal(state: EscrowState, call: Invocation, caller: Address) -> Option<
    Revert<Error>,
> {
    match caller_gate(state.owner, call, caller) {
        Some(revert) => Some(revert),
        None => if state.paused {
            Some(Revert::EnforcedPause)
        } else {
            None
        },
    }
}

/// Why `caller` cannot unpause the escrow, if it cannot.
pub open spec fn unpause_refusal(state: EscrowState, call: Invocation, caller: Address) -> Option<
    Revert<Error>,
> {
    match caller_gate(state.owner, call, caller) {
        Some(revert) => Some(revert),
        None => if !state.paused {
            Some(Revert::ExpectedPause)
        } else {
            None
        },
    }
}

/// Why `order` cannot be opened under `id`, if it cannot.
pub open spec fn create_refusal(
    state: EscrowState,
    call: Invocation,
    order: Order,
    id: Seq<u8>,
) -> Option<Revert<Error>> {
    if state.paused {
        Some(Revert::EnforcedPause)
    } else if !call.authorizes(order.taker) {
        Some(Revert::NotAuthorized)
    } else if order.amount_in <= 0 || order.amount_out <= 0 {
        Some(Revert::Contract(Error::InvalidAmount))
    } else if order.deadline <= call.timestamp {
        Some(Revert::Contract(Error::InvalidDeadline))
    } else if state.orders.contains_key(id) {
        Some(Revert::Contract(Error::OrderExists))
    } else {
        None
    }
}

/// What opening `order` under `id` amounts to.
pub open spec fn escrowed(call: Invocation, order: Order, id: [u8; 32]) -> Escrowed {
    Escrowed {
        id,
        deposit: Transfer {
            token: order.token_in,
            from: order.taker,
            to: call.contract,
            amount: order.amount_in,
        },
        event: OrderCreated {
            order_id: id,
            taker: order.taker,
            token_in: order.token_in,
            amount_in: order.amount_in,
            token_out: order.token_out,
            amount_out: order.amount_out,
            recipient: order.recipient,
            dest_chain: order.dest_chain,
            deadline: order.deadline,
            nonce: order.nonce,
        },
        order_ttl: TtlExtension { threshold: ORDER_TTL_THRESHOLD, extend_to: ORDER_TTL_EXTEND },
        instance_ttl: instance_ttl_spec(),
    }
}

/// Why the receipt does not entitle its holder to ask for a proof, if it does not.
pub open spec fn receipt_refusal(state: EscrowState, receipt: FillReceipt) -> Option<
    Revert<Error>,
> {
    if state.paused {
        Some(Revert::EnforcedPause)
    } else if !state.orders.contains_key(receipt.order_id@) {
        Some(Revert::Contract(Error::OrderNotFound))
    } else if state.orders[receipt.order_id@].status != OrderStatus::Open {
        Some(Revert::Contract(Error::OrderInactive))
    } else if receipt.origin_chain != STELLAR_CHAIN_ID {
        Some(Revert::Contract(Error::OriginChainMismatch))
    } else {
        None
    }
}

/// Why the escrow is not released, if it is not.
pub open spec fn claim_refusal(state: EscrowState, receipt: FillReceipt, proven: bool) -> Option<
    Revert<Error>,
> {
    match receipt_refusal(state, receipt) {
        Some(revert) => Some(revert),
        None => if proven {
            None
        } else {
            Some(Revert::Contract(Error::FillNotProven))
        },
    }
}

/// Whether the answer says that the fill is proven: the configured oracle was asked about the
/// hash of this receipt on the chain on which the order was to be filled, and said yes.
pub open spec fn proves_fill(
    state: EscrowState,
    receipt: FillReceipt,
    answer: OracleAnswer,
) -> bool {
    &&& answer.proven
    &&& answer.query.oracle == state.config.zk_oracle
    &&& answer.query.chain_id == state.orders[receipt.order_id@].dest_chain
    &&& answer.query.payload_hash@ == keccak256_digest(receipt_preimage(receipt))
}

/// The fee on `amount`, rounded down.
pub open spec fn fee_of(amount: int, fee_bps: u32) -> int {
    amount * fee_bps / 10_000
}

/// What releasing the escrow of the receipt's order amounts to.
pub open spec fn released(state: EscrowState, call: Invocation, receipt: FillReceipt) -> Released {
    let order = state.orders[receipt.order_id@];
    let fee = fee_of(order.amount_in as int, state.config.fee_bps);
    Released {
        fee: Transfer {
            token: order.token_in,
            from: call.contract,
            to: state.config.fee_collector,
            amount: fee as i128,
        },
        payout: Transfer {
            token: order.token_in,
            from: call.contract,
            to: receipt.repayment_address,
            amount: (order.amount_in - fee) as i128,
        },
        event: Claimed {
            order_id: receipt.order_id,
            solver: receipt.solver,
            repayment_address: receipt.repayment_address,
            payout: (order.amount_in - fee) as i128,
            fee: fee as i128,
        },
    }
}

/// The bytes that a receipt's hash commits to, in this order and without separators:
/// `order_id`, `solver`, the XDR of `repayment_address`, `origin_chain` and `filled_at` (8
/// bytes each, big-endian).
pub open spec fn receipt_preimage(r: FillReceipt) -> Seq<u8> {
    r.order_id@ + r.solver@ + (r.repayment_address.xdr() + (be_bytes(r.origin_chain as nat, 8)
        + be_bytes(r.filled_at as nat, 8)))
}

/// The bytes that the hash of `r` commits to.
pub fn receipt_preimage_bytes(e: &Env, r: &FillReceipt) -> (buf: Vec<u8>)
    ensures
        buf@ == receipt_preimage(*r),
        buf@.len() <= 124,
{
    let mut buf: Vec<u8> = Vec::new();
    buf.extend_from_slice(r.order_id.as_slice());
    buf.extend_from_slice(r.solver.as_slice());
    let mut repayment: Vec<u8> = r.repayment_address.to_xdr(e);
    buf.append(&mut repayment);
    push_be(&mut buf, r.origin_chain as u128, 8);
    push_be(&mut buf, r.filled_at as u128, 8);
    proof {
        lemma_be_bytes_len(r.origin_chain as nat, 8);
        lemma_be_bytes_len(r.filled_at as nat, 8);
        assert(buf@ =~= receipt_preimage(*r));
    }
    buf
}

/// The payload hash under which a fill is proven: the Keccak-256 digest of a fixed-layout
/// preimage of the receipt (see [`receipt_preimage`]).
pub fn fill_receipt_hash(e: &Env, r: &FillReceipt) -> (hash: [u8; 32])
    ensures
        hash@ == keccak256_digest(receipt_preimage(*r)),
{
    let buf: Vec<u8> = receipt_preimage_bytes(e, r);
    keccak256(e, &buf)
}

/// The protocol fee on `amount`: `fee_bps` ten-thousandths of it, rounded down.
pub fn protocol_fee(amount: i128, fee_bps: u32) -> (fee: i128)
    requires
        amount >= 0,
        fee_bps <= MAX_FEE_BPS,
    ensures
        fee == fee_of(amount as int, fee_bps),
        fee * 10_000 <= amount * fee_bps < (fee + 1) * 10_000,
        0 <= fee <= amount,
{
    let whole: i128 = amount / 10_000;
    let part: i128 = amount % 10_000;
    let bps: i128 = fee_bps as i128;
    proof {
        let (w, p, b) = (whole as int, part as int, bps as int);
        assert(amount == 10_000 * w + p);
        assert(0 <= w * b <= w * 10_000) by (nonlinear_arith)
            requires
                0 <= w,
                0 <= b <= 10_000,
        ;
        assert(0 <= p * b <= p * 10_000) by (nonlinear_arith)
            requires
                0 <= p,
                0 <= b <= 10_000,
        ;
        assert((10_000 * w + p) * b == 10_000 * (w * b) + p * b) by (nonlinear_arith);
        assert((10_000 * (w * b) + p * b) / 10_000 == w * b + p * b / 10_000);
    }
    whole * bps + part * bps / 10_000
}

/// The escrow's state on the ledger, or as much of it as one invocation touches.
pub struct SpaceObject {
    owner: Option<Address>,
    paused: bool,
    config: ProtocolConfig,
    orders: OrderBook,
}

impl View for SpaceObject {
    type V = EscrowState;

    closed spec fn view(&self) -> EscrowState {
        EscrowState {
            owner: self.owner,
            paused: self.paused,
            config: self.config,
            orders: self.orders@,
        }
    }
}

impl SpaceObject {
    /// No order id is kept twice, and the state is valid.
    pub closed spec fn wf(self) -> bool {
        &&& self.orders.wf()
        &&& self@.valid()
    }

    /// A well-formed escrow is in a valid state, with finitely many orders.
    pub proof fn lemma_wf(self)
        requires
            self.wf(),
        ensures
            self@.valid(),
            self@.orders.dom().finite(),
    {
        self.orders.lemma_finite();
    }

    /// Initializes the escrow with its `owner` and starting protocol `config`. The
    /// configuration is written to the instance entry, whose lifetime is extended with it.
    pub fn __constructor(owner: Address, config: ProtocolConfig) -> (result: Result<
        Deployed,
        Error,
    >)
        ensures
            config.fee_bps > MAX_FEE_BPS ==> result matches Err(Error::InvalidFee),
            config.fee_bps <= MAX_FEE_BPS ==> result is Ok,
            match result {
                Ok(done) => {
                    &&& done.escrow.wf()
                    &&& done.escrow@ == (EscrowState {
                        owner: Some(owner),
                        paused: false,
                        config,
                        orders: Map::empty(),
                    })
                    &&& done.instance_ttl == instance_ttl_spec()
                },
                Err(_) => true,
            },
    {
        if config.fee_bps > MAX_FEE_BPS {
            return Err(Error::InvalidFee);
        }
        let orders: OrderBook = OrderBook::new();
        let escrow: SpaceObject = SpaceObject { owner: Some(owner), paused: false, config, orders };
        Ok(Deployed { escrow, instance_ttl: instance_ttl() })
    }

    /// The escrow with what one invocation reads from the ledger: the instance data, and
    /// the order that it touches, if that exists. Data that no escrow has written is
    /// rejected.
    pub fn from_ledger(
        owner: Option<Address>,
        paused: bool,
        config: ProtocolConfig,
        entry: Option<OrderEntry>,
    ) -> (loaded: Option<SpaceObject>)
        ensures
            loaded is Some <==> config.fee_bps <= MAX_FEE_BPS && (entry matches Some(kept)
                ==> kept.order.amount_in > 0 && kept.order.amount_out > 0),
            loaded matches Some(escrow) ==> escrow.wf() && escrow@ == (EscrowState {
                owner,
                paused,
                config,
                orders: match entry {
                    Some(kept) => Map::empty().insert(kept.id@, kept.order),
                    None => Map::empty(),
                },
            }),
    {
        if config.fee_bps > MAX_FEE_BPS {
            return None;
        }
        let mut orders: OrderBook = OrderBook::new();
        if let Some(kept) = entry {
            if kept.order.amount_in <= 0 || kept.order.amount_out <= 0 {
                return None;
            }
            orders.insert(kept.id, kept.order);
        }
        Some(SpaceObject { owner, paused, config, orders })
    }

    /// The contract's owner, or none if ownership was renounced.
    pub fn get_owner(&self) -> (owner: Option<Address>)
        ensures
            owner == self@.owner,
    {
        self.owner
    }

    /// Returns the current protocol configuration.
    pub fn get_config(&self) -> (config: ProtocolConfig)
        ensures
            config == self@.config,
    {
        self.config
    }

    /// The order kept under `id`, if there is one.
    pub fn get_order(&self, id: &[u8; 32]) -> (found: Option<Order>)
        requires
            self.wf(),
        ensures
            match found {
                Some(order) => self@.orders.contains_key(id@) && self@.orders[id@] == order,
                None => !self@.orders.contains_key(id@),
            },
    {
        self.orders.get(id)
    }

    /// Replaces the protocol configuration. Owner-only. The configuration is written to the
    /// instance entry, whose lifetime is extended with it.
    pub fn set_config(&mut self, call: &Invocation, config: ProtocolConfig) -> (result: Result<
        Reconfigured,
        Revert<Error>,
    >)
        requires
            old(self).wf(),
        ensures
            final(self).wf(),
            match config_refusal(old(self)@, *call, config) {
                Some(revert) => {
                    &&& result == Err::<Reconfigured, Revert<Error>>(revert)
                    &&& final(self)@ == old(self)@
                },
                None => {
                    &&& result == Ok::<Reconfigured, Revert<Error>>(
                        (Reconfigured { instance_ttl: instance_ttl_spec() }),
                    )
                    &&& final(self)@ == old(self)@.with_config(config)
                },
            },
    {
        match enforce_owner_auth::<Error>(&self.owner, call) {
            Ok(()) => {},
            Err(revert) => {
                return Err(revert);
            },
        }
        if config.fee_bps > MAX_FEE_BPS {
            return Err(Revert::Contract(Error::InvalidFee));
        }
        self.config = config;
        Ok(Reconfigured { instance_ttl: instance_ttl() })
    }

    /// Escrows a taker's source-chain funds and opens a new cross-chain order.
    ///
    /// The order is kept as [`OrderStatus::Open`] under its content id (see
    /// [`order_id`]), which is returned with the transfer of `amount_in` of `token_in`
    /// from `taker` into the contract and the event to emit. Requires the taker's
    /// authorization. `nonce` makes otherwise identical orders unique; reusing one for the
    /// same terms is rejected.
    pub fn create_order(
        &mut self,
        e: &Env,
        call: &Invocation,
        taker: Address,
        token_in: Address,
        amount_in: i128,
        token_out: [u8; 32],
        amount_out: i128,
        recipient: [u8; 32],
        dest_chain: u64,
        deadline: u64,
        nonce: u64,
    ) -> (result: Result<Escrowed, Revert<Error>>)
        requires
            old(self).wf(),
        ensures
            final(self).wf(),
            ({
                let order = Order {
                    taker,
                    token_in,
                    amount_in,
                    token_out,
                    amount_out,
                    recipient,
                    dest_chain,
                    deadline,
                    nonce,
                    status: OrderStatus::Open,
                };
                match create_refusal(old(self)@, *call, order, content_id(order)) {
                    Some(revert) => {
                        &&& result == Err::<Escrowed, Revert<Error>>(revert)
                        &&& final(self)@ == old(self)@
                    },
                    None => {
                        &&& result matches Ok(done) && done.id@ == content_id(order) && done
                            == escrowed(*call, order, done.id)
                        &&& final(self)@ == old(self)@.with_order(content_id(order), order)
                    },
                }
            }),
            old(self)@.content_addressed() ==> final(self)@.content_addressed(),
    {
        let order: Order = Order {
            taker,
            token_in,
            amount_in,
            token_out,
            amount_out,
            recipient,
            dest_chain,
            deadline,
            nonce,
            status: OrderStatus::Open,
        };
        let id: [u8; 32] = order_id(e, &order);
        self.open_order(call, order, id)
    }

    /// Opens `order` under `id`, which is the content id of its terms. A new order is open.
    pub fn open_order(&mut self, call: &Invocation, order: Order, id: [u8; 32]) -> (result: Result<
        Escrowed,
        Revert<Error>,
    >)
        requires
            old(self).wf(),
            order.status == OrderStatus::Open,
        ensures
            final(self).wf(),
            match create_refusal(old(self)@, *call, order, id@) {
                Some(revert) => {
                    &&& result == Err::<Escrowed, Revert<Error>>(revert)
                    &&& final(self)@ == old(self)@
                },
                None => {
                    &&& result == Ok::<Escrowed, Revert<Error>>(escrowed(*call, order, id))
                    &&& final(self)@ == old(self)@.with_order(id@, order)
                },
            },
    {
        if self.paused {
            return Err(Revert::EnforcedPause);
        }
        if !call.is_authorized_by(&order.taker) {
            return Err(Revert::NotAuthorized);
        }
        if order.amount_in <= 0 || order.amount_out <= 0 {
            return Err(Revert::Contract(Error::InvalidAmount));
        }
        if order.deadline <= call.timestamp {
            return Err(Revert::Contract(Error::InvalidDeadline));
        }
        if self.orders.get(&id).is_some() {
            return Err(Revert::Contract(Error::OrderExists));
        }
        self.orders.insert(id, order);
        Ok(
            Escrowed {
                id,
                deposit: Transfer {
                    token: order.token_in,
                    from: order.taker,
                    to: call.contract,
                    amount: order.amount_in,
                },
                event: OrderCreated {
                    order_id: id,
                    taker: order.taker,
                    token_in: order.token_in,
                    amount_in: order.amount_in,
                    token_out: order.token_out,
                    amount_out: order.amount_out,
                    recipient: order.recipient,
                    dest_chain: order.dest_chain,
                    deadline: order.deadline,
                    nonce: order.nonce,
                },
                order_ttl: TtlExtension {
                    threshold: ORDER_TTL_THRESHOLD,
                    extend_to: ORDER_TTL_EXTEND,
                },
                instance_ttl: instance_ttl(),
            },
        )
    }

    /// The open order that the receipt is for, where the receipt entitles its holder to ask
    /// for a proof.
    pub fn claimable(&self, receipt: &FillReceipt) -> (result: Result<Order, Revert<Error>>)
        requires
            self.wf(),
        ensures
            match receipt_refusal(self@, *receipt) {
                Some(revert) => result == Err::<Order, Revert<Error>>(revert),
                None => result == Ok::<Order, Revert<Error>>(self@.orders[receipt.order_id@]),
            },
    {
        if self.paused {
            return Err(Revert::EnforcedPause);
        }
        match self.orders.get(&receipt.order_id) {
            None => Err(Revert::Contract(Error::OrderNotFound)),
            Some(order) => {
                if order.status != OrderStatus::Open {
                    return Err(Revert::Contract(Error::OrderInactive));
                }
                if receipt.origin_chain != STELLAR_CHAIN_ID {
                    return Err(Revert::Contract(Error::OriginChainMismatch));
                }
                Ok(order)
            },
        }
    }

    /// What to ask the oracle before the escrow of the receipt's order can be claimed:
    /// whether the receipt's hash is proven for the chain on which the order was to be
    /// filled.
    pub fn proof_query(&self, e: &Env, receipt: &FillReceipt) -> (result: Result<
        ProofQuery,
        Revert<Error>,
    >)
        requires
            self.wf(),
        ensures
            match receipt_refusal(self@, *receipt) {
                Some(revert) => result == Err::<ProofQuery, Revert<Error>>(revert),
                None => {
                    &&& result matches Ok(query)
                    &&& query.oracle == self@.config.zk_oracle
                    &&& query.chain_id == self@.orders[receipt.order_id@].dest_chain
                    &&& query.payload_hash@ == keccak256_digest(receipt_preimage(*receipt))
                },
            },
    {
        match self.claimable(receipt) {
            Err(revert) => Err(revert),
            Ok(order) => Ok(
                ProofQuery {
                    oracle: self.config.zk_oracle,
                    chain_id: order.dest_chain,
                    payload_hash: fill_receipt_hash(e, receipt),
                },
            ),
        }
    }

    /// Releases an order's escrow to the receipt's repayment address, after the protocol
    /// fee, and marks the order [`OrderStatus::Claimed`].
    ///
    /// `answer` is the oracle's answer to [`SpaceObject::proof_query`] for this receipt. An
    /// answer to anything else proves nothing here.
    pub fn claim(
        &mut self,
        e: &Env,
        call: &Invocation,
        receipt: &FillReceipt,
        answer: &OracleAnswer,
    ) -> (result: Result<Released, Revert<Error>>)
        requires
            old(self).wf(),
        ensures
            final(self).wf(),
            match claim_refusal(
                old(self)@,
                *receipt,
                proves_fill(old(self)@, *receipt, *answer),
            ) {
                Some(revert) => {
                    &&& result == Err::<Released, Revert<Error>>(revert)
                    &&& final(self)@ == old(self)@
                },
                None => {
                    &&& result == Ok::<Released, Revert<Error>>(
                        released(old(self)@, *call, *receipt),
                    )
                    &&& final(self)@ == old(self)@.with_claimed(receipt.order_id@)
                },
            },
            old(self)@.content_addressed() ==> final(self)@.content_addressed(),
    {
        let asked: ProofQuery = match self.proof_query(e, receipt) {
            Err(revert) => {
                return Err(revert);
            },
            Ok(query) => query,
        };
        let proven: bool = answer.proven && answer.query.oracle == asked.oracle
            && answer.query.chain_id == asked.chain_id && array_eq(
            &answer.query.payload_hash,
            &asked.payload_hash,
        );
        self.release(call, receipt, proven)
    }

    /// Releases an order's escrow, given whether the fill is proven.
    pub fn release(&mut self, call: &Invocation, receipt: &FillReceipt, proven: bool) -> (result:
        Result<Released, Revert<Error>>)
        requires
            old(self).wf(),
        ensures
            final(self).wf(),
            match claim_refusal(old(self)@, *receipt, proven) {
                Some(revert) => {
                    &&& result == Err::<Released, Revert<Error>>(revert)
                    &&& final(self)@ == old(self)@
                },
                None => {
                    &&& result == Ok::<Released, Revert<Error>>(
                        released(old(self)@, *call, *receipt),
                    )
                    &&& final(self)@ == old(self)@.with_claimed(receipt.order_id@)
                },
            },
            old(self)@.content_addressed() ==> final(self)@.content_addressed(),
    {
        let order: Order = match self.claimable(receipt) {
            Err(revert) => {
                return Err(revert);
            },
            Ok(order) => order,
        };
        if !proven {
            return Err(Revert::Contract(Error::FillNotProven));
        }
        let fee: i128 = protocol_fee(order.amount_in, self.config.fee_bps);
        let payout: i128 = order.amount_in - fee;
        let claimed: Order = Order { status: OrderStatus::Claimed, ..order };
        self.orders.insert(receipt.order_id, claimed);
        proof {
            crate::orders::lemma_id_ignores_status(order, OrderStatus::Claimed);
        }
        Ok(
            Released {
                fee: Transfer {
                    token: order.token_in,
                    from: call.contract,
                    to: self.config.fee_collector,
                    amount: fee,
                },
                payout: Transfer {
                    token: order.token_in,
                    from: call.contract,
                    to: receipt.repayment_address,
                    amount: payout,
                },
                event: Claimed {
                    order_id: receipt.order_id,
                    solver: receipt.solver,
                    repayment_address: receipt.repayment_address,
                    payout,
                    fee,
                },
            },
        )
    }

    /// Whether the escrow is paused.
    pub fn paused(&self) -> (paused: bool)
        ensures
            paused == self@.paused,
    {
        self.paused
    }

    /// Stops the escrow. Only for the owner, and only while it runs.
    pub fn pause(&mut self, call: &Invocation, caller: &Address) -> (result: Result<
        (),
        Revert<Error>,
    >)
        requires
            old(self).wf(),
        ensures
            final(self).wf(),
            match pause_refusal(old(self)@, *call, *caller) {
                Some(revert) => {
                    &&& result == Err::<(), Revert<Error>>(revert)
                    &&& final(self)@ == old(self)@
                },
                None => {
                    &&& result is Ok
                    &&& final(self)@ == old(self)@.with_paused(true)
                },
            },
    {
        match require_owner(&self.owner, call, caller) {
            Ok(()) => {},
            Err(revert) => {
                return Err(revert);
            },
        }
        if self.paused {
            return Err(Revert::EnforcedPause);
        }
        self.paused = true;
        Ok(())
    }

    /// Lets the escrow run again. Only for the owner, and only while it is paused.
    pub fn unpause(&mut self, call: &Invocation, caller: &Address) -> (result: Result<
        (),
        Revert<Error>,
    >)
        requires
            old(self).wf(),
        ensures
            final(self).wf(),
            match unpause_refusal(old(self)@, *call, *caller) {
                Some(revert) => {
                    &&& result == Err::<(), Revert<Error>>(revert)
                    &&& final(self)@ == old(self)@
                },
                None => {
                    &&& result is Ok
                    &&& final(self)@ == old(self)@.with_paused(false)
                },
            },
    {
        match require_owner(&self.owner, call, caller) {
            Ok(()) => {},
            Err(revert) => {
                return Err(revert);
            },
        }
        if !self.paused {
            return Err(Revert::ExpectedPause);
        }
        self.paused = false;
        Ok(())
    }
}

/// Why `caller` cannot act as the owner, if it cannot.
pub open spec fn caller_gate(owner: Option<Address>, call: Invocation, caller: Address) -> Option<
    Revert<Error>,
> {
    if !call.authorizes(caller) {
        Some(Revert::NotAuthorized)
    } else {
        match owner {
            None => Some(Revert::OwnerNotSet),
            Some(address) => if address != caller {
                Some(Revert::Contract(Error::Unauthorized))
            } else {
                None
            },
        }
    }
}

/// Authenticates `caller` and makes sure that it is the contract owner.
pub fn require_owner(owner: &Option<Address>, call: &Invocation, caller: &Address) -> (result:
    Result<(), Revert<Error>>)
    ensures
        match caller_gate(*owner, *call, *caller) {
            Some(revert) => result == Err::<(), Revert<Error>>(revert),
            None => result is Ok,
        },
{
    if !call.is_authorized_by(caller) {
        return Err(Revert::NotAuthorized);
    }
    match owner {
        None => Err(Revert::OwnerNotSet),
        Some(address) => if *address != *caller {
            Err(Revert::Contract(Error::Unauthorized))
        } else {
            Ok(())
        },
    }
}

} // verus!
