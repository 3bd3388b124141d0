//! What holds of the escrow across calls.
use vstd::prelude::*;

use crate::access::{owner_gate, Invocation, Revert};
use crate::address::{lemma_xdr_prefix_free, Address};
use crate::encoding::{
    be_bytes, lemma_array_ext, lemma_be_bytes_injective, lemma_be_bytes_len,
    lemma_byte_range_values,
};
use crate::host::keccak256_digest;
use crate::oracle_laws::{inputs_for, law_statements_and_inputs_correspond};
use crate::orders::{content_id, lemma_id_ignores_status, Order, OrderStatus};
use crate::space_object::{
    caller_gate, claim_refusal, config_refusal, create_refusal, escrowed, fee_of, pause_refusal,
    proves_fill, receipt_preimage, receipt_refusal, released, unpause_refusal, Error, EscrowState,
    FillReceipt, OracleAnswer, ProtocolConfig, Transfer, MAX_FEE_BPS, STELLAR_CHAIN_ID,
};
use crate::zk_oracle::{receive_refusal, statement_of, OracleState};

verus! {

/// What an order holds in escrow of `token`.
pub open spec fn open_amount(order: Order, token: Address) -> int {
    if order.status == OrderStatus::Open && order.token_in == token {
        order.amount_in as int
    } else {
        0
    }
}

/// What all open orders together hold in escrow of `token`.
pub open spec fn locked(orders: Map<Seq<u8>, Order>, token: Address) -> int
    decreases orders.dom().len(),
    when orders.dom().finite()
{
    if orders.dom().len() == 0 {
        0
    } else {
        let id = orders.dom().choose();
        open_amount(orders[id], token) + locked(orders.remove(id), token)
    }
}

/// The sum over the orders is that of one of them and the rest, whichever one is taken.
proof fn lemma_locked_remove(orders: Map<Seq<u8>, Order>, id: Seq<u8>, token: Address)
    requires
        orders.dom().finite(),
        orders.contains_key(id),
    ensures
        locked(orders, token) == open_amount(orders[id], token) + locked(orders.remove(id), token),
    decreases orders.dom().len(),
{
    let first = orders.dom().choose();
    if first != id {
        lemma_locked_remove(orders.remove(first), id, token);
        lemma_locked_remove(orders.remove(id), first, token);
        assert(orders.remove(first).remove(id) =~= orders.remove(id).remove(first));
    }
}

/// Keeping an order under an id changes the sum by that order and the one it replaces.
proof fn lemma_locked_insert(
    orders: Map<Seq<u8>, Order>,
    id: Seq<u8>,
    order: Order,
    token: Address,
)
    requires
        orders.dom().finite(),
    ensures
        locked(orders.insert(id, order), token) == locked(orders, token) + open_amount(order, token)
            - (if orders.contains_key(id) {
            open_amount(orders[id], token)
        } else {
            0
        }),
{
    lemma_locked_remove(orders.insert(id, order), id, token);
    if orders.contains_key(id) {
        lemma_locked_remove(orders, id, token);
        assert(orders.insert(id, order).remove(id) =~= orders.remove(id));
    } else {
        assert(orders.insert(id, order).remove(id) =~= orders);
    }
}

/// What `holder` gains of `token` by a transfer, or loses where it is negative. Who sends to
/// itself gains nothing.
pub open spec fn gain(transfer: Transfer, holder: Address, token: Address) -> int {
    (if transfer.token == token && transfer.to == holder {
        transfer.amount as int
    } else {
        0
    }) - (if transfer.token == token && transfer.from == holder {
        transfer.amount as int
    } else {
        0
    })
}

/// Creating an order moves from the taker into the escrow exactly what is locked from then
/// on: of every token, the locked amount grows by what is deposited of it. Where the taker is
/// not the escrow itself, that is what the escrow gains.
pub proof fn law_deposit_matches_locked(
    state: EscrowState,
    call: Invocation,
    order: Order,
    id: [u8; 32],
    token: Address,
)
    requires
        state.orders.dom().finite(),
        order.status == OrderStatus::Open,
        create_refusal(state, call, order, id@) is None,
    ensures
        ({
            let deposit = escrowed(call, order, id).deposit;
            &&& deposit.token == order.token_in
            &&& deposit.from == order.taker
            &&& deposit.to == call.contract
            &&& deposit.amount == order.amount_in
            &&& deposit.amount > 0
            &&& locked(state.with_order(id@, order).orders, token) == locked(state.orders, token)
                + (if deposit.token == token {
                deposit.amount as int
            } else {
                0
            })
            &&& order.taker != call.contract ==> locked(
                state.with_order(id@, order).orders,
                token,
            ) == locked(state.orders, token) + gain(deposit, call.contract, token)
        }),
{
    lemma_locked_insert(state.orders, id@, order, token);
}

/// The fee on an amount is never negative and never more than the amount, so that what is
/// left to pay out is not negative either; a higher rate never lowers it.
pub proof fn law_fee_bounds(amount: int, fee_bps: u32, higher_bps: u32)
    requires
        amount >= 0,
        fee_bps <= higher_bps <= MAX_FEE_BPS,
    ensures
        0 <= fee_of(amount, fee_bps) <= fee_of(amount, higher_bps) <= amount,
        fee_of(amount, 0) == 0,
        fee_of(amount, MAX_FEE_BPS) == amount,
{
    assert(0 <= amount * fee_bps <= amount * higher_bps <= amount * 10_000) by (nonlinear_arith)
        requires
            0 <= amount,
            0 <= fee_bps <= higher_bps <= 10_000,
    ;
    assert(amount * 0 == 0);
}

/// Claiming an order moves to the fee collector and the repayment address exactly what the
/// order had locked: fee and payout add up to the escrowed amount, neither is negative, and of
/// every token the locked amount shrinks by what is paid of it. Where neither receiver is the
/// escrow itself, that is what the escrow loses.
pub proof fn law_release_matches_locked(
    state: EscrowState,
    call: Invocation,
    receipt: FillReceipt,
    proven: bool,
    token: Address,
)
    requires
        state.valid(),
        state.orders.dom().finite(),
        claim_refusal(state, receipt, proven) is None,
    ensures
        ({
            let done = released(state, call, receipt);
            let order = state.orders[receipt.order_id@];
            &&& done.fee.amount >= 0
            &&& done.payout.amount >= 0
            &&& done.fee.amount + done.payout.amount == order.amount_in
            &&& done.fee.token == order.token_in
            &&& done.payout.token == order.token_in
            &&& done.fee.from == call.contract
            &&& done.payout.from == call.contract
            &&& done.fee.to == state.config.fee_collector
            &&& done.payout.to == receipt.repayment_address
            &&& locked(state.with_claimed(receipt.order_id@).orders, token) == locked(
                state.orders,
                token,
            ) - (if order.token_in == token {
                done.fee.amount + done.payout.amount
            } else {
                0
            })
            &&& state.config.fee_collector != call.contract && receipt.repayment_address
                != call.contract ==> locked(
                state.with_claimed(receipt.order_id@).orders,
                token,
            ) == locked(state.orders, token) + gain(done.fee, call.contract, token) + gain(
                done.payout,
                call.contract,
                token,
            )
        }),
{
    let id = receipt.order_id@;
    let order = state.orders[id];
    law_fee_bounds(order.amount_in as int, state.config.fee_bps, MAX_FEE_BPS);
    lemma_locked_insert(
        state.orders,
        id,
        Order { status: OrderStatus::Claimed, ..order },
        token,
    );
}

/// The open orders never lock a negative amount, and an open order is covered by what is
/// locked of its token.
pub proof fn law_locked_covers_order(state: EscrowState, id: Seq<u8>, token: Address)
    requires
        state.valid(),
        state.orders.dom().finite(),
    ensures
        locked(state.orders, token) >= 0,
        state.orders.contains_key(id) ==> open_amount(state.orders[id], token) <= locked(
            state.orders,
            token,
        ),
    decreases state.orders.dom().len(),
{
    if state.orders.dom().len() > 0 {
        let first = state.orders.dom().choose();
        let rest = EscrowState { orders: state.orders.remove(first), ..state };
        assert forall|other: Seq<u8>| #[trigger]
            rest.orders.contains_key(other) implies rest.orders[other].amount_in > 0 by {
            assert(state.orders.contains_key(other));
        }
        law_locked_covers_order(rest, id, token);
        assert(state.orders.contains_key(first));
    } else if state.orders.contains_key(id) {
        assert(state.orders.dom().contains(id));
    }
}

/// The escrow stays able to pay: where it holds of a token at least what is locked of it, it
/// still does after an order was created by anyone but itself, and after one was claimed, to
/// whomever the fee and the payout go.
pub proof fn law_escrow_stays_covered(
    state: EscrowState,
    call: Invocation,
    order: Order,
    id: [u8; 32],
    receipt: FillReceipt,
    proven: bool,
    token: Address,
    balance: int,
)
    requires
        state.valid(),
        state.orders.dom().finite(),
        balance >= locked(state.orders, token),
    ensures
        order.status == OrderStatus::Open && order.taker != call.contract && create_refusal(
            state,
            call,
            order,
            id@,
        ) is None ==> balance + gain(escrowed(call, order, id).deposit, call.contract, token)
            >= locked(state.with_order(id@, order).orders, token),
        claim_refusal(state, receipt, proven) is None ==> balance + gain(
            released(state, call, receipt).fee,
            call.contract,
            token,
        ) + gain(released(state, call, receipt).payout, call.contract, token) >= locked(
            state.with_claimed(receipt.order_id@).orders,
            token,
        ),
{
    if order.status == OrderStatus::Open && order.taker != call.contract && create_refusal(
        state,
        call,
        order,
        id@,
    ) is None {
        law_deposit_matches_locked(state, call, order, id, token);
    }
    if claim_refusal(state, receipt, proven) is None {
        law_release_matches_locked(state, call, receipt, proven, token);
    }
}

/// Whether `after` keeps every order of `before` with its terms, and lets its status change
/// from open to claimed at most.
pub open spec fn preserves_orders(before: EscrowState, after: EscrowState) -> bool {
    forall|id: Seq<u8>| #[trigger]
        before.orders.contains_key(id) ==> {
            &&& after.orders.contains_key(id)
            &&& after.orders[id].same_terms(before.orders[id])
            &&& after.orders[id].status == before.orders[id].status || (before.orders[id].status
                == OrderStatus::Open && after.orders[id].status == OrderStatus::Claimed)
        }
}

/// No operation drops an order, changes its terms, or moves it anywhere but from open to
/// claimed.
pub proof fn law_orders_are_preserved(
    state: EscrowState,
    call: Invocation,
    order: Order,
    id: Seq<u8>,
    receipt: FillReceipt,
    proven: bool,
    config: ProtocolConfig,
    paused: bool,
)
    ensures
        preserves_orders(state, state.with_config(config)),
        preserves_orders(state, state.with_paused(paused)),
        create_refusal(state, call, order, id) is None ==> preserves_orders(
            state,
            state.with_order(id, order),
        ),
        claim_refusal(state, receipt, proven) is None ==> preserves_orders(
            state,
            state.with_claimed(receipt.order_id@),
        ),
{
}

/// What every single operation preserves, any number of them preserves.
pub proof fn law_preservation_chains(first: EscrowState, second: EscrowState, third: EscrowState)
    requires
        preserves_orders(first, second),
        preserves_orders(second, third),
    ensures
        preserves_orders(first, third),
{
    assert forall|id: Seq<u8>| #[trigger] first.orders.contains_key(id) implies {
        &&& third.orders.contains_key(id)
        &&& third.orders[id].same_terms(first.orders[id])
        &&& third.orders[id].status == first.orders[id].status || (first.orders[id].status
            == OrderStatus::Open && third.orders[id].status == OrderStatus::Claimed)
    } by {
        assert(second.orders.contains_key(id));
        assert(third.orders.contains_key(id));
    }
}

/// An order cannot be opened twice: once it is opened, the same terms are refused for good,
/// as already existing where nothing else speaks against them, also after the order was
/// claimed.
pub proof fn law_duplicates_are_refused(
    state: EscrowState,
    order: Order,
    later: EscrowState,
    again: Invocation,
    status: OrderStatus,
)
    requires
        preserves_orders(state.with_order(content_id(order), order), later),
    ensures
        ({
            let copy = Order { status, ..order };
            let refusal = create_refusal(later, again, copy, content_id(copy));
            &&& refusal is Some
            &&& !later.paused && again.authorizes(order.taker) && order.amount_in > 0
                && order.amount_out > 0 && again.timestamp < order.deadline ==> refusal == Some(
                Revert::Contract(Error::OrderExists),
            )
        }),
{
    lemma_id_ignores_status(order, status);
    assert(state.with_order(content_id(order), order).orders.contains_key(content_id(order)));
}

/// An escrow is released at most once: after a claim, every further claim on that order is
/// refused, as inactive while the escrow is not paused.
pub proof fn law_claimed_once(
    state: EscrowState,
    receipt: FillReceipt,
    proven: bool,
    later: EscrowState,
    again: FillReceipt,
    proven_again: bool,
)
    requires
        claim_refusal(state, receipt, proven) is None,
        preserves_orders(state.with_claimed(receipt.order_id@), later),
        again.order_id@ == receipt.order_id@,
    ensures
        claim_refusal(later, again, proven_again) is Some,
        !later.paused ==> claim_refusal(later, again, proven_again) == Some(
            Revert::Contract(Error::OrderInactive),
        ),
{
    assert(state.with_claimed(receipt.order_id@).orders.contains_key(receipt.order_id@));
}

/// An order that was just opened can be claimed with a proof for a receipt that names it and
/// the source chain, and with nothing less.
pub proof fn law_open_order_is_claimable(
    state: EscrowState,
    call: Invocation,
    order: Order,
    receipt: FillReceipt,
    proven: bool,
)
    requires
        order.status == OrderStatus::Open,
        create_refusal(state, call, order, receipt.order_id@) is None,
    ensures
        ({
            let opened = state.with_order(receipt.order_id@, order);
            claim_refusal(opened, receipt, proven) is None <==> (proven && receipt.origin_chain
                == STELLAR_CHAIN_ID)
        }),
{
}

/// While the escrow is paused no order is opened and none is claimed.
pub proof fn law_pause_stops_orders(
    state: EscrowState,
    call: Invocation,
    order: Order,
    id: Seq<u8>,
    receipt: FillReceipt,
    proven: bool,
)
    requires
        state.paused,
    ensures
        create_refusal(state, call, order, id) == Some(Revert::<Error>::EnforcedPause),
        receipt_refusal(state, receipt) == Some(Revert::<Error>::EnforcedPause),
        claim_refusal(state, receipt, proven) == Some(Revert::<Error>::EnforcedPause),
{
}

/// Unpausing undoes pausing: who could pause the escrow can unpause it, and it is then as it
/// was.
pub proof fn law_unpause_undoes_pause(state: EscrowState, call: Invocation, caller: Address)
    requires
        pause_refusal(state, call, caller) is None,
    ensures
        unpause_refusal(state.with_paused(true), call, caller) is None,
        state.with_paused(true).with_paused(false) == state,
{
}

/// Only the owner acts as the owner: a call that the owner has not authorized passes neither
/// gate, nobody else can pause, and once ownership is renounced nobody passes.
pub proof fn law_owner_only(owner: Option<Address>, call: Invocation, caller: Address)
    ensures
        caller_gate(owner, call, caller) is None ==> owner == Some(caller) && call.authorizes(
            caller,
        ),
        owner_gate::<Error>(owner, call) is None ==> (owner matches Some(address)
            && call.authorizes(address)),
        owner is None ==> caller_gate(owner, call, caller) is Some,
        owner is None ==> owner_gate::<Error>(owner, call) is Some,
{
}

/// The escrow is released only for a fill that the configured oracle has proven: with an
/// honest answer, the statement of the order's destination chain and the hash of the receipt
/// is on the oracle's record.
pub proof fn law_release_needs_proof(
    state: EscrowState,
    receipt: FillReceipt,
    answer: OracleAnswer,
    oracle: OracleState,
)
    requires
        answer.proven == oracle.proven.contains(
            (answer.query.chain_id, answer.query.payload_hash@),
        ),
        claim_refusal(state, receipt, proves_fill(state, receipt, answer)) is None,
    ensures
        answer.query.oracle == state.config.zk_oracle,
        oracle.proven.contains(
            (
                state.orders[receipt.order_id@].dest_chain,
                keccak256_digest(receipt_preimage(receipt)),
            ),
        ),
{
}

/// A proven fill is paid for: where the receipt names an open order and the source chain, and
/// the configured oracle has taken a proof for the statement of the order's destination chain
/// and the hash of the receipt, the escrow is released on the oracle's honest answer.
pub proof fn law_proven_fill_is_released(
    state: EscrowState,
    receipt: FillReceipt,
    answer: OracleAnswer,
    oracle: OracleState,
    proof: Seq<u8>,
)
    requires
        receipt_refusal(state, receipt) is None,
        answer.query.oracle == state.config.zk_oracle,
        answer.query.chain_id == state.orders[receipt.order_id@].dest_chain,
        answer.query.payload_hash@ == keccak256_digest(receipt_preimage(receipt)),
        receive_refusal(
            oracle,
            inputs_for(answer.query.chain_id, answer.query.payload_hash@),
            proof,
        ) is None,
        answer.proven == oracle.with_proven(
            statement_of(
                inputs_for(answer.query.chain_id, answer.query.payload_hash@),
            ).unwrap(),
        ).proven.contains((answer.query.chain_id, answer.query.payload_hash@)),
    ensures
        claim_refusal(state, receipt, proves_fill(state, receipt, answer)) is None,
{
    let (chain_id, hash) = (answer.query.chain_id, answer.query.payload_hash@);
    law_statements_and_inputs_correspond(chain_id, hash, inputs_for(chain_id, hash));
}

/// The state with no order in it but the one kept under `id`, if there is one.
pub open spec fn only_order(state: EscrowState, id: Seq<u8>) -> EscrowState {
    EscrowState {
        orders: if state.orders.contains_key(id) {
            Map::empty().insert(id, state.orders[id])
        } else {
            Map::empty()
        },
        ..state
    }
}

/// The order at hand decides: with the other orders left out, opening and claiming it are
/// refused for the same reasons, amount to the same, and leave the same order under its id.
pub proof fn law_one_order_decides(
    state: EscrowState,
    call: Invocation,
    order: Order,
    receipt: FillReceipt,
    proven: bool,
)
    ensures
        ({
            let id = receipt.order_id@;
            let part = only_order(state, id);
            &&& create_refusal(part, call, order, id) == create_refusal(state, call, order, id)
            &&& claim_refusal(part, receipt, proven) == claim_refusal(state, receipt, proven)
            &&& claim_refusal(state, receipt, proven) is None ==> {
                &&& released(part, call, receipt) == released(state, call, receipt)
                &&& state.with_claimed(id) == state.with_order(
                    id,
                    part.with_claimed(id).orders[id],
                )
            }
        }),
{
}

/// Receipts with the same preimage are the same: the proven hash commits to the order, the
/// solver, the repayment address, the origin chain and the time of the fill.
pub proof fn law_receipt_preimage_injective(a: FillReceipt, b: FillReceipt)
    requires
        receipt_preimage(a) == receipt_preimage(b),
    ensures
        a == b,
{
    lemma_be_bytes_len(a.origin_chain as nat, 8);
    lemma_be_bytes_len(b.origin_chain as nat, 8);
    lemma_be_bytes_len(a.filled_at as nat, 8);
    lemma_be_bytes_len(b.filled_at as nat, 8);
    let (pa, pb) = (receipt_preimage(a), receipt_preimage(b));
    let tail_a = be_bytes(a.origin_chain as nat, 8) + be_bytes(a.filled_at as nat, 8);
    let tail_b = be_bytes(b.origin_chain as nat, 8) + be_bytes(b.filled_at as nat, 8);
    assert(a.order_id@ =~= pa.subrange(0, 32));
    assert(b.order_id@ =~= pb.subrange(0, 32));
    assert(a.solver@ =~= pa.subrange(32, 64));
    assert(b.solver@ =~= pb.subrange(32, 64));
    assert(a.repayment_address.xdr() + tail_a =~= pa.subrange(64, pa.len() as int));
    assert(b.repayment_address.xdr() + tail_b =~= pb.subrange(64, pb.len() as int));
    lemma_xdr_prefix_free(a.repayment_address, b.repayment_address, tail_a, tail_b);
    assert(be_bytes(a.origin_chain as nat, 8) =~= tail_a.subrange(0, 8));
    assert(be_bytes(b.origin_chain as nat, 8) =~= tail_b.subrange(0, 8));
    assert(be_bytes(a.filled_at as nat, 8) =~= tail_a.subrange(8, 16));
    assert(be_bytes(b.filled_at as nat, 8) =~= tail_b.subrange(8, 16));
    lemma_byte_range_values();
    lemma_be_bytes_injective(a.origin_chain as nat, b.origin_chain as nat, 8);
    lemma_be_bytes_injective(a.filled_at as nat, b.filled_at as nat, 8);
    lemma_array_ext(a.order_id, b.order_id);
    lemma_array_ext(a.solver, b.solver);
}

/// A call of the escrow, or a change of its owner by the host.
pub enum EscrowStep {
    SetConfig { call: Invocation, config: ProtocolConfig },
    Create { call: Invocation, order: Order },
    Claim { receipt: FillReceipt, answer: OracleAnswer },
    Pause { call: Invocation, caller: Address },
    Unpause { call: Invocation, caller: Address },
    Owner { owner: Option<Address> },
}

/// The state after one step. A refused call leaves the state as it is.
pub open spec fn after_step(state: EscrowState, step: EscrowStep) -> EscrowState {
    match step {
        EscrowStep::SetConfig { call, config } => if config_refusal(state, call, config) is None {
            state.with_config(config)
        } else {
            state
        },
        EscrowStep::Create { call, order } => {
            let opened = Order { status: OrderStatus::Open, ..order };
            if create_refusal(state, call, opened, content_id(opened)) is None {
                state.with_order(content_id(opened), opened)
            } else {
                state
            }
        },
        EscrowStep::Claim { receipt, answer } => if claim_refusal(
            state,
            receipt,
            proves_fill(state, receipt, answer),
        ) is None {
            state.with_claimed(receipt.order_id@)
        } else {
            state
        },
        EscrowStep::Pause { call, caller } => if pause_refusal(state, call, caller) is None {
            state.with_paused(true)
        } else {
            state
        },
        EscrowStep::Unpause { call, caller } => if unpause_refusal(state, call, caller) is None {
            state.with_paused(false)
        } else {
            state
        },
        EscrowStep::Owner { owner } => EscrowState { owner, ..state },
    }
}

/// The state after a list of steps.
pub open spec fn after_steps(state: EscrowState, steps: Seq<EscrowStep>) -> EscrowState
    decreases steps.len(),
{
    if steps.len() == 0 {
        state
    } else {
        after_step(after_steps(state, steps.drop_last()), steps.last())
    }
}

/// Whatever calls are made, in whatever order: the state stays valid, every order stays under
/// the id of its terms, and no order is dropped, changes its terms or moves anywhere but from
/// open to claimed.
pub proof fn law_steps_keep_orders(state: EscrowState, steps: Seq<EscrowStep>)
    requires
        state.valid(),
        state.content_addressed(),
    ensures
        after_steps(state, steps).valid(),
        after_steps(state, steps).content_addressed(),
        preserves_orders(state, after_steps(state, steps)),
    decreases steps.len(),
{
    if steps.len() > 0 {
        let before = after_steps(state, steps.drop_last());
        law_steps_keep_orders(state, steps.drop_last());
        if let EscrowStep::Claim { receipt, .. } = steps.last() {
            if before.orders.contains_key(receipt.order_id@) {
                lemma_id_ignores_status(before.orders[receipt.order_id@], OrderStatus::Claimed);
            }
        }
        assert(preserves_orders(before, after_steps(state, steps)));
        law_preservation_chains(state, before, after_steps(state, steps));
    }
}

/// Whether the step at `i` replaces the configuration.
pub open spec fn sets_config(state: EscrowState, steps: Seq<EscrowStep>, i: int) -> bool {
    steps[i] matches EscrowStep::SetConfig { call, config } && config_refusal(
        after_steps(state, steps.take(i)),
        call,
        config,
    ) is None
}

/// The configuration is the one that was set last, and the first one where none was set since.
pub proof fn law_config_is_last_set(state: EscrowState, steps: Seq<EscrowStep>)
    ensures
        ({
            let config = after_steps(state, steps).config;
            ||| config == state.config && forall|j: int|
                0 <= j < steps.len() ==> !#[trigger] sets_config(state, steps, j)
            ||| exists|i: int|
                0 <= i < steps.len() && #[trigger] sets_config(state, steps, i)
                    && steps[i]->SetConfig_config == config && forall|j: int|
                    i < j < steps.len() ==> !#[trigger] sets_config(state, steps, j)
        }),
    decreases steps.len(),
{
    if steps.len() > 0 {
        let front = steps.drop_last();
        let last = steps.len() - 1;
        law_config_is_last_set(state, front);
        assert(steps.take(last) =~= front);
        assert forall|j: int| 0 <= j < last implies sets_config(state, front, j) == sets_config(
            state,
            steps,
            j,
        ) by {
            assert(front.take(j) =~= steps.take(j));
        }
        if !sets_config(state, steps, last) {
            assert(after_steps(state, steps).config == after_steps(state, front).config);
            if exists|i: int|
                0 <= i < front.len() && #[trigger] sets_config(state, front, i)
                    && front[i]->SetConfig_config == after_steps(state, front).config && forall|
                    j: int,
                |
                    i < j < front.len() ==> !#[trigger] sets_config(state, front, j) {
                let i = choose|i: int|
                    0 <= i < front.len() && #[trigger] sets_config(state, front, i)
                        && front[i]->SetConfig_config == after_steps(state, front).config && forall|
                        j: int,
                    |
                        i < j < front.len() ==> !#[trigger] sets_config(state, front, j);
                assert(sets_config(state, steps, i));
            }
        }
    }
}

} // verus!
