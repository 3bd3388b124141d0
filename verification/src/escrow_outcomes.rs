//! When each operation of the escrow succeeds, which refusal each other call gets, and what a
//! call that succeeds does, told by the call and the state alone.
use vstd::prelude::*;

use crate::access::{owner_gate, Invocation, Revert};
use crate::address::Address;
use crate::host::keccak256_digest;
use crate::ledger::{instance_ttl_spec, TtlExtension};
use crate::orders::{Order, OrderStatus};
use crate::space_object::{
    caller_gate, claim_refusal, config_refusal, create_refusal, escrowed, fee_of, pause_refusal,
    proves_fill, receipt_preimage, receipt_refusal, released, unpause_refusal, Error, EscrowState,
    FillReceipt, OracleAnswer, ProtocolConfig,
};

verus! {

/// An address has authorized a call exactly where it is among those that the host confirmed.
pub proof fn law_authorization(call: Invocation, address: Address)
    ensures
        call.authorizes(address) <==> exists|i: int|
            0 <= i < call.authorized@.len() && #[trigger] call.authorized@[i] == address,
{
}

/// The owner passes the owner gate whenever it has authorized the call, and nobody else does.
pub proof fn law_owner_gate<E>(owner: Option<Address>, call: Invocation)
    ensures
        owner is None ==> owner_gate::<E>(owner, call) == Some(Revert::<E>::OwnerNotSet),
        owner matches Some(address) ==> {
            &&& call.authorized@.contains(address) ==> owner_gate::<E>(owner, call) is None
            &&& !call.authorized@.contains(address) ==> owner_gate::<E>(owner, call) == Some(
                Revert::<E>::NotAuthorized,
            )
        },
{
}

/// A caller acts as the owner exactly where it is the owner and has authorized the call.
pub proof fn law_caller_gate(owner: Option<Address>, call: Invocation, caller: Address)
    ensures
        caller_gate(owner, call, caller) is None <==> owner == Some(caller)
            && call.authorized@.contains(caller),
        !call.authorized@.contains(caller) ==> caller_gate(owner, call, caller) == Some(
            Revert::<Error>::NotAuthorized,
        ),
        call.authorized@.contains(caller) && owner is None ==> caller_gate(owner, call, caller)
            == Some(Revert::<Error>::OwnerNotSet),
        call.authorized@.contains(caller) && owner is Some && owner != Some(caller) ==> caller_gate(
            owner,
            call,
            caller,
        ) == Some(Revert::Contract(Error::Unauthorized)),
{
}

/// The owner can always set a configuration whose fee is at most all of the amount, whatever
/// the state of the escrow and whatever else the configuration says; a higher fee is invalid.
/// The configuration is then the one given, and nothing else has changed.
pub proof fn law_owner_sets_any_fitting_config(
    state: EscrowState,
    call: Invocation,
    config: ProtocolConfig,
)
    ensures
        config_refusal(state, call, config) is None <==> config.fee_bps <= 10_000 && (
        state.owner matches Some(owner) && call.authorized@.contains(owner)),
        state.owner matches Some(owner) && call.authorized@.contains(owner) && config.fee_bps
            > 10_000 ==> config_refusal(state, call, config) == Some(
            Revert::Contract(Error::InvalidFee),
        ),
        state.owner matches Some(owner) && !call.authorized@.contains(owner) ==> config_refusal(
            state,
            call,
            config,
        ) == Some(Revert::<Error>::NotAuthorized),
        state.owner is None ==> config_refusal(state, call, config) == Some(
            Revert::<Error>::OwnerNotSet,
        ),
        ({
            let after = state.with_config(config);
            &&& after.config == config
            &&& after.owner == state.owner
            &&& after.paused == state.paused
            &&& after.orders == state.orders
        }),
{
}

/// The owner can pause the escrow whenever it runs and unpause it whenever it does not, whatever
/// orders it holds, and nobody else can. Only whether it runs changes.
pub proof fn law_owner_stops_and_starts(state: EscrowState, call: Invocation, caller: Address)
    ensures
        pause_refusal(state, call, caller) is None <==> !state.paused && state.owner == Some(caller)
            && call.authorized@.contains(caller),
        unpause_refusal(state, call, caller) is None <==> state.paused && state.owner == Some(
            caller,
        ) && call.authorized@.contains(caller),
        state.owner == Some(caller) && call.authorized@.contains(caller) && state.paused
            ==> pause_refusal(state, call, caller) == Some(Revert::<Error>::EnforcedPause),
        state.owner == Some(caller) && call.authorized@.contains(caller) && !state.paused
            ==> unpause_refusal(state, call, caller) == Some(Revert::<Error>::ExpectedPause),
        !call.authorized@.contains(caller) ==> pause_refusal(state, call, caller) == Some(
            Revert::<Error>::NotAuthorized,
        ) && unpause_refusal(state, call, caller) == Some(Revert::<Error>::NotAuthorized),
        call.authorized@.contains(caller) && state.owner is None ==> pause_refusal(
            state,
            call,
            caller,
        ) == Some(Revert::<Error>::OwnerNotSet) && unpause_refusal(state, call, caller) == Some(
            Revert::<Error>::OwnerNotSet,
        ),
        call.authorized@.contains(caller) && state.owner is Some && state.owner != Some(caller)
            ==> pause_refusal(state, call, caller) == Some(Revert::Contract(Error::Unauthorized))
            && unpause_refusal(state, call, caller) == Some(Revert::Contract(Error::Unauthorized)),
        forall|paused: bool|
            {
                let after = #[trigger] state.with_paused(paused);
                &&& after.paused == paused
                &&& after.owner == state.owner
                &&& after.config == state.config
                &&& after.orders == state.orders
            },
{
}

/// Every fit order is opened and no other: the escrow runs, the taker has authorized the call,
/// both amounts are positive, the deadline lies ahead and no order is kept under the id. Nothing
/// else counts, so neither how the amounts compare nor the tokens, the recipient, the chain, the
/// nonce or the other orders.
pub proof fn law_fit_orders_are_opened(
    state: EscrowState,
    call: Invocation,
    order: Order,
    id: Seq<u8>,
)
    ensures
        create_refusal(state, call, order, id) is None <==> {
            &&& !state.paused
            &&& call.authorized@.contains(order.taker)
            &&& order.amount_in > 0
            &&& order.amount_out > 0
            &&& call.timestamp < order.deadline
            &&& !state.orders.dom().contains(id)
        },
{
}

/// Which refusal an unfit order gets: the first that applies of paused, not authorized, an amount
/// that is not positive, a deadline that does not lie ahead, and an id that is taken.
pub proof fn law_unfit_orders_are_refused(
    state: EscrowState,
    call: Invocation,
    order: Order,
    id: Seq<u8>,
)
    ensures
        ({
            let refusal = create_refusal(state, call, order, id);
            let authorized = call.authorized@.contains(order.taker);
            let positive = order.amount_in > 0 && order.amount_out > 0;
            let ahead = call.timestamp < order.deadline;
            &&& refusal == Some(Revert::<Error>::EnforcedPause) <==> state.paused
            &&& refusal == Some(Revert::<Error>::NotAuthorized) <==> !state.paused && !authorized
            &&& refusal == Some(Revert::Contract(Error::InvalidAmount)) <==> !state.paused
                && authorized && !positive
            &&& refusal == Some(Revert::Contract(Error::InvalidDeadline)) <==> !state.paused
                && authorized && positive && !ahead
            &&& refusal == Some(Revert::Contract(Error::OrderExists)) <==> !state.paused
                && authorized && positive && ahead && state.orders.dom().contains(id)
        }),
{
}

/// What opening an order does: the taker's `amount_in` of `token_in` moves to the escrow, the
/// event repeats the terms, both ledger entries are extended, the order is kept under its id as
/// it was given, and no other order, nor anything else, is touched.
pub proof fn law_opening_an_order(
    state: EscrowState,
    call: Invocation,
    order: Order,
    id: [u8; 32],
    other: Seq<u8>,
)
    ensures
        ({
            let done = escrowed(call, order, id);
            &&& done.id == id
            &&& done.deposit.token == order.token_in
            &&& done.deposit.from == order.taker
            &&& done.deposit.to == call.contract
            &&& done.deposit.amount == order.amount_in
            &&& done.event.order_id == id
            &&& done.event.taker == order.taker
            &&& done.event.token_in == order.token_in
            &&& done.event.amount_in == order.amount_in
            &&& done.event.token_out == order.token_out
            &&& done.event.amount_out == order.amount_out
            &&& done.event.recipient == order.recipient
            &&& done.event.dest_chain == order.dest_chain
            &&& done.event.deadline == order.deadline
            &&& done.event.nonce == order.nonce
            &&& done.order_ttl.extend_to == 518_400
            &&& done.order_ttl.threshold == 501_120
            &&& done.instance_ttl.extend_to == 120_960
            &&& done.instance_ttl.threshold == 103_680
        }),
        ({
            let after = state.with_order(id@, order);
            &&& after.orders.dom().contains(id@)
            &&& after.orders[id@] == order
            &&& other != id@ ==> {
                &&& after.orders.dom().contains(other) == state.orders.dom().contains(other)
                &&& after.orders[other] == state.orders[other]
            }
            &&& after.owner == state.owner
            &&& after.paused == state.paused
            &&& after.config == state.config
        }),
{
}

/// The extension of the instance entry: to seven days of 17280 ledgers, where fewer than six
/// days are left.
pub proof fn law_instance_extension()
    ensures
        instance_ttl_spec() == (TtlExtension {
            threshold: (6 * 17_280) as u32,
            extend_to: (7 * 17_280) as u32,
        }),
{
}

/// Every claim on an open order is honoured where the escrow runs, the receipt names the source
/// chain and the fill is proven, and no other. Nothing else counts, so neither the time of the
/// fill or of the claim, nor the solver, the amounts or who is repaid.
pub proof fn law_proven_claims_are_honoured(
    state: EscrowState,
    receipt: FillReceipt,
    proven: bool,
)
    ensures
        claim_refusal(state, receipt, proven) is None <==> {
            &&& !state.paused
            &&& state.orders.dom().contains(receipt.order_id@)
            &&& state.orders[receipt.order_id@].status == OrderStatus::Open
            &&& receipt.origin_chain == 148
            &&& proven
        },
        receipt_refusal(state, receipt) is None <==> claim_refusal(state, receipt, true) is None,
        receipt_refusal(state, receipt) is Some ==> receipt_refusal(state, receipt)
            == claim_refusal(state, receipt, proven),
{
}

/// Which refusal another claim gets: the first that applies of paused, an order that is not
/// known, one that is not open, a receipt for another chain, and a fill that is not proven.
pub proof fn law_other_claims_are_refused(state: EscrowState, receipt: FillReceipt, proven: bool)
    ensures
        ({
            let refusal = claim_refusal(state, receipt, proven);
            let known = state.orders.dom().contains(receipt.order_id@);
            let open = state.orders[receipt.order_id@].status == OrderStatus::Open;
            let here = receipt.origin_chain == 148;
            &&& refusal == Some(Revert::<Error>::EnforcedPause) <==> state.paused
            &&& refusal == Some(Revert::Contract(Error::OrderNotFound)) <==> !state.paused && !known
            &&& refusal == Some(Revert::Contract(Error::OrderInactive)) <==> !state.paused && known
                && !open
            &&& refusal == Some(Revert::Contract(Error::OriginChainMismatch)) <==> !state.paused
                && known && open && !here
            &&& refusal == Some(Revert::Contract(Error::FillNotProven)) <==> !state.paused && known
                && open && here && !proven
        }),
{
}

/// A fill counts as proven exactly where the configured oracle says yes when asked about the
/// hash of the receipt on the chain that the order names.
pub proof fn law_proven_is_the_oracles_yes(
    state: EscrowState,
    receipt: FillReceipt,
    answer: OracleAnswer,
)
    ensures
        proves_fill(state, receipt, answer) <==> {
            &&& answer.proven
            &&& answer.query.oracle == state.config.zk_oracle
            &&& answer.query.chain_id == state.orders[receipt.order_id@].dest_chain
            &&& answer.query.payload_hash@ == keccak256_digest(receipt_preimage(receipt))
        },
{
}

/// The fee is the rate times the amount, rounded down, at every rate: ten thousand times the fee
/// is at most the amount times the rate, and ten thousand times one more is above it.
pub proof fn law_fee_is_the_rate_rounded_down(amount: int, fee_bps: u32)
    ensures
        fee_of(amount, fee_bps) * 10_000 <= amount * fee_bps,
        amount * fee_bps < (fee_of(amount, fee_bps) + 1) * 10_000,
{
}

/// What claiming an order does: the fee, which is the configured rate of the escrowed amount,
/// rounded down, moves to the fee collector and all the rest to the repayment address, both in
/// the order's token; the event tells both amounts; the order is kept as claimed with its terms,
/// and no other order, nor anything else, is touched.
pub proof fn law_claiming_an_order(
    state: EscrowState,
    call: Invocation,
    receipt: FillReceipt,
    other: Seq<u8>,
)
    requires
        state.orders[receipt.order_id@].amount_in >= 0,
        state.config.fee_bps <= 10_000,
    ensures
        ({
            let order = state.orders[receipt.order_id@];
            let done = released(state, call, receipt);
            let due = order.amount_in * state.config.fee_bps;
            &&& done.fee.amount * 10_000 <= due < (done.fee.amount + 1) * 10_000
            &&& done.fee.amount + done.payout.amount == order.amount_in
            &&& done.fee.amount >= 0
            &&& done.payout.amount >= 0
            &&& done.fee.token == order.token_in
            &&& done.fee.from == call.contract
            &&& done.fee.to == state.config.fee_collector
            &&& done.payout.token == order.token_in
            &&& done.payout.from == call.contract
            &&& done.payout.to == receipt.repayment_address
            &&& done.event.order_id == receipt.order_id
            &&& done.event.solver == receipt.solver
            &&& done.event.repayment_address == receipt.repayment_address
            &&& done.event.payout == done.payout.amount
            &&& done.event.fee == done.fee.amount
        }),
        ({
            let id = receipt.order_id@;
            let order = state.orders[id];
            let after = state.with_claimed(id);
            let kept = after.orders[id];
            &&& after.orders.dom().contains(id)
            &&& kept.status == OrderStatus::Claimed
            &&& kept.taker == order.taker
            &&& kept.token_in == order.token_in
            &&& kept.amount_in == order.amount_in
            &&& kept.token_out == order.token_out
            &&& kept.amount_out == order.amount_out
            &&& kept.recipient == order.recipient
            &&& kept.dest_chain == order.dest_chain
            &&& kept.deadline == order.deadline
            &&& kept.nonce == order.nonce
            &&& other != id ==> {
                &&& after.orders.dom().contains(other) == state.orders.dom().contains(other)
                &&& after.orders[other] == state.orders[other]
            }
            &&& after.owner == state.owner
            &&& after.paused == state.paused
            &&& after.config == state.config
        }),
{
    let amount = state.orders[receipt.order_id@].amount_in as int;
    let bps = state.config.fee_bps as int;
    assert(0 <= amount * bps <= amount * 10_000) by (nonlinear_arith)
        requires
            0 <= amount,
            0 <= bps <= 10_000,
    ;
}

/// A state is valid exactly where the fee is at most all of the amount and both amounts of every
/// order are positive.
pub proof fn law_valid_states(state: EscrowState)
    ensures
        state.valid() <==> state.config.fee_bps <= 10_000 && forall|id: Seq<u8>| #[trigger]
            state.orders.dom().contains(id) ==> state.orders[id].amount_in > 0
                && state.orders[id].amount_out > 0,
{
    if state.valid() {
        assert forall|id: Seq<u8>| #[trigger]
            state.orders.dom().contains(id) implies state.orders[id].amount_in > 0
            && state.orders[id].amount_out > 0 by {
            assert(state.orders.contains_key(id));
        }
    }
}

} // verus!
