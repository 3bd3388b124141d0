use intent_bridge::access::{Invocation, Revert};
use intent_bridge::address::Address;
use intent_bridge::ledger::TtlExtension;
use intent_bridge::orders::{order_id, order_preimage_bytes, Order, OrderEntry, OrderStatus};
use intent_bridge::space_object::{
    fill_receipt_hash, protocol_fee, receipt_preimage_bytes, Error, FillReceipt, OracleAnswer,
    OrderCreated, ProofQuery, ProtocolConfig, Reconfigured, Released, SpaceObject, Transfer,
    MAX_FEE_BPS, STELLAR_CHAIN_ID,
};
use soroban_sdk::address_payload::AddressPayload;
use soroban_sdk::testutils::{Address as _, EnvTestConfig, Ledger as _};
use soroban_sdk::token::{StellarAssetClient, TokenClient};
use soroban_sdk::xdr::ToXdr;
use soroban_sdk::{Address as HostAddress, Bytes, BytesN, Env};

/// Minimal stand-in for the oracle: lets a test mark a `(chain_id, payload_hash)`
/// statement proven and answers `is_proven`.
struct MockZkOracle {
    proven: Vec<(u64, [u8; 32])>,
}

impl MockZkOracle {
    fn set_proven(&mut self, chain_id: u64, payload_hash: [u8; 32]) {
        self.proven.push((chain_id, payload_hash));
    }

    fn is_proven(&self, chain_id: u64, payload_hash: [u8; 32]) -> bool {
        self.proven.contains(&(chain_id, payload_hash))
    }
}

/// An escrow with the addresses around it.
struct Fixture {
    escrow: SpaceObject,
    contract: HostAddress,
    oracle: MockZkOracle,
    oracle_address: Address,
    owner: Address,
    fee_collector: HostAddress,
}

fn env() -> Env {
    let e = Env::new_with_config(EnvTestConfig {
        capture_snapshot_at_drop: false,
    });
    e.mock_all_auths();
    e
}

fn plain(address: &HostAddress) -> Address {
    match address.to_payload().unwrap() {
        AddressPayload::AccountIdPublicKeyEd25519(key) => Address::Account(key.to_array()),
        AddressPayload::ContractIdHash(hash) => Address::Contract(hash.to_array()),
    }
}

fn hosted(e: &Env, address: &Address) -> HostAddress {
    let payload = match address {
        Address::Account(key) => {
            AddressPayload::AccountIdPublicKeyEd25519(BytesN::from_array(e, key))
        }
        Address::Contract(hash) => AddressPayload::ContractIdHash(BytesN::from_array(e, hash)),
    };
    HostAddress::from_payload(e, payload)
}

fn setup(e: &Env) -> Fixture {
    let owner = plain(&HostAddress::generate(e));
    let fee_collector = HostAddress::generate(e);
    let oracle_address = plain(&HostAddress::generate(e));
    let config = ProtocolConfig {
        fee_bps: 30,
        fee_collector: plain(&fee_collector),
        zk_oracle: oracle_address,
    };
    Fixture {
        escrow: SpaceObject::__constructor(owner, config).ok().unwrap().escrow,
        contract: HostAddress::generate(e),
        oracle: MockZkOracle { proven: vec![] },
        oracle_address,
        owner,
        fee_collector,
    }
}

impl Fixture {
    /// The invocation of the escrow that these addresses have authorized.
    fn call(&self, e: &Env, authorized: &[Address]) -> Invocation {
        Invocation {
            contract: plain(&self.contract),
            timestamp: e.ledger().timestamp(),
            authorized: authorized.to_vec(),
        }
    }

    /// Claims with the answer of the oracle, and moves the released funds.
    fn claim(&mut self, e: &Env, receipt: &FillReceipt) -> Result<Released, Revert<Error>> {
        let query = self.escrow.proof_query(e, receipt)?;
        assert_eq!(query.oracle, self.oracle_address);
        let answer = OracleAnswer {
            query,
            proven: self.oracle.is_proven(query.chain_id, query.payload_hash),
        };
        let call = self.call(e, &[]);
        let released = self.escrow.claim(e, &call, receipt, &answer)?;
        transfer(e, &released.fee);
        transfer(e, &released.payout);
        Ok(released)
    }
}

fn transfer(e: &Env, t: &Transfer) {
    TokenClient::new(e, &hosted(e, &t.token)).transfer(
        &hosted(e, &t.from),
        &hosted(e, &t.to),
        &t.amount,
    );
}

/// Deploys a Stellar Asset Contract and mints `amount` to `to`.
fn fund(e: &Env, to: &HostAddress, amount: i128) -> HostAddress {
    let issuer = HostAddress::generate(e);
    let token = e.register_stellar_asset_contract_v2(issuer).address();
    StellarAssetClient::new(e, &token).mint(to, &amount);
    token
}

fn sample_order() -> Order {
    Order {
        taker: Address::Account([1; 32]),
        token_in: Address::Contract([2; 32]),
        amount_in: 600,
        token_out: [9; 32],
        amount_out: 590,
        recipient: [7; 32],
        dest_chain: 10,
        deadline: 3_600,
        nonce: 1,
        status: OrderStatus::Open,
    }
}

/// Opens `order` under its own id.
fn open(
    f: &mut Fixture,
    e: &Env,
    order: &Order,
) -> Result<intent_bridge::space_object::Escrowed, Revert<Error>> {
    let call = f.call(e, &[order.taker]);
    f.escrow.create_order(
        e,
        &call,
        order.taker,
        order.token_in,
        order.amount_in,
        order.token_out,
        order.amount_out,
        order.recipient,
        order.dest_chain,
        order.deadline,
        order.nonce,
    )
}

#[test]
fn constructor_sets_owner_and_config() {
    let e = env();
    let f = setup(&e);
    assert_eq!(f.escrow.get_owner(), Some(f.owner));
    let config = f.escrow.get_config();
    assert_eq!(config.fee_bps, 30);
    assert_eq!(config.fee_collector, plain(&f.fee_collector));
}

#[test]
fn deploying_extends_the_instance_entry() {
    let config = ProtocolConfig {
        fee_bps: MAX_FEE_BPS,
        fee_collector: Address::Account([1; 32]),
        zk_oracle: Address::Contract([2; 32]),
    };
    let deployed = SpaceObject::__constructor(Address::Account([3; 32]), config)
        .ok()
        .unwrap();
    assert!(!deployed.escrow.paused());
    assert_eq!(
        deployed.instance_ttl,
        TtlExtension {
            threshold: 103_680,
            extend_to: 120_960,
        }
    );
}

#[test]
fn constructor_rejects_excessive_fee() {
    let config = ProtocolConfig {
        fee_bps: MAX_FEE_BPS + 1,
        fee_collector: Address::Account([1; 32]),
        zk_oracle: Address::Contract([2; 32]),
    };
    let refused = SpaceObject::__constructor(Address::Account([3; 32]), config);
    assert_eq!(refused.err(), Some(Error::InvalidFee));
}

#[test]
fn owner_can_update_config() {
    let e = env();
    let mut f = setup(&e);
    let call = f.call(&e, &[f.owner]);
    let config = ProtocolConfig {
        fee_bps: 50,
        fee_collector: plain(&f.fee_collector),
        zk_oracle: f.oracle_address,
    };
    // The lifetime of the instance entry is extended with the write.
    assert_eq!(
        f.escrow.set_config(&call, config),
        Ok(Reconfigured {
            instance_ttl: TtlExtension {
                threshold: 103_680,
                extend_to: 120_960,
            },
        })
    );
    assert_eq!(f.escrow.get_config().fee_bps, 50);
}

#[test]
fn set_config_rejects_excessive_fee() {
    let e = env();
    let mut f = setup(&e);
    let call = f.call(&e, &[f.owner]);
    let before = f.escrow.get_config();
    let config = ProtocolConfig {
        fee_bps: MAX_FEE_BPS + 1,
        ..before
    };
    assert_eq!(
        f.escrow.set_config(&call, config),
        Err(Revert::Contract(Error::InvalidFee))
    );
    assert_eq!(f.escrow.get_config(), before);
}

#[test]
fn set_config_needs_the_owner() {
    let e = env();
    let mut f = setup(&e);
    let before = f.escrow.get_config();
    let config = ProtocolConfig {
        fee_bps: 50,
        ..before
    };
    let call = f.call(&e, &[plain(&f.fee_collector)]);
    assert_eq!(
        f.escrow.set_config(&call, config),
        Err(Revert::NotAuthorized)
    );
    assert_eq!(f.escrow.get_config(), before);

    let mut renounced = SpaceObject::from_ledger(None, false, before, None).unwrap();
    assert_eq!(
        renounced.set_config(&f.call(&e, &[f.owner]), config),
        Err(Revert::OwnerNotSet)
    );
}

#[test]
fn owner_can_pause_and_unpause() {
    let e = env();
    let mut f = setup(&e);
    let call = f.call(&e, &[f.owner]);
    assert!(!f.escrow.paused());
    assert_eq!(f.escrow.pause(&call, &f.owner), Ok(()));
    assert!(f.escrow.paused());
    assert_eq!(f.escrow.unpause(&call, &f.owner), Ok(()));
    assert!(!f.escrow.paused());
}

#[test]
fn pausing_needs_the_owner_and_the_other_state() {
    let e = env();
    let mut f = setup(&e);
    let other = Address::Account([8; 32]);
    let nobody = f.call(&e, &[]);
    let owner = f.call(&e, &[f.owner]);
    let stranger = f.call(&e, &[other]);
    assert_eq!(
        f.escrow.pause(&nobody, &f.owner),
        Err(Revert::NotAuthorized)
    );
    assert_eq!(
        f.escrow.pause(&stranger, &other),
        Err(Revert::Contract(Error::Unauthorized))
    );
    assert_eq!(
        f.escrow.unpause(&owner, &f.owner),
        Err(Revert::ExpectedPause)
    );
    assert_eq!(f.escrow.pause(&owner, &f.owner), Ok(()));
    assert_eq!(
        f.escrow.pause(&owner, &f.owner),
        Err(Revert::EnforcedPause)
    );
    assert_eq!(
        f.escrow.unpause(&stranger, &other),
        Err(Revert::Contract(Error::Unauthorized))
    );
    let config = f.escrow.get_config();
    let mut renounced = SpaceObject::from_ledger(None, false, config, None).unwrap();
    assert_eq!(
        renounced.pause(&owner, &f.owner),
        Err(Revert::OwnerNotSet)
    );
}

#[test]
fn create_order_escrows_funds() {
    let e = env();
    let mut f = setup(&e);

    let taker = HostAddress::generate(&e);
    let token_in = fund(&e, &taker, 1_000);
    let token_client = TokenClient::new(&e, &token_in);

    let token_out = [9u8; 32];
    let recipient = [7u8; 32];
    let deadline = e.ledger().timestamp() + 3_600;

    let call = f.call(&e, &[plain(&taker)]);
    let escrowed = f
        .escrow
        .create_order(
            &e,
            &call,
            plain(&taker),
            plain(&token_in),
            600,
            token_out,
            590,
            recipient,
            10,
            deadline,
            1,
        )
        .unwrap();
    transfer(&e, &escrowed.deposit);
    let id = escrowed.id;

    // Funds moved from the taker into the escrow.
    assert_eq!(token_client.balance(&taker), 400);
    assert_eq!(token_client.balance(&f.contract), 600);

    // The returned id is the content hash of the order's terms.
    let expected = Order {
        taker: plain(&taker),
        token_in: plain(&token_in),
        amount_in: 600,
        token_out,
        amount_out: 590,
        recipient,
        dest_chain: 10,
        deadline,
        nonce: 1,
        status: OrderStatus::Open,
    };
    assert_eq!(id, order_id(&e, &expected));

    // The order is kept under that id as open with the supplied terms.
    assert_eq!(f.escrow.get_order(&id), Some(expected));

    // The event repeats the terms.
    assert_eq!(
        escrowed.event,
        OrderCreated {
            order_id: id,
            taker: plain(&taker),
            token_in: plain(&token_in),
            amount_in: 600,
            token_out,
            amount_out: 590,
            recipient,
            dest_chain: 10,
            deadline,
            nonce: 1,
        }
    );
    assert_eq!(
        escrowed.order_ttl,
        TtlExtension {
            threshold: 501_120,
            extend_to: 518_400,
        }
    );
    assert_eq!(
        escrowed.instance_ttl,
        TtlExtension {
            threshold: 103_680,
            extend_to: 120_960,
        }
    );
}

#[test]
fn distinct_nonce_yields_distinct_id() {
    let e = env();
    let mut f = setup(&e);

    let taker = HostAddress::generate(&e);
    let token_in = fund(&e, &taker, 2_000);
    let first = Order {
        taker: plain(&taker),
        token_in: plain(&token_in),
        deadline: e.ledger().timestamp() + 3_600,
        ..sample_order()
    };
    let second = Order { nonce: 2, ..first };
    let id1 = open(&mut f, &e, &first).unwrap().id;
    let id2 = open(&mut f, &e, &second).unwrap().id;
    assert_ne!(id1, id2);
    assert_ne!(
        order_preimage_bytes(&e, &first),
        order_preimage_bytes(&e, &second)
    );
}

#[test]
fn duplicate_order_rejected() {
    let e = env();
    let mut f = setup(&e);

    let taker = HostAddress::generate(&e);
    let token_in = fund(&e, &taker, 2_000);
    let order = Order {
        taker: plain(&taker),
        token_in: plain(&token_in),
        deadline: e.ledger().timestamp() + 3_600,
        ..sample_order()
    };

    // Identical terms and nonce hash to the same id: the second call is rejected.
    assert!(open(&mut f, &e, &order).is_ok());
    assert_eq!(
        open(&mut f, &e, &order).err(),
        Some(Revert::Contract(Error::OrderExists))
    );
}

#[test]
fn create_order_rejects_zero_amount() {
    let e = env();
    let mut f = setup(&e);
    let taker = HostAddress::generate(&e);
    let token_in = fund(&e, &taker, 1_000);
    let order = Order {
        taker: plain(&taker),
        token_in: plain(&token_in),
        amount_in: 0,
        token_out: [0; 32],
        recipient: [0; 32],
        deadline: e.ledger().timestamp() + 3_600,
        ..sample_order()
    };
    let refusal = Some(Revert::Contract(Error::InvalidAmount));
    assert_eq!(open(&mut f, &e, &order).err(), refusal);
    for bad in [
        Order {
            amount_in: -1,
            ..order
        },
        Order {
            amount_in: 600,
            amount_out: 0,
            ..order
        },
        Order {
            amount_in: 600,
            amount_out: i128::MIN,
            ..order
        },
    ] {
        assert_eq!(open(&mut f, &e, &bad).err(), refusal);
    }
}

#[test]
fn create_order_rejects_past_deadline() {
    let e = env();
    let mut f = setup(&e);
    let taker = HostAddress::generate(&e);
    let token_in = fund(&e, &taker, 1_000);
    let order = Order {
        taker: plain(&taker),
        token_in: plain(&token_in),
        token_out: [0; 32],
        recipient: [0; 32],
        deadline: 500,
        ..sample_order()
    };

    e.ledger().set_timestamp(1_000);
    let refusal = Some(Revert::Contract(Error::InvalidDeadline));
    assert_eq!(open(&mut f, &e, &order).err(), refusal);

    // The deadline has to be after the ledger's time, not at it.
    let due_now = Order {
        deadline: 1_000,
        ..order
    };
    assert_eq!(open(&mut f, &e, &due_now).err(), refusal);
    let due_next = Order {
        deadline: 1_001,
        ..order
    };
    assert!(open(&mut f, &e, &due_next).is_ok());
}

#[test]
fn create_order_blocked_when_paused() {
    let e = env();
    let mut f = setup(&e);
    let call = f.call(&e, &[f.owner]);
    assert_eq!(f.escrow.pause(&call, &f.owner), Ok(()));

    let taker = HostAddress::generate(&e);
    let token_in = fund(&e, &taker, 1_000);
    let order = Order {
        taker: plain(&taker),
        token_in: plain(&token_in),
        token_out: [0; 32],
        recipient: [0; 32],
        deadline: e.ledger().timestamp() + 3_600,
        ..sample_order()
    };
    assert_eq!(
        open(&mut f, &e, &order).err(),
        Some(Revert::EnforcedPause)
    );
}

#[test]
fn create_order_needs_the_taker() {
    let e = env();
    let mut f = setup(&e);
    let order = sample_order();
    let call = f.call(&e, &[f.owner]);
    let id = order_id(&e, &order);
    assert_eq!(
        f.escrow.open_order(&call, order, id).err(),
        Some(Revert::NotAuthorized)
    );
    assert_eq!(f.escrow.get_order(&id), None);
}

/// Opens an order escrowing `amount_in` of a freshly funded token, and returns the order
/// id, the escrow token, and a fill receipt for it whose repayment target is `repayment`.
fn open_order(
    e: &Env,
    f: &mut Fixture,
    amount_in: i128,
    dest_chain: u64,
    repayment: &HostAddress,
) -> ([u8; 32], HostAddress, FillReceipt) {
    let taker = HostAddress::generate(e);
    let token_in = fund(e, &taker, amount_in);
    let order = Order {
        taker: plain(&taker),
        token_in: plain(&token_in),
        amount_in,
        amount_out: amount_in - 10,
        dest_chain,
        deadline: e.ledger().timestamp() + 3_600,
        ..sample_order()
    };
    let escrowed = open(f, e, &order).unwrap();
    transfer(e, &escrowed.deposit);
    let receipt = FillReceipt {
        order_id: escrowed.id,
        solver: [3; 32],
        repayment_address: plain(repayment),
        origin_chain: STELLAR_CHAIN_ID,
        filled_at: 123,
    };
    (escrowed.id, token_in, receipt)
}

#[test]
fn claim_releases_escrow_when_proven() {
    let e = env();
    let mut f = setup(&e);

    let repayment = HostAddress::generate(&e);
    let dest_chain = 10u64;
    let (id, token_in, receipt) = open_order(&e, &mut f, 600, dest_chain, &repayment);
    let token = TokenClient::new(&e, &token_in);

    // The oracle proves the fill on the destination chain.
    let payload_hash = fill_receipt_hash(&e, &receipt);
    f.oracle.set_proven(dest_chain, payload_hash);

    let released = f.claim(&e, &receipt).unwrap();

    // The fee is 600 * 30 / 10_000 = 1; the rest goes to the repayment address.
    assert_eq!(token.balance(&f.fee_collector), 1);
    assert_eq!(token.balance(&repayment), 599);
    assert_eq!(token.balance(&f.contract), 0);
    assert_eq!(released.event.fee, 1);
    assert_eq!(released.event.payout, 599);
    assert_eq!(released.event.order_id, id);
    assert_eq!(released.event.solver, [3; 32]);
    assert_eq!(released.event.repayment_address, plain(&repayment));

    // The order is now claimed.
    let stored = f.escrow.get_order(&id).unwrap();
    assert_eq!(stored.status, OrderStatus::Claimed);
}

#[test]
fn claim_without_proof_reverts() {
    let e = env();
    let mut f = setup(&e);
    let repayment = HostAddress::generate(&e);
    let (id, _token_in, receipt) = open_order(&e, &mut f, 600, 10, &repayment);

    // No proof was recorded.
    let refused = f.claim(&e, &receipt).err().unwrap();
    assert_eq!(refused, Revert::Contract(Error::FillNotProven));
    assert_eq!(Error::FillNotProven.code(), 8);
    assert_eq!(f.escrow.get_order(&id).unwrap().status, OrderStatus::Open);
}

#[test]
fn claim_unknown_order_reverts() {
    let e = env();
    let mut f = setup(&e);

    // A receipt whose order was never opened.
    let receipt = FillReceipt {
        order_id: [1; 32],
        solver: [3; 32],
        repayment_address: plain(&HostAddress::generate(&e)),
        origin_chain: STELLAR_CHAIN_ID,
        filled_at: 123,
    };
    let refused = f.claim(&e, &receipt).err().unwrap();
    assert_eq!(refused, Revert::Contract(Error::OrderNotFound));
    assert_eq!(Error::OrderNotFound.code(), 3);
}

#[test]
fn claim_rejects_wrong_origin_chain() {
    let e = env();
    let mut f = setup(&e);
    let repayment = HostAddress::generate(&e);
    let (_id, _token_in, mut receipt) = open_order(&e, &mut f, 600, 10, &repayment);

    // A fill that names a different origin chain.
    receipt.origin_chain = STELLAR_CHAIN_ID + 1;
    let refused = f.claim(&e, &receipt).err().unwrap();
    assert_eq!(refused, Revert::Contract(Error::OriginChainMismatch));
    assert_eq!(Error::OriginChainMismatch.code(), 9);
}

#[test]
fn claim_twice_reverts() {
    let e = env();
    let mut f = setup(&e);
    let repayment = HostAddress::generate(&e);
    let dest_chain = 10u64;
    let (_id, _token_in, receipt) = open_order(&e, &mut f, 600, dest_chain, &repayment);

    let payload_hash = fill_receipt_hash(&e, &receipt);
    f.oracle.set_proven(dest_chain, payload_hash);

    assert!(f.claim(&e, &receipt).is_ok());
    // The order is no longer open.
    let refused = f.claim(&e, &receipt).err().unwrap();
    assert_eq!(refused, Revert::Contract(Error::OrderInactive));
    assert_eq!(Error::OrderInactive.code(), 4);
}

#[test]
fn claim_blocked_when_paused() {
    let e = env();
    let mut f = setup(&e);
    let repayment = HostAddress::generate(&e);
    let (_id, _token_in, receipt) = open_order(&e, &mut f, 600, 10, &repayment);
    let hash = fill_receipt_hash(&e, &receipt);
    f.oracle.set_proven(10, hash);
    let call = f.call(&e, &[f.owner]);
    assert_eq!(f.escrow.pause(&call, &f.owner), Ok(()));
    assert_eq!(f.claim(&e, &receipt).err(), Some(Revert::EnforcedPause));
    assert_eq!(f.escrow.unpause(&call, &f.owner), Ok(()));
    assert!(f.claim(&e, &receipt).is_ok());
}

#[test]
fn an_answer_to_another_question_proves_nothing() {
    let e = env();
    let mut f = setup(&e);
    let repayment = HostAddress::generate(&e);
    let (_id, _token_in, receipt) = open_order(&e, &mut f, 600, 10, &repayment);
    let query = f.escrow.proof_query(&e, &receipt).unwrap();
    assert_eq!(query.chain_id, 10);
    assert_eq!(query.payload_hash, fill_receipt_hash(&e, &receipt));
    let call = f.call(&e, &[]);
    let others = [
        ProofQuery {
            oracle: Address::Contract([0; 32]),
            ..query
        },
        ProofQuery {
            chain_id: 11,
            ..query
        },
        ProofQuery {
            payload_hash: [0; 32],
            ..query
        },
    ];
    for other in others {
        let answer = OracleAnswer {
            query: other,
            proven: true,
        };
        assert_eq!(
            f.escrow.claim(&e, &call, &receipt, &answer).err(),
            Some(Revert::Contract(Error::FillNotProven))
        );
    }
    let answer = OracleAnswer {
        query,
        proven: true,
    };
    assert!(f.escrow.claim(&e, &call, &receipt, &answer).is_ok());
}

#[test]
fn claimed_terms_cannot_be_opened_again() {
    let e = env();
    let mut f = setup(&e);
    let order = sample_order();
    let id = open(&mut f, &e, &order).unwrap().id;
    let receipt = FillReceipt {
        order_id: id,
        solver: [3; 32],
        repayment_address: Address::Account([4; 32]),
        origin_chain: STELLAR_CHAIN_ID,
        filled_at: 123,
    };
    let call = f.call(&e, &[]);
    assert!(f.escrow.release(&call, &receipt, true).is_ok());
    assert_eq!(
        open(&mut f, &e, &order).err(),
        Some(Revert::Contract(Error::OrderExists))
    );
    // Everything but the status is as it was opened.
    let claimed = Order {
        status: OrderStatus::Claimed,
        ..order
    };
    assert_eq!(f.escrow.get_order(&id), Some(claimed));
}

#[test]
fn orders_do_not_touch_each_other() {
    let e = env();
    let mut f = setup(&e);
    let first = sample_order();
    let second = Order { nonce: 2, ..first };
    let third = Order { nonce: 3, ..first };
    let id1 = open(&mut f, &e, &first).unwrap().id;
    let id2 = open(&mut f, &e, &second).unwrap().id;
    let id3 = open(&mut f, &e, &third).unwrap().id;
    let receipt = FillReceipt {
        order_id: id2,
        solver: [3; 32],
        repayment_address: Address::Account([4; 32]),
        origin_chain: STELLAR_CHAIN_ID,
        filled_at: 123,
    };
    let call = f.call(&e, &[]);
    assert!(f.escrow.release(&call, &receipt, true).is_ok());
    assert_eq!(f.escrow.get_order(&id1), Some(first));
    assert_eq!(f.escrow.get_order(&id3), Some(third));
    assert_eq!(
        f.escrow.get_order(&id2).unwrap().status,
        OrderStatus::Claimed
    );
}

#[test]
fn the_order_at_hand_decides() {
    let e = env();
    let mut f = setup(&e);
    let first = sample_order();
    let second = Order { nonce: 2, ..first };
    let id = open(&mut f, &e, &first).unwrap().id;
    assert!(open(&mut f, &e, &second).is_ok());
    let entry = OrderEntry { id, order: first };
    let config = f.escrow.get_config();
    let mut part = SpaceObject::from_ledger(Some(f.owner), false, config, Some(entry)).unwrap();
    let call = f.call(&e, &[first.taker]);
    assert_eq!(
        part.open_order(&call, first, id).err(),
        Some(Revert::Contract(Error::OrderExists))
    );
    let receipt = FillReceipt {
        order_id: id,
        solver: [3; 32],
        repayment_address: Address::Account([4; 32]),
        origin_chain: STELLAR_CHAIN_ID,
        filled_at: 123,
    };
    assert_eq!(
        part.release(&call, &receipt, true),
        f.escrow.release(&call, &receipt, true)
    );
    assert_eq!(part.get_order(&id), f.escrow.get_order(&id));
}

#[test]
fn the_configuration_and_the_orders_outlast_other_calls() {
    let e = env();
    let mut f = setup(&e);
    let id = open(&mut f, &e, &sample_order()).unwrap().id;
    let owner = f.call(&e, &[f.owner]);
    let stranger = f.call(&e, &[plain(&f.fee_collector)]);
    let before = f.escrow.get_config();
    let set = ProtocolConfig {
        fee_bps: 70,
        ..before
    };
    assert!(f.escrow.set_config(&owner, set).is_ok());
    let refused = ProtocolConfig {
        fee_bps: 80,
        ..before
    };
    assert!(f.escrow.set_config(&stranger, refused).is_err());
    assert!(f.escrow.pause(&owner, &f.owner).is_ok());
    assert!(f.escrow.unpause(&owner, &f.owner).is_ok());
    assert_eq!(f.escrow.get_config(), set);
    assert_eq!(f.escrow.get_order(&id), Some(sample_order()));
}

#[test]
fn fee_and_payout_make_up_the_escrow() {
    assert_eq!(protocol_fee(600, 30), 1);
    assert_eq!(protocol_fee(0, 30), 0);
    assert_eq!(protocol_fee(333, 30), 0);
    assert_eq!(protocol_fee(334, 30), 1);
    assert_eq!(protocol_fee(1_000_000, 25), 2_500);
    assert_eq!(protocol_fee(600, 0), 0);
    assert_eq!(protocol_fee(600, MAX_FEE_BPS), 600);
    assert_eq!(protocol_fee(i128::MAX, MAX_FEE_BPS), i128::MAX);
    // The largest amount is charged without overflow.
    assert_eq!(
        protocol_fee(i128::MAX, 1),
        17_014_118_346_046_923_173_168_730_371_588_410
    );
}

#[test]
fn order_preimage_is_the_terms_in_order() {
    let e = env();
    let order = Order {
        amount_in: -2,
        ..sample_order()
    };
    let mut expected: Vec<u8> = vec![0, 0, 0, 18, 0, 0, 0, 0, 0, 0, 0, 0];
    expected.extend([1; 32]);
    expected.extend([0, 0, 0, 18, 0, 0, 0, 1]);
    expected.extend([2; 32]);
    expected.extend([255; 15]);
    expected.push(254);
    expected.extend([9; 32]);
    expected.extend([0; 14]);
    expected.extend([2, 78]);
    expected.extend([7; 32]);
    expected.extend([0, 0, 0, 0, 0, 0, 0, 10]);
    expected.extend([0, 0, 0, 0, 0, 0, 14, 16]);
    expected.extend([0, 0, 0, 0, 0, 0, 0, 1]);
    assert_eq!(order_preimage_bytes(&e, &order), expected);
}

#[test]
fn order_id_is_the_keccak_digest_of_the_preimage() {
    let e = env();
    let order = sample_order();
    let expected = [
        0xad, 0xe9, 0x88, 0x5f, 0x6f, 0x4d, 0x0e, 0x6a, 0xa0, 0xf5, 0x7b, 0x57, 0xc0, 0x85, 0x0b,
        0x19, 0x29, 0xc6, 0xc1, 0x3b, 0xc8, 0xc1, 0xb4, 0x78, 0x62, 0x36, 0xca, 0x24, 0xe2, 0x56,
        0x26, 0x4e,
    ];
    assert_eq!(order_id(&e, &order), expected);

    // The host's own addresses and hash give the same.
    let mut buf = Bytes::new(&e);
    buf.append(&hosted(&e, &order.taker).to_xdr(&e));
    buf.append(&hosted(&e, &order.token_in).to_xdr(&e));
    buf.extend_from_array(&order.amount_in.to_be_bytes());
    buf.extend_from_array(&order.token_out);
    buf.extend_from_array(&order.amount_out.to_be_bytes());
    buf.extend_from_array(&order.recipient);
    buf.extend_from_array(&order.dest_chain.to_be_bytes());
    buf.extend_from_array(&order.deadline.to_be_bytes());
    buf.extend_from_array(&order.nonce.to_be_bytes());
    assert_eq!(e.crypto().keccak256(&buf).to_array(), expected);

    // The status is no part of the id.
    let claimed = Order {
        status: OrderStatus::Claimed,
        ..order
    };
    assert_eq!(order_id(&e, &claimed), expected);
}

#[test]
fn receipt_hash_is_the_keccak_digest_of_the_preimage() {
    let e = env();
    let receipt = FillReceipt {
        order_id: [1; 32],
        solver: [3; 32],
        repayment_address: Address::Contract([5; 32]),
        origin_chain: 148,
        filled_at: 123,
    };
    let mut expected: Vec<u8> = Vec::new();
    expected.extend([1; 32]);
    expected.extend([3; 32]);
    expected.extend([0, 0, 0, 18, 0, 0, 0, 1]);
    expected.extend([5; 32]);
    expected.extend([0, 0, 0, 0, 0, 0, 0, 148]);
    expected.extend([0, 0, 0, 0, 0, 0, 0, 123]);
    assert_eq!(receipt_preimage_bytes(&e, &receipt), expected);
    assert_eq!(
        fill_receipt_hash(&e, &receipt),
        [
            0x91, 0xfc, 0x9e, 0xd6, 0x7b, 0xdd, 0x04, 0x7a, 0xeb, 0xd4, 0x09, 0x87, 0xd0, 0xe4,
            0x2d, 0x78, 0x35, 0x83, 0xcf, 0x15, 0x7e, 0x6d, 0xd9, 0x1f, 0x15, 0x40, 0x71, 0x0c,
            0x2a, 0x0f, 0xc3, 0xca,
        ]
    );
    for other in [
        FillReceipt {
            solver: [4; 32],
            ..receipt
        },
        FillReceipt {
            repayment_address: Address::Account([5; 32]),
            ..receipt
        },
        FillReceipt {
            filled_at: 124,
            ..receipt
        },
    ] {
        assert_ne!(receipt_preimage_bytes(&e, &other), expected);
    }
}

#[test]
fn ledger_data_is_checked_when_loaded() {
    let config = ProtocolConfig {
        fee_bps: 30,
        fee_collector: Address::Account([1; 32]),
        zk_oracle: Address::Contract([2; 32]),
    };
    let owner = Some(Address::Account([3; 32]));
    let entry = OrderEntry {
        id: [4; 32],
        order: sample_order(),
    };
    let loaded = SpaceObject::from_ledger(owner, true, config, Some(entry)).unwrap();
    assert_eq!(loaded.get_owner(), owner);
    assert!(loaded.paused());
    assert_eq!(loaded.get_config(), config);
    assert_eq!(loaded.get_order(&[4; 32]), Some(sample_order()));
    assert_eq!(loaded.get_order(&[5; 32]), None);

    let excessive = ProtocolConfig {
        fee_bps: MAX_FEE_BPS + 1,
        ..config
    };
    assert!(SpaceObject::from_ledger(owner, true, excessive, None).is_none());
    let empty = OrderEntry {
        order: Order {
            amount_in: 0,
            ..sample_order()
        },
        ..entry
    };
    assert!(SpaceObject::from_ledger(owner, true, config, Some(empty)).is_none());
    let free = OrderEntry {
        order: Order {
            amount_out: 0,
            ..sample_order()
        },
        ..entry
    };
    assert!(SpaceObject::from_ledger(owner, true, config, Some(free)).is_none());
}

#[test]
fn escrow_errors_have_their_numbers() {
    let numbered = [
        Error::InvalidFee,
        Error::Unauthorized,
        Error::OrderNotFound,
        Error::OrderInactive,
        Error::InvalidAmount,
        Error::InvalidDeadline,
        Error::OrderExists,
        Error::FillNotProven,
        Error::OriginChainMismatch,
    ];
    for (i, error) in numbered.iter().enumerate() {
        assert_eq!(error.code() as usize, i + 1);
    }
}
