use proxy_core::escrow::{
    parse_event, step, EscrowError, EscrowEvent, EscrowManager, EscrowState, HodlContract,
};

const EVENTS: [EscrowEvent; 4] = [
    EscrowEvent::Accept,
    EscrowEvent::Begin,
    EscrowEvent::Settle,
    EscrowEvent::Cancel,
];

fn legal_next(state: EscrowState, event: EscrowEvent) -> Option<EscrowState> {
    match (state, event) {
        (EscrowState::Open, EscrowEvent::Accept) => Some(EscrowState::Accepted),
        (EscrowState::Accepted, EscrowEvent::Begin) => Some(EscrowState::InProgress),
        (EscrowState::InProgress, EscrowEvent::Settle) => Some(EscrowState::Settled),
        (EscrowState::Open, EscrowEvent::Cancel)
        | (EscrowState::Accepted, EscrowEvent::Cancel)
        | (EscrowState::InProgress, EscrowEvent::Cancel) => Some(EscrowState::Cancelled),
        _ => None,
    }
}

fn invoice_in_state(manager: &mut EscrowManager, state: EscrowState) -> String {
    let contract = manager.create_invoice(1000).unwrap();
    let hash = contract.payment_hash.clone();
    let drive: &[EscrowEvent] = match state {
        EscrowState::Open => &[],
        EscrowState::Accepted => &[EscrowEvent::Accept],
        EscrowState::InProgress => &[EscrowEvent::Accept, EscrowEvent::Begin],
        EscrowState::Settled => &[
            EscrowEvent::Accept,
            EscrowEvent::Begin,
            EscrowEvent::Settle,
        ],
        EscrowState::Cancelled => &[EscrowEvent::Cancel],
    };
    for event in drive {
        manager.apply_transition(&hash, *event).unwrap();
    }
    hash
}

#[test]
fn create_invoice_opens_contract_with_amount() {
    let mut manager = EscrowManager::new();
    let contract = manager.create_invoice(50000).unwrap();
    assert_eq!(contract.state, EscrowState::Open);
    assert_eq!(contract.amount_sats, 50000);
    let snapshot = manager.get_contract(&contract.payment_hash).unwrap();
    assert_eq!(snapshot.state, EscrowState::Open);
    assert_eq!(snapshot.amount_sats, 50000);
    assert_eq!(snapshot.contract_id, contract.contract_id);
}

#[test]
fn create_invoice_rejects_zero_amount() {
    let mut manager = EscrowManager::new();
    assert_eq!(
        manager.create_invoice(0),
        Err(EscrowError::InvalidAmount)
    );
}

#[test]
fn payment_hashes_and_contract_ids_are_unique() {
    let mut manager = EscrowManager::new();
    let a = manager.create_invoice(10).unwrap();
    let b = manager.create_invoice(10).unwrap();
    assert_ne!(a.payment_hash, b.payment_hash);
    assert_ne!(a.contract_id, b.contract_id);
    assert_eq!(a.payment_hash.len(), 64);
    assert!(a.contract_id.starts_with("contract-"));
}

#[test]
fn end_to_end_lifecycle_settles_and_then_refuses_everything() {
    let mut manager = EscrowManager::new();
    let contract = manager.create_invoice(50000).unwrap();
    assert_eq!(contract.state, EscrowState::Open);
    assert_eq!(contract.amount_sats, 50000);
    let hash = contract.payment_hash;
    assert_eq!(
        manager.apply_transition(&hash, EscrowEvent::Accept),
        Ok(EscrowState::Accepted)
    );
    assert_eq!(
        manager.apply_transition(&hash, EscrowEvent::Begin),
        Ok(EscrowState::InProgress)
    );
    assert_eq!(
        manager.apply_transition(&hash, EscrowEvent::Settle),
        Ok(EscrowState::Settled)
    );
    for event in EVENTS {
        assert_eq!(
            manager.apply_transition(&hash, event),
            Err(EscrowError::IllegalTransition(EscrowState::Settled, event))
        );
    }
}

#[test]
fn transition_closure_rejects_every_pair_outside_the_table() {
    let states = [
        EscrowState::Open,
        EscrowState::Accepted,
        EscrowState::InProgress,
        EscrowState::Settled,
        EscrowState::Cancelled,
    ];
    for state in states {
        let mut manager = EscrowManager::new();
        for event in EVENTS {
            if legal_next(state, event).is_none() {
                let hash = invoice_in_state(&mut manager, state);
                let before = manager.get_contract(&hash).unwrap();
                assert_eq!(
                    manager.apply_transition(&hash, event),
                    Err(EscrowError::IllegalTransition(state, event))
                );
                let after = manager.get_contract(&hash).unwrap();
                assert_eq!(before.contract_id, after.contract_id);
                assert_eq!(before.payment_hash, after.payment_hash);
                assert_eq!(before.amount_sats, after.amount_sats);
                assert_eq!(before.state, after.state);
            }
        }
    }
}

#[test]
fn transition_table_matches_step() {
    let states = [
        EscrowState::Open,
        EscrowState::Accepted,
        EscrowState::InProgress,
        EscrowState::Settled,
        EscrowState::Cancelled,
    ];
    for state in states {
        for event in EVENTS {
            assert_eq!(step(state, event), legal_next(state, event));
        }
    }
}

#[test]
fn exactly_one_acceptance_wins() {
    let mut manager = EscrowManager::new();
    let contract = manager.create_invoice(777).unwrap();
    let hash = contract.payment_hash;
    let mut outcomes = Vec::new();
    for _ in 0..3 {
        outcomes.push(manager.apply_transition(&hash, EscrowEvent::Accept));
    }
    assert_eq!(outcomes[0], Ok(EscrowState::Accepted));
    for loser in &outcomes[1..] {
        assert_eq!(
            *loser,
            Err(EscrowError::IllegalTransition(
                EscrowState::Accepted,
                EscrowEvent::Accept
            ))
        );
    }
}

#[test]
fn unknown_payment_hash_is_not_found() {
    let mut manager = EscrowManager::new();
    assert_eq!(
        manager.apply_transition("no such hash", EscrowEvent::Accept),
        Err(EscrowError::ContractNotFound)
    );
    assert!(manager.get_contract("no such hash").is_none());
}

#[test]
fn contract_constructor_starts_open() {
    let contract = HodlContract::new("id-1".to_string(), "hash-1".to_string(), 42);
    assert_eq!(contract.contract_id, "id-1");
    assert_eq!(contract.payment_hash, "hash-1");
    assert_eq!(contract.amount_sats, 42);
    assert_eq!(contract.state, EscrowState::Open);
}

#[test]
fn events_parse_from_their_wire_names() {
    assert_eq!(parse_event("accept"), Some(EscrowEvent::Accept));
    assert_eq!(parse_event("begin"), Some(EscrowEvent::Begin));
    assert_eq!(parse_event("settle"), Some(EscrowEvent::Settle));
    assert_eq!(parse_event("cancel"), Some(EscrowEvent::Cancel));
    assert_eq!(parse_event("refund"), None);
    assert_eq!(parse_event(""), None);
}
