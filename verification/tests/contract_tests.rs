use points::contract::{
    claim_prize, execute, execute_receive, get_balance, get_balances, get_prize_cost,
    get_prize_pool, instantiate, query, receive_nft, set_admin, set_prize_cost, Store,
};
use points::error::ContractError;
use points::msg::{BalanceKind, ExecuteMsg, InstantiateMsg, QueryAnswer, QueryMsg};

fn setup(prize_cost: u64) -> Store {
    let msg = InstantiateMsg {
        nois_proxy: "nois_proxy".to_string(),
        prize_cost,
        short_description: "short_description".to_string(),
        name: "name".to_string(),
    };
    instantiate("creator".to_string(), msg, true).unwrap()
}

fn rnd(fill: u8) -> Vec<u8> {
    vec![fill; 32]
}

#[test]
fn instantiate_sets_up_state() {
    let store = setup(10);
    assert_eq!(store.state.admin, "creator");
    assert_eq!(store.state.symbol, "POINTS");
    assert_eq!(store.state.short_description, "short_description");
    assert!(store.state.balances.is_empty());
    assert!(!store.state.locked);
    assert!(store.state.prize_pool.is_empty());
    assert_eq!(store.state.prize_cost, 10);
    assert!(store.state.whitelist.is_empty());
    assert_eq!(store.nois_proxy, "nois_proxy");
    assert!(store.outcomes.is_empty());
    assert_eq!(get_prize_cost(&store), 10);
}

#[test]
fn instantiate_rejects_invalid_proxy() {
    let msg = InstantiateMsg {
        nois_proxy: "not an address".to_string(),
        prize_cost: 10,
        short_description: "d".to_string(),
        name: "n".to_string(),
    };
    let r = instantiate("creator".to_string(), msg, false);
    assert!(matches!(r, Err(ContractError::InvalidProxyAddress)));
}

#[test]
fn receive_from_non_oracle_fails_and_stores_nothing() {
    let mut store = setup(10);
    let r = execute_receive(&mut store, "intruder".to_string(), "job1".to_string(), rnd(7));
    assert!(matches!(r, Err(ContractError::UnauthorizedOracleCallback)));
    assert!(store.outcomes.is_empty());
}

#[test]
fn receive_rejects_malformed_randomness() {
    let mut store = setup(10);
    let r = execute_receive(
        &mut store,
        "nois_proxy".to_string(),
        "job1".to_string(),
        vec![7u8; 31],
    );
    assert!(matches!(r, Err(ContractError::InvalidRandomness)));
    assert!(store.outcomes.is_empty());
}

#[test]
fn receive_rejects_duplicate_job_id_and_keeps_first_value() {
    let mut store = setup(10);
    let r1 = execute_receive(&mut store, "nois_proxy".to_string(), "job1".to_string(), rnd(1));
    assert!(r1.is_ok());
    let r2 = execute_receive(&mut store, "nois_proxy".to_string(), "job1".to_string(), rnd(2));
    assert!(matches!(r2, Err(ContractError::JobIdAlreadyPresent)));
    assert_eq!(store.outcomes.len(), 1);
    assert_eq!(store.outcomes[0].job_id, "job1");
    assert_eq!(store.outcomes[0].randomness, rnd(1));
    assert!(!store.outcomes[0].consumed);
}

#[test]
fn outcomes_are_kept_in_ascending_job_order() {
    let mut store = setup(10);
    execute_receive(&mut store, "nois_proxy".to_string(), "job_b".to_string(), rnd(1)).unwrap();
    execute_receive(&mut store, "nois_proxy".to_string(), "job_a".to_string(), rnd(2)).unwrap();
    execute_receive(&mut store, "nois_proxy".to_string(), "job_c".to_string(), rnd(3)).unwrap();
    assert_eq!(store.outcomes[0].job_id, "job_a");
    assert_eq!(store.outcomes[1].job_id, "job_b");
    assert_eq!(store.outcomes[2].job_id, "job_c");
}

#[test]
fn grant_and_spend_track_both_balances() {
    let mut store = setup(10);
    store.state.add_points("alice", 10).unwrap();
    assert_eq!(
        get_balance(&store, "alice", BalanceKind::Lifetime).unwrap(),
        10
    );
    assert_eq!(get_balance(&store, "alice", BalanceKind::Spent).unwrap(), 0);
    store.state.spend_points("alice", 4).unwrap();
    assert_eq!(
        get_balance(&store, "alice", BalanceKind::Lifetime).unwrap(),
        10
    );
    assert_eq!(get_balance(&store, "alice", BalanceKind::Spent).unwrap(), 4);
    let r = store.state.spend_points("alice", 7);
    assert!(matches!(r, Err(ContractError::InsufficientBalance)));
    assert_eq!(get_balance(&store, "alice", BalanceKind::Spent).unwrap(), 4);
}

#[test]
fn spend_from_missing_account_fails() {
    let mut store = setup(10);
    let r = store.state.spend_points("nobody", 1);
    assert!(matches!(r, Err(ContractError::InsufficientBalance)));
}

#[test]
fn grant_overflow_is_rejected() {
    let mut store = setup(10);
    store.state.add_points("alice", u64::MAX).unwrap();
    let r = store.state.add_points("alice", 1);
    assert!(matches!(r, Err(ContractError::BalanceOverflow)));
    assert_eq!(
        get_balance(&store, "alice", BalanceKind::Lifetime).unwrap(),
        u64::MAX
    );
}

#[test]
fn claim_with_invalid_address_fails() {
    let mut store = setup(10);
    let r = claim_prize(&mut store, "al ice".to_string(), false);
    assert!(matches!(r, Err(ContractError::InvalidAddress)));
}

#[test]
fn claim_without_any_earned_points_fails_unchanged() {
    let mut store = setup(10);
    receive_nft(&mut store, "custodian".to_string(), "token1".to_string()).unwrap();
    execute_receive(&mut store, "nois_proxy".to_string(), "job1".to_string(), rnd(9)).unwrap();

    // No record at all.
    let r = claim_prize(&mut store, "alice".to_string(), true);
    assert!(matches!(r, Err(ContractError::Unauthorized)));

    // A record that never earned a point.
    store.state.add_points("alice", 0).unwrap();
    let r = claim_prize(&mut store, "alice".to_string(), true);
    assert!(matches!(r, Err(ContractError::Unauthorized)));

    assert_eq!(store.state.prize_pool.len(), 1);
    assert!(!store.outcomes[0].consumed);
    assert_eq!(get_balance(&store, "alice", BalanceKind::Spent).unwrap(), 0);
}

#[test]
fn claim_without_randomness_fails() {
    let mut store = setup(10);
    store.state.add_points("alice", 10).unwrap();
    receive_nft(&mut store, "custodian".to_string(), "token1".to_string()).unwrap();
    let r = claim_prize(&mut store, "alice".to_string(), true);
    assert!(matches!(r, Err(ContractError::NoRandomnessAvailable)));
    assert_eq!(store.state.prize_pool.len(), 1);
    assert_eq!(get_balance(&store, "alice", BalanceKind::Spent).unwrap(), 0);
}

#[test]
fn claim_with_insufficient_points_fails_unchanged() {
    let mut store = setup(10);
    store.state.add_points("alice", 5).unwrap();
    receive_nft(&mut store, "custodian".to_string(), "token1".to_string()).unwrap();
    execute_receive(&mut store, "nois_proxy".to_string(), "job1".to_string(), rnd(9)).unwrap();
    let r = claim_prize(&mut store, "alice".to_string(), true);
    assert!(matches!(r, Err(ContractError::Unauthorized)));
    assert_eq!(store.state.prize_pool.len(), 1);
    assert!(!store.outcomes[0].consumed);
    assert_eq!(get_balance(&store, "alice", BalanceKind::Spent).unwrap(), 0);
}

#[test]
fn claim_with_empty_pool_fails_unchanged() {
    let mut store = setup(10);
    store.state.add_points("alice", 10).unwrap();
    execute_receive(&mut store, "nois_proxy".to_string(), "job1".to_string(), rnd(9)).unwrap();
    let r = claim_prize(&mut store, "alice".to_string(), true);
    assert!(matches!(r, Err(ContractError::EmptyPrizePool)));
    assert!(!store.outcomes[0].consumed);
    assert_eq!(get_balance(&store, "alice", BalanceKind::Spent).unwrap(), 0);
}

#[test]
fn full_claim_scenario() {
    let mut store = setup(1);
    store.state.add_points("alice", 10).unwrap();
    receive_nft(&mut store, "X".to_string(), "token1".to_string()).unwrap();
    set_prize_cost(&mut store, "creator".to_string(), 10).unwrap();
    execute_receive(&mut store, "nois_proxy".to_string(), "job1".to_string(), rnd(0x77)).unwrap();

    let ti = claim_prize(&mut store, "alice".to_string(), true).unwrap();
    assert_eq!(ti.contract_addr, "X");
    assert_eq!(ti.token_id, "token1");
    assert_eq!(ti.recipient, "alice");
    assert!(store.state.prize_pool.is_empty());
    assert_eq!(
        get_balance(&store, "alice", BalanceKind::Spent).unwrap(),
        10
    );
    assert_eq!(
        get_balance(&store, "alice", BalanceKind::Lifetime).unwrap(),
        10
    );
    assert!(store.outcomes[0].consumed);

    // The only outcome is consumed, so the second claim fails on the
    // randomness check, which runs before the pool check.
    let r = claim_prize(&mut store, "alice".to_string(), true);
    assert!(matches!(r, Err(ContractError::NoRandomnessAvailable)));
}

#[test]
fn claim_consumes_first_unconsumed_job_in_ascending_order() {
    let mut store = setup(1);
    store.state.add_points("alice", 5).unwrap();
    receive_nft(&mut store, "X".to_string(), "token1".to_string()).unwrap();
    receive_nft(&mut store, "X".to_string(), "token2".to_string()).unwrap();
    execute_receive(&mut store, "nois_proxy".to_string(), "job_b".to_string(), rnd(1)).unwrap();
    execute_receive(&mut store, "nois_proxy".to_string(), "job_a".to_string(), rnd(2)).unwrap();

    claim_prize(&mut store, "alice".to_string(), true).unwrap();
    assert_eq!(store.outcomes[0].job_id, "job_a");
    assert!(store.outcomes[0].consumed);
    assert!(!store.outcomes[1].consumed);

    claim_prize(&mut store, "alice".to_string(), true).unwrap();
    assert!(store.outcomes[1].consumed);
    assert_eq!(get_balance(&store, "alice", BalanceKind::Spent).unwrap(), 2);
    assert!(store.state.prize_pool.is_empty());
}

#[test]
fn set_admin_gates_on_current_admin() {
    let mut store = setup(10);
    let r = set_admin(&mut store, "mallory".to_string(), "mallory".to_string());
    assert!(matches!(r, Err(ContractError::Unauthorized)));
    assert_eq!(store.state.admin, "creator");

    set_admin(&mut store, "creator".to_string(), "bob".to_string()).unwrap();
    assert_eq!(store.state.admin, "bob");

    let r = set_prize_cost(&mut store, "creator".to_string(), 1);
    assert!(matches!(r, Err(ContractError::Unauthorized)));
    set_prize_cost(&mut store, "bob".to_string(), 1).unwrap();
    assert_eq!(store.state.prize_cost, 1);
}

#[test]
fn execute_dispatches_each_message() {
    let mut store = setup(10);
    let r = execute(
        &mut store,
        "anyone".to_string(),
        ExecuteMsg::Cw721Receive {
            sender: "custodian".to_string(),
            token_id: "tok".to_string(),
        },
        false,
    );
    assert!(matches!(r, Ok(None)));
    assert_eq!(store.state.prize_pool.len(), 1);

    let r = execute(
        &mut store,
        "creator".to_string(),
        ExecuteMsg::SetPrizeCost { cost: 3 },
        false,
    );
    assert!(matches!(r, Ok(None)));
    assert_eq!(store.state.prize_cost, 3);

    let r = execute(
        &mut store,
        "nois_proxy".to_string(),
        ExecuteMsg::NoisReceive {
            job_id: "job1".to_string(),
            randomness: rnd(4),
        },
        false,
    );
    assert!(matches!(r, Ok(None)));
    assert_eq!(store.outcomes.len(), 1);

    store.state.add_points("alice", 3).unwrap();
    let r = execute(
        &mut store,
        "anyone".to_string(),
        ExecuteMsg::ClaimPrize {
            address: "alice".to_string(),
        },
        true,
    );
    let ti = r.unwrap().unwrap();
    assert_eq!(ti.recipient, "alice");
    assert_eq!(ti.contract_addr, "custodian");
    assert_eq!(ti.token_id, "tok");

    let r = execute(
        &mut store,
        "creator".to_string(),
        ExecuteMsg::SetAdmin {
            address: "bob".to_string(),
        },
        false,
    );
    assert!(matches!(r, Ok(None)));
    assert_eq!(store.state.admin, "bob");
}

#[test]
fn queries_report_the_store() {
    let mut store = setup(10);
    store.state.add_points("alice", 7).unwrap();
    store.state.add_points("bob", 2).unwrap();
    store.state.spend_points("alice", 3).unwrap();
    receive_nft(&mut store, "X".to_string(), "token1".to_string()).unwrap();

    match query(&store, QueryMsg::PrizePool).unwrap() {
        QueryAnswer::PrizePool(pool) => {
            assert_eq!(pool, vec![("X".to_string(), "token1".to_string())]);
        }
        _ => panic!("wrong answer kind"),
    }
    match query(&store, QueryMsg::PrizeCost).unwrap() {
        QueryAnswer::PrizeCost(c) => assert_eq!(c, 10),
        _ => panic!("wrong answer kind"),
    }
    match query(&store, QueryMsg::Balances).unwrap() {
        QueryAnswer::Balances(b) => {
            assert_eq!(
                b,
                vec![
                    ("alice".to_string(), (7, 3)),
                    ("bob".to_string(), (2, 0)),
                ]
            );
        }
        _ => panic!("wrong answer kind"),
    }
    match query(
        &store,
        QueryMsg::LifetimeBalance {
            address: "alice".to_string(),
        },
    )
    .unwrap()
    {
        QueryAnswer::Balance(b) => assert_eq!(b, 7),
        _ => panic!("wrong answer kind"),
    }
    match query(
        &store,
        QueryMsg::SpentBalance {
            address: "alice".to_string(),
        },
    )
    .unwrap()
    {
        QueryAnswer::Balance(b) => assert_eq!(b, 3),
        _ => panic!("wrong answer kind"),
    }
    let r = query(
        &store,
        QueryMsg::LifetimeBalance {
            address: "nobody".to_string(),
        },
    );
    assert!(matches!(r, Err(ContractError::Unauthorized)));

    let pool = get_prize_pool(&store);
    assert_eq!(pool.len(), 1);
    let balances = get_balances(&store);
    assert_eq!(balances.len(), 2);
}
