use untron_solver::planner::{
    plan_trc20_consolidation, plan_trx_consolidation, select_delegate_executor_index,
    validate_trc20_consolidation_caps, validate_trx_consolidation_caps, ConsolidationCapError,
    TrxConsolidationPlan,
};

#[test]
fn trx_consolidation_picks_best_executor_and_plans_min_transfers() {
    let balances = vec![10, 5, 100];
    let plan = plan_trx_consolidation(&balances, 115, 2).ok().unwrap().unwrap();
    assert_eq!(plan.executor_index, 2);
    assert_eq!(plan.transfers, vec![(0, 10), (1, 5)]);
}

#[test]
fn trx_consolidation_respects_max_pre_txs() {
    let balances = vec![10, 5, 100];
    let plan = plan_trx_consolidation(&balances, 115, 1).ok().unwrap();
    assert!(plan.is_none());
}

#[test]
fn trc20_consolidation_works_like_trx() {
    let balances = vec![10u64, 5, 100];
    let plan = plan_trc20_consolidation(&balances, 115, 2)
        .ok()
        .unwrap()
        .unwrap();
    assert_eq!(plan.executor_index, 2);
    assert_eq!(plan.transfers, vec![(0, 10), (1, 5)]);
}

#[test]
fn consolidation_edge_cases() {
    let p = plan_trx_consolidation(&[], 0, 0).ok().unwrap().unwrap();
    assert_eq!(p.executor_index, 0);
    assert!(p.transfers.is_empty());
    assert!(plan_trx_consolidation(&[], 5, 3).ok().unwrap().is_none());
    let p = plan_trx_consolidation(&[7, 9, 9], 9, 0).ok().unwrap().unwrap();
    assert_eq!(p.executor_index, 2);
    assert!(p.transfers.is_empty());
    assert!(plan_trx_consolidation(&[1, 2, 3], 100, 5).ok().unwrap().is_none());
    let p = plan_trx_consolidation(&[50, -5, 40, 40], 120, 3).ok().unwrap().unwrap();
    assert_eq!(p.executor_index, 0);
    assert_eq!(p.transfers, vec![(2, 40), (3, 30)]);
}

#[test]
fn consolidation_caps_are_checked() {
    let plan = TrxConsolidationPlan { executor_index: 0, transfers: vec![(1, 10), (2, 20)] };
    assert!(validate_trx_consolidation_caps(&plan, 0, 0).is_ok());
    assert_eq!(
        validate_trx_consolidation_caps(&plan, 25, 0).unwrap_err(),
        ConsolidationCapError::TrxTotalExceeded
    );
    assert_eq!(
        validate_trx_consolidation_caps(&plan, 30, 15).unwrap_err(),
        ConsolidationCapError::TrxPerTxExceeded
    );
    assert_eq!(
        ConsolidationCapError::TrxTotalExceeded.message(),
        "consolidation max_total_trx_pull_sun exceeded"
    );
    let p = plan_trc20_consolidation(&[10, 5, 100], 115, 2).ok().unwrap().unwrap();
    assert_eq!(
        validate_trc20_consolidation_caps(&p, 0, 9).unwrap_err(),
        ConsolidationCapError::UsdtPerTxExceeded
    );
}

#[test]
fn select_delegate_executor_picks_best_effective_capacity() {
    let available = [100, 200, 150];
    let reserved = [0, 50, 0];
    assert_eq!(
        select_delegate_executor_index(&available, &reserved, 120),
        Some(1)
    );
    assert_eq!(
        select_delegate_executor_index(&available, &reserved, 180),
        None
    );
}

#[test]
fn select_delegate_executor_handles_reservations() {
    let available = [500, 500];
    let reserved = [450, 0];
    assert_eq!(
        select_delegate_executor_index(&available, &reserved, 100),
        Some(1)
    );
}

#[test]
fn select_delegate_executor_prefers_first_on_ties_and_checks_lengths() {
    assert_eq!(select_delegate_executor_index(&[300, 300], &[0, 0], 10), Some(0));
    assert_eq!(select_delegate_executor_index(&[300], &[0, 0], 10), None);
}

#[test]
fn trc20_plan_makes_the_fewest_pulls() {
    let plan = plan_trc20_consolidation(&[10, 6, 5, 5], 20, 3).ok().unwrap().unwrap();
    assert_eq!(plan.executor_index, 0);
    assert_eq!(plan.transfers.len(), 2);
    assert!(plan_trc20_consolidation(&[10, 3, 3, 3], 20, 3).ok().unwrap().is_none());
}
