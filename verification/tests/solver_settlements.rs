use std::cell::RefCell;
use std::rc::Rc;

use chrono::Utc;
use num::BigRational;
use primitive_types::U256;

use settlement_core::maturity::{
    retain_mature_settlements, AuctionResult, Solver, SolverRejectionReason,
};
use settlement_core::orders::{has_user_order, Order, OrderClass, OrderUid, Settlement, Trade};

#[derive(Clone)]
struct DummySolver {
    notifications: Rc<RefCell<Vec<(i64, AuctionResult)>>>,
}

impl DummySolver {
    fn new() -> Self {
        DummySolver { notifications: Rc::new(RefCell::new(Vec::new())) }
    }
}

impl Solver for DummySolver {
    fn name(&self) -> String {
        String::from("dummy")
    }

    fn notify_auction_result(&self, auction_id: i64, result: AuctionResult) {
        self.notifications.borrow_mut().push((auction_id, result));
    }
}

fn trade(created_at: i64, uid: u8, class: OrderClass) -> Trade {
    Trade {
        order: Order { uid: OrderUid([uid; 56]), creation_date: created_at, class },
        executed_amount: U256::from(1u64),
    }
}

fn settlements_into_dummy_solver_settlements(
    settlements: Vec<Settlement>,
) -> Vec<(DummySolver, Settlement)> {
    settlements.into_iter().map(|settlement| (DummySolver::new(), settlement)).collect()
}

fn solver_settlements_into_settlements(
    solver_settlements: &[(DummySolver, Settlement)],
) -> Vec<Settlement> {
    solver_settlements.iter().map(|(_, settlement)| settlement.clone()).collect()
}

fn assert_same_settlements(expected: &[Settlement], actual: &[Settlement]) {
    assert!(expected
        .iter()
        .map(|s| s.trades().clone())
        .eq(actual.iter().map(|s| s.trades().clone())));
}

#[test]
fn no_mature_orders() {
    let recent = Utc::now().timestamp();
    let min_age = 50u64;

    let s1 = Settlement::with_default_prices(vec![
        trade(recent, 1, OrderClass::Market),
        trade(recent, 2, OrderClass::Market),
    ]);
    let s2 = Settlement::with_default_prices(vec![
        trade(recent, 2, OrderClass::Market),
        trade(recent, 3, OrderClass::Market),
    ]);
    let s3 = Settlement::with_default_prices(vec![
        trade(recent, 4, OrderClass::Market),
        trade(recent, 5, OrderClass::Market),
    ]);
    let settlements = vec![s1, s2, s3];
    let mature_settlements =
        retain_mature_settlements(min_age, settlements_into_dummy_solver_settlements(settlements), 0);

    assert_same_settlements(&solver_settlements_into_settlements(&mature_settlements), &[]);
}

#[test]
fn no_mature_orders_notifies_each_solver_once() {
    let recent = Utc::now().timestamp();
    let min_age = 50u64;

    let settlements = vec![
        Settlement::with_default_prices(vec![trade(recent, 1, OrderClass::Market)]),
        Settlement::with_default_prices(vec![trade(recent, 2, OrderClass::Market)]),
        Settlement::with_default_prices(vec![trade(recent, 3, OrderClass::Market)]),
    ];
    let pairs = settlements_into_dummy_solver_settlements(settlements);
    let handles: Vec<DummySolver> = pairs.iter().map(|(s, _)| s.clone()).collect();
    let retained = retain_mature_settlements(min_age, pairs, 7);
    assert!(retained.is_empty());
    for handle in handles {
        let notes = handle.notifications.borrow();
        assert_eq!(notes.len(), 1);
        assert_eq!(
            notes[0],
            (7i64, AuctionResult::Rejected(SolverRejectionReason::NoMatureOrders))
        );
    }
}

#[test]
fn mature_by_age() {
    let recent = Utc::now().timestamp();
    let old = Utc::now().timestamp() - 600;
    let min_age = 60u64;

    let s1 = Settlement::with_default_prices(vec![
        trade(old, 1, OrderClass::Market),
        trade(recent, 2, OrderClass::Limit),
    ]);
    let s2 = Settlement::with_default_prices(vec![
        trade(recent, 3, OrderClass::Market),
        trade(recent, 4, OrderClass::Market),
    ]);
    let s3 = Settlement::with_default_prices(vec![
        trade(recent, 5, OrderClass::Market),
        trade(old, 6, OrderClass::Liquidity),
    ]);
    let settlements = vec![s1.clone(), s2, s3];
    let mature_settlements =
        retain_mature_settlements(min_age, settlements_into_dummy_solver_settlements(settlements), 0);

    assert_same_settlements(&solver_settlements_into_settlements(&mature_settlements), &[s1]);
}

#[test]
fn mature_by_association() {
    let recent = Utc::now().timestamp();
    let old = Utc::now().timestamp() - 600;
    let min_age = 60u64;

    let s1 = Settlement::with_default_prices(vec![
        trade(recent, 1, OrderClass::Market),
        trade(recent, 2, OrderClass::Market),
    ]);
    let s2 = Settlement::with_default_prices(vec![
        trade(recent, 2, OrderClass::Market),
        trade(recent, 3, OrderClass::Market),
    ]);
    let s3 = Settlement::with_default_prices(vec![
        trade(recent, 3, OrderClass::Market),
        trade(old, 4, OrderClass::Market),
    ]);
    // this will not be included because it only contains recent orders which are not
    // referenced in any other valid settlements
    let s4 = Settlement::with_default_prices(vec![
        trade(recent, 5, OrderClass::Market),
        trade(recent, 6, OrderClass::Market),
    ]);
    let settlements = vec![s1.clone(), s2.clone(), s3.clone(), s4];
    let mature_settlements =
        retain_mature_settlements(min_age, settlements_into_dummy_solver_settlements(settlements), 0);

    assert_same_settlements(
        &solver_settlements_into_settlements(&mature_settlements),
        &[s1, s2, s3],
    );
}

#[test]
fn mature_by_association_in_between() {
    let recent = Utc::now().timestamp();
    let old = Utc::now().timestamp() - 600;
    let min_age = 60u64;

    let s1 = Settlement::with_default_prices(vec![
        trade(old, 1, OrderClass::Market),
        trade(recent, 2, OrderClass::Market),
    ]);
    let s2 = Settlement::with_default_prices(vec![trade(recent, 3, OrderClass::Market)]);
    let s3 = Settlement::with_default_prices(vec![
        trade(recent, 2, OrderClass::Market),
        trade(recent, 3, OrderClass::Market),
    ]);
    let s4 = Settlement::with_default_prices(vec![trade(recent, 3, OrderClass::Market)]);
    let settlements = vec![s1.clone(), s2.clone(), s3.clone(), s4.clone()];
    let mature_settlements =
        retain_mature_settlements(min_age, settlements_into_dummy_solver_settlements(settlements), 0);

    assert_same_settlements(
        &solver_settlements_into_settlements(&mature_settlements),
        &[s1, s2, s3, s4],
    );
}

#[test]
fn mature_by_association_of_liquidity_order_is_not_accepted() {
    let recent = Utc::now().timestamp();
    let old = Utc::now().timestamp() - 600;
    let min_age = 60u64;

    let s1 = Settlement::with_default_prices(vec![
        trade(recent, 1, OrderClass::Market),
        trade(recent, 2, OrderClass::Market),
    ]);
    let s2 = Settlement::with_default_prices(vec![
        trade(recent, 2, OrderClass::Market),
        trade(old, 3, OrderClass::Liquidity),
    ]);
    let settlements = vec![s1, s2];
    let mature_settlements =
        retain_mature_settlements(min_age, settlements_into_dummy_solver_settlements(settlements), 0);
    assert_same_settlements(&solver_settlements_into_settlements(&mature_settlements), &[]);
}

#[test]
fn compute_objective_value() {
    // Surplus1 is 1.003 ETH
    let surplus1 = BigRational::from_integer(1_003_000_000_000_000_000_u128.into());

    // Surplus2 is 1.009 ETH
    let surplus2 = BigRational::from_integer(1_009_000_000_000_000_000_u128.into());

    // Fees is 0.001 ETH
    let solver_fees = BigRational::from_integer(1_000_000_000_000_000_u128.into());

    let gas_estimate1 = BigRational::from_integer(300_000.into());
    let gas_estimate2 = BigRational::from_integer(500_000.into());

    // Three cases when using three different gas prices:

    // Case 1: objective value 1 < objective value 2

    // Gas price is 10 gwei
    let gas_price = BigRational::from_integer(10_000_000_000_u128.into());

    // Objective value 1 is 1.004 - 3e5 * 10e-9 = 1.001 ETH
    let obj_value1 = settlement_core::objective::compute_objective_value(
        &surplus1,
        &solver_fees,
        &gas_estimate1,
        &gas_price,
    );

    assert_eq!(
        obj_value1,
        BigRational::from_integer(1_001_000_000_000_000_000_u128.into())
    );

    // Objective value 2 is 1.01 - 5e5 * 10e-9 = 1.005 ETH
    let obj_value2 = settlement_core::objective::compute_objective_value(
        &surplus2,
        &solver_fees,
        &gas_estimate2,
        &gas_price,
    );

    assert_eq!(
        obj_value2,
        BigRational::from_integer(1_005_000_000_000_000_000_u128.into())
    );

    assert!(obj_value1 < obj_value2);

    // Case 2: objective value 1 = objective value 2

    // Gas price is 30 gwei
    let gas_price = BigRational::from_integer(30_000_000_000_u128.into());

    // Objective value 1 is 1.004 - 3e5 * 30e-9 = 0.995 ETH
    let obj_value1 = settlement_core::objective::compute_objective_value(
        &surplus1,
        &solver_fees,
        &gas_estimate1,
        &gas_price,
    );

    assert_eq!(
        obj_value1,
        BigRational::from_integer(995_000_000_000_000_000_u128.into())
    );

    // Objective value 2 is 1.01 - 5e5 * 30e-9 = 0.995 ETH
    let obj_value2 = settlement_core::objective::compute_objective_value(
        &surplus2,
        &solver_fees,
        &gas_estimate2,
        &gas_price,
    );

    assert_eq!(
        obj_value2,
        BigRational::from_integer(995_000_000_000_000_000_u128.into())
    );

    assert!(obj_value1 == obj_value2);

    // Case 3: objective value 1 > objective value 2

    // Gas price is 50 gwei
    let gas_price = BigRational::from_integer(50_000_000_000_u128.into());

    // Objective value 1 is 1.004 - 3e5 * 50e-9 = 0.989 ETH
    let obj_value1 = settlement_core::objective::compute_objective_value(
        &surplus1,
        &solver_fees,
        &gas_estimate1,
        &gas_price,
    );

    assert_eq!(
        obj_value1,
        BigRational::from_integer(989_000_000_000_000_000_u128.into())
    );

    // Objective value 2 is 1.01 - 5e5 * 50e-9 = 0.985 ETH
    let obj_value2 = settlement_core::objective::compute_objective_value(
        &surplus2,
        &solver_fees,
        &gas_estimate2,
        &gas_price,
    );

    assert_eq!(
        obj_value2,
        BigRational::from_integer(985_000_000_000_000_000_u128.into())
    );

    assert!(obj_value1 > obj_value2);
}

#[test]
fn has_user_order_() {
    let order = |class| trade(0, 0, class);

    let settlement = Settlement::with_default_prices(vec![]);
    assert!(!has_user_order(&settlement));

    let settlement = Settlement::with_default_prices(vec![order(OrderClass::Limit)]);
    assert!(has_user_order(&settlement));

    let settlement = Settlement::with_default_prices(vec![order(OrderClass::Liquidity)]);
    assert!(!has_user_order(&settlement));

    let settlement = Settlement::with_default_prices(vec![order(OrderClass::Market)]);
    assert!(has_user_order(&settlement));

    let settlement = Settlement::with_default_prices(vec![
        order(OrderClass::Market),
        order(OrderClass::Liquidity),
    ]);
    assert!(has_user_order(&settlement));

    let settlement = Settlement::with_default_prices(vec![
        order(OrderClass::Liquidity),
        order(OrderClass::Limit),
    ]);
    assert!(has_user_order(&settlement));
}

#[test]
fn maturity_filter_is_order_independent() {
    let old: i64 = 100;
    let recent: i64 = 900;
    let cutoff: i64 = 500;

    let s1 = Settlement::with_default_prices(vec![
        trade(recent, 1, OrderClass::Market),
        trade(recent, 2, OrderClass::Market),
    ]);
    let s2 = Settlement::with_default_prices(vec![
        trade(recent, 2, OrderClass::Market),
        trade(old, 3, OrderClass::Market),
    ]);
    let s3 = Settlement::with_default_prices(vec![trade(recent, 9, OrderClass::Market)]);

    let forward = vec![s1.clone(), s2.clone(), s3.clone()];
    let backward = vec![s3.clone(), s2.clone(), s1.clone()];

    let kept_forward = settlement_core::maturity::retain_mature_settlements_at(
        cutoff,
        settlements_into_dummy_solver_settlements(forward),
        0,
    );
    let kept_backward = settlement_core::maturity::retain_mature_settlements_at(
        cutoff,
        settlements_into_dummy_solver_settlements(backward),
        0,
    );

    let mut fwd = solver_settlements_into_settlements(&kept_forward);
    let mut bwd = solver_settlements_into_settlements(&kept_backward);
    assert_eq!(fwd.len(), 2);
    assert_eq!(bwd.len(), 2);
    bwd.reverse();
    assert!(fwd.drain(..).eq(bwd.drain(..)));
}

#[test]
fn user_trades_keeps_only_market_and_limit() {
    let s = Settlement::with_default_prices(vec![
        trade(1, 1, OrderClass::Market),
        trade(2, 2, OrderClass::Liquidity),
        trade(3, 3, OrderClass::Limit),
    ]);
    let user = s.user_trades();
    assert_eq!(user.len(), 2);
    assert_eq!(user[0], trade(1, 1, OrderClass::Market));
    assert_eq!(user[1], trade(3, 3, OrderClass::Limit));
}
