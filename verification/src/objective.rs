//! The objective value calculator and the settlement rater: the exact
//! rational `surplus + solver_fees - gas_estimate * gas_price` that ranks
//! competing settlements.

use vstd::prelude::*;

use crate::numeric::u256_of;
use crate::orders::Settlement;
use crate::rational::{
    lemma_eqv_trans, lemma_minus_congruence, lemma_wf_ops, rat_eqv, rat_from_u256, rat_lt,
    rat_minus, rat_model, rat_of_int, rat_plus, rat_prod, rat_sum, rat_diff, rat_times, rat_wf, Rat,
};

verus! {

/// The objective value as a rational: surplus plus fees minus gas cost.
pub open spec fn objective_model(surplus: Rat, solver_fees: Rat, gas: Rat, gas_price: Rat) -> Rat {
    rat_minus(rat_plus(surplus, solver_fees), rat_times(gas, gas_price))
}

/// Computes `surplus + solver_fees - gas_estimate * gas_price` in exact
/// rational arithmetic. Total: it never fails, and equal economic inputs
/// give the exactly equal value whatever their representation.
pub fn compute_objective_value(
    surplus: &num::BigRational,
    solver_fees: &num::BigRational,
    gas_estimate: &num::BigRational,
    gas_price: &num::BigRational,
) -> (r: num::BigRational)
    requires
        rat_wf(rat_model(*surplus)),
        rat_wf(rat_model(*solver_fees)),
        rat_wf(rat_model(*gas_estimate)),
        rat_wf(rat_model(*gas_price)),
    ensures
        rat_wf(rat_model(r)),
        rat_eqv(
            rat_model(r),
            objective_model(
                rat_model(*surplus),
                rat_model(*solver_fees),
                rat_model(*gas_estimate),
                rat_model(*gas_price),
            ),
        ),
{
    let cost = rat_prod(gas_estimate, gas_price);
    let gain = rat_sum(surplus, solver_fees);
    let r = rat_diff(&gain, &cost);
    proof {
        let ms = rat_model(*surplus);
        let mf = rat_model(*solver_fees);
        let mg = rat_model(*gas_estimate);
        let mp = rat_model(*gas_price);
        lemma_wf_ops(ms, mf);
        lemma_wf_ops(mg, mp);
        lemma_wf_ops(rat_model(gain), rat_model(cost));
        lemma_minus_congruence(
            rat_model(gain),
            rat_plus(ms, mf),
            rat_model(cost),
            rat_times(mg, mp),
        );
        lemma_eqv_trans(
            rat_model(r),
            rat_minus(rat_model(gain), rat_model(cost)),
            objective_model(ms, mf, mg, mp),
        );
    }
    r
}

/// A settlement bound to its computed surplus, fees, gas estimate and gas
/// price for one evaluation pass; the objective value derives from these.
#[derive(Clone, Debug)]
pub struct RatedSettlement {
    /// Identifies a settlement during a run loop.
    pub id: usize,
    pub settlement: Settlement,
    /// In wei.
    pub surplus: num::BigRational,
    /// In wei.
    pub unscaled_subsidized_fee: num::BigRational,
    /// In wei.
    pub scaled_unsubsidized_fee: num::BigRational,
    /// In gas units.
    pub gas_estimate: primitive_types::U256,
    /// In wei per gas unit.
    pub gas_price: num::BigRational,
}

impl RatedSettlement {
    /// The settlement's ranking key: its objective value, computed from the
    /// surplus, the scaled unsubsidized fee, and the gas cost.
    pub fn objective_value(&self) -> (r: num::BigRational)
        requires
            rat_wf(rat_model(self.surplus)),
            rat_wf(rat_model(self.scaled_unsubsidized_fee)),
            rat_wf(rat_model(self.gas_price)),
        ensures
            rat_wf(rat_model(r)),
            rat_eqv(
                rat_model(r),
                objective_model(
                    rat_model(self.surplus),
                    rat_model(self.scaled_unsubsidized_fee),
                    rat_of_int(u256_of(self.gas_estimate) as int),
                    rat_model(self.gas_price),
                ),
            ),
    {
        let gas_estimate = rat_from_u256(&self.gas_estimate);
        compute_objective_value(
            &self.surplus,
            &self.scaled_unsubsidized_fee,
            &gas_estimate,
            &self.gas_price,
        )
    }
}

/// Law: the objective value is strictly decreasing in the gas price, other
/// inputs held fixed, whenever the gas estimate is positive.
pub proof fn lemma_objective_strictly_decreasing_in_gas_price(
    s: Rat,
    f: Rat,
    g: Rat,
    p1: Rat,
    p2: Rat,
)
    requires
        rat_wf(s),
        rat_wf(f),
        rat_wf(g),
        rat_wf(p1),
        rat_wf(p2),
        g.n > 0,
        rat_lt(p1, p2),
    ensures
        rat_lt(objective_model(s, f, g, p2), objective_model(s, f, g, p1)),
{
    let a = s.n * f.d + f.n * s.d;
    let dd = s.d * f.d;
    let o1 = objective_model(s, f, g, p1);
    let o2 = objective_model(s, f, g, p2);
    assert(o1.n == a * (g.d * p1.d) - (g.n * p1.n) * dd);
    assert(o1.d == dd * (g.d * p1.d));
    assert(o2.n == a * (g.d * p2.d) - (g.n * p2.n) * dd);
    assert(o2.d == dd * (g.d * p2.d));
    let x1 = a * (g.d * p1.d);
    let y1 = (g.n * p1.n) * dd;
    let x2 = a * (g.d * p2.d);
    let y2 = (g.n * p2.n) * dd;
    let z1 = dd * (g.d * p1.d);
    let z2 = dd * (g.d * p2.d);
    let c = ((g.n * dd) * dd) * g.d;
    assert(o2.n * o1.d == x2 * z1 - y2 * z1) by (nonlinear_arith)
        requires
            o2.n == x2 - y2,
            o1.d == z1,
    ;
    assert(o1.n * o2.d == x1 * z2 - y1 * z2) by (nonlinear_arith)
        requires
            o1.n == x1 - y1,
            o2.d == z2,
    ;
    assert(x2 * z1 == x1 * z2) by (nonlinear_arith)
        requires
            x1 == a * (g.d * p1.d),
            x2 == a * (g.d * p2.d),
            z1 == dd * (g.d * p1.d),
            z2 == dd * (g.d * p2.d),
    ;
    assert(y2 * z1 == c * (p2.n * p1.d)) by (nonlinear_arith)
        requires
            y2 == (g.n * p2.n) * dd,
            z1 == dd * (g.d * p1.d),
            c == ((g.n * dd) * dd) * g.d,
    ;
    assert(y1 * z2 == c * (p1.n * p2.d)) by (nonlinear_arith)
        requires
            y1 == (g.n * p1.n) * dd,
            z2 == dd * (g.d * p2.d),
            c == ((g.n * dd) * dd) * g.d,
    ;
    assert(c > 0) by (nonlinear_arith)
        requires
            g.n > 0,
            g.d > 0,
            dd == s.d * f.d,
            s.d > 0,
            f.d > 0,
            c == ((g.n * dd) * dd) * g.d,
    ;
    assert(c * (p1.n * p2.d) < c * (p2.n * p1.d)) by (nonlinear_arith)
        requires
            c > 0,
            p1.n * p2.d < p2.n * p1.d,
    ;
    assert(o2.n * o1.d < o1.n * o2.d);
}

} // verus!
