//! The order, trade and settlement model: the passive data that candidate
//! settlements are made of, and the accessors that tell user trades apart
//! from machine-generated liquidity trades.

use vstd::prelude::*;

verus! {

broadcast use vstd::array::group_array_axioms;

/// The 56-byte unique identifier of an order within an auction.
#[derive(Clone, Copy, Debug, PartialEq, Eq)]
pub struct OrderUid(pub [u8; 56]);

impl View for OrderUid {
    type V = Seq<u8>;

    open spec fn view(&self) -> Seq<u8> {
        self.0@
    }
}

/// Compares two order identifiers byte for byte.
pub fn uid_eq(a: &OrderUid, b: &OrderUid) -> (r: bool)
    ensures
        r == (a@ == b@),
{
    for i in 0..56usize
        invariant
            forall|k: int| 0 <= k < i ==> a.0@[k] == b.0@[k],
    {
        if a.0[i] != b.0[i] {
            assert(a@[i as int] != b@[i as int]);
            return false;
        }
    }
    proof {
        assert(a@ =~= b@);
    }
    true
}

/// Market and Limit orders are user orders; Liquidity orders are
/// protocol-generated and never count toward maturity.
#[derive(Clone, Copy, Debug, PartialEq, Eq, Structural)]
pub enum OrderClass {
    Market,
    Limit,
    Liquidity,
}

/// An order: immutable identity, creation time (seconds since the epoch),
/// and class.
#[derive(Clone, Copy, Debug, PartialEq, Eq)]
pub struct Order {
    pub uid: OrderUid,
    pub creation_date: i64,
    pub class: OrderClass,
}

/// One trade of a settlement: the order it executes and the executed
/// amount in the traded token's smallest denomination.
#[derive(Clone, Copy, Debug, PartialEq, Eq)]
pub struct Trade {
    pub order: Order,
    pub executed_amount: primitive_types::U256,
}

/// Whether a trade belongs to a real user (Market or Limit class).
pub open spec fn is_user_trade(t: Trade) -> bool {
    t.order.class == OrderClass::Market || t.order.class == OrderClass::Limit
}

/// The subsequence of user trades of a trade list.
pub open spec fn user_trades_of(s: Seq<Trade>) -> Seq<Trade>
    decreases s.len(),
{
    if s.len() == 0 {
        Seq::empty()
    } else if is_user_trade(s.last()) {
        user_trades_of(s.drop_last()).push(s.last())
    } else {
        user_trades_of(s.drop_last())
    }
}

/// A price list stands for a map: every token is priced at most once.
pub open spec fn prices_wf(
    prices: Seq<(primitive_types::H160, primitive_types::U256)>,
) -> bool {
    forall|i: int, j: int|
        0 <= i < j < prices.len() ==> (#[trigger] prices[i]).0 != (#[trigger] prices[j]).0
}

/// A settlement proposed by a solver: an ordered list of trades and the
/// clearing prices of the tokens they touch. Settlements are read-only to
/// this crate.
#[derive(Clone, Debug, PartialEq)]
pub struct Settlement {
    pub trades: Vec<Trade>,
    pub prices: Vec<(primitive_types::H160, primitive_types::U256)>,
}

impl Settlement {
    /// Builds a settlement from its trades and prices.
    pub fn new(
        trades: Vec<Trade>,
        prices: Vec<(primitive_types::H160, primitive_types::U256)>,
    ) -> (r: Settlement)
        requires
            prices_wf(prices@),
        ensures
            r.trades == trades,
            r.prices == prices,
            prices_wf(r.prices@),
    {
        Settlement { trades, prices }
    }

    /// Builds a settlement from its trades alone, with an empty price map.
    pub fn with_default_prices(trades: Vec<Trade>) -> (r: Settlement)
        ensures
            r.trades == trades,
            r.prices@ == Seq::<(primitive_types::H160, primitive_types::U256)>::empty(),
            prices_wf(r.prices@),
    {
        Settlement { trades, prices: Vec::new() }
    }

    /// All trades of the settlement, in order.
    pub fn trades(&self) -> (r: &Vec<Trade>)
        ensures
            r == &self.trades,
    {
        &self.trades
    }

    /// The subsequence of trades whose order is Market or Limit class.
    pub fn user_trades(&self) -> (r: Vec<Trade>)
        ensures
            r@ == user_trades_of(self.trades@),
    {
        let mut r: Vec<Trade> = Vec::new();
        let n = self.trades.len();
        for i in 0..n
            invariant
                n == self.trades@.len(),
                r@ == user_trades_of(self.trades@.take(i as int)),
        {
            let t = self.trades[i];
            proof {
                assert(self.trades@.take(i + 1).drop_last() =~= self.trades@.take(i as int));
                assert(self.trades@.take(i + 1).last() == self.trades@[i as int]);
            }
            if matches!(t.order.class, OrderClass::Market | OrderClass::Limit) {
                r.push(t);
            }
        }
        proof {
            assert(self.trades@.take(n as int) =~= self.trades@);
        }
        r
    }
}

/// Whether a settlement contains at least one user trade.
pub open spec fn spec_has_user_order(s: Settlement) -> bool {
    exists|i: int| 0 <= i < s.trades@.len() && is_user_trade(#[trigger] s.trades@[i])
}

/// Whether the settlement contains at least one user (Market or Limit)
/// trade; settlements without one can never be mature.
pub fn has_user_order(settlement: &Settlement) -> (r: bool)
    ensures
        r == spec_has_user_order(*settlement),
{
    let n = settlement.trades.len();
    for i in 0..n
        invariant
            n == settlement.trades@.len(),
            forall|k: int| 0 <= k < i ==> !is_user_trade(#[trigger] settlement.trades@[k]),
    {
        let t = &settlement.trades[i];
        if matches!(t.order.class, OrderClass::Market | OrderClass::Limit) {
            return true;
        }
    }
    false
}

} // verus!
